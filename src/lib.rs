//! Flashcard decks whose cards keep a dense, 1-based order, held in a
//! transactional card store behind session and ownership gates.

pub mod card;
pub mod db;
pub mod deck;
pub mod density;
pub mod game;
pub mod http;
pub mod services;

use vstd::prelude::*;

use crate::card::Card;
use crate::db::{
    card_at, compact_fits, deck_score_of, shift_fits, has_card, has_deck, in_deck, moved, owned_by, sorted_by_pos, DBApiError,
    DBManager,
};
use crate::deck::{Deck, DeckDetails};
use crate::density::{deck_size, dense};
use crate::game::CardScore;
use crate::services::since_unix_epoch;

verus! {

/// What the identity provider reports of a presented session: the account it
/// belongs to and whether it has expired.
#[derive(PartialEq, Eq, Structural, Clone, Copy, Debug)]
pub struct Session {
    pub account_id: u64,
    pub expired: bool,
}

impl Session {
    pub fn new(account_id: u64, expired: bool) -> (s: Session)
        ensures
            s.account_id == account_id,
            s.expired == expired,
    {
        Session { account_id, expired }
    }

    pub fn is_expired(&self) -> (r: bool)
        ensures
            r == self.expired,
    {
        self.expired
    }
}

/// The errors a caller of the manager sees.
#[derive(PartialEq, Eq, Structural, Clone, Copy, Debug)]
pub enum FlashError {
    /// The session is valid but its account does not own the deck.
    PermissionError,
    /// The store refused the operation.
    DBError(DBApiError),
    /// No fresh id could be had.
    OtherError,
    /// The clock could not be read.
    SystemTimeError,
    /// The session has expired.
    SessionTimeout,
}

/// Deck `deck_id` exists and belongs to account `account_id`.
pub open spec fn owns_deck(decks: Seq<Deck>, deck_id: u64, account_id: u64) -> bool {
    exists|i: int|
        0 <= i < decks.len() && #[trigger] decks[i].id == deck_id && decks[i].owner_id == account_id
}

/// Card `card_id` exists and so does its deck.
pub open spec fn card_deck_exists(cards: Seq<Card>, decks: Seq<Deck>, card_id: u64) -> bool {
    exists|i: int|
        0 <= i < cards.len() && #[trigger] cards[i].id == card_id && has_deck(decks, cards[i].deck_id)
}

/// Card `card_id` exists and its deck belongs to account `account_id`.
pub open spec fn owns_card(cards: Seq<Card>, decks: Seq<Deck>, card_id: u64, account_id: u64) -> bool {
    exists|i: int|
        0 <= i < cards.len() && #[trigger] cards[i].id == card_id && owns_deck(
            decks,
            cards[i].deck_id,
            account_id,
        )
}

/// Sequences session checks, id allocation, ownership checks and the store's
/// operations; holds no position logic of its own.
pub struct FlashManager {
    pub db_manager: DBManager,
    pub id_factory: webe_id::WebeIDFactory,
}

impl FlashManager {
    pub fn new(db_manager: DBManager, id_factory: webe_id::WebeIDFactory) -> (m: FlashManager)
        ensures
            m.db_manager == db_manager,
            m.id_factory == id_factory,
    {
        FlashManager { db_manager, id_factory }
    }

    /// A fresh id from the id generator.
    pub fn new_id(&mut self) -> (r: Result<u64, FlashError>)
        ensures
            final(self).db_manager == old(self).db_manager,
            r is Err ==> r == Err::<u64, FlashError>(FlashError::OtherError),
    {
        match self.id_factory.next() {
            Ok(id) => Ok(id),
            Err(_) => Err(FlashError::OtherError),
        }
    }

    /// The deck `deck_id`, if account `account_id` owns it.
    fn check_deck_owner(&self, account_id: u64, deck_id: u64) -> (r: Result<Deck, FlashError>)
        requires
            self.db_manager.wf(),
        ensures
            !has_deck(self.db_manager.deck_rows(), deck_id) ==> r == Err::<Deck, FlashError>(
                FlashError::DBError(DBApiError::NotFound),
            ),
            has_deck(self.db_manager.deck_rows(), deck_id) && !owns_deck(
                self.db_manager.deck_rows(),
                deck_id,
                account_id,
            ) ==> r == Err::<Deck, FlashError>(FlashError::PermissionError),
            owns_deck(self.db_manager.deck_rows(), deck_id, account_id) ==> r is Ok,
            r matches Ok(d) ==> d.id == deck_id && d.owner_id == account_id
                && self.db_manager.deck_rows().contains(d),
    {
        let ghost rows = self.db_manager.deck_rows();
        match self.db_manager.find_deck(deck_id) {
            Ok(d) => {
                let ghost k = choose|k: int| 0 <= k < rows.len() && rows[k] == d;
                assert forall|i: int| 0 <= i < rows.len() && #[trigger] rows[i].id == deck_id implies i
                    == k by {
                    if i != k {
                        assert(rows[i].id != rows[k].id);
                    }
                }
                if d.owner_id != account_id {
                    Err(FlashError::PermissionError)
                } else {
                    Ok(d)
                }
            },
            Err(e) => Err(FlashError::DBError(e)),
        }
    }

    /// The card `card_id`, if account `account_id` owns its deck.
    fn check_card_owner(&self, account_id: u64, card_id: u64) -> (r: Result<Card, FlashError>)
        requires
            self.db_manager.wf(),
        ensures
            !has_card(self.db_manager.card_rows(), card_id) ==> r == Err::<Card, FlashError>(
                FlashError::DBError(DBApiError::NotFound),
            ),
            has_card(self.db_manager.card_rows(), card_id) && !card_deck_exists(
                self.db_manager.card_rows(),
                self.db_manager.deck_rows(),
                card_id,
            ) ==> r == Err::<Card, FlashError>(FlashError::DBError(DBApiError::NotFound)),
            card_deck_exists(self.db_manager.card_rows(), self.db_manager.deck_rows(), card_id)
                && !owns_card(
                self.db_manager.card_rows(),
                self.db_manager.deck_rows(),
                card_id,
                account_id,
            ) ==> r == Err::<Card, FlashError>(FlashError::PermissionError),
            owns_card(self.db_manager.card_rows(), self.db_manager.deck_rows(), card_id, account_id)
                ==> r is Ok,
            r matches Ok(c) ==> c.id == card_id && self.db_manager.card_rows().contains(c)
                && owns_deck(self.db_manager.deck_rows(), c.deck_id, account_id),
    {
        let ghost rows = self.db_manager.card_rows();
        let c = match self.db_manager.find_card(card_id) {
            Ok(c) => c,
            Err(e) => return Err(FlashError::DBError(e)),
        };
        let ghost k = choose|k: int| 0 <= k < rows.len() && rows[k] == c;
        assert forall|i: int| 0 <= i < rows.len() && #[trigger] rows[i].id == card_id implies i == k by {
            if i != k {
                assert(rows[i].id != rows[k].id);
            }
        }
        match self.check_deck_owner(account_id, c.deck_id) {
            Ok(_) => Ok(c),
            Err(e) => Err(e),
        }
    }

    /// The current time in seconds since the Unix epoch, cut to 32 bits.
    fn now_seconds() -> (r: Result<u32, FlashError>)
        ensures
            r is Err ==> r == Err::<u32, FlashError>(FlashError::SystemTimeError),
    {
        let now = std::time::SystemTime::now();
        match since_unix_epoch(&now) {
            Ok(span) => Ok(span.as_secs() as u32),
            Err(_) => Err(FlashError::SystemTimeError),
        }
    }

    /// The deck `deck_id`, whoever owns it.
    pub fn get_deck_info(&self, session: &Session, deck_id: &u64) -> (r: Result<Deck, FlashError>)
        requires
            self.db_manager.wf(),
        ensures
            session.expired ==> r == Err::<Deck, FlashError>(FlashError::SessionTimeout),
            !session.expired && !has_deck(self.db_manager.deck_rows(), *deck_id) ==> r == Err::<
                Deck,
                FlashError,
            >(FlashError::DBError(DBApiError::NotFound)),
            !session.expired && has_deck(self.db_manager.deck_rows(), *deck_id) ==> r is Ok,
            r matches Ok(d) ==> d.id == *deck_id && self.db_manager.deck_rows().contains(d),
    {
        if session.is_expired() {
            return Err(FlashError::SessionTimeout);
        }
        match self.db_manager.find_deck(*deck_id) {
            Ok(d) => Ok(d),
            Err(e) => Err(FlashError::DBError(e)),
        }
    }

    /// Creates a deck named `name` owned by the session's account, under a
    /// fresh id and the current time.
    pub fn create_deck(&mut self, session: &Session, name: String) -> (r: Result<Deck, FlashError>)
        requires
            old(self).db_manager.wf(),
        ensures
            final(self).db_manager.wf(),
            session.expired ==> r == Err::<Deck, FlashError>(FlashError::SessionTimeout)
                && final(self).id_factory == old(self).id_factory,
            r is Err ==> final(self).db_manager.same_rows(&old(self).db_manager),
            r matches Err(e) ==> e == FlashError::SessionTimeout || e == FlashError::OtherError || e
                == FlashError::SystemTimeError || e == FlashError::DBError(DBApiError::OtherError),
            r matches Err(e) && e == FlashError::SessionTimeout ==> session.expired,
            r matches Ok(d) ==> !has_deck(old(self).db_manager.deck_rows(), d.id),
            r matches Ok(d) ==> d.owner_id == session.account_id && d.name == name
                && final(self).db_manager.deck_rows() == old(self).db_manager.deck_rows().push(d)
                && final(self).db_manager.card_rows() == old(self).db_manager.card_rows()
                && final(self).db_manager.score_rows() == old(self).db_manager.score_rows(),
    {
        if session.is_expired() {
            return Err(FlashError::SessionTimeout);
        }
        let id = self.new_id()?;
        let now = Self::now_seconds()?;
        let deck = Deck::new(id, session.account_id, name, now);
        let stored = deck.clone_deck();
        match self.db_manager.insert_deck(stored) {
            Ok(()) => Ok(deck),
            Err(e) => Err(FlashError::DBError(e)),
        }
    }

    /// Renames deck `deck_id`, which the session's account must own.
    pub fn rename_deck(&mut self, session: &Session, deck_id: u64, name: &str) -> (r: Result<
        (),
        FlashError,
    >)
        requires
            old(self).db_manager.wf(),
        ensures
            final(self).db_manager.wf(),
            final(self).id_factory == old(self).id_factory,
            session.expired ==> r == Err::<(), FlashError>(FlashError::SessionTimeout),
            !session.expired && !has_deck(old(self).db_manager.deck_rows(), deck_id) ==> r == Err::<
                (),
                FlashError,
            >(FlashError::DBError(DBApiError::NotFound)),
            !session.expired && has_deck(old(self).db_manager.deck_rows(), deck_id) && !owns_deck(
                old(self).db_manager.deck_rows(),
                deck_id,
                session.account_id,
            ) ==> r == Err::<(), FlashError>(FlashError::PermissionError),
            !session.expired && owns_deck(old(self).db_manager.deck_rows(), deck_id, session.account_id)
                ==> r is Ok,
            r is Err ==> final(self).db_manager.same_rows(&old(self).db_manager),
            r is Ok ==> final(self).db_manager.card_rows() == old(self).db_manager.card_rows()
                && final(self).db_manager.score_rows() == old(self).db_manager.score_rows(),
            r is Ok ==> forall|i: int|
                0 <= i < old(self).db_manager.deck_rows().len()
                    && #[trigger] old(self).db_manager.deck_rows()[i].id == deck_id
                    ==> final(self).db_manager.deck_rows() == old(self).db_manager.deck_rows().update(
                    i,
                    Deck { name: final(self).db_manager.deck_rows()[i].name, ..old(self).db_manager.deck_rows()[i] },
                ) && final(self).db_manager.deck_rows()[i].name@ == name@,
    {
        if session.is_expired() {
            return Err(FlashError::SessionTimeout);
        }
        let mut updated = self.check_deck_owner(session.account_id, deck_id)?;
        updated.rename(name);
        match self.db_manager.update_deck(updated) {
            Ok(()) => {
                assert(has_deck(old(self).db_manager.deck_rows(), deck_id));
                Ok(())
            },
            Err(e) => Err(FlashError::DBError(e)),
        }
    }

    /// Deletes deck `deck_id` and its cards; the session's account must own it.
    pub fn delete_deck(&mut self, session: &Session, deck_id: u64) -> (r: Result<(), FlashError>)
        requires
            old(self).db_manager.wf(),
        ensures
            final(self).db_manager.wf(),
            final(self).id_factory == old(self).id_factory,
            session.expired ==> r == Err::<(), FlashError>(FlashError::SessionTimeout),
            !session.expired && !has_deck(old(self).db_manager.deck_rows(), deck_id) ==> r == Err::<
                (),
                FlashError,
            >(FlashError::DBError(DBApiError::NotFound)),
            !session.expired && has_deck(old(self).db_manager.deck_rows(), deck_id) && !owns_deck(
                old(self).db_manager.deck_rows(),
                deck_id,
                session.account_id,
            ) ==> r == Err::<(), FlashError>(FlashError::PermissionError),
            !session.expired && owns_deck(old(self).db_manager.deck_rows(), deck_id, session.account_id)
                ==> r is Ok,
            r is Err ==> final(self).db_manager.same_rows(&old(self).db_manager),
            r is Ok ==> final(self).db_manager.score_rows() == old(self).db_manager.score_rows()
                && final(self).db_manager.card_rows() == old(self).db_manager.card_rows().filter(
                crate::db::not_in_deck(deck_id),
            ),
            r is Ok ==> forall|i: int|
                0 <= i < old(self).db_manager.deck_rows().len()
                    && #[trigger] old(self).db_manager.deck_rows()[i].id == deck_id
                    ==> final(self).db_manager.deck_rows() == old(self).db_manager.deck_rows().remove(i),
            old(self).db_manager.all_dense() ==> final(self).db_manager.all_dense(),
    {
        if session.is_expired() {
            return Err(FlashError::SessionTimeout);
        }
        let _existing = self.check_deck_owner(session.account_id, deck_id)?;
        match self.db_manager.delete_deck(deck_id) {
            Ok(()) => Ok(()),
            Err(e) => Err(FlashError::DBError(e)),
        }
    }

    /// Creates a card of deck `deck_id` at `deck_pos`, under a fresh id and
    /// the current time; the session's account must own the deck.
    pub fn create_card(
        &mut self,
        session: &Session,
        deck_id: u64,
        deck_pos: u16,
        question: String,
        answer: String,
    ) -> (r: Result<Card, FlashError>)
        requires
            old(self).db_manager.wf(),
        ensures
            final(self).db_manager.wf(),
            session.expired ==> r == Err::<Card, FlashError>(FlashError::SessionTimeout)
                && final(self).id_factory == old(self).id_factory,
            !session.expired && !has_deck(old(self).db_manager.deck_rows(), deck_id) ==> r == Err::<
                Card,
                FlashError,
            >(FlashError::DBError(DBApiError::NotFound)),
            !session.expired && has_deck(old(self).db_manager.deck_rows(), deck_id) && !owns_deck(
                old(self).db_manager.deck_rows(),
                deck_id,
                session.account_id,
            ) ==> r == Err::<Card, FlashError>(FlashError::PermissionError),
            !session.expired && owns_deck(old(self).db_manager.deck_rows(), deck_id, session.account_id)
                && deck_pos == 0 ==> r == Err::<Card, FlashError>(
                FlashError::DBError(DBApiError::NotAllowed),
            ) && final(self).id_factory == old(self).id_factory,
            !session.expired && owns_deck(old(self).db_manager.deck_rows(), deck_id, session.account_id)
                ==> (r matches Err(e) ==> e == FlashError::OtherError || e == FlashError::SystemTimeError
                || e == FlashError::DBError(DBApiError::NotAllowed) || e == FlashError::DBError(
                DBApiError::OtherError,
            )),
            r == Err::<Card, FlashError>(FlashError::DBError(DBApiError::NotAllowed)) ==> deck_pos
                == 0,
            r is Err ==> final(self).db_manager.same_rows(&old(self).db_manager),
            r matches Ok(c) ==> !has_card(old(self).db_manager.card_rows(), c.id),
            r matches Ok(c) ==> c.deck_id == deck_id && c.deck_pos == deck_pos && c.question
                == question && c.answer == answer && deck_pos != 0
                && final(self).db_manager.card_rows() == old(self).db_manager.card_rows().push(c)
                && final(self).db_manager.deck_rows() == old(self).db_manager.deck_rows()
                && final(self).db_manager.score_rows() == old(self).db_manager.score_rows(),
            old(self).db_manager.all_dense() && deck_pos == deck_size(
                old(self).db_manager.card_rows(),
                deck_id,
            ) + 1 ==> final(self).db_manager.all_dense(),
    {
        if session.is_expired() {
            return Err(FlashError::SessionTimeout);
        }
        let _deck = self.check_deck_owner(session.account_id, deck_id)?;
        // position 0 is reserved for a card being moved
        if deck_pos == 0 {
            return Err(FlashError::DBError(DBApiError::NotAllowed));
        }
        let id = self.new_id()?;
        let now = Self::now_seconds()?;
        let card = Card::new(id, deck_id, deck_pos, question, answer, now);
        let stored = card.clone_card();
        match self.db_manager.insert_card(stored) {
            Ok(()) => Ok(card),
            Err(e) => Err(FlashError::DBError(e)),
        }
    }

    /// The card `card_id`; the session's account must own its deck.
    pub fn get_card(&self, session: &Session, card_id: u64) -> (r: Result<Card, FlashError>)
        requires
            self.db_manager.wf(),
        ensures
            session.expired ==> r == Err::<Card, FlashError>(FlashError::SessionTimeout),
            !session.expired && !card_deck_exists(
                self.db_manager.card_rows(),
                self.db_manager.deck_rows(),
                card_id,
            ) ==> r == Err::<Card, FlashError>(FlashError::DBError(DBApiError::NotFound)),
            !session.expired && card_deck_exists(
                self.db_manager.card_rows(),
                self.db_manager.deck_rows(),
                card_id,
            ) && !owns_card(
                self.db_manager.card_rows(),
                self.db_manager.deck_rows(),
                card_id,
                session.account_id,
            ) ==> r == Err::<Card, FlashError>(FlashError::PermissionError),
            !session.expired && owns_card(
                self.db_manager.card_rows(),
                self.db_manager.deck_rows(),
                card_id,
                session.account_id,
            ) ==> r is Ok,
            r matches Ok(c) ==> c.id == card_id && self.db_manager.card_rows().contains(c),
    {
        if session.is_expired() {
            return Err(FlashError::SessionTimeout);
        }
        self.check_card_owner(session.account_id, card_id)
    }

    /// Replaces the question and/or the answer of card `card_id`; the
    /// session's account must own its deck.
    pub fn update_card(
        &mut self,
        session: &Session,
        card_id: u64,
        question: Option<String>,
        answer: Option<String>,
    ) -> (r: Result<(), FlashError>)
        requires
            old(self).db_manager.wf(),
        ensures
            final(self).db_manager.wf(),
            final(self).id_factory == old(self).id_factory,
            session.expired ==> r == Err::<(), FlashError>(FlashError::SessionTimeout),
            !session.expired && !card_deck_exists(
                old(self).db_manager.card_rows(),
                old(self).db_manager.deck_rows(),
                card_id,
            ) ==> r == Err::<(), FlashError>(FlashError::DBError(DBApiError::NotFound)),
            !session.expired && card_deck_exists(
                old(self).db_manager.card_rows(),
                old(self).db_manager.deck_rows(),
                card_id,
            ) && !owns_card(
                old(self).db_manager.card_rows(),
                old(self).db_manager.deck_rows(),
                card_id,
                session.account_id,
            ) ==> r == Err::<(), FlashError>(FlashError::PermissionError),
            !session.expired && owns_card(
                old(self).db_manager.card_rows(),
                old(self).db_manager.deck_rows(),
                card_id,
                session.account_id,
            ) ==> r is Ok,
            r is Err ==> final(self).db_manager.same_rows(&old(self).db_manager),
            r is Ok ==> final(self).db_manager.deck_rows() == old(self).db_manager.deck_rows()
                && final(self).db_manager.score_rows() == old(self).db_manager.score_rows(),
            r is Ok ==> forall|i: int|
                0 <= i < old(self).db_manager.card_rows().len()
                    && #[trigger] old(self).db_manager.card_rows()[i].id == card_id
                    ==> final(self).db_manager.card_rows() == old(self).db_manager.card_rows().update(
                    i,
                    Card {
                        question: match question {
                            Some(q) => q,
                            None => old(self).db_manager.card_rows()[i].question,
                        },
                        answer: match answer {
                            Some(a) => a,
                            None => old(self).db_manager.card_rows()[i].answer,
                        },
                        ..old(self).db_manager.card_rows()[i]
                    },
                ),
            old(self).db_manager.all_dense() ==> final(self).db_manager.all_dense(),
    {
        if session.is_expired() {
            return Err(FlashError::SessionTimeout);
        }
        let mut updated = self.check_card_owner(session.account_id, card_id)?;
        let ghost existing = updated;
        if let Some(question) = question {
            updated.update_question(question);
        }
        if let Some(answer) = answer {
            updated.update_answer(answer);
        }
        proof {
            let rows = old(self).db_manager.card_rows();
            let k = choose|k: int| 0 <= k < rows.len() && rows[k] == existing;
            assert forall|i: int| 0 <= i < rows.len() && #[trigger] rows[i].id == card_id implies i
                == k && rows[i].deck_id == updated.deck_id && rows[i].deck_pos == updated.deck_pos by {
                if i != k {
                    assert(rows[i].id != rows[k].id);
                }
            }
        }
        match self.db_manager.update_card(updated) {
            Ok(()) => Ok(()),
            Err(e) => Err(FlashError::DBError(e)),
        }
    }

    /// Moves card `card_id` of deck `deck_id` from `orig_pos` to `new_pos`;
    /// the session's account must own the deck.
    pub fn update_card_position(
        &mut self,
        session: &Session,
        deck_id: u64,
        card_id: u64,
        orig_pos: u16,
        new_pos: u16,
    ) -> (r: Result<(), FlashError>)
        requires
            old(self).db_manager.wf(),
        ensures
            final(self).db_manager.wf(),
            final(self).id_factory == old(self).id_factory,
            final(self).db_manager.deck_rows() == old(self).db_manager.deck_rows(),
            final(self).db_manager.score_rows() == old(self).db_manager.score_rows(),
            session.expired ==> r == Err::<(), FlashError>(FlashError::SessionTimeout),
            !session.expired && !has_deck(old(self).db_manager.deck_rows(), deck_id) ==> r == Err::<
                (),
                FlashError,
            >(FlashError::DBError(DBApiError::NotFound)),
            !session.expired && has_deck(old(self).db_manager.deck_rows(), deck_id) && !owns_deck(
                old(self).db_manager.deck_rows(),
                deck_id,
                session.account_id,
            ) ==> r == Err::<(), FlashError>(FlashError::PermissionError),
            !session.expired && owns_deck(old(self).db_manager.deck_rows(), deck_id, session.account_id)
                ==> {
                &&& new_pos == 0 ==> r == Err::<(), FlashError>(
                    FlashError::DBError(DBApiError::NotAllowed),
                )
                &&& new_pos != 0 && new_pos == orig_pos ==> r is Ok
                &&& new_pos != 0 && new_pos != orig_pos && !card_at(
                    old(self).db_manager.card_rows(),
                    deck_id,
                    card_id,
                    orig_pos as int,
                ) ==> r == Err::<(), FlashError>(FlashError::DBError(DBApiError::NotFound))
                &&& new_pos != 0 && new_pos != orig_pos && card_at(
                    old(self).db_manager.card_rows(),
                    deck_id,
                    card_id,
                    orig_pos as int,
                ) ==> (r is Ok <==> shift_fits(
                    old(self).db_manager.card_rows(),
                    deck_id,
                    card_id,
                    orig_pos as int,
                    new_pos as int,
                ))
                &&& r matches Err(e) ==> e == FlashError::DBError(DBApiError::NotAllowed) || e
                    == FlashError::DBError(DBApiError::NotFound) || e == FlashError::DBError(
                    DBApiError::OtherError,
                )
                &&& dense(old(self).db_manager.card_rows(), deck_id) && card_at(
                    old(self).db_manager.card_rows(),
                    deck_id,
                    card_id,
                    orig_pos as int,
                ) && 1 <= new_pos <= deck_size(old(self).db_manager.card_rows(), deck_id) ==> r is Ok
            },
            r is Err || new_pos == orig_pos ==> final(self).db_manager.card_rows() == old(
                self,
            ).db_manager.card_rows(),
            r is Ok && new_pos != orig_pos ==> final(self).db_manager.card_rows() == moved(
                old(self).db_manager.card_rows(),
                deck_id,
                card_id,
                orig_pos as int,
                new_pos as int,
            ),
            old(self).db_manager.all_dense() && new_pos <= deck_size(
                old(self).db_manager.card_rows(),
                deck_id,
            ) ==> final(self).db_manager.all_dense(),
    {
        if session.is_expired() {
            return Err(FlashError::SessionTimeout);
        }
        let _deck = self.check_deck_owner(session.account_id, deck_id)?;
        match self.db_manager.update_position(deck_id, card_id, orig_pos, new_pos) {
            Ok(()) => Ok(()),
            Err(e) => Err(FlashError::DBError(e)),
        }
    }

    /// Deletes card `card_id` and closes the gap it leaves in its deck; the
    /// session's account must own the deck.
    pub fn delete_card(&mut self, session: &Session, card_id: u64) -> (r: Result<(), FlashError>)
        requires
            old(self).db_manager.wf(),
        ensures
            final(self).db_manager.wf(),
            final(self).id_factory == old(self).id_factory,
            final(self).db_manager.deck_rows() == old(self).db_manager.deck_rows(),
            final(self).db_manager.score_rows() == old(self).db_manager.score_rows(),
            session.expired ==> r == Err::<(), FlashError>(FlashError::SessionTimeout),
            !session.expired && !card_deck_exists(
                old(self).db_manager.card_rows(),
                old(self).db_manager.deck_rows(),
                card_id,
            ) ==> r == Err::<(), FlashError>(FlashError::DBError(DBApiError::NotFound)),
            !session.expired && card_deck_exists(
                old(self).db_manager.card_rows(),
                old(self).db_manager.deck_rows(),
                card_id,
            ) && !owns_card(
                old(self).db_manager.card_rows(),
                old(self).db_manager.deck_rows(),
                card_id,
                session.account_id,
            ) ==> r == Err::<(), FlashError>(FlashError::PermissionError),
            !session.expired && owns_card(
                old(self).db_manager.card_rows(),
                old(self).db_manager.deck_rows(),
                card_id,
                session.account_id,
            ) ==> forall|i: int|
                0 <= i < old(self).db_manager.card_rows().len()
                    && #[trigger] old(self).db_manager.card_rows()[i].id == card_id ==> {
                    let rest = old(self).db_manager.card_rows().remove(i);
                    let c = old(self).db_manager.card_rows()[i];
                    &&& compact_fits(rest, c.deck_id, c.deck_pos as int) ==> r is Ok
                    &&& !compact_fits(rest, c.deck_id, c.deck_pos as int) ==> r == Err::<
                        (),
                        FlashError,
                    >(FlashError::DBError(DBApiError::OtherError))
                },
            r is Err ==> final(self).db_manager.card_rows() == old(self).db_manager.card_rows(),
            r is Ok ==> forall|i: int|
                0 <= i < old(self).db_manager.card_rows().len()
                    && #[trigger] old(self).db_manager.card_rows()[i].id == card_id
                    ==> final(self).db_manager.card_rows() == crate::db::compacted(
                    old(self).db_manager.card_rows().remove(i),
                    old(self).db_manager.card_rows()[i].deck_id,
                    old(self).db_manager.card_rows()[i].deck_pos as int,
                ),
            old(self).db_manager.all_dense() ==> final(self).db_manager.all_dense(),
    {
        if session.is_expired() {
            return Err(FlashError::SessionTimeout);
        }
        let _card = self.check_card_owner(session.account_id, card_id)?;
        match self.db_manager.delete_card(card_id) {
            Ok(()) => Ok(()),
            Err(e) => Err(FlashError::DBError(e)),
        }
    }

    /// The decks that the session's account owns.
    pub fn get_decks_for_session(&self, session: &Session) -> (r: Result<Vec<Deck>, FlashError>)
        ensures
            session.expired ==> r == Err::<Vec<Deck>, FlashError>(FlashError::SessionTimeout),
            !session.expired ==> (r matches Ok(v) && v@ == self.db_manager.deck_rows().filter(
                owned_by(session.account_id),
            )),
    {
        if session.is_expired() {
            return Err(FlashError::SessionTimeout);
        }
        Ok(self.db_manager.find_decks_for_owner(session.account_id))
    }

    /// Deck `deck_id` with its cards in position order; the session's
    /// account must own it.
    pub fn get_deck_details(&self, session: &Session, deck_id: &u64) -> (r: Result<
        DeckDetails,
        FlashError,
    >)
        requires
            self.db_manager.wf(),
        ensures
            session.expired ==> r == Err::<DeckDetails, FlashError>(FlashError::SessionTimeout),
            !session.expired && !has_deck(self.db_manager.deck_rows(), *deck_id) ==> r == Err::<
                DeckDetails,
                FlashError,
            >(FlashError::DBError(DBApiError::NotFound)),
            !session.expired && has_deck(self.db_manager.deck_rows(), *deck_id) && !owns_deck(
                self.db_manager.deck_rows(),
                *deck_id,
                session.account_id,
            ) ==> r == Err::<DeckDetails, FlashError>(FlashError::PermissionError),
            !session.expired && owns_deck(self.db_manager.deck_rows(), *deck_id, session.account_id)
                ==> r is Ok,
            r matches Ok(details) ==> details.info.id == *deck_id
                && self.db_manager.deck_rows().contains(details.info) && sorted_by_pos(
                details.cards@,
            ) && details.cards@.to_multiset() == self.db_manager.card_rows().filter(
                in_deck(*deck_id),
            ).to_multiset(),
    {
        if session.is_expired() {
            return Err(FlashError::SessionTimeout);
        }
        let info = self.check_deck_owner(session.account_id, *deck_id)?;
        let cards = self.db_manager.find_cards_for_deck(*deck_id);
        Ok(DeckDetails { info, cards })
    }

    /// The cards of deck `deck_id` in position order; the session's account
    /// must own the deck.
    pub fn get_cards_for_deck(&self, session: &Session, deck_id: &u64) -> (r: Result<
        Vec<Card>,
        FlashError,
    >)
        requires
            self.db_manager.wf(),
        ensures
            session.expired ==> r == Err::<Vec<Card>, FlashError>(FlashError::SessionTimeout),
            !session.expired && !has_deck(self.db_manager.deck_rows(), *deck_id) ==> r == Err::<
                Vec<Card>,
                FlashError,
            >(FlashError::DBError(DBApiError::NotFound)),
            !session.expired && has_deck(self.db_manager.deck_rows(), *deck_id) && !owns_deck(
                self.db_manager.deck_rows(),
                *deck_id,
                session.account_id,
            ) ==> r == Err::<Vec<Card>, FlashError>(FlashError::PermissionError),
            !session.expired && owns_deck(self.db_manager.deck_rows(), *deck_id, session.account_id)
                ==> r is Ok,
            r matches Ok(v) ==> sorted_by_pos(v@) && v@.to_multiset()
                == self.db_manager.card_rows().filter(in_deck(*deck_id)).to_multiset(),
    {
        if session.is_expired() {
            return Err(FlashError::SessionTimeout);
        }
        let _deck = self.check_deck_owner(session.account_id, *deck_id)?;
        Ok(self.db_manager.find_cards_for_deck(*deck_id))
    }

    /// Records `score` as the session's account's score for card `card_id`;
    /// the account must own the card's deck.
    pub fn update_score(&mut self, session: &Session, card_id: u64, score: u8) -> (r: Result<
        (),
        FlashError,
    >)
        requires
            old(self).db_manager.wf(),
        ensures
            final(self).db_manager.wf(),
            final(self).id_factory == old(self).id_factory,
            final(self).db_manager.card_rows() == old(self).db_manager.card_rows(),
            final(self).db_manager.deck_rows() == old(self).db_manager.deck_rows(),
            session.expired ==> r == Err::<(), FlashError>(FlashError::SessionTimeout),
            !session.expired && !card_deck_exists(
                old(self).db_manager.card_rows(),
                old(self).db_manager.deck_rows(),
                card_id,
            ) ==> r == Err::<(), FlashError>(FlashError::DBError(DBApiError::NotFound)),
            !session.expired && card_deck_exists(
                old(self).db_manager.card_rows(),
                old(self).db_manager.deck_rows(),
                card_id,
            ) && !owns_card(
                old(self).db_manager.card_rows(),
                old(self).db_manager.deck_rows(),
                card_id,
                session.account_id,
            ) ==> r == Err::<(), FlashError>(FlashError::PermissionError),
            !session.expired && owns_card(
                old(self).db_manager.card_rows(),
                old(self).db_manager.deck_rows(),
                card_id,
                session.account_id,
            ) ==> r is Ok,
            r is Err ==> final(self).db_manager.score_rows() == old(self).db_manager.score_rows(),
            r is Ok ==> {
                let s = CardScore { account_id: session.account_id, card_id, score };
                &&& forall|i: int|
                    0 <= i < old(self).db_manager.score_rows().len() && crate::db::same_key(
                        #[trigger] old(self).db_manager.score_rows()[i],
                        s,
                    ) ==> final(self).db_manager.score_rows() == old(
                        self,
                    ).db_manager.score_rows().update(i, s)
                &&& (forall|i: int|
                    0 <= i < old(self).db_manager.score_rows().len() ==> !crate::db::same_key(
                        #[trigger] old(self).db_manager.score_rows()[i],
                        s,
                    )) ==> final(self).db_manager.score_rows() == old(
                    self,
                ).db_manager.score_rows().push(s)
            },
    {
        if session.is_expired() {
            return Err(FlashError::SessionTimeout);
        }
        let card_score = CardScore::new(session.account_id, card_id, score);
        let _card = self.check_card_owner(session.account_id, card_id)?;
        match self.db_manager.update_score(card_score) {
            Ok(()) => Ok(()),
            Err(e) => Err(FlashError::DBError(e)),
        }
    }

    /// The session's account's scores for the cards of deck `deck_id`; the
    /// account must own the deck.
    pub fn get_deck_scores(&self, session: &Session, deck_id: u64) -> (r: Result<
        Vec<CardScore>,
        FlashError,
    >)
        requires
            self.db_manager.wf(),
        ensures
            session.expired ==> r == Err::<Vec<CardScore>, FlashError>(FlashError::SessionTimeout),
            !session.expired && !has_deck(self.db_manager.deck_rows(), deck_id) ==> r == Err::<
                Vec<CardScore>,
                FlashError,
            >(FlashError::DBError(DBApiError::NotFound)),
            !session.expired && has_deck(self.db_manager.deck_rows(), deck_id) && !owns_deck(
                self.db_manager.deck_rows(),
                deck_id,
                session.account_id,
            ) ==> r == Err::<Vec<CardScore>, FlashError>(FlashError::PermissionError),
            !session.expired && owns_deck(self.db_manager.deck_rows(), deck_id, session.account_id)
                ==> (r matches Ok(v) && v@ == self.db_manager.score_rows().filter(
                deck_score_of(self.db_manager.card_rows(), deck_id, session.account_id),
            )),
    {
        if session.is_expired() {
            return Err(FlashError::SessionTimeout);
        }
        let _deck = self.check_deck_owner(session.account_id, deck_id)?;
        Ok(self.db_manager.get_deck_scores(deck_id, session.account_id))
    }
}

} // verus!

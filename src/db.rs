use vstd::prelude::*;

use crate::card::Card;
use crate::deck::Deck;
use crate::density::{
    deck_size, dense, lemma_deck_size_same_decks, lemma_delete_keeps_dense, lemma_insert_keeps_dense, lemma_move_keeps_dense,
};
use crate::game::CardScore;

verus! {

/// Why a store operation was refused. Every refused operation leaves the
/// store exactly as it was.
#[derive(PartialEq, Eq, Structural, Clone, Copy, Debug)]
pub enum DBApiError {
    /// The store could not apply the change (a duplicate key, a position
    /// that leaves the range of `u16`).
    OtherError,
    /// The caller asked to place a card at the reserved position 0.
    NotAllowed,
    /// The targeted row is absent, or a card is not where the caller believes.
    NotFound,
}

/// `c` with its position replaced by `p`, everything else kept.
pub open spec fn with_pos(c: Card, p: int) -> Card {
    Card { deck_pos: p as u16, ..c }
}

/// `a` and `b` are the same row but for the position.
pub open spec fn same_but_pos(a: Card, b: Card) -> bool {
    a == with_pos(b, a.deck_pos as int)
}

/// Position of `c` once the card `card_id` has been evacuated to 0.
pub open spec fn evacuated_pos(c: Card, card_id: u64) -> int {
    if c.id == card_id { 0 } else { c.deck_pos as int }
}

/// Position of `c` after the evacuation and the shift of a move of `card_id`
/// in `deck_id` from `orig` to `new`: moving earlier pushes the rows of the
/// deck in `[new, orig]` up by one, moving later pulls those in `[orig, new]`
/// down by one.
pub open spec fn shifted_pos(c: Card, deck_id: u64, card_id: u64, orig: int, new: int) -> int {
    let p = evacuated_pos(c, card_id);
    if c.deck_id == deck_id && new < orig && new <= p <= orig {
        p + 1
    } else if c.deck_id == deck_id && orig < new && orig <= p <= new {
        p - 1
    } else {
        p
    }
}

/// Position of `c` once the move is complete: the moved card lands on `new`.
pub open spec fn moved_pos(c: Card, deck_id: u64, card_id: u64, orig: int, new: int) -> int {
    if c.id == card_id { new } else { shifted_pos(c, deck_id, card_id, orig, new) }
}

/// Every shifted position stays within the range of `u16`.
pub open spec fn shift_fits(cards: Seq<Card>, deck_id: u64, card_id: u64, orig: int, new: int) -> bool {
    forall|i: int|
        0 <= i < cards.len() ==> 0 <= #[trigger] shifted_pos(cards[i], deck_id, card_id, orig, new)
            <= u16::MAX
}

/// Some row is the card `card_id` of deck `deck_id`, at position `pos`.
pub open spec fn card_at(cards: Seq<Card>, deck_id: u64, card_id: u64, pos: int) -> bool {
    exists|i: int|
        0 <= i < cards.len() && #[trigger] cards[i].id == card_id && cards[i].deck_id == deck_id
            && cards[i].deck_pos == pos
}

/// The rows after a successful move.
pub open spec fn moved(cards: Seq<Card>, deck_id: u64, card_id: u64, orig: int, new: int) -> Seq<
    Card,
> {
    cards.map_values(|c: Card| with_pos(c, moved_pos(c, deck_id, card_id, orig, new)))
}

/// No two rows share a card id.
pub open spec fn ids_unique(cards: Seq<Card>) -> bool {
    forall|i: int, j: int|
        0 <= i < cards.len() && 0 <= j < cards.len() && i != j ==> #[trigger] cards[i].id
            != #[trigger] cards[j].id
}

/// Some row is the card `card_id`.
pub open spec fn has_card(cards: Seq<Card>, card_id: u64) -> bool {
    exists|i: int| 0 <= i < cards.len() && #[trigger] cards[i].id == card_id
}

/// Position of `c` after the card at `pos` in deck `deck_id` was deleted:
/// the cards of that deck at `pos` or later move one place down.
pub open spec fn compact_pos(c: Card, deck_id: u64, pos: int) -> int {
    if c.deck_id == deck_id && c.deck_pos >= pos {
        c.deck_pos - 1
    } else {
        c.deck_pos as int
    }
}

/// The compaction keeps every position within `u16`.
pub open spec fn compact_fits(cards: Seq<Card>, deck_id: u64, pos: int) -> bool {
    forall|i: int| 0 <= i < cards.len() ==> 0 <= #[trigger] compact_pos(cards[i], deck_id, pos)
}

/// The rows after the compaction that follows a delete.
pub open spec fn compacted(cards: Seq<Card>, deck_id: u64, pos: int) -> Seq<Card> {
    cards.map_values(|c: Card| with_pos(c, compact_pos(c, deck_id, pos)))
}

/// No two deck rows share an id.
pub open spec fn deck_ids_unique(decks: Seq<Deck>) -> bool {
    forall|i: int, j: int|
        0 <= i < decks.len() && 0 <= j < decks.len() && i != j ==> #[trigger] decks[i].id
            != #[trigger] decks[j].id
}

/// Some row is the deck `deck_id`.
pub open spec fn has_deck(decks: Seq<Deck>, deck_id: u64) -> bool {
    exists|i: int| 0 <= i < decks.len() && #[trigger] decks[i].id == deck_id
}

/// No two score rows share an (account, card) key.
pub open spec fn score_keys_unique(scores: Seq<CardScore>) -> bool {
    forall|i: int, j: int|
        0 <= i < scores.len() && 0 <= j < scores.len() && i != j ==> !same_key(
            #[trigger] scores[i],
            #[trigger] scores[j],
        )
}

/// The two scores have the same (account, card) key.
pub open spec fn same_key(a: CardScore, b: CardScore) -> bool {
    a.account_id == b.account_id && a.card_id == b.card_id
}

/// Decks owned by account `owner`.
pub open spec fn owned_by(owner: u64) -> spec_fn(Deck) -> bool {
    |d: Deck| d.owner_id == owner
}

/// Cards of deck `deck_id`.
pub open spec fn in_deck(deck_id: u64) -> spec_fn(Card) -> bool {
    |c: Card| c.deck_id == deck_id
}

/// Cards of any deck but `deck_id`.
pub open spec fn not_in_deck(deck_id: u64) -> spec_fn(Card) -> bool {
    |c: Card| c.deck_id != deck_id
}

/// The cards are in ascending order of position.
pub open spec fn sorted_by_pos(cards: Seq<Card>) -> bool {
    forall|i: int, j: int| 0 <= i <= j < cards.len() ==> #[trigger] cards[i].deck_pos <= #[trigger] cards[j].deck_pos
}

/// Some card of deck `deck_id` is the card `card_id`.
pub open spec fn card_in_deck(cards: Seq<Card>, card_id: u64, deck_id: u64) -> bool {
    exists|i: int| 0 <= i < cards.len() && #[trigger] cards[i].id == card_id && cards[i].deck_id == deck_id
}

/// Scores that account `account_id` holds for cards of deck `deck_id`.
pub open spec fn deck_score_of(cards: Seq<Card>, deck_id: u64, account_id: u64) -> spec_fn(CardScore) -> bool {
    |s: CardScore| s.account_id == account_id && card_in_deck(cards, s.card_id, deck_id)
}

/// An in-memory transactional store of decks, cards and scores. Each
/// operation either applies all of its steps or, when it fails, none.
pub struct DBManager {
    decks: Vec<Deck>,
    cards: Vec<Card>,
    scores: Vec<CardScore>,
}

impl DBManager {
    /// The card rows, in the order the store keeps them.
    pub closed spec fn card_rows(&self) -> Seq<Card> {
        self.cards@
    }

    /// The deck rows.
    pub closed spec fn deck_rows(&self) -> Seq<Deck> {
        self.decks@
    }

    /// The score rows.
    pub closed spec fn score_rows(&self) -> Seq<CardScore> {
        self.scores@
    }

    /// The two stores hold the same rows.
    pub open spec fn same_rows(&self, other: &DBManager) -> bool {
        &&& self.card_rows() == other.card_rows()
        &&& self.deck_rows() == other.deck_rows()
        &&& self.score_rows() == other.score_rows()
    }

    /// Every deck's cards hold exactly the positions `1..=N`.
    pub open spec fn all_dense(&self) -> bool {
        forall|d: u64| #[trigger] dense(self.card_rows(), d)
    }

    /// Keys are unique in each table. `new` establishes it and every method
    /// keeps it; as the tables are private, it holds of every store.
    pub open spec fn wf(&self) -> bool {
        &&& ids_unique(self.card_rows())
        &&& deck_ids_unique(self.deck_rows())
        &&& score_keys_unique(self.score_rows())
    }

    /// An empty store.
    pub fn new() -> (m: DBManager)
        ensures
            m.wf(),
            m.card_rows().len() == 0,
            m.deck_rows().len() == 0,
            m.score_rows().len() == 0,
            m.all_dense(),
    {
        let m = DBManager { decks: Vec::new(), cards: Vec::new(), scores: Vec::new() };
        assert forall|d: u64| #[trigger] dense(m.cards@, d) by {
            assert(deck_size(m.cards@, d) == 0);
        }
        m
    }

    /// Moves card `card_id` of deck `deck_id` from `orig_pos` to `new_pos`,
    /// shifting the cards in between by one: evacuate the card to 0, shift the
    /// range, land the card.
    pub fn update_position(&mut self, deck_id: u64, card_id: u64, orig_pos: u16, new_pos: u16) -> (r:
        Result<(), DBApiError>)
        requires
            old(self).wf(),
        ensures
            final(self).wf(),
            final(self).deck_rows() == old(self).deck_rows(),
            final(self).score_rows() == old(self).score_rows(),
            new_pos == 0 ==> r == Err::<(), DBApiError>(DBApiError::NotAllowed),
            new_pos != 0 && new_pos == orig_pos ==> r is Ok,
            new_pos != 0 && new_pos != orig_pos && !card_at(
                old(self).card_rows(),
                deck_id,
                card_id,
                orig_pos as int,
            ) ==> r == Err::<(), DBApiError>(DBApiError::NotFound),
            new_pos != 0 && new_pos != orig_pos && card_at(
                old(self).card_rows(),
                deck_id,
                card_id,
                orig_pos as int,
            ) ==> (r is Ok <==> shift_fits(
                old(self).card_rows(),
                deck_id,
                card_id,
                orig_pos as int,
                new_pos as int,
            )),
            r is Err && r != Err::<(), DBApiError>(DBApiError::NotAllowed) && r != Err::<(), DBApiError>(DBApiError::NotFound)
                ==> r == Err::<(), DBApiError>(DBApiError::OtherError),
            r is Err || new_pos == orig_pos ==> final(self).card_rows() == old(self).card_rows(),
            r is Ok && new_pos != orig_pos ==> final(self).card_rows() == moved(
                old(self).card_rows(),
                deck_id,
                card_id,
                orig_pos as int,
                new_pos as int,
            ),
            dense(old(self).card_rows(), deck_id) && card_at(
                old(self).card_rows(),
                deck_id,
                card_id,
                orig_pos as int,
            ) && 1 <= new_pos <= deck_size(old(self).card_rows(), deck_id) ==> r is Ok,
            old(self).all_dense() && new_pos <= deck_size(old(self).card_rows(), deck_id)
                ==> final(self).all_dense(),
    {
        if new_pos == 0 {
            return Err(DBApiError::NotAllowed);
        }
        if new_pos == orig_pos {
            return Ok(());
        }
        let n = self.cards.len();
        // evacuate: find the row (deck_id, card_id, orig_pos)
        let mut found = false;
        let mut i: usize = 0;
        while i < n
            invariant
                n == self.cards@.len(),
                *self == *old(self),
                0 <= i <= n,
                !found ==> forall|k: int|
                    0 <= k < i ==> !(#[trigger] self.cards@[k].id == card_id && self.cards@[k].deck_id
                        == deck_id && self.cards@[k].deck_pos == orig_pos),
                found ==> card_at(self.cards@, deck_id, card_id, orig_pos as int),
            decreases n - i,
        {
            let c = &self.cards[i];
            if c.id == card_id && c.deck_id == deck_id && c.deck_pos == orig_pos {
                found = true;
            }
            i = i + 1;
        }
        if !found {
            return Err(DBApiError::NotFound);
        }
        // the shift must keep every position within u16
        let mut fits = true;
        let mut k: usize = 0;
        while k < n
            invariant
                n == self.cards@.len(),
                *self == *old(self),
                card_at(self.cards@, deck_id, card_id, orig_pos as int),
                0 <= k <= n,
                fits <==> forall|m: int|
                    0 <= m < k ==> 0 <= #[trigger] shifted_pos(
                        self.cards@[m],
                        deck_id,
                        card_id,
                        orig_pos as int,
                        new_pos as int,
                    ) <= u16::MAX,
            decreases n - k,
        {
            let c = &self.cards[k];
            let p: u16 = if c.id == card_id { 0 } else { c.deck_pos };
            let over = c.deck_id == deck_id && new_pos < orig_pos && new_pos <= p && p <= orig_pos
                && p == u16::MAX;
            let under = c.deck_id == deck_id && orig_pos < new_pos && orig_pos <= p && p <= new_pos
                && p == 0;
            assert((over || under) <==> !(0 <= shifted_pos(
                self.cards@[k as int],
                deck_id,
                card_id,
                orig_pos as int,
                new_pos as int,
            ) <= u16::MAX));
            if over || under {
                fits = false;
            }
            k = k + 1;
        }
        proof {
            if dense(self.cards@, deck_id) && new_pos as int <= deck_size(self.cards@, deck_id) {
                lemma_move_keeps_dense(self.cards@, deck_id, card_id, orig_pos as int, new_pos as int, deck_id);
            }
        }
        if !fits {
            return Err(DBApiError::OtherError);
        }
        // shift and land, row by row
        let ghost before = self.cards@;
        let mut j: usize = 0;
        while j < n
            invariant
                n == self.cards@.len(),
                n == before.len(),
                before == old(self).cards@,
                self.decks == old(self).decks,
                self.scores == old(self).scores,
                0 <= j <= n,
                shift_fits(before, deck_id, card_id, orig_pos as int, new_pos as int),
                forall|m: int|
                    0 <= m < j ==> self.cards@[m] == #[trigger] moved(
                        before,
                        deck_id,
                        card_id,
                        orig_pos as int,
                        new_pos as int,
                    )[m],
                forall|m: int| j <= m < n ==> self.cards@[m] == before[m],
            decreases n - j,
        {
            let ghost c = before[j as int];
            assert(0 <= shifted_pos(c, deck_id, card_id, orig_pos as int, new_pos as int) <= u16::MAX);
            let p: u16 = if self.cards[j].id == card_id {
                new_pos
            } else {
                let q: u16 = self.cards[j].deck_pos;
                if self.cards[j].deck_id == deck_id && new_pos < orig_pos && new_pos <= q && q
                    <= orig_pos {
                    q + 1
                } else if self.cards[j].deck_id == deck_id && orig_pos < new_pos && orig_pos <= q
                    && q <= new_pos {
                    q - 1
                } else {
                    q
                }
            };
            self.cards[j].deck_pos = p;
            j = j + 1;
        }
        assert(self.cards@ =~= moved(before, deck_id, card_id, orig_pos as int, new_pos as int));
        proof {
            if old(self).all_dense() && new_pos as int <= deck_size(before, deck_id) {
                assert forall|d: u64| #[trigger] dense(self.cards@, d) by {
                    assert(dense(before, d));
                    assert(dense(before, deck_id));
                    lemma_move_keeps_dense(before, deck_id, card_id, orig_pos as int, new_pos as int, d);
                }
            }
        }
        assert(ids_unique(self.cards@)) by {
            assert forall|a: int, b: int|
                0 <= a < n && 0 <= b < n && a != b implies #[trigger] self.cards@[a].id
                != #[trigger] self.cards@[b].id by {
                assert(self.cards@[a].id == before[a].id);
                assert(self.cards@[b].id == before[b].id);
            }
        }
        Ok(())
    }

    /// Adds a card row. Position 0 is refused, as is an id already present.
    pub fn insert_card(&mut self, card: Card) -> (r: Result<(), DBApiError>)
        requires
            old(self).wf(),
        ensures
            final(self).wf(),
            final(self).deck_rows() == old(self).deck_rows(),
            final(self).score_rows() == old(self).score_rows(),
            card.deck_pos == 0 ==> r == Err::<(), DBApiError>(DBApiError::NotAllowed),
            card.deck_pos != 0 && has_card(old(self).card_rows(), card.id) ==> r == Err::<
                (),
                DBApiError,
            >(DBApiError::OtherError),
            card.deck_pos != 0 && !has_card(old(self).card_rows(), card.id) ==> r is Ok,
            r is Err ==> final(self).card_rows() == old(self).card_rows(),
            r is Ok ==> final(self).card_rows() == old(self).card_rows().push(card),
            old(self).all_dense() && card.deck_pos == deck_size(old(self).card_rows(), card.deck_id)
                + 1 ==> final(self).all_dense(),
    {
        if card.deck_pos == 0 {
            return Err(DBApiError::NotAllowed);
        }
        match self.card_index(card.id) {
            Some(_) => Err(DBApiError::OtherError),
            None => {
                let ghost before = self.cards@;
                self.cards.push(card);
                assert(ids_unique(self.cards@)) by {
                    assert forall|a: int, b: int|
                        0 <= a < self.cards@.len() && 0 <= b < self.cards@.len() && a
                            != b implies #[trigger] self.cards@[a].id
                        != #[trigger] self.cards@[b].id by {
                        if a < before.len() && b < before.len() {
                            assert(self.cards@[a] == before[a]);
                            assert(self.cards@[b] == before[b]);
                        } else if a < before.len() {
                            assert(self.cards@[a] == before[a]);
                        } else {
                            assert(self.cards@[b] == before[b]);
                        }
                    }
                }
                proof {
                    if old(self).all_dense() && card.deck_pos as int == deck_size(before, card.deck_id) + 1 {
                        assert forall|d: u64| #[trigger] dense(self.cards@, d) by {
                            assert(dense(before, d));
                            lemma_insert_keeps_dense(before, card, d);
                        }
                    }
                }
                Ok(())
            },
        }
    }

    /// Index of the row of card `card_id`, if there is one.
    fn card_index(&self, card_id: u64) -> (r: Option<usize>)
        ensures
            r is None <==> !has_card(self.cards@, card_id),
            r matches Some(i) ==> i < self.cards@.len() && self.cards@[i as int].id == card_id,
    {
        let n = self.cards.len();
        let mut i: usize = 0;
        while i < n
            invariant
                n == self.cards@.len(),
                0 <= i <= n,
                forall|k: int| 0 <= k < i ==> #[trigger] self.cards@[k].id != card_id,
            decreases n - i,
        {
            if self.cards[i].id == card_id {
                return Some(i);
            }
            i = i + 1;
        }
        None
    }

    /// The row of card `card_id`.
    pub fn find_card(&self, card_id: u64) -> (r: Result<Card, DBApiError>)
        requires
            self.wf(),
        ensures
            !has_card(self.card_rows(), card_id) ==> r == Err::<Card, DBApiError>(
                DBApiError::NotFound,
            ),
            has_card(self.card_rows(), card_id) ==> r is Ok,
            r matches Ok(c) ==> c.id == card_id && self.card_rows().contains(c),
    {
        match self.card_index(card_id) {
            Some(i) => {
                let c = self.cards[i].clone_card();
                assert(self.cards@[i as int] == c);
                Ok(c)
            },
            None => Err(DBApiError::NotFound),
        }
    }

    /// Deletes card `card_id`, then moves every card of its deck at its former
    /// position or later one place down.
    pub fn delete_card(&mut self, card_id: u64) -> (r: Result<(), DBApiError>)
        requires
            old(self).wf(),
        ensures
            final(self).wf(),
            final(self).deck_rows() == old(self).deck_rows(),
            final(self).score_rows() == old(self).score_rows(),
            !has_card(old(self).card_rows(), card_id) ==> r == Err::<(), DBApiError>(
                DBApiError::NotFound,
            ),
            forall|i: int|
                0 <= i < old(self).card_rows().len() && #[trigger] old(self).card_rows()[i].id
                    == card_id ==> {
                    let rest = old(self).card_rows().remove(i);
                    let c = old(self).card_rows()[i];
                    &&& compact_fits(rest, c.deck_id, c.deck_pos as int) ==> r is Ok
                    &&& !compact_fits(rest, c.deck_id, c.deck_pos as int) ==> r == Err::<
                        (),
                        DBApiError,
                    >(DBApiError::OtherError)
                    &&& r is Ok ==> final(self).card_rows() == compacted(
                        rest,
                        c.deck_id,
                        c.deck_pos as int,
                    )
                },
            r is Err ==> final(self).card_rows() == old(self).card_rows(),
            old(self).all_dense() && has_card(old(self).card_rows(), card_id) ==> r is Ok,
            old(self).all_dense() ==> final(self).all_dense(),
    {
        let i = match self.card_index(card_id) {
            Some(i) => i,
            None => return Err(DBApiError::NotFound),
        };
        let deck_id = self.cards[i].deck_id;
        let pos = self.cards[i].deck_pos;
        let n = self.cards.len();
        // the compaction must not take a position below 0
        let mut fits = true;
        let mut k: usize = 0;
        while k < n
            invariant
                n == self.cards@.len(),
                *self == *old(self),
                i < n,
                deck_id == self.cards@[i as int].deck_id,
                pos == self.cards@[i as int].deck_pos,
                0 <= k <= n,
                fits <==> forall|m: int|
                    0 <= m < k && m != i ==> 0 <= #[trigger] compact_pos(
                        self.cards@[m],
                        deck_id,
                        pos as int,
                    ),
            decreases n - k,
        {
            let under = k != i && self.cards[k].deck_id == deck_id && self.cards[k].deck_pos >= pos
                && self.cards[k].deck_pos == 0;
            assert(k != i ==> (under <==> !(0 <= compact_pos(
                self.cards@[k as int],
                deck_id,
                pos as int,
            ))));
            if under {
                fits = false;
            }
            k = k + 1;
        }
        let ghost before = self.cards@;
        let ghost rest = before.remove(i as int);
        assert(fits <==> compact_fits(rest, deck_id, pos as int)) by {
            if fits {
                assert forall|m: int| 0 <= m < rest.len() implies 0 <= #[trigger] compact_pos(
                    rest[m],
                    deck_id,
                    pos as int,
                ) by {
                    if m < i {
                        assert(rest[m] == before[m]);
                    } else {
                        assert(rest[m] == before[m + 1]);
                    }
                }
            } else {
                let m = choose|m: int|
                    0 <= m < n && m != i && !(0 <= #[trigger] compact_pos(
                        before[m],
                        deck_id,
                        pos as int,
                    ));
                if m < i {
                    assert(rest[m] == before[m]);
                    assert(!(0 <= compact_pos(rest[m], deck_id, pos as int)));
                } else {
                    assert(rest[m - 1] == before[m]);
                    assert(!(0 <= compact_pos(rest[m - 1], deck_id, pos as int)));
                }
            }
        }
        proof {
            if old(self).all_dense() {
                assert(dense(before, deck_id));
                lemma_delete_keeps_dense(before, i as int, deck_id);
            }
        }
        if !fits {
            return Err(DBApiError::OtherError);
        }
        self.cards.remove(i);
        assert(self.cards@ == rest);
        let m = self.cards.len();
        let mut j: usize = 0;
        while j < m
            invariant
                m == self.cards@.len(),
                m == rest.len(),
                rest == old(self).cards@.remove(i as int),
                self.decks == old(self).decks,
                self.scores == old(self).scores,
                compact_fits(rest, deck_id, pos as int),
                0 <= j <= m,
                forall|q: int|
                    0 <= q < j ==> self.cards@[q] == #[trigger] compacted(
                        rest,
                        deck_id,
                        pos as int,
                    )[q],
                forall|q: int| j <= q < m ==> self.cards@[q] == rest[q],
            decreases m - j,
        {
            assert(0 <= compact_pos(rest[j as int], deck_id, pos as int));
            if self.cards[j].deck_id == deck_id && self.cards[j].deck_pos >= pos {
                let q: u16 = self.cards[j].deck_pos;
                self.cards[j].deck_pos = q - 1;
            }
            j = j + 1;
        }
        assert(self.cards@ =~= compacted(rest, deck_id, pos as int));
        proof {
            if old(self).all_dense() {
                assert forall|d: u64| #[trigger] dense(self.cards@, d) by {
                    assert(dense(before, d));
                    assert(dense(before, deck_id));
                    lemma_delete_keeps_dense(before, i as int, d);
                }
            }
        }
        assert(ids_unique(self.cards@)) by {
            assert forall|a: int, b: int|
                0 <= a < m && 0 <= b < m && a != b implies #[trigger] self.cards@[a].id
                != #[trigger] self.cards@[b].id by {
                assert(self.cards@[a].id == rest[a].id);
                assert(self.cards@[b].id == rest[b].id);
                let a0 = if a < i { a } else { a + 1 };
                let b0 = if b < i { b } else { b + 1 };
                assert(rest[a] == before[a0]);
                assert(rest[b] == before[b0]);
            }
        }
        proof {
            assert forall|x: int|
                0 <= x < before.len() && #[trigger] before[x].id == card_id implies x == i by {
                if x != i {
                    assert(before[x].id != before[i as int].id);
                }
            }
        }
        Ok(())
    }

    /// Index of the row of deck `deck_id`, if there is one.
    fn deck_index(&self, deck_id: u64) -> (r: Option<usize>)
        ensures
            r is None <==> !has_deck(self.decks@, deck_id),
            r matches Some(i) ==> i < self.decks@.len() && self.decks@[i as int].id == deck_id,
    {
        let n = self.decks.len();
        let mut i: usize = 0;
        while i < n
            invariant
                n == self.decks@.len(),
                0 <= i <= n,
                forall|k: int| 0 <= k < i ==> #[trigger] self.decks@[k].id != deck_id,
            decreases n - i,
        {
            if self.decks[i].id == deck_id {
                return Some(i);
            }
            i = i + 1;
        }
        None
    }

    /// Adds a deck row; an id already present is refused.
    pub fn insert_deck(&mut self, deck: Deck) -> (r: Result<(), DBApiError>)
        requires
            old(self).wf(),
        ensures
            final(self).wf(),
            final(self).card_rows() == old(self).card_rows(),
            final(self).score_rows() == old(self).score_rows(),
            has_deck(old(self).deck_rows(), deck.id) ==> r == Err::<(), DBApiError>(
                DBApiError::OtherError,
            ),
            !has_deck(old(self).deck_rows(), deck.id) ==> r is Ok,
            r is Err ==> final(self).deck_rows() == old(self).deck_rows(),
            r is Ok ==> final(self).deck_rows() == old(self).deck_rows().push(deck),
    {
        match self.deck_index(deck.id) {
            Some(_) => Err(DBApiError::OtherError),
            None => {
                let ghost before = self.decks@;
                self.decks.push(deck);
                assert(deck_ids_unique(self.decks@)) by {
                    assert forall|a: int, b: int|
                        0 <= a < self.decks@.len() && 0 <= b < self.decks@.len() && a
                            != b implies #[trigger] self.decks@[a].id
                        != #[trigger] self.decks@[b].id by {
                        if a < before.len() {
                            assert(self.decks@[a] == before[a]);
                        }
                        if b < before.len() {
                            assert(self.decks@[b] == before[b]);
                        }
                    }
                }
                Ok(())
            },
        }
    }

    /// The row of deck `deck_id`.
    pub fn find_deck(&self, deck_id: u64) -> (r: Result<Deck, DBApiError>)
        requires
            self.wf(),
        ensures
            !has_deck(self.deck_rows(), deck_id) ==> r == Err::<Deck, DBApiError>(
                DBApiError::NotFound,
            ),
            has_deck(self.deck_rows(), deck_id) ==> r is Ok,
            r matches Ok(d) ==> d.id == deck_id && self.deck_rows().contains(d),
    {
        match self.deck_index(deck_id) {
            Some(i) => {
                let d = self.decks[i].clone_deck();
                assert(self.decks@[i as int] == d);
                Ok(d)
            },
            None => Err(DBApiError::NotFound),
        }
    }

    /// The decks owned by account `owner`, in store order.
    pub fn find_decks_for_owner(&self, owner: u64) -> (r: Vec<Deck>)
        ensures
            r@ == self.deck_rows().filter(owned_by(owner)),
    {
        let n = self.decks.len();
        let mut r: Vec<Deck> = Vec::new();
        let mut i: usize = 0;
        while i < n
            invariant
                n == self.decks@.len(),
                0 <= i <= n,
                r@ == self.decks@.take(i as int).filter(owned_by(owner)),
            decreases n - i,
        {
            proof {
                assert(self.decks@.take(i + 1) == self.decks@.take(i as int).push(self.decks@[i as int]));
                self.decks@.take(i as int).lemma_filter_push(self.decks@[i as int], owned_by(owner));
            }
            if self.decks[i].owner_id == owner {
                r.push(self.decks[i].clone_deck());
            }
            i = i + 1;
        }
        assert(self.decks@.take(n as int) == self.decks@);
        r
    }

    /// Replaces the row of the deck with the id of `deck`.
    pub fn update_deck(&mut self, deck: Deck) -> (r: Result<(), DBApiError>)
        requires
            old(self).wf(),
        ensures
            final(self).wf(),
            final(self).card_rows() == old(self).card_rows(),
            final(self).score_rows() == old(self).score_rows(),
            !has_deck(old(self).deck_rows(), deck.id) ==> r == Err::<(), DBApiError>(
                DBApiError::NotFound,
            ) && final(self).deck_rows() == old(self).deck_rows(),
            has_deck(old(self).deck_rows(), deck.id) ==> r is Ok,
            forall|i: int|
                0 <= i < old(self).deck_rows().len() && #[trigger] old(self).deck_rows()[i].id
                    == deck.id ==> final(self).deck_rows() == old(self).deck_rows().update(
                    i,
                    deck,
                ),
    {
        match self.deck_index(deck.id) {
            Some(i) => {
                let ghost before = self.decks@;
                self.decks.set(i, deck);
                assert(deck_ids_unique(self.decks@)) by {
                    assert forall|a: int, b: int|
                        0 <= a < self.decks@.len() && 0 <= b < self.decks@.len() && a
                            != b implies #[trigger] self.decks@[a].id
                        != #[trigger] self.decks@[b].id by {
                        assert(self.decks@[a].id == before[a].id);
                        assert(self.decks@[b].id == before[b].id);
                    }
                }
                assert forall|x: int|
                    0 <= x < before.len() && #[trigger] before[x].id == deck.id implies x == i by {
                    if x != i {
                        assert(before[x].id != before[i as int].id);
                    }
                }
                Ok(())
            },
            None => Err(DBApiError::NotFound),
        }
    }

    /// Deletes deck `deck_id` together with all of its cards.
    pub fn delete_deck(&mut self, deck_id: u64) -> (r: Result<(), DBApiError>)
        requires
            old(self).wf(),
        ensures
            final(self).wf(),
            final(self).score_rows() == old(self).score_rows(),
            !has_deck(old(self).deck_rows(), deck_id) ==> r == Err::<(), DBApiError>(
                DBApiError::NotFound,
            ),
            has_deck(old(self).deck_rows(), deck_id) ==> r is Ok,
            r is Err ==> final(self).deck_rows() == old(self).deck_rows() && final(self).card_rows()
                == old(self).card_rows(),
            forall|i: int|
                0 <= i < old(self).deck_rows().len() && #[trigger] old(self).deck_rows()[i].id
                    == deck_id ==> final(self).deck_rows() == old(self).deck_rows().remove(i),
            r is Ok ==> final(self).card_rows() == old(self).card_rows().filter(not_in_deck(deck_id)),
            old(self).all_dense() ==> final(self).all_dense(),
    {
        let i = match self.deck_index(deck_id) {
            Some(i) => i,
            None => return Err(DBApiError::NotFound),
        };
        let ghost before = self.decks@;
        self.decks.remove(i);
        assert(deck_ids_unique(self.decks@)) by {
            assert forall|a: int, b: int|
                0 <= a < self.decks@.len() && 0 <= b < self.decks@.len() && a
                    != b implies #[trigger] self.decks@[a].id
                != #[trigger] self.decks@[b].id by {
                let a0 = if a < i { a } else { a + 1 };
                let b0 = if b < i { b } else { b + 1 };
                assert(self.decks@[a] == before[a0]);
                assert(self.decks@[b] == before[b0]);
            }
        }
        assert forall|x: int|
            0 <= x < before.len() && #[trigger] before[x].id == deck_id implies x == i by {
            if x != i {
                assert(before[x].id != before[i as int].id);
            }
        }
        self.retain_cards_not_in(deck_id);
        Ok(())
    }

    /// Drops the cards of deck `deck_id`.
    fn retain_cards_not_in(&mut self, deck_id: u64)
        requires
            old(self).wf(),
        ensures
            final(self).wf(),
            final(self).decks == old(self).decks,
            final(self).scores == old(self).scores,
            final(self).cards@ == old(self).cards@.filter(not_in_deck(deck_id)),
            old(self).all_dense() ==> final(self).all_dense(),
    {
        let n = self.cards.len();
        let mut kept: Vec<Card> = Vec::new();
        let mut i: usize = 0;
        while i < n
            invariant
                n == self.cards@.len(),
                *self == *old(self),
                0 <= i <= n,
                kept@ == self.cards@.take(i as int).filter(not_in_deck(deck_id)),
            decreases n - i,
        {
            proof {
                assert(self.cards@.take(i + 1) == self.cards@.take(i as int).push(self.cards@[i as int]));
                self.cards@.take(i as int).lemma_filter_push(self.cards@[i as int], not_in_deck(deck_id));
            }
            if self.cards[i].deck_id != deck_id {
                kept.push(self.cards[i].clone_card());
            }
            i = i + 1;
        }
        assert(self.cards@.take(n as int) == self.cards@);
        let ghost before = self.cards@;
        self.cards = kept;
        proof {
            lemma_filter_keeps_unique_dense(before, deck_id);
        }
    }

    /// Replaces the row of the card with the id of `card`.
    pub fn update_card(&mut self, card: Card) -> (r: Result<(), DBApiError>)
        requires
            old(self).wf(),
        ensures
            final(self).wf(),
            final(self).deck_rows() == old(self).deck_rows(),
            final(self).score_rows() == old(self).score_rows(),
            !has_card(old(self).card_rows(), card.id) ==> r == Err::<(), DBApiError>(
                DBApiError::NotFound,
            ) && final(self).card_rows() == old(self).card_rows(),
            has_card(old(self).card_rows(), card.id) ==> r is Ok,
            forall|i: int|
                0 <= i < old(self).card_rows().len() && #[trigger] old(self).card_rows()[i].id
                    == card.id ==> final(self).card_rows() == old(self).card_rows().update(i, card),
            old(self).all_dense() && (forall|i: int|
                0 <= i < old(self).card_rows().len() && #[trigger] old(self).card_rows()[i].id
                    == card.id ==> old(self).card_rows()[i].deck_id == card.deck_id
                    && old(self).card_rows()[i].deck_pos == card.deck_pos) ==> final(self).all_dense(),
    {
        match self.card_index(card.id) {
            Some(i) => {
                let ghost before = self.cards@;
                let ghost keeps_place = before[i as int].deck_id == card.deck_id
                    && before[i as int].deck_pos == card.deck_pos;
                self.cards.set(i, card);
                assert forall|a: int|
                    0 <= a < before.len() && a != i implies #[trigger] self.cards@[a] == before[a] by {
                }
                assert(ids_unique(self.cards@)) by {
                    assert forall|a: int, b: int|
                        0 <= a < self.cards@.len() && 0 <= b < self.cards@.len() && a
                            != b implies #[trigger] self.cards@[a].id
                        != #[trigger] self.cards@[b].id by {
                        assert(self.cards@[a].id == before[a].id);
                        assert(self.cards@[b].id == before[b].id);
                    }
                }
                assert forall|x: int|
                    0 <= x < before.len() && #[trigger] before[x].id == card.id implies x == i by {
                    if x != i {
                        assert(before[x].id != before[i as int].id);
                    }
                }
                proof {
                    if old(self).all_dense() && keeps_place {
                        assert forall|a: int| 0 <= a < before.len() implies #[trigger] self.cards@[a].deck_id
                            == before[a].deck_id && self.cards@[a].deck_pos == before[a].deck_pos by {
                        }
                        assert forall|d: u64| #[trigger] dense(self.cards@, d) by {
                            assert(dense(before, d));
                            lemma_deck_size_same_decks(self.cards@, before, d);
                            assert forall|a: int|
                                0 <= a < before.len() && #[trigger] self.cards@[a].deck_id == d implies 1
                                    <= self.cards@[a].deck_pos <= deck_size(self.cards@, d) by {
                                assert(before[a].deck_id == d);
                            }
                            assert forall|a: int, b: int|
                                0 <= a < before.len() && 0 <= b < before.len() && a != b
                                    && #[trigger] self.cards@[a].deck_id == d
                                    && #[trigger] self.cards@[b].deck_id == d implies self.cards@[a].deck_pos
                                    != self.cards@[b].deck_pos by {
                                assert(before[a].deck_id == d);
                                assert(before[b].deck_id == d);
                            }
                        }
                    }
                }
                Ok(())
            },
            None => Err(DBApiError::NotFound),
        }
    }

    /// The cards of deck `deck_id`, in ascending order of position.
    pub fn find_cards_for_deck(&self, deck_id: u64) -> (r: Vec<Card>)
        ensures
            sorted_by_pos(r@),
            r@.to_multiset() == self.card_rows().filter(in_deck(deck_id)).to_multiset(),
    {
        let n = self.cards.len();
        let mut r: Vec<Card> = Vec::new();
        let mut i: usize = 0;
        proof {
            let e = self.cards@.take(0).filter(in_deck(deck_id));
            self.cards@.take(0).lemma_filter_len(in_deck(deck_id));
            assert(e =~= r@);
        }
        while i < n
            invariant
                n == self.cards@.len(),
                0 <= i <= n,
                sorted_by_pos(r@),
                r@.to_multiset() == self.cards@.take(i as int).filter(in_deck(deck_id)).to_multiset(),
            decreases n - i,
        {
            proof {
                assert(self.cards@.take(i + 1) == self.cards@.take(i as int).push(self.cards@[i as int]));
                self.cards@.take(i as int).lemma_filter_push(self.cards@[i as int], in_deck(deck_id));
            }
            if self.cards[i].deck_id == deck_id {
                let c = self.cards[i].clone_card();
                // the first place whose card comes later than `c`
                let m = r.len();
                let mut at: usize = 0;
                while at < m && r[at].deck_pos <= c.deck_pos
                    invariant
                        m == r@.len(),
                        0 <= at <= m,
                        forall|q: int| 0 <= q < at ==> #[trigger] r@[q].deck_pos <= c.deck_pos,
                    decreases m - at,
                {
                    at = at + 1;
                }
                let ghost prev = r@;
                r.insert(at, c);
                proof {
                    vstd::seq_lib::to_multiset_insert(prev, at as int, c);
                    vstd::seq_lib::to_multiset_build(
                        self.cards@.take(i as int).filter(in_deck(deck_id)),
                        c,
                    );
                    assert(at < m ==> c.deck_pos < prev[at as int].deck_pos);
                    assert forall|x: int, y: int| 0 <= x <= y < r@.len() implies #[trigger] r@[x].deck_pos
                        <= #[trigger] r@[y].deck_pos by {
                        if x < at && y > at {
                            assert(r@[y] == prev[y - 1]);
                            assert(r@[x] == prev[x]);
                        } else if x < at && y == at {
                            assert(r@[x] == prev[x]);
                        } else if x == at && y > at {
                            assert(r@[y] == prev[y - 1]);
                            assert(prev[at as int].deck_pos <= prev[y - 1].deck_pos);
                        } else if x > at {
                            assert(r@[y] == prev[y - 1]);
                            assert(r@[x] == prev[x - 1]);
                        } else if y < at {
                            assert(r@[y] == prev[y]);
                            assert(r@[x] == prev[x]);
                        }
                    }
                }
            }
            i = i + 1;
        }
        assert(self.cards@.take(n as int) == self.cards@);
        r
    }

    /// Sets the score that `score.account_id` holds for `score.card_id`:
    /// replaces the row with that key, or adds one.
    pub fn update_score(&mut self, score: CardScore) -> (r: Result<(), DBApiError>)
        requires
            old(self).wf(),
        ensures
            final(self).wf(),
            r is Ok,
            final(self).card_rows() == old(self).card_rows(),
            final(self).deck_rows() == old(self).deck_rows(),
            forall|i: int|
                0 <= i < old(self).score_rows().len() && same_key(
                    #[trigger] old(self).score_rows()[i],
                    score,
                ) ==> final(self).score_rows() == old(self).score_rows().update(i, score),
            (forall|i: int|
                0 <= i < old(self).score_rows().len() ==> !same_key(
                    #[trigger] old(self).score_rows()[i],
                    score,
                )) ==> final(self).score_rows() == old(self).score_rows().push(score),
    {
        let n = self.scores.len();
        let mut i: usize = 0;
        while i < n
            invariant
                n == self.scores@.len(),
                *self == *old(self),
                old(self).wf(),
                0 <= i <= n,
                forall|k: int| 0 <= k < i ==> !same_key(#[trigger] self.scores@[k], score),
            decreases n - i,
        {
            if self.scores[i].account_id == score.account_id && self.scores[i].card_id
                == score.card_id {
                let ghost before = self.scores@;
                assert(score_keys_unique(before));
                self.scores.set(i, score);
                assert forall|x: int|
                    0 <= x < before.len() && same_key(#[trigger] before[x], score) implies x == i by {
                    if x != i {
                        assert(!same_key(before[x], before[i as int]));
                    }
                }
                assert(score_keys_unique(self.scores@)) by {
                    assert forall|a: int, b: int|
                        0 <= a < n && 0 <= b < n && a != b implies !same_key(
                        #[trigger] self.scores@[a],
                        #[trigger] self.scores@[b],
                    ) by {
                        if a != i {
                            assert(self.scores@[a] == before[a]);
                        }
                        if b != i {
                            assert(self.scores@[b] == before[b]);
                        }
                    }
                }
                return Ok(());
            }
            i = i + 1;
        }
        let ghost before = self.scores@;
        self.scores.push(score);
        assert(score_keys_unique(self.scores@)) by {
            assert forall|a: int, b: int|
                0 <= a < n + 1 && 0 <= b < n + 1 && a != b implies !same_key(
                #[trigger] self.scores@[a],
                #[trigger] self.scores@[b],
            ) by {
                if a < n {
                    assert(self.scores@[a] == before[a]);
                }
                if b < n {
                    assert(self.scores@[b] == before[b]);
                }
            }
        }
        Ok(())
    }

    /// The scores that account `account_id` holds for cards of deck `deck_id`,
    /// in store order.
    pub fn get_deck_scores(&self, deck_id: u64, account_id: u64) -> (r: Vec<CardScore>)
        ensures
            r@ == self.score_rows().filter(deck_score_of(self.card_rows(), deck_id, account_id)),
    {
        let ghost pred = deck_score_of(self.cards@, deck_id, account_id);
        let n = self.scores.len();
        let mut r: Vec<CardScore> = Vec::new();
        let mut i: usize = 0;
        while i < n
            invariant
                n == self.scores@.len(),
                pred == deck_score_of(self.cards@, deck_id, account_id),
                0 <= i <= n,
                r@ == self.scores@.take(i as int).filter(pred),
            decreases n - i,
        {
            proof {
                assert(self.scores@.take(i + 1) == self.scores@.take(i as int).push(self.scores@[i as int]));
                self.scores@.take(i as int).lemma_filter_push(self.scores@[i as int], pred);
            }
            let s = self.scores[i];
            if s.account_id == account_id && self.has_card_in_deck(s.card_id, deck_id) {
                r.push(s);
            }
            i = i + 1;
        }
        assert(self.scores@.take(n as int) == self.scores@);
        r
    }

    /// Whether card `card_id` belongs to deck `deck_id`.
    fn has_card_in_deck(&self, card_id: u64, deck_id: u64) -> (r: bool)
        ensures
            r == card_in_deck(self.cards@, card_id, deck_id),
    {
        let n = self.cards.len();
        let mut i: usize = 0;
        while i < n
            invariant
                n == self.cards@.len(),
                0 <= i <= n,
                forall|k: int| 0 <= k < i ==> !(#[trigger] self.cards@[k].id == card_id && self.cards@[k].deck_id == deck_id),
            decreases n - i,
        {
            if self.cards[i].id == card_id && self.cards[i].deck_id == deck_id {
                return true;
            }
            i = i + 1;
        }
        false
    }
}

/// Dropping every card of one deck keeps card ids unique and every deck dense.
proof fn lemma_filter_keeps_unique_dense(cards: Seq<Card>, deck_id: u64)
    requires
        ids_unique(cards),
    ensures
        ids_unique(cards.filter(not_in_deck(deck_id))),
        (forall|d: u64| #[trigger] dense(cards, d)) ==> forall|d: u64|
            #[trigger] dense(cards.filter(not_in_deck(deck_id)), d),
{
    let f = cards.filter(not_in_deck(deck_id));
    lemma_filter_unique_size(cards, deck_id);
    assert forall|i: int| 0 <= i < f.len() implies exists|k: int|
        0 <= k < cards.len() && #[trigger] cards[k] == #[trigger] f[i] by {
        assert(f.contains(f[i]));
        cards.lemma_filter_contains_rev(not_in_deck(deck_id), f[i]);
    }
    if forall|d: u64| #[trigger] dense(cards, d) {
        assert forall|d: u64| #[trigger] dense(f, d) by {
            assert(dense(cards, d));
            assert forall|i: int| 0 <= i < f.len() && #[trigger] f[i].deck_id == d implies 1
                <= f[i].deck_pos <= deck_size(f, d) by {
                cards.lemma_filter_pred(not_in_deck(deck_id), i);
                let k = choose|k: int| 0 <= k < cards.len() && #[trigger] cards[k] == f[i];
                assert(cards[k].deck_id == d);
            }
            assert forall|i: int, j: int|
                0 <= i < f.len() && 0 <= j < f.len() && i != j && #[trigger] f[i].deck_id == d
                    && #[trigger] f[j].deck_id == d implies f[i].deck_pos != f[j].deck_pos by {
                let ki = choose|k: int| 0 <= k < cards.len() && #[trigger] cards[k] == f[i];
                let kj = choose|k: int| 0 <= k < cards.len() && #[trigger] cards[k] == f[j];
                assert(f[i].id != f[j].id);
                assert(cards[ki].deck_id == d);
                assert(cards[kj].deck_id == d);
            }
        }
    }
}

/// Filtering out one deck keeps ids unique, leaves the size of every other
/// deck as it is, and leaves that deck empty.
proof fn lemma_filter_unique_size(cards: Seq<Card>, deck_id: u64)
    requires
        ids_unique(cards),
    ensures
        ids_unique(cards.filter(not_in_deck(deck_id))),
        forall|d: u64|
            d != deck_id ==> #[trigger] deck_size(cards.filter(not_in_deck(deck_id)), d)
                == deck_size(cards, d),
        deck_size(cards.filter(not_in_deck(deck_id)), deck_id) == 0,
    decreases cards.len(),
{
    let p = not_in_deck(deck_id);
    let f = cards.filter(p);
    if cards.len() == 0 {
        assert(f =~= Seq::<Card>::empty()) by {
            reveal(Seq::filter);
        }
    } else {
        let s0 = cards.drop_last();
        let x = cards.last();
        assert(s0.push(x) == cards);
        s0.lemma_filter_push(x, p);
        assert(ids_unique(s0)) by {
            assert forall|a: int, b: int|
                0 <= a < s0.len() && 0 <= b < s0.len() && a != b implies #[trigger] s0[a].id
                != #[trigger] s0[b].id by {
                assert(s0[a] == cards[a]);
                assert(s0[b] == cards[b]);
            }
        }
        lemma_filter_unique_size(s0, deck_id);
        let f0 = s0.filter(p);
        if p(x) {
            assert(f == f0.push(x));
            assert(f.drop_last() =~= f0);
            assert forall|a: int| 0 <= a < f0.len() implies #[trigger] f0[a].id != x.id by {
                assert(f0.contains(f0[a]));
                s0.lemma_filter_contains_rev(p, f0[a]);
                let k = choose|k: int| 0 <= k < s0.len() && s0[k] == f0[a];
                assert(cards[k] == s0[k]);
                assert(cards[cards.len() - 1] == x);
            }
            assert forall|a: int, b: int|
                0 <= a < f.len() && 0 <= b < f.len() && a != b implies #[trigger] f[a].id
                != #[trigger] f[b].id by {
                if a < f0.len() {
                    assert(f[a] == f0[a]);
                }
                if b < f0.len() {
                    assert(f[b] == f0[b]);
                }
            }
            assert forall|d: u64| d != deck_id implies #[trigger] deck_size(f, d) == deck_size(cards, d) by {
                assert(deck_size(f0, d) == deck_size(s0, d));
            }
            assert(deck_size(f0, deck_id) == 0);
        } else {
            assert(f == f0);
            assert forall|d: u64| d != deck_id implies #[trigger] deck_size(f, d) == deck_size(cards, d) by {
                assert(deck_size(f0, d) == deck_size(s0, d));
            }
        }
    }
}

} // verus!

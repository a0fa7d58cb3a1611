// The manager's gates: expired sessions, ownership, and what reaches the store.

use std::time::{Duration, SystemTime};

use lib_flashcard::db::{DBApiError, DBManager};
use lib_flashcard::http::card::UpdateCardPositionForm;
use lib_flashcard::{FlashError, FlashManager, Session};

fn manager() -> FlashManager {
    let epoch = SystemTime::UNIX_EPOCH
        .checked_add(Duration::from_millis(1546300800000))
        .expect("epoch");
    let id_factory = webe_id::WebeIDFactory::new(epoch, 0).expect("id generator");
    FlashManager::new(DBManager::new(), id_factory)
}

/// A deck of the account 1 with three cards at 1, 2, 3.
fn deck_with_three(m: &mut FlashManager) -> (u64, Vec<u64>) {
    let owner = Session::new(1, false);
    let deck = m.create_deck(&owner, "d".to_owned()).unwrap();
    let mut ids = Vec::new();
    for p in 1..=3u16 {
        let c = m
            .create_card(&owner, deck.id, p, format!("q{}", p), format!("a{}", p))
            .unwrap();
        ids.push(c.id);
    }
    (deck.id, ids)
}

fn order(m: &FlashManager, deck_id: u64) -> Vec<(u64, u16)> {
    m.get_cards_for_deck(&Session::new(1, false), &deck_id)
        .unwrap()
        .iter()
        .map(|c| (c.id, c.deck_pos))
        .collect()
}

#[test]
fn created_ids_are_fresh_and_stamped() {
    let mut m = manager();
    let s = Session::new(1, false);
    let a = m.create_deck(&s, "a".to_owned()).unwrap();
    let b = m.create_deck(&s, "b".to_owned()).unwrap();
    assert_ne!(a.id, b.id);
    assert_eq!(a.owner_id, 1);
    assert_eq!(a.name, "a");
    // seconds since the epoch: later than 2019-01-01
    assert!(a.last_updated > 1546300800);
    let c = m.create_card(&s, a.id, 1, "q".to_owned(), "a".to_owned()).unwrap();
    assert!(c.last_updated > 1546300800);
    assert_eq!(m.get_card(&s, c.id).unwrap(), c);
}

#[test]
fn non_owner_is_denied_and_nothing_changes() {
    let mut m = manager();
    let (deck_id, ids) = deck_with_three(&mut m);
    let fake = Session::new(2, false);
    let before = order(&m, deck_id);
    assert_eq!(
        m.update_card_position(&fake, deck_id, ids[0], 1, 3),
        Err(FlashError::PermissionError)
    );
    // the card row need not exist for the deck gate to refuse
    assert_eq!(
        m.update_card_position(&fake, deck_id, 9999, 1, 3),
        Err(FlashError::PermissionError)
    );
    assert_eq!(m.delete_card(&fake, ids[1]), Err(FlashError::PermissionError));
    assert_eq!(m.rename_deck(&fake, deck_id, "x"), Err(FlashError::PermissionError));
    assert_eq!(m.delete_deck(&fake, deck_id), Err(FlashError::PermissionError));
    assert_eq!(m.get_card(&fake, ids[0]), Err(FlashError::PermissionError));
    assert_eq!(m.get_cards_for_deck(&fake, &deck_id), Err(FlashError::PermissionError));
    assert_eq!(order(&m, deck_id), before);
    let info = m.get_deck_info(&Session::new(1, false), &deck_id).unwrap();
    assert_eq!(info.name, "d");
}

#[test]
fn expired_session_touches_nothing() {
    let mut m = manager();
    let (deck_id, ids) = deck_with_three(&mut m);
    let expired = Session::new(1, true);
    let before = order(&m, deck_id);
    assert_eq!(m.create_deck(&expired, "e".to_owned()), Err(FlashError::SessionTimeout));
    assert_eq!(
        m.create_card(&expired, deck_id, 4, "q".to_owned(), "a".to_owned()),
        Err(FlashError::SessionTimeout)
    );
    assert_eq!(
        m.update_card_position(&expired, deck_id, ids[0], 1, 3),
        Err(FlashError::SessionTimeout)
    );
    assert_eq!(m.delete_card(&expired, ids[0]), Err(FlashError::SessionTimeout));
    assert_eq!(m.rename_deck(&expired, deck_id, "e"), Err(FlashError::SessionTimeout));
    assert_eq!(m.delete_deck(&expired, deck_id), Err(FlashError::SessionTimeout));
    assert_eq!(m.update_card(&expired, ids[0], None, None), Err(FlashError::SessionTimeout));
    assert_eq!(m.update_score(&expired, ids[0], 3), Err(FlashError::SessionTimeout));
    assert_eq!(m.get_deck_info(&expired, &deck_id), Err(FlashError::SessionTimeout));
    assert_eq!(order(&m, deck_id), before);
    assert_eq!(m.get_decks_for_session(&Session::new(1, false)).unwrap().len(), 1);
    assert_eq!(m.get_deck_info(&Session::new(1, false), &deck_id).unwrap().name, "d");
}

#[test]
fn missing_rows_are_not_found() {
    let mut m = manager();
    let s = Session::new(1, false);
    let nf = Err(FlashError::DBError(DBApiError::NotFound));
    assert_eq!(m.rename_deck(&s, 5, "x"), nf);
    assert_eq!(m.delete_deck(&s, 5), nf);
    assert_eq!(m.delete_card(&s, 5), nf);
    assert_eq!(m.update_card_position(&s, 5, 1, 1, 2), nf);
    assert_eq!(m.update_score(&s, 5, 1), nf);
    assert_eq!(m.get_deck_info(&s, &5).map(|d| d.id), Err(FlashError::DBError(DBApiError::NotFound)));
    let (deck_id, ids) = deck_with_three(&mut m);
    // stale position through the manager
    assert_eq!(m.update_card_position(&s, deck_id, ids[0], 2, 3), nf);
}

#[test]
fn sentinel_rejected_through_manager() {
    let mut m = manager();
    let s = Session::new(1, false);
    let (deck_id, ids) = deck_with_three(&mut m);
    let na = FlashError::DBError(DBApiError::NotAllowed);
    assert_eq!(m.create_card(&s, deck_id, 0, "q".to_owned(), "a".to_owned()).map(|c| c.id), Err(na));
    assert_eq!(m.update_card_position(&s, deck_id, ids[2], 3, 0), Err(na));
    assert_eq!(order(&m, deck_id), vec![(ids[0], 1), (ids[1], 2), (ids[2], 3)]);
}

#[test]
fn move_and_delete_through_manager() {
    let mut m = manager();
    let s = Session::new(1, false);
    let (deck_id, ids) = deck_with_three(&mut m);
    let form = UpdateCardPositionForm { deck_id, id: ids[0], orig_pos: 1, new_pos: 3 };
    m.update_card_position(&s, form.deck_id, form.id, form.orig_pos, form.new_pos)
        .unwrap();
    assert_eq!(order(&m, deck_id), vec![(ids[1], 1), (ids[2], 2), (ids[0], 3)]);
    m.delete_card(&s, ids[1]).unwrap();
    assert_eq!(order(&m, deck_id), vec![(ids[2], 1), (ids[0], 2)]);
    let details = m.get_deck_details(&s, &deck_id).unwrap();
    assert_eq!(details.info.id, deck_id);
    assert_eq!(details.cards.len(), 2);
    assert_eq!(details.cards[0].id, ids[2]);
}

#[test]
fn rename_and_update_card_through_manager() {
    let mut m = manager();
    let s = Session::new(1, false);
    let (deck_id, ids) = deck_with_three(&mut m);
    m.rename_deck(&s, deck_id, "renamed").unwrap();
    assert_eq!(m.get_deck_info(&s, &deck_id).unwrap().name, "renamed");
    m.update_card(&s, ids[1], Some("Q".to_owned()), None).unwrap();
    let c = m.get_card(&s, ids[1]).unwrap();
    assert_eq!(c.question, "Q");
    assert_eq!(c.answer, "a2");
    assert_eq!(c.deck_pos, 2);
}

#[test]
fn scores_through_manager() {
    let mut m = manager();
    let s = Session::new(1, false);
    let (deck_id, ids) = deck_with_three(&mut m);
    m.update_score(&s, ids[0], 2).unwrap();
    m.update_score(&s, ids[0], 7).unwrap();
    m.update_score(&s, ids[2], 1).unwrap();
    let scores = m.get_deck_scores(&s, deck_id).unwrap();
    assert_eq!(scores.len(), 2);
    assert_eq!(scores[0].score, 7);
    assert_eq!(scores[1].card_id, ids[2]);
    assert_eq!(
        m.get_deck_scores(&Session::new(2, false), deck_id).map(|v| v.len()),
        Err(FlashError::PermissionError)
    );
}

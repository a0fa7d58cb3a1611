// The card store's position engine: moves, deletes, inserts and the dense order.

use lib_flashcard::card::Card;
use lib_flashcard::db::{DBApiError, DBManager};
use lib_flashcard::deck::Deck;
use lib_flashcard::game::CardScore;

fn card(id: u64, deck_id: u64, pos: u16) -> Card {
    Card::new(id, deck_id, pos, format!("q{}", id), format!("a{}", id), 100)
}

fn pos_of(store: &DBManager, id: u64) -> u16 {
    store.find_card(id).unwrap().deck_pos
}

/// Positions of the deck's cards, in position order.
fn positions(store: &DBManager, deck_id: u64) -> Vec<(u64, u16)> {
    store
        .find_cards_for_deck(deck_id)
        .iter()
        .map(|c| (c.id, c.deck_pos))
        .collect()
}

fn is_dense(store: &DBManager, deck_id: u64) -> bool {
    let cards = store.find_cards_for_deck(deck_id);
    cards
        .iter()
        .enumerate()
        .all(|(i, c)| c.deck_pos as usize == i + 1)
}

fn three_card_deck() -> DBManager {
    let mut store = DBManager::new();
    store.insert_card(card(1, 7, 1)).unwrap();
    store.insert_card(card(2, 7, 2)).unwrap();
    store.insert_card(card(3, 7, 3)).unwrap();
    store
}

#[test]
fn move_then_delete_scenario() {
    // A = 1, B = 2, C = 3
    let mut store = three_card_deck();
    store.update_position(7, 1, 1, 3).unwrap();
    assert_eq!(pos_of(&store, 2), 1);
    assert_eq!(pos_of(&store, 3), 2);
    assert_eq!(pos_of(&store, 1), 3);
    store.delete_card(2).unwrap();
    assert_eq!(pos_of(&store, 3), 1);
    assert_eq!(pos_of(&store, 1), 2);
    assert_eq!(store.find_card(2), Err(DBApiError::NotFound));
}

#[test]
fn move_earlier_pushes_block_up() {
    let mut store = three_card_deck();
    store.update_position(7, 3, 3, 1).unwrap();
    assert_eq!(positions(&store, 7), vec![(3, 1), (1, 2), (2, 3)]);
}

#[test]
fn move_inside_range_leaves_outer_cards() {
    let mut store = DBManager::new();
    for i in 1..=5u64 {
        store.insert_card(card(i, 7, i as u16)).unwrap();
    }
    store.update_position(7, 2, 2, 4).unwrap();
    assert_eq!(positions(&store, 7), vec![(1, 1), (3, 2), (4, 3), (2, 4), (5, 5)]);
}

#[test]
fn move_to_sentinel_rejected() {
    let mut store = three_card_deck();
    let before = positions(&store, 7);
    assert_eq!(store.update_position(7, 1, 1, 0), Err(DBApiError::NotAllowed));
    assert_eq!(positions(&store, 7), before);
}

#[test]
fn insert_at_sentinel_rejected() {
    let mut store = three_card_deck();
    let before = positions(&store, 7);
    assert_eq!(store.insert_card(card(9, 7, 0)), Err(DBApiError::NotAllowed));
    assert_eq!(positions(&store, 7), before);
    assert_eq!(store.find_card(9), Err(DBApiError::NotFound));
}

#[test]
fn move_to_same_position_is_noop() {
    let mut store = three_card_deck();
    let before = positions(&store, 7);
    assert_eq!(store.update_position(7, 2, 2, 2), Ok(()));
    assert_eq!(positions(&store, 7), before);
}

#[test]
fn stale_believed_position_rejected() {
    let mut store = three_card_deck();
    let before = positions(&store, 7);
    assert_eq!(store.update_position(7, 1, 2, 3), Err(DBApiError::NotFound));
    assert_eq!(positions(&store, 7), before);
}

#[test]
fn move_in_wrong_deck_rejected() {
    let mut store = three_card_deck();
    assert_eq!(store.update_position(8, 1, 1, 2), Err(DBApiError::NotFound));
    assert_eq!(pos_of(&store, 1), 1);
}

#[test]
fn move_leaves_other_decks() {
    let mut store = three_card_deck();
    store.insert_card(card(10, 8, 1)).unwrap();
    store.insert_card(card(11, 8, 2)).unwrap();
    store.update_position(7, 1, 1, 2).unwrap();
    assert_eq!(positions(&store, 8), vec![(10, 1), (11, 2)]);
    assert_eq!(positions(&store, 7), vec![(2, 1), (1, 2), (3, 3)]);
}

#[test]
fn move_past_u16_range_fails_without_change() {
    let mut store = DBManager::new();
    store.insert_card(card(1, 7, 65535)).unwrap();
    store.insert_card(card(2, 7, 65535)).unwrap();
    assert_eq!(store.update_position(7, 2, 65535, 1), Err(DBApiError::OtherError));
    assert_eq!(pos_of(&store, 1), 65535);
    assert_eq!(pos_of(&store, 2), 65535);
}

#[test]
fn delete_compacts_positions() {
    let mut store = DBManager::new();
    for i in 1..=5u64 {
        store.insert_card(card(i, 7, i as u16)).unwrap();
    }
    store.insert_card(card(20, 8, 3)).unwrap();
    store.delete_card(2).unwrap();
    assert_eq!(positions(&store, 7), vec![(1, 1), (3, 2), (4, 3), (5, 4)]);
    assert_eq!(pos_of(&store, 20), 3);
    assert!(is_dense(&store, 7));
}

#[test]
fn delete_missing_card_not_found() {
    let mut store = three_card_deck();
    assert_eq!(store.delete_card(42), Err(DBApiError::NotFound));
    assert_eq!(positions(&store, 7), vec![(1, 1), (2, 2), (3, 3)]);
}

#[test]
fn delete_below_zero_fails_without_change() {
    let mut store = DBManager::new();
    store.insert_card(card(1, 7, 1)).unwrap();
    store.insert_card(card(2, 7, 2)).unwrap();
    store.update_card(card(1, 7, 0)).unwrap();
    store.update_card(card(2, 7, 0)).unwrap();
    assert_eq!(store.delete_card(1), Err(DBApiError::OtherError));
    assert_eq!(pos_of(&store, 1), 0);
    assert_eq!(pos_of(&store, 2), 0);
}

#[test]
fn insert_duplicate_id_rejected() {
    let mut store = three_card_deck();
    assert_eq!(store.insert_card(card(2, 7, 4)), Err(DBApiError::OtherError));
    assert_eq!(positions(&store, 7), vec![(1, 1), (2, 2), (3, 3)]);
}

#[test]
fn cards_listed_in_position_order() {
    let mut store = DBManager::new();
    store.insert_card(card(1, 7, 3)).unwrap();
    store.insert_card(card(2, 8, 1)).unwrap();
    store.insert_card(card(3, 7, 1)).unwrap();
    store.insert_card(card(4, 7, 2)).unwrap();
    assert_eq!(positions(&store, 7), vec![(3, 1), (4, 2), (1, 3)]);
    assert_eq!(positions(&store, 9), vec![]);
}

#[test]
fn density_kept_over_operation_sequence() {
    let mut store = DBManager::new();
    let mut seed: u64 = 12345;
    let mut next = |m: u64| {
        seed = seed.wrapping_mul(6364136223846793005).wrapping_add(1442695040888963407);
        (seed >> 33) % m
    };
    let mut next_id: u64 = 1;
    for _ in 0..300 {
        let cards = store.find_cards_for_deck(7);
        let n = cards.len() as u64;
        match next(3) {
            0 => {
                store.insert_card(card(next_id, 7, (n + 1) as u16)).unwrap();
                next_id += 1;
            }
            1 if n > 0 => {
                let c = &cards[next(n) as usize];
                let to = (next(n) + 1) as u16;
                store.update_position(7, c.id, c.deck_pos, to).unwrap();
            }
            _ if n > 0 => {
                let c = &cards[next(n) as usize];
                store.delete_card(c.id).unwrap();
            }
            _ => {}
        }
        assert!(is_dense(&store, 7));
    }
}

#[test]
fn card_row_update_keeps_place() {
    let mut store = three_card_deck();
    let mut c = store.find_card(2).unwrap();
    c.update_question("new q".to_owned());
    c.update_answer("new a".to_owned());
    store.update_card(c).unwrap();
    let found = store.find_card(2).unwrap();
    assert_eq!(found.question, "new q");
    assert_eq!(found.answer, "new a");
    assert_eq!(found.deck_pos, 2);
    assert_eq!(store.update_card(card(99, 7, 1)), Err(DBApiError::NotFound));
}

#[test]
fn card_setters_change_one_field() {
    let mut c = card(5, 7, 2);
    c.update_position(4);
    assert_eq!(c.deck_pos, 4);
    assert_eq!(c.question, "q5");
    let copy = c.clone_card();
    assert_eq!(copy, c);
}

#[test]
fn deck_rows_insert_find_update_delete() {
    let mut store = DBManager::new();
    store.insert_deck(Deck::new(1, 50, "one".to_owned(), 10)).unwrap();
    store.insert_deck(Deck::new(2, 51, "two".to_owned(), 10)).unwrap();
    store.insert_deck(Deck::new(3, 50, "three".to_owned(), 10)).unwrap();
    assert_eq!(
        store.insert_deck(Deck::new(2, 50, "again".to_owned(), 10)),
        Err(DBApiError::OtherError)
    );
    let owned: Vec<u64> = store.find_decks_for_owner(50).iter().map(|d| d.id).collect();
    assert_eq!(owned, vec![1, 3]);
    let mut d = store.find_deck(2).unwrap();
    d.rename("renamed");
    store.update_deck(d).unwrap();
    assert_eq!(store.find_deck(2).unwrap().name, "renamed");
    assert_eq!(store.find_deck(2).unwrap().owner_id, 51);
    assert_eq!(
        store.update_deck(Deck::new(9, 50, "x".to_owned(), 1)),
        Err(DBApiError::NotFound)
    );
    assert_eq!(store.find_deck(9), Err(DBApiError::NotFound));
}

#[test]
fn deck_delete_removes_its_cards() {
    let mut store = three_card_deck();
    store.insert_deck(Deck::new(7, 50, "seven".to_owned(), 10)).unwrap();
    store.insert_card(card(10, 8, 1)).unwrap();
    store.delete_deck(7).unwrap();
    assert_eq!(store.find_deck(7), Err(DBApiError::NotFound));
    assert_eq!(positions(&store, 7), vec![]);
    assert_eq!(positions(&store, 8), vec![(10, 1)]);
    assert_eq!(store.delete_deck(7), Err(DBApiError::NotFound));
}

#[test]
fn score_upsert_and_deck_filter() {
    let mut store = three_card_deck();
    store.insert_card(card(10, 8, 1)).unwrap();
    store.update_score(CardScore::new(50, 1, 3)).unwrap();
    store.update_score(CardScore::new(50, 10, 4)).unwrap();
    store.update_score(CardScore::new(51, 2, 5)).unwrap();
    store.update_score(CardScore::new(50, 1, 9)).unwrap();
    assert_eq!(store.get_deck_scores(7, 50), vec![CardScore::new(50, 1, 9)]);
    assert_eq!(store.get_deck_scores(8, 50), vec![CardScore::new(50, 10, 4)]);
    assert_eq!(store.get_deck_scores(7, 51), vec![CardScore::new(51, 2, 5)]);
    assert_eq!(store.get_deck_scores(9, 50), vec![]);
}

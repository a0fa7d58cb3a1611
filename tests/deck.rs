// Deck operations through the manager: gates, creation, listing, renaming, deleting.

use std::time::{Duration, SystemTime};

use lib_flashcard::db::DBManager;
use lib_flashcard::{FlashError, FlashManager, Session};

fn prepare_deck_manager() -> FlashManager {
    let node_id = 0u8;
    let epoch = SystemTime::UNIX_EPOCH
        .checked_add(Duration::from_millis(1546300800000)) // 01-01-2019 12:00:00 AM GMT
        .expect("failed to create custom epoch");
    let id_factory =
        webe_id::WebeIDFactory::new(epoch, node_id).expect("Failed to create ID generator");
    FlashManager::new(DBManager::new(), id_factory)
}

#[test]
fn deck_tests() {
    let mut flash_manager = prepare_deck_manager();
    let valid = Session::new(1, false);
    let fake = Session::new(2, false);
    let expired = Session::new(1, true);

    // verify that you can't create a deck with an expired account
    match flash_manager.create_deck(&expired, "expired_test".to_owned()) {
        Ok(_wut) => panic!("was able to create a deck with expired account"),
        Err(error) => match error {
            FlashError::SessionTimeout => {}
            _ => panic!("recieved an unexpected error"),
        },
    }

    // create a new deck with the valid account
    let deck = flash_manager
        .create_deck(&valid, "valid_test".to_owned())
        .unwrap();

    // try to fetch the new deck with the valid account
    if flash_manager.get_decks_for_session(&valid).unwrap().len() != 1 {
        panic!("should have only returned 1 deck for valid account");
    }
    // try to fetch the new deck with the fake account
    if flash_manager.get_decks_for_session(&fake).unwrap().len() != 0 {
        panic!("should have only returned 0 decks for fake account");
    }
    // try to fetch the new deck with the expired account
    match flash_manager.get_decks_for_session(&expired) {
        Ok(_wut) => panic!("was able to create a deck with expired account"),
        Err(error) => match error {
            FlashError::SessionTimeout => {}
            _ => panic!("recieved an unexpected error"),
        },
    }

    // try to update the name with the valid account
    flash_manager
        .rename_deck(&valid, deck.id, "updated_test")
        .unwrap();

    // try to update the name with the fake account
    match flash_manager.rename_deck(&fake, deck.id, "fake_test") {
        Ok(_wut) => panic!("was able to rename a deck with fake account"),
        Err(error) => match error {
            FlashError::PermissionError => {}
            _ => panic!("recieved an unexpected error"),
        },
    }

    // try to update with expired account
    match flash_manager.rename_deck(&expired, deck.id, "expired_test") {
        Ok(_wut) => panic!("was able to rename a deck with expired account"),
        Err(error) => match error {
            FlashError::SessionTimeout => {}
            _ => panic!("recieved an unexpected error"),
        },
    }

    // try to delete with the expired account
    match flash_manager.delete_deck(&expired, deck.id) {
        Ok(_wut) => panic!("was able to delete a deck with expired account"),
        Err(error) => match error {
            FlashError::SessionTimeout => {}
            _ => panic!("recieved an unexpected error"),
        },
    }

    // try to delete the deck with the fake account
    match flash_manager.delete_deck(&fake, deck.id) {
        Ok(_wut) => panic!("was able to delete a deck with fake account"),
        Err(error) => match error {
            FlashError::PermissionError => {}
            _ => panic!("recieved an unexpected error"),
        },
    }

    // delete the deck with the valid account
    flash_manager.delete_deck(&valid, deck.id).unwrap();
}

// Card operations through the manager: gates, creation, update, moving, deleting.

use std::time::{Duration, SystemTime};

use lib_flashcard::db::{DBApiError, DBManager};
use lib_flashcard::{FlashError, FlashManager, Session};

fn prepare_flash_manager() -> FlashManager {
    let node_id = 0u8;
    let epoch = SystemTime::UNIX_EPOCH
        .checked_add(Duration::from_millis(1546300800000)) // 01-01-2019 12:00:00 AM GMT
        .expect("failed to create custom epoch");
    let id_factory =
        webe_id::WebeIDFactory::new(epoch, node_id).expect("Failed to create ID generator");
    FlashManager::new(DBManager::new(), id_factory)
}

fn prepare_sessions() -> (Session, Session, Session) {
    let valid = Session::new(1, false);
    let fake = Session::new(2, false);
    let expired = Session::new(1, true);
    (valid, fake, expired)
}

#[test]
fn card_tests() {
    let mut flash_manager = prepare_flash_manager();
    let (valid, fake, expired) = prepare_sessions();

    // create a new deck with the valid account
    let deck = flash_manager
        .create_deck(&valid, "valid_test".to_owned())
        .unwrap();

    // verify that you can't add a card using fake account
    match flash_manager.create_card(&fake, deck.id, 0, "Q".to_owned(), "A".to_owned()) {
        Ok(_) => {
            panic!("should not be able to create a card in a deck that doesn't belong to the deck owner")
        }
        Err(error) => match error {
            FlashError::PermissionError => {}
            _ => panic!("recieved an unexpected error"),
        },
    }

    // verify that you can't add a card using expired session
    match flash_manager.create_card(&expired, deck.id, 0, "Q".to_owned(), "A".to_owned()) {
        Ok(_) => panic!("should not be able to create a card using expired session"),
        Err(error) => match error {
            FlashError::SessionTimeout => {}
            _ => panic!("recieved an unexpected error"),
        },
    }

    // create a card using the valid account
    let card = flash_manager
        .create_card(&valid, deck.id, 1, "Q".to_owned(), "A".to_owned())
        .expect("failed to create first card");

    // create second card for position testing later
    let card2 = flash_manager
        .create_card(&valid, deck.id, 2, "Q2".to_owned(), "A2".to_owned())
        .expect("failed to create second card");

    // verify you can't update a card using a fake account
    match flash_manager.update_card(&fake, card.id, None, Some("B".to_owned())) {
        Ok(_) => panic!("should not be able to update a card using fake account"),
        Err(error) => match error {
            FlashError::PermissionError => {}
            _ => panic!("recieved an unexpected error"),
        },
    }

    // verify you can't update a card using an expired session
    match flash_manager.update_card(&expired, card.id, None, Some("B".to_owned())) {
        Ok(_) => panic!("should not be able to update a card using expired session"),
        Err(error) => match error {
            FlashError::SessionTimeout => {}
            _ => panic!("recieved an unexpected error"),
        },
    }

    // update a card using the valid account
    flash_manager
        .update_card(&valid, card.id, None, Some("B".to_owned()))
        .unwrap();

    // verify you can't update position using a fake account
    match flash_manager.update_card_position(&fake, deck.id, card.id, card.deck_pos, 2) {
        Ok(_) => panic!("should not be able to update position using fake account"),
        Err(error) => match error {
            FlashError::PermissionError => {}
            _ => panic!("recieved an unexpected error"),
        },
    }

    // verify you can't update position using an expired session
    match flash_manager.update_card_position(&expired, deck.id, card.id, card.deck_pos, 2) {
        Ok(_) => panic!("should not be able to update position using expired session"),
        Err(error) => match error {
            FlashError::SessionTimeout => {}
            _ => panic!("recieved an unexpected error"),
        },
    }

    // verify user cannot force card into position 0
    match flash_manager.update_card_position(&valid, deck.id, card.id, card.deck_pos, 0) {
        Ok(_wut) => panic!("should not have been able to set card to position 0"),
        Err(error) => match error {
            FlashError::DBError(DBApiError::NotAllowed) => {}
            _ => panic!("recieved an unexpected error"),
        },
    }
    // update position using the valid account
    flash_manager
        .update_card_position(&valid, deck.id, card.id, card.deck_pos, 2)
        .expect("failed to update card position");
    let updated_card2 = flash_manager.get_card(&valid, card2.id).unwrap();
    assert_eq!(updated_card2.deck_pos, 1);

    // verify you can't delete a card using fake account
    match flash_manager.delete_card(&fake, card.id) {
        Ok(_) => panic!("should not be able to delete a card using fake account"),
        Err(error) => match error {
            FlashError::PermissionError => {}
            _ => panic!("recieved an unexpected error"),
        },
    }

    // verify you can't delete a card using expired session
    match flash_manager.delete_card(&expired, card.id) {
        Ok(_) => panic!("should not be able to delete a card using expired session"),
        Err(error) => match error {
            FlashError::SessionTimeout => {}
            _ => panic!("recieved an unexpected error"),
        },
    }

    // delete the second card with the valid account (position 1)
    flash_manager.delete_card(&valid, card2.id).unwrap();

    // verify the card in pos 2 has moved to pos 1
    let updated_card = flash_manager.get_card(&valid, card.id).unwrap();
    assert_eq!(updated_card.deck_pos, 1);

    // delete the card with the valid account
    flash_manager.delete_card(&valid, card.id).unwrap();

    // delete the deck with the valid account
    flash_manager.delete_deck(&valid, deck.id).unwrap();
}

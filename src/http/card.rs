use vstd::prelude::*;

verus! {

/// Targets a single card.
pub struct CardIdForm {
    pub card_id: u64,
}

/// Creates a card in a deck at a position.
pub struct CreateCardForm {
    pub deck_id: u64,
    pub deck_pos: u16,
    pub question: String,
    pub answer: String,
}

/// Replaces the question and/or the answer of a card.
pub struct UpdateCardForm {
    pub id: u64,
    pub question: Option<String>,
    pub answer: Option<String>,
}

/// Moves card `id` of deck `deck_id` from `orig_pos` to `new_pos`.
pub struct UpdateCardPositionForm {
    pub deck_id: u64,
    pub id: u64,
    pub orig_pos: u16,
    pub new_pos: u16,
}

} // verus!

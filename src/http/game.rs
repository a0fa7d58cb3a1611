use vstd::prelude::*;

verus! {

/// Records a score for a card.
pub struct UpdateScoreForm {
    pub card_id: u64,
    pub score: u8,
}

} // verus!

use vstd::prelude::*;

verus! {

/// The recall score that one account holds for one card.
#[derive(PartialEq, Eq, Structural, Clone, Copy, Debug)]
pub struct CardScore {
    pub account_id: u64,
    pub card_id: u64,
    pub score: u8,
}

impl CardScore {
    pub fn new(account_id: u64, card_id: u64, score: u8) -> (s: CardScore)
        ensures
            s.account_id == account_id,
            s.card_id == card_id,
            s.score == score,
    {
        CardScore { account_id, card_id, score }
    }
}

} // verus!

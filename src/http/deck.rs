use vstd::prelude::*;

verus! {

/// Targets a single deck.
pub struct DeckIdForm {
    pub deck_id: u64,
}

/// Creates a deck with a name.
pub struct CreateDeckForm {
    pub name: String,
}

/// Renames a deck.
pub struct RenameDeckForm {
    pub deck_id: u64,
    pub name: String,
}

} // verus!

use vstd::prelude::*;

use crate::card::Card;

verus! {

/// A named deck of cards owned by one account.
#[derive(PartialEq, Eq, Debug)]
pub struct Deck {
    pub id: u64,
    pub name: String,
    pub owner_id: u64,
    pub last_updated: u32,
}

/// A deck together with its cards in position order.
pub struct DeckDetails {
    pub info: Deck,
    pub cards: Vec<Card>,
}

impl Deck {
    pub fn new(id: u64, owner_id: u64, name: String, last_updated: u32) -> (d: Deck)
        ensures
            d.id == id,
            d.owner_id == owner_id,
            d.name == name,
            d.last_updated == last_updated,
    {
        Deck { id, name, owner_id, last_updated }
    }

    pub fn rename(&mut self, name: &str)
        ensures
            final(self).name@ == name@,
            final(self).id == old(self).id,
            final(self).owner_id == old(self).owner_id,
            final(self).last_updated == old(self).last_updated,
    {
        self.name = name.to_string();
    }

    pub fn clone_deck(&self) -> (d: Deck)
        ensures
            d == *self,
    {
        Deck {
            id: self.id,
            name: self.name.clone(),
            owner_id: self.owner_id,
            last_updated: self.last_updated,
        }
    }
}

} // verus!

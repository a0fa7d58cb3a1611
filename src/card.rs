use vstd::prelude::*;

verus! {

/// One card of a deck. `deck_pos` is its 1-based place in the deck's order;
/// position 0 is reserved for a card that is being relocated.
#[derive(PartialEq, Eq, Debug)]
pub struct Card {
    pub id: u64,
    pub deck_id: u64,
    pub deck_pos: u16,
    pub question: String,
    pub answer: String,
    pub last_updated: u32,
}

impl Card {
    pub fn new(
        id: u64,
        deck_id: u64,
        deck_pos: u16,
        question: String,
        answer: String,
        last_updated: u32,
    ) -> (c: Card)
        ensures
            c.id == id,
            c.deck_id == deck_id,
            c.deck_pos == deck_pos,
            c.question == question,
            c.answer == answer,
            c.last_updated == last_updated,
    {
        Card { id, deck_id, deck_pos, question, answer, last_updated }
    }

    pub fn update_position(&mut self, new_pos: u16)
        ensures
            *final(self) == (Card { deck_pos: new_pos, ..*old(self) }),
    {
        self.deck_pos = new_pos;
    }

    pub fn update_question(&mut self, new_question: String)
        ensures
            *final(self) == (Card { question: new_question, ..*old(self) }),
    {
        self.question = new_question;
    }

    pub fn update_answer(&mut self, new_answer: String)
        ensures
            *final(self) == (Card { answer: new_answer, ..*old(self) }),
    {
        self.answer = new_answer;
    }

    pub fn clone_card(&self) -> (c: Card)
        ensures
            c == *self,
    {
        Card {
            id: self.id,
            deck_id: self.deck_id,
            deck_pos: self.deck_pos,
            question: self.question.clone(),
            answer: self.answer.clone(),
            last_updated: self.last_updated,
        }
    }
}

} // verus!

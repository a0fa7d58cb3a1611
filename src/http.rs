//! The decoded bodies of the requests that the transport layer hands over.

pub mod card;
pub mod deck;
pub mod game;

//! Playing cards: decks and the table of a blackjack game.

pub mod blackjack;
pub mod deck;

//! A single round of blackjack: a shuffled deck, two hands, and the turn state
//! machine that decides the winner.
pub mod action;
pub mod card;
pub mod deck;
pub mod game;
pub mod hand;

pub use crate::action::Action;
pub use crate::card::Rank;
pub use crate::deck::Deck;
pub use crate::game::{Game, GameStage, PublicState, Winner};
pub use crate::hand::Hand;

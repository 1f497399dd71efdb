//! Rule engine for a solitaire dungeon-crawl card game played with a
//! reduced 44-card deck.
//!
//! The engine tracks the player's health, the equipped weapon and its
//! dulling state, and the flow of cards between the dungeon draw pile,
//! the active room, the discard pile and the trophy stack.  Every
//! mutation goes through a small command surface whose contracts pin
//! down the resulting state; the terminal front end only reads the
//! state and issues commands.

pub mod cards;
pub mod engine;
pub mod laws;
pub mod text;

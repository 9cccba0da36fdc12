//! A Spider Solitaire engine: the card model, the tableau with its
//! hidden-card bookkeeping, a reversible action log, and the move rules.

pub mod card;
pub mod tableau;
pub mod action;
pub mod log;
pub mod game;
pub mod engine;
pub mod deck;
pub mod input;
pub mod render;

//! A verified engine for one round of casino blackjack: a multi-deck card
//! shoe, per-player bet plans and hands, and the phase-by-phase state machine
//! that takes a table of players through betting and dealing.

pub mod bets;
pub mod cards;
pub mod errors;
pub mod game;
pub mod hands;
pub mod player;
pub mod shoe;

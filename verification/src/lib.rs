//! Rules and state of a two-player elemental card duel.
//!
//! Every card has a number from 1 to 12, one of three elements and a colour.
//! Two cards meet by element (fire melts ice, water puts out fire, ice
//! freezes water) and by number; a win on either count wins the round.
//! The game state records each player's hand of seven cards, the pile of
//! won cards and the log of turns.

pub mod cards;
mod chance;
pub mod gamestate;
pub mod turns;

//! Turn-flow and minigame engine of a local multiplayer party board game.
//!
//! Players take turns rolling a die, moving across a graph-shaped board,
//! landing on spaces that grant or deduct currency, buying a scarce objective
//! token, and entering minigames whose outcome redistributes currency.
//!
//! All geometry, time and analog input is fixed-point: a value of 1000
//! stands for one board unit, one second, or a full axis deflection.
//! The host layer converts to and from these units at the boundary.

pub mod board;
pub mod game;
pub mod ingame;
pub mod minigame;
pub mod minigames;
pub mod mathutil;
pub mod rng;
pub mod setup;
pub mod tputil;

//! The concrete minigame simulations. Each is an independent small
//! real-time simulation with its own elimination and win logic, driven
//! once per tick and reporting a result at most once.

pub mod castleclimb;
pub mod hotrope;
pub mod itemcatch;
pub mod pong;
pub mod snake;
pub mod quickdraw;

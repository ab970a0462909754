//! Repeated-round matches between two strategies in a three-choice payoff game.
pub mod moves;
pub mod simulator;
pub mod strategy;

pub use moves::{Move, Round};
pub use simulator::{FirstMover, Simulator};
pub use strategy::{AlwaysX, IdentifyAndExploit, Strategy};

//! The number-guessing game's decision logic, with the small computations of
//! the companion language walkthroughs, each checked against its contract.

pub mod control_flow;
pub mod functions;
pub mod game;
pub mod input;
pub mod ownership;

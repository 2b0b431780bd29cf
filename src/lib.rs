//! Bouncing-ball simulation on an integer pixel grid, with the bookkeeping of
//! a frame-capture pipeline that records the simulation to image files.

pub mod ball;
pub mod simulation;
pub mod capture;

//! A tick-driven predator/prey ecosystem on a fixed grid.
//!
//! Health and satiety are fixed-point integers in hundredths of a point.
//! Random draws come from a single source (`random`). Movement,
//! reproduction and walnut growth also exist as functions that take their
//! draws as arguments, with exact contracts; the functions that draw say
//! that their result is one of those for some draws.

pub mod consts;
pub mod components;
pub mod field;
mod random;
pub mod movement;
pub mod ship;
pub mod predation;
pub mod lifecycle;
pub mod timer;
pub mod world;

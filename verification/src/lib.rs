//! A toroidal Conway's Game of Life engine with a verified update rule,
//! together with the pure parts of a terminal front end: rendering a grid
//! to a character string and deciding when the display loop stops.

pub mod control;
pub mod engine;
pub mod render;
pub mod seeding;

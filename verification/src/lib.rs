//! A snake game on a toroidal grid, painted block by block onto a raw pixel
//! surface.
//!
//! The engine is a state machine that takes in one poll of the input at a
//! time and says what to do next: sleep until the next tick, poll again, or
//! stop. Whoever drives it owns the clock, the keyboard and the display.
//!
//! - [`prng`]: the integer hash behind the pellet placement.
//! - [`grid`]: cells, directions and steps that wrap at the edges.
//! - [`input`]: keypress records and what they mean.
//! - [`surface`]: painting cells as blocks of pixels.
//! - [`pellet`]: the search for a free cell.
//! - [`engine`]: the state of a match and its transitions.
//! - [`display`]: the surface shows the state.
//! - [`laws`]: what holds of every match.
//! - [`outcome`]: how a tick and a match end.
//! - [`config`]: the parameters of a match and the command line.
//! - [`text`]: numbers written as text and read from text.
//! - [`terminal`]: records of the terminal and the display.

pub mod config;
pub mod display;
pub mod engine;
pub mod grid;
pub mod input;
pub mod laws;
pub mod outcome;
pub mod pellet;
pub mod prng;
pub mod surface;
pub mod terminal;
pub mod text;

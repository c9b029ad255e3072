//! Introspection and manipulation of desktop windows and display monitors: what
//! an enumeration reports, and what a change of a window asks of the window system.

pub mod geometry;
pub mod text;
pub mod process;
pub mod window;
pub mod monitor;
pub mod mutator;

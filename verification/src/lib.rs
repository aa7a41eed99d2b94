//! Board geometry and game state for a Go board drawn in a browser canvas.
//!
//! - [`grid`]: the graph of intersections and the line segments between them.
//! - [`stars`]: the star points (hoshi) of a board.
//! - [`game`]: the Go game behind the board, played through the `goban` crate.
//! - [`events`]: what the pointer events on the board lead to.

pub mod grid;
pub mod stars;
pub mod game;
pub mod events;

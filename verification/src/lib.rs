//! A minesweeper board-simulation engine.
//!
//! The crate owns the grid of tiles, places mines by independent Bernoulli
//! trials, precomputes adjacency counts, and evolves the game in response to
//! discrete player actions (reveal, flag, chord). A [`session::GameSession`]
//! composes a [`board::Board`] with a [`timer::Timer`] behind a small state
//! machine (menu, running, win, lose). Rendering and input-device handling
//! are left to the host application, which translates device events into
//! tile indices and reads the session state back out.

pub mod board;
pub mod grid;
pub mod rng;
pub mod session;
pub mod tile;
pub mod timer;

//! A buffering layer for terminal output: drawing calls fill a grid of
//! styled cells, and a refresh yields the fewest writes that bring the
//! terminal up to date, one per run of changed cells of one style.

pub mod style;
pub mod buffer;
pub mod rect;
pub mod unicode;
pub mod backend;
pub mod runs;
pub mod place;
pub mod present;

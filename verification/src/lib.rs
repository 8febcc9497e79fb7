//! A rippling water surface: a double-buffered grid of heights that a wave
//! kernel advances frame by frame, and the grey pixels that show it.
//!
//! The library is generic in the type of a height. It walks the grid, keeps
//! the outer ring fixed, exchanges the generations and paints the pixels; the
//! arithmetic on heights comes from its caller, as a kernel that turns the
//! nine heights around a cell into the cell's next height.

pub mod color;
pub mod grid;
pub mod layout;
pub mod rain;
pub mod simulation;

pub use color::{grayscale, height_to_color};
pub use grid::Grid;
pub use layout::index;
pub use rain::random_interior_cell;
pub use simulation::{Config, Simulation, Stencil};

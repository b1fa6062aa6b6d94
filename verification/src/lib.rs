//! Escape-time fractal engine: partitioned computation of a pixel grid,
//! the cached field it produces, and the bookkeeping that recolours it
//! off the display loop.

pub mod color;
pub mod colorscheme;
pub mod compute;
pub mod control;
pub mod encoding;
pub mod field;
pub mod image;
pub mod math;
pub mod partition;
pub mod recolor;
pub mod solver;

//! Rhombic tilings by the multigrid method.
//!
//! A multigrid is `dimension` families of parallel lines. Each crossing of two
//! lines of different families is dual to one rhombus of the tiling. This crate
//! computes everything about that construction that is decided over integers:
//! which crossings exist and in what order they are visited, how the four
//! corners of a rhombus follow from the strip indices of its crossing, and to
//! which of the two shapes a rhombus belongs. It also draws the random offset
//! of each family, as an exact fraction. The caller supplies what needs real
//! numbers: for each crossing, whether the two lines are parallel, and if
//! not, the strip of every family in which they cross.
//!
//! The modules `geometry` and `solve` hold no code that runs. They state, in
//! exact arithmetic, where the corners lie in the plane and what the caller's
//! answers stand for, and prove what the tiling owes to both.

pub mod algebra;
pub mod cell;
pub mod classify;
pub mod error;
pub mod geometry;
pub mod grid;
pub mod offset;
pub mod rhombus;
pub mod solve;
pub mod tiling;

pub use cell::Cell;
pub use classify::{classify, Category};
pub use error::TilingError;
pub use grid::Grid;
pub use offset::{offsets_from_words, random_offsets, Offset};
pub use rhombus::{build_rhombus, corner_index, Rhombus};
pub use tiling::{generate, Crossing};

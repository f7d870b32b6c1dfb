//! Terminal graphics with Braille characters.
//!
//! A [`Canvas`] packs a grid of binary pixels into Braille cells: each cell
//! is one character of the Unicode Braille Patterns block, whose eight dots
//! are eight addressable pixels (two columns of four rows).
pub mod canvas;
pub mod dots;
pub mod laws;
pub mod text;

pub use canvas::{Canvas, CanvasError, CanvasModel};

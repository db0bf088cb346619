//! Drawing helpers for a character-cell display surface: rectangular frames in
//! single- or double-line box glyphs, and horizontal and vertical progress
//! bars in shaded-block glyphs. Every operation is a bounded sequence of cell
//! writes on a surface the caller supplies; the surface's own bounds policy is
//! never second-guessed here.

pub mod color;
pub mod console;
pub mod draw;
pub mod laws;

//! Text multiplication and line decoration for strings.
//!
//! `MultiPrint` repeats a text a number of times with a separator between the
//! copies; `Decorate` places lines of a repeated character over, under or
//! around a text to form headers and banners. Both are implemented for
//! `String`, and every length is counted in characters.

pub mod laws;
pub mod spec;
mod text;

pub use text::{Decorate, MultiPrint};

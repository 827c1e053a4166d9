//! A parser for a plain-text interactive-fiction script format: named
//! sections ("knots") of dialog lines that end either in a set of player
//! choices or in an unconditional jump ("divert") to another knot.
//!
//! The whole document is parsed in one pass into a [`model::Story`], or the
//! parse fails with a [`err::SyntaxError`] carrying a 1-indexed row/column
//! position and the grammar construct that was expected there.

pub mod err;
pub mod grammar;
pub mod laws;
pub mod model;
pub mod parser;
pub mod pos;
pub mod scan;
pub mod text;

//! Splits a template text into sections delimited by marker grapheme clusters.
pub mod index;
pub mod laws;
pub mod options;
pub mod scanner;
pub mod text;

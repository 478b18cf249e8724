//! Arithmetic worksheet problems: their kinds, their terms, how they are
//! generated at random and how a worksheet is written out as Typst source.
pub mod text;
pub mod problems;
pub mod generate;
pub mod sheet;
pub mod editor;
pub mod laws;
pub mod display_laws;

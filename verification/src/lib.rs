//! Composite glyph shapes, compiled from a small layout language into line
//! segments with exact rational coordinates.

pub mod compiler;
pub mod geometry;
pub mod lexer;
pub mod number;
pub mod parser;

pub use compiler::compile;

//! Character definitions: the layout expression, its annotations, and the
//! parser that reads both from tokens.

pub mod character;
pub mod parser;
pub mod syntax_tree;

pub use parser::Parser;
pub use syntax_tree::SyntaxTree;

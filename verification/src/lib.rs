//! An HTML parser: a tokenizer and a tree builder whose behaviour is stated in
//! contracts over mathematical models.
pub mod document;
pub mod entities;
pub mod errors;
pub mod parser;
pub mod text;
pub mod token;
pub mod tokenizer;
pub mod tree_builder;

pub use crate::document::{Attribute, Children, Document, Node, NodeId, NodeKind};
pub use crate::parser::{parse, ParseResult};
pub use crate::token::{ParseError, ParseErrorKind, Position};

//! The tokenizer: a state machine from characters to tokens.
pub mod attributes;
pub mod declarations;
pub mod dispatch;
pub mod machine;
pub mod marks;
pub mod model;
pub mod order;
pub mod places;
pub mod progress;
pub mod raw;
pub mod references;
pub mod run;
pub mod source;
pub mod states;
pub mod stream;
pub mod tags;
pub mod transitions;
pub mod writing;

pub use crate::token::{
    Attribute, DoctypeToken, ParseError, ParseErrorKind, Position, ProcessingInstructionToken,
    TagToken, Token, TokenKind,
};
pub use crate::tokenizer::machine::Tokenizer;
pub use crate::tokenizer::model::ExternalState;

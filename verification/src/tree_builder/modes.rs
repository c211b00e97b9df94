//! The rules of the insertion modes: what each of them does with a token, and
//! whether the token is used up by it.
pub mod after;
pub mod body;
pub mod common;
pub mod foreign;
pub mod head;
pub mod table;

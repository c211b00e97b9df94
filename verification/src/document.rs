//! The document tree: an arena of nodes linked to their parents, children and
//! siblings.
pub mod arena;
pub mod laws;
pub mod model;

pub use crate::document::arena::{Children, Document, Node};
pub use crate::document::model::{Attribute, NodeId, NodeKind};

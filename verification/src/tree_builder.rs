//! Tree construction: from tokens to a document tree.
pub mod adoption;
pub mod builder;
pub mod completeness;
pub mod copies;
pub mod elements;
pub mod formatting;
pub mod fostering;
pub mod frame;
pub mod growth;
pub mod insertion;
pub mod laws;
pub mod model;
pub mod modes;
pub mod names;
pub mod origins;
pub mod origins_rules;
pub mod parts;
pub mod placement;
pub mod placement_rules;
pub mod process;
pub mod progress;
pub mod quirks;
pub mod reopening;
pub mod select;
pub mod soundness;
pub mod spelling;
pub mod stack;
pub mod steps;
pub mod structure;
pub mod structure_adoption;
pub mod structure_closing;
pub mod structure_framed;
pub mod structure_head;
pub mod structure_modes;
pub mod structure_rules;
pub mod structure_steps;
pub mod structure_tables;

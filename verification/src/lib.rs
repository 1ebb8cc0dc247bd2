//! A manifest normalizer for a dotfile deployment tool: it turns a
//! dynamically shaped configuration tree into validated package records.

pub mod diagnostic;
pub mod laws;
pub mod links;
pub mod normalize;
pub mod outcome;
pub mod package;
pub mod targets;
pub mod value;

//! What holds of the library as a whole.

pub mod arguments;
pub mod fold;
pub mod groups;
pub mod independence;
pub mod language;
pub mod leaf;
pub mod lookup;
pub mod meaning;
pub mod names;
pub mod pieces;
pub mod predicates;
pub mod provenance;
pub mod quoting;
pub mod scope;
pub mod shape;
pub mod sql;
pub mod success;
pub mod views;

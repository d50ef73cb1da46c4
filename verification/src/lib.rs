//! Parses the client filter DSL into a specification tree and renders it into a
//! parameterised Postgres predicate.
//!
//! [`parse()`] checks a filter against a [`Schema`] and folds it into a [`Spec`];
//! [`render()`] puts the scope of the caller and the filter of the client together
//! and returns the SQL text with its arguments. What holds of both together
//! stands in [`laws`].

pub mod error;
pub mod filter;
pub mod json;
pub mod laws;
pub mod operator;
pub mod parse;
pub mod query;
pub mod quoting;
pub mod render;
pub mod schema;
pub mod text;
pub mod tree;

pub use error::Error;
pub use filter::{Conjunction, Node, Root};
pub use json::Json;
pub use operator::{is_valueless, positive_of, supports};
pub use parse::parse;
pub use query::{Query, ScopeFilter};
pub use quoting::{escape_like, identifier};
pub use render::render;
pub use schema::{Column, FieldType, Schema};
pub use tree::{leaves, Pred, Spec};

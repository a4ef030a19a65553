//! GraphQL syntax trees, their serialization to GraphQL text, schema checks
//! on input object definitions, and the grammar of directive definitions
//! with the rowan syntax tree it builds.
use vstd::prelude::*;

pub mod ast;
pub mod render;
pub mod render_laws;
pub mod serialize;
pub mod validation;
pub mod validation_laws;
pub mod parser;
pub mod grammar;
pub mod grammar_laws;
pub mod tree_laws;
pub mod syntax_tree;
pub mod layout_laws;
pub mod union;

verus! {
} // verus!

//! A small arithmetic expression language: tokens, the tree built from them,
//! and integer evaluation against a table of variables.
pub mod tree;
pub mod eval;
pub mod expression;
pub mod op_types;
pub mod parse;
pub mod precedence;
pub mod token;
pub mod variables;

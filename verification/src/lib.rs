//! Loader for "doctrine" configuration documents.
//!
//! A doctrine is a named grouping of categories, each holding an ordered
//! list of item (ship) names.  The loader turns a generic document tree
//! (see [`node::Node`]) into strongly typed [`doctrine::Doctrine`] values,
//! failing fast with a descriptive [`doctrine::ParseError`] on any
//! structural mismatch.

pub mod doctrine;
pub mod laws;
pub mod node;
pub mod render;

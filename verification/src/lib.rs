//! Publishes a tree of markdown documents as a hierarchy of pages in a
//! remote workspace: a block converter turns each document's syntax tree
//! into the destination's nested block representation, and a two-phase
//! synchronizer first creates every destination page (building a map from
//! source path to page identifier) and only then pushes content, so that
//! any document may link to any other regardless of traversal order.

pub mod args;
pub mod blocks;
pub mod convert;
pub mod errors;
pub mod external;
pub mod language;
pub mod pages;
pub mod pathmap;
pub mod search;
pub mod settings;
pub mod sync;
pub mod text;

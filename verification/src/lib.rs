//! Verified documentation-site generator for a single synthetic module of
//! type declarations.
//!
//! The pipeline builds a dependency-resolved declaration graph from raw
//! declaration text, extracts documentable symbols (flattening re-exports),
//! partitions them for navigation, resolves navigation targets to
//! site-relative URLs, renders each view to an HTML fragment and assembles a
//! deterministic virtual file tree. Reading the declaration text and writing
//! the tree to disk are left to the surrounding program.

pub mod decl;
pub mod extract;
pub mod graph;
pub mod href;
pub mod parse;
pub mod partition;
pub mod pipeline;
pub mod render;

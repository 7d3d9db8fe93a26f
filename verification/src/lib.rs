//! Codebase Explorer: project scanning, source analysis, search and
//! documentation for local code bases.
pub mod ai;
pub mod analysis;
pub mod digest;
pub mod documentation;
pub mod languages;
pub mod order;
pub mod project;
pub mod search;
pub mod text;

pub mod cache;
pub mod commands;
pub mod manifests;
pub mod parser;
pub mod relationships;
pub mod source_text;
pub mod statistics;
pub mod syntax;
pub mod tree;
pub mod types;

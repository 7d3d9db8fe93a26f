pub mod builder;
pub mod index;
pub mod types;

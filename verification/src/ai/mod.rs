pub mod context;
pub mod settings;
pub mod types;

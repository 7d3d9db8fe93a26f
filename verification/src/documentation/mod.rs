pub mod export;
pub mod pdf;
pub mod generator;
pub mod types;

pub mod types;
pub mod paths;
pub mod scanner;

pub mod error;
pub mod types;

pub mod client;
pub mod config;
pub mod decimal;
pub mod error;
pub mod json;
pub mod types;

pub mod config;
pub mod json;

pub mod types;
pub mod service;

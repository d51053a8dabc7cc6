pub mod types;
pub mod manifest;
pub mod registry;

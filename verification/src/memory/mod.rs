pub mod types;
pub mod format;
pub mod direct;
pub mod extract;
pub mod retrieve;
pub mod store;

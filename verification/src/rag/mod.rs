pub mod types;
pub mod retrieve;
pub mod agent;
pub mod prompt;
pub mod verify;
pub mod context;
pub mod answer;

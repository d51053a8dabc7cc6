pub mod query_plan;
pub mod health;
pub mod indexer;
pub mod fusion;

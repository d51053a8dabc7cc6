pub mod pack;
pub mod heuristic;

pub mod gpu;
pub mod generation;

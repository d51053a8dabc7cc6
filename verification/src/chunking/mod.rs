pub mod types;
pub mod util;
pub mod recursive;
pub mod hierarchy;
pub mod chunker;

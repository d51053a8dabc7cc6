pub mod types;
pub mod graph_types;
pub mod structure;
pub mod entities;
pub mod importers;

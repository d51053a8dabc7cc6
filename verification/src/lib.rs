pub mod text;
pub mod offsets;
pub mod ids;
pub mod patterns;
pub mod chunking;
pub mod config;
pub mod documents;
pub mod error;
pub mod model;
pub mod memory;
pub mod cite;
pub mod rag;
pub mod search;
pub mod rerank;
pub mod llm;
pub mod extensions;
pub mod doctor;
pub mod payloads;
pub mod laws;
pub mod guarantees;

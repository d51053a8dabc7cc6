use vstd::prelude::*;

verus! {

/// How documents are cut into chunks, in tokens.
#[derive(Clone, Copy, Debug)]
pub struct ChunkingConfig {
    pub max_tokens: u32,
    pub overlap_tokens: u32,
}

impl Default for ChunkingConfig {
    /// 512 tokens per chunk with 64 tokens of overlap.
    fn default() -> (r: ChunkingConfig)
        ensures
            r.max_tokens == 512,
            r.overlap_tokens == 64,
    {
        ChunkingConfig { max_tokens: 512, overlap_tokens: 64 }
    }
}

/// How retrieval sizes its work.
#[derive(Clone, Copy, Debug)]
pub struct RetrievalConfig {
    pub max_query_variants: u32,
    pub retrieval_context_budget_pct: u32,
    pub candidate_pool_size: usize,
}

impl Default for RetrievalConfig {
    /// Three query variants, 60% of the context for retrieval, 50 candidates.
    fn default() -> (r: RetrievalConfig)
        ensures
            r.max_query_variants == 3,
            r.retrieval_context_budget_pct == 60,
            r.candidate_pool_size == 50,
    {
        RetrievalConfig { max_query_variants: 3, retrieval_context_budget_pct: 60, candidate_pool_size: 50 }
    }
}

} // verus!

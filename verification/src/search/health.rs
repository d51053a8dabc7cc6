use vstd::prelude::*;
use vstd::string::*;

use crate::text::{decimal, decimal_chars, string_from};

verus! {

/// The state of the search index.
#[derive(Clone, Debug)]
pub struct IndexHealth {
    pub chunk_count: u32,
    pub vector_count: usize,
    pub lexical_count: usize,
    pub indexed: bool,
    pub embedding_loaded: bool,
    pub embedding_model_path: Option<String>,
    pub message: String,
}

/// What the index health says: the embedding model is missing; no document is imported; the
/// index is incomplete (something was indexed but not finished) or absent; or how much it
/// holds.
pub open spec fn spec_health_message(
    embedding_loaded: bool,
    chunks: nat,
    indexed: bool,
    lexical: nat,
    vectors: nat,
) -> Seq<char> {
    if !embedding_loaded {
        "Embedding model not loaded — set a .gguf embedding file in Settings and save config."@
    } else if chunks == 0 {
        "No documents imported yet."@
    } else if !indexed {
        if lexical > 0 || vectors > 0 {
            "Index incomplete — rebuild the index after embedding model is loaded."@
        } else {
            "Not indexed — import documents, then build or rebuild the index."@
        }
    } else {
        "Indexed "@ + decimal(chunks) + " chunks ("@ + decimal(vectors) + " vectors, "@ + decimal(
            lexical,
        ) + " lexical docs)."@
    }
}

/// The health of the index from what was counted: chunks in the pool, vectors, lexical
/// documents, whether the pool was marked indexed and whether the embedding model is loaded.
pub fn index_health(
    chunk_count: usize,
    vector_count: usize,
    lexical_count: usize,
    indexed: bool,
    embedding_loaded: bool,
    embedding_model_path: Option<String>,
) -> (r: IndexHealth)
    ensures
        r.chunk_count == chunk_count as u32,
        r.vector_count == vector_count,
        r.lexical_count == lexical_count,
        r.indexed == indexed,
        r.embedding_loaded == embedding_loaded,
        r.embedding_model_path == embedding_model_path,
        r.message@ == spec_health_message(
            embedding_loaded,
            chunk_count as nat,
            indexed,
            lexical_count as nat,
            vector_count as nat,
        ),
{
    let message = if !embedding_loaded {
        String::from_str("Embedding model not loaded — set a .gguf embedding file in Settings and save config.")
    } else if chunk_count == 0 {
        String::from_str("No documents imported yet.")
    } else if !indexed {
        if lexical_count > 0 || vector_count > 0 {
            String::from_str("Index incomplete — rebuild the index after embedding model is loaded.")
        } else {
            String::from_str("Not indexed — import documents, then build or rebuild the index.")
        }
    } else {
        let mut m = String::from_str("Indexed ");
        m.append(string_from(decimal_chars(chunk_count as u64).as_slice()).as_str());
        m.append(" chunks (");
        m.append(string_from(decimal_chars(vector_count as u64).as_slice()).as_str());
        m.append(" vectors, ");
        m.append(string_from(decimal_chars(lexical_count as u64).as_slice()).as_str());
        m.append(" lexical docs).");
        m
    };
    #[verifier::truncate]
    let cc = chunk_count as u32;
    IndexHealth {
        chunk_count: cc,
        vector_count,
        lexical_count,
        indexed,
        embedding_loaded,
        embedding_model_path,
        message,
    }
}

} // verus!

use vstd::prelude::*;

use crate::chunking::types::Chunk;
use crate::cite::types::Citation;
use crate::documents::graph_types::opt_view;
use crate::documents::types::str_eq;
use crate::text::{lower_str, lowercase, chars_eq, chars_of};
pub use crate::search::fusion::{spec_source_type_str, SourceType};

verus! {

/// How thoroughly to retrieve.
#[derive(Clone, Copy, Debug, PartialEq, Eq, Structural)]
pub enum RetrievalMode {
    Fast,
    Balanced,
    Thorough,
    Deep,
    CorpusMap,
}

/// The mode a lower-cased name selects; any other name selects `Balanced`.
pub open spec fn mode_of_lower(s: Seq<char>) -> RetrievalMode {
    if s == "fast"@ {
        RetrievalMode::Fast
    } else if s == "thorough"@ {
        RetrievalMode::Thorough
    } else if s == "deep"@ {
        RetrievalMode::Deep
    } else if s == "corpus-map"@ || s == "corpusmap"@ || s == "corpus_map"@ {
        RetrievalMode::CorpusMap
    } else {
        RetrievalMode::Balanced
    }
}

/// The retrieval parameters of a mode: vector k, lexical k, whether to rerank, the most
/// chunks kept, the most query variants, and whether a second pass may run.
pub open spec fn spec_mode_params(m: RetrievalMode) -> (usize, usize, bool, usize, usize, bool) {
    match m {
        RetrievalMode::Fast => (20, 20, false, 5, 1, false),
        RetrievalMode::Balanced => (50, 50, true, 10, 3, false),
        RetrievalMode::Thorough => (50, 50, true, 15, 3, false),
        RetrievalMode::Deep => (50, 50, true, 12, 5, true),
        RetrievalMode::CorpusMap => (25, 25, false, 0, 1, false),
    }
}

/// Whether a sequence of characters equals a literal.
fn eq_lit(a: &[char], b: &str) -> (r: bool)
    ensures
        r == (a@ == b@),
{
    let bc = chars_of(b);
    chars_eq(a, bc.as_slice())
}

impl RetrievalMode {
    /// The mode named by `s`, compared lower-cased (`corpus-map`, `corpusmap` and
    /// `corpus_map` all name the corpus map); an unknown name gives `Balanced`.
    pub fn from_str(s: &str) -> (r: RetrievalMode)
        ensures
            r == mode_of_lower(lowercase(s@)),
    {
        let l = lower_str(s);
        let ls = l.as_slice();
        if eq_lit(ls, "fast") {
            RetrievalMode::Fast
        } else if eq_lit(ls, "thorough") {
            RetrievalMode::Thorough
        } else if eq_lit(ls, "deep") {
            RetrievalMode::Deep
        } else if eq_lit(ls, "corpus-map") || eq_lit(ls, "corpusmap") || eq_lit(ls, "corpus_map") {
            RetrievalMode::CorpusMap
        } else {
            RetrievalMode::Balanced
        }
    }

    /// `(vector_k, lexical_k, rerank, max_chunks, query_variants, iterative)`.
    pub fn params(&self) -> (r: (usize, usize, bool, usize, usize, bool))
        ensures
            r == spec_mode_params(*self),
    {
        match self {
            RetrievalMode::Fast => (20, 20, false, 5, 1, false),
            RetrievalMode::Balanced => (50, 50, true, 10, 3, false),
            RetrievalMode::Thorough => (50, 50, true, 15, 3, false),
            RetrievalMode::Deep => (50, 50, true, 12, 5, true),
            RetrievalMode::CorpusMap => (25, 25, false, 0, 1, false),
        }
    }
}

/// Restrictions on which chunks a retrieval may return.
#[derive(Clone, Debug)]
pub struct RetrievalFilters {
    pub document_ids: Vec<String>,
    pub file_types: Vec<String>,
    pub page_min: Option<u32>,
    pub page_max: Option<u32>,
    pub section_prefix: Option<String>,
    pub entity_match: Option<String>,
}

impl Default for RetrievalFilters {
    fn default() -> (r: Self)
        ensures
            r.document_ids@.len() == 0,
            r.file_types@.len() == 0,
            r.page_min is None,
            r.page_max is None,
            r.section_prefix is None,
            r.entity_match is None,
    {
        RetrievalFilters {
            document_ids: Vec::new(),
            file_types: Vec::new(),
            page_min: None,
            page_max: None,
            section_prefix: None,
            entity_match: None,
        }
    }
}

/// A retrieved chunk with how it was found. The fused score and the rerank score are carried
/// as the bit patterns of their 64-bit floats.
#[derive(Clone, Debug)]
pub struct RankedChunk {
    pub chunk: Chunk,
    pub score_bits: u64,
    pub source_type: String,
    pub source_number: Option<u32>,
    pub rerank_score_bits: Option<u64>,
    pub expanded_context: Option<String>,
}

/// One document-level theme of a corpus map.
#[derive(Clone, Debug)]
pub struct ThemeEntry {
    pub document_id: String,
    pub title: String,
    pub summary: String,
}

/// How often an entity value occurs.
#[derive(Clone, Debug)]
pub struct EntityFrequency {
    pub value: String,
    pub count: u32,
}

/// One section of a corpus map.
#[derive(Clone, Debug)]
pub struct SectionEntry {
    pub document_id: String,
    pub heading_path: String,
    pub summary: Option<String>,
}

/// An overview of the whole corpus.
#[derive(Clone, Debug)]
pub struct CorpusMapResult {
    pub themes: Vec<ThemeEntry>,
    pub entities: Vec<EntityFrequency>,
    pub sections: Vec<SectionEntry>,
    pub related_chunks: Vec<RankedChunk>,
}

/// A sentence of an answer whose citation does not hold up.
#[derive(Clone, Debug)]
pub struct UnsupportedClaim {
    pub sentence: String,
    pub cited_source: Option<u32>,
    pub reason: String,
}

/// The mathematical value of an [`UnsupportedClaim`].
pub struct UnsupportedClaimView {
    pub sentence: Seq<char>,
    pub cited_source: Option<u32>,
    pub reason: Seq<char>,
}

impl View for UnsupportedClaim {
    type V = UnsupportedClaimView;

    open spec fn view(&self) -> UnsupportedClaimView {
        UnsupportedClaimView {
            sentence: self.sentence@,
            cited_source: self.cited_source,
            reason: self.reason@,
        }
    }
}

/// The views of claims.
pub open spec fn claims_view(v: Seq<UnsupportedClaim>) -> Seq<UnsupportedClaimView> {
    v.map_values(|c: UnsupportedClaim| c@)
}

/// An answer with its citations and what was retrieved for it.
#[derive(Clone, Debug)]
pub struct RagAnswer {
    pub text: String,
    pub citations: Vec<Citation>,
    pub dangling_citations: Vec<u32>,
    pub uncited_warning: bool,
    pub unsupported_claims: Vec<UnsupportedClaim>,
    pub retrieved_chunks: Vec<RankedChunk>,
    pub prompt: String,
    pub query_variants: Vec<String>,
    pub corpus_map: Option<CorpusMapResult>,
}

} // verus!

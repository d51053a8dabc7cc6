use vstd::prelude::*;

use crate::cite::service::{citation_view, citations_view, dangling_of, citation_numbers, source_marker_numbers, CitationService, DefaultCitationService};
use crate::cite::types::Citation;
use crate::memory::types::Memory;
use crate::patterns::{find_match_spans, regex_spans};
use crate::rag::types::{claims_view, CorpusMapResult, RagAnswer, RankedChunk, UnsupportedClaim};
use crate::rag::verify::{spec_verify, CitationVerifier};

verus! {

/// A memory citation marker, `[Memory N]`.
pub const MEMORY_CITATION_PATTERN: &'static str = "\\[Memory\\s+\\d+\\]";

/// What checking an answer's citations found.
#[derive(Clone, Debug)]
pub struct RagVerification {
    pub resolved_citations: Vec<Citation>,
    pub dangling_citations: Vec<u32>,
    pub uncited_warning: bool,
    pub unsupported_claims: Vec<UnsupportedClaim>,
}

/// The text cites a memory somewhere.
pub open spec fn spec_has_memory_citations(text: Seq<char>) -> bool {
    match regex_spans(MEMORY_CITATION_PATTERN@, text) {
        Some(v) => v.len() > 0,
        None => false,
    }
}

/// Whether the text cites a memory.
pub fn has_memory_citations(text: &str) -> (r: bool)
    ensures
        r == spec_has_memory_citations(text@),
{
    match find_match_spans(MEMORY_CITATION_PATTERN, text) {
        Some(v) => v.len() > 0,
        None => false,
    }
}

/// Checks an answer: the citations it uses, the numbers it cites that do not exist, whether
/// it cites nothing though there were sources or memories (no resolved source and no memory
/// marker), and the claims whose citations do not hold up.
pub fn verify_response(text: &str, citations: &[Citation], chunks: &[RankedChunk], memories: &[Memory]) -> (r:
    RagVerification)
    ensures
        citations_view(r.resolved_citations@) == citations_view(citations@).filter(
            |c: (u32, Seq<char>, Seq<char>, Option<u32>, Option<Seq<char>>, Seq<char>, u64, Seq<char>)|
                source_marker_numbers(text@).contains(c.0),
        ),
        r.dangling_citations@ == dangling_of(source_marker_numbers(text@), citation_numbers(citations@)),
        r.uncited_warning == ((citations@.len() > 0 || memories@.len() > 0) && r.resolved_citations@.len()
            == 0 && !spec_has_memory_citations(text@)),
        claims_view(r.unsupported_claims@) == spec_verify(text@, citations@, chunks@, memories@),
{
    let svc = DefaultCitationService;
    let parsed = svc.parse_markers(text, citations);
    let has_memory = has_memory_citations(text);
    let uncited_warning = (citations.len() != 0 || memories.len() != 0) && parsed.resolved.len() == 0
        && !has_memory;
    let unsupported_claims = CitationVerifier::verify(text, citations, chunks, memories);
    RagVerification {
        resolved_citations: parsed.resolved,
        dangling_citations: parsed.dangling,
        uncited_warning,
        unsupported_claims,
    }
}


/// The reply of the corpus-map mode: a pointer to the structured overview, which the answer
/// carries, and the query variants; nothing cited or retrieved.
pub fn corpus_map_answer(query_variants: Vec<String>, corpus_map: CorpusMapResult) -> (r: RagAnswer)
    ensures
        r.text@ == "Corpus Map mode returns structured overview; use the corpus_map field."@,
        r.citations@.len() == 0,
        r.dangling_citations@.len() == 0,
        !r.uncited_warning,
        r.unsupported_claims@.len() == 0,
        r.retrieved_chunks@.len() == 0,
        r.prompt@.len() == 0,
        r.query_variants == query_variants,
        r.corpus_map == Some(corpus_map),
{
    RagAnswer {
        text: String::from_str("Corpus Map mode returns structured overview; use the corpus_map field."),
        citations: Vec::new(),
        dangling_citations: Vec::new(),
        uncited_warning: false,
        unsupported_claims: Vec::new(),
        retrieved_chunks: Vec::new(),
        prompt: String::new(),
        query_variants,
        corpus_map: Some(corpus_map),
    }
}

/// A generated answer with what checking it found: the resolved and dangling citations, the
/// warning and the unsupported claims, beside the chunks, the prompt and the query variants.
pub fn verified_answer(
    text: String,
    verification: RagVerification,
    retrieved_chunks: Vec<RankedChunk>,
    prompt: String,
    query_variants: Vec<String>,
) -> (r: RagAnswer)
    ensures
        r.text == text,
        r.citations == verification.resolved_citations,
        r.dangling_citations == verification.dangling_citations,
        r.uncited_warning == verification.uncited_warning,
        r.unsupported_claims == verification.unsupported_claims,
        r.retrieved_chunks == retrieved_chunks,
        r.prompt == prompt,
        r.query_variants == query_variants,
        r.corpus_map is None,
{
    RagAnswer {
        text,
        citations: verification.resolved_citations,
        dangling_citations: verification.dangling_citations,
        uncited_warning: verification.uncited_warning,
        unsupported_claims: verification.unsupported_claims,
        retrieved_chunks,
        prompt,
        query_variants,
        corpus_map: None,
    }
}

} // verus!

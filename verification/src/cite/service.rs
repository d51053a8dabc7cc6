use vstd::prelude::*;
use vstd::string::*;

use crate::cite::types::{Citation, CitationParseResult};
use crate::documents::graph_types::opt_view;
use crate::patterns::{char_index_of_byte_exec, find_capture_spans, lemma_char_index_mono, regex_group_spans};
use crate::rag::prompt::{prefix_chars, prefix_string};
use crate::rag::types::RankedChunk;
use crate::rag::verify::{byte_slice, SOURCE_MARKER_PATTERN};
use crate::text::{chars_of, parse_u32, parse_u32_chars, slice_to_vec};

verus! {

/// The values of a citation.
pub open spec fn citation_view(c: Citation) -> (u32, Seq<char>, Seq<char>, Option<u32>, Option<Seq<char>>, Seq<char>, u64, Seq<char>) {
    (
        c.source_number,
        c.document_id@,
        c.original_filename@,
        c.page_number,
        opt_view(c.section_title),
        c.chunk_preview@,
        c.score_bits,
        c.collection_name@,
    )
}

/// The values of citations.
pub open spec fn citations_view(v: Seq<Citation>) -> Seq<(u32, Seq<char>, Seq<char>, Option<u32>, Option<Seq<char>>, Seq<char>, u64, Seq<char>)> {
    v.map_values(|c: Citation| citation_view(c))
}

/// The citation of the `i`-th retrieved chunk, numbered `i + 1`.
pub open spec fn citation_of(i: int, rc: RankedChunk, collection: Seq<char>) -> (u32, Seq<char>, Seq<char>, Option<u32>, Option<Seq<char>>, Seq<char>, u64, Seq<char>) {
    (
        (i + 1) as u32,
        rc.chunk.document_id.0@,
        rc.chunk.source_filename@,
        rc.chunk.page_number,
        opt_view(rc.chunk.section_title),
        prefix_chars(rc.chunk.text@, 500),
        rc.score_bits,
        collection,
    )
}

/// The numbers of the markers of a text from the `i`-th match on, in order: for each match
/// whose first group parses as a number.
pub open spec fn marker_numbers_from(text: Seq<char>, caps: Seq<Seq<Option<(usize, usize)>>>, i: int) -> Seq<u32>
    decreases caps.len() - i,
{
    if i < 0 || i >= caps.len() {
        Seq::empty()
    } else {
        let g = caps[i];
        let rest = marker_numbers_from(text, caps, i + 1);
        if g.len() < 2 || g[1] is None {
            rest
        } else {
            match parse_u32(byte_slice(text, (g[1]->0).0 as int, (g[1]->0).1 as int)) {
                Some(n) => seq![n] + rest,
                None => rest,
            }
        }
    }
}

/// The numbers of the `[Source N]` markers of a response, in order.
pub open spec fn source_marker_numbers(text: Seq<char>) -> Seq<u32> {
    match regex_group_spans(SOURCE_MARKER_PATTERN@, text) {
        None => Seq::empty(),
        Some(caps) => marker_numbers_from(text, caps, 0),
    }
}

/// The numbers of `ns` that are not cited, each once, in order of first occurrence.
pub open spec fn dangling_of(ns: Seq<u32>, cited: Set<u32>) -> Seq<u32>
    decreases ns.len(),
{
    if ns.len() == 0 {
        Seq::empty()
    } else {
        let d = dangling_of(ns.drop_last(), cited);
        if cited.contains(ns.last()) || d.contains(ns.last()) {
            d
        } else {
            d.push(ns.last())
        }
    }
}

/// The numbers the citations carry.
pub open spec fn citation_numbers(cs: Seq<Citation>) -> Set<u32> {
    Set::new(|n: u32| exists|k: int| 0 <= k < cs.len() && (#[trigger] cs[k]).source_number == n)
}

/// Assembles citations and checks the markers of answers against them.
pub trait CitationService {
    /// The citations of retrieved chunks.
    fn assemble_sources(&self, chunks: &[RankedChunk], collection_name: &str) -> Vec<Citation>;

    /// The citations an answer uses, the numbers it cites that do not exist, and whether it
    /// cites nothing though there were sources.
    fn parse_markers(&self, response: &str, citations: &[Citation]) -> CitationParseResult;
}

/// The citation service of the library.
pub struct DefaultCitationService;

/// Copies a citation.
fn clone_citation(c: &Citation) -> (r: Citation)
    ensures
        citation_view(r) == citation_view(*c),
{
    Citation {
        source_number: c.source_number,
        document_id: c.document_id.clone(),
        original_filename: c.original_filename.clone(),
        page_number: c.page_number,
        section_title: match &c.section_title {
            Some(s) => Some(s.clone()),
            None => None,
        },
        chunk_preview: c.chunk_preview.clone(),
        score_bits: c.score_bits,
        collection_name: c.collection_name.clone(),
    }
}

/// Whether `v` holds `n`.
fn holds_number(v: &Vec<u32>, n: u32) -> (r: bool)
    ensures
        r == v@.contains(n),
{
    let mut i: usize = 0;
    while i < v.len()
        invariant
            i <= v@.len(),
            forall|j: int| 0 <= j < i ==> v@[j] != n,
        decreases v@.len() - i,
    {
        if v[i] == n {
            assert(v@[i as int] == n);
            return true;
        }
        i += 1;
    }
    false
}

/// The numbers of the `[Source N]` markers of a response, in order.
pub fn marker_numbers(response: &str) -> (r: Vec<u32>)
    ensures
        r@ == source_marker_numbers(response@),
{
    let caps = match find_capture_spans(SOURCE_MARKER_PATTERN, response) {
        Some(c) => c,
        None => return Vec::new(),
    };
    let ghost gs = caps@.map_values(|g: Vec<Option<(usize, usize)>>| g@);
    let cs = chars_of(response);
    let s = cs.as_slice();
    let mut nums: Vec<u32> = Vec::new();
    let mut i: usize = 0;
    while i < caps.len()
        invariant
            i <= caps@.len(),
            s@ == response@,
            gs == caps@.map_values(|g: Vec<Option<(usize, usize)>>| g@),
            crate::patterns::captures_ordered(gs),
            nums@ + marker_numbers_from(s@, gs, i as int) == marker_numbers_from(s@, gs, 0),
        decreases caps@.len() - i,
    {
        let g = &caps[i];
        assert(g@ == gs[i as int]);
        let ghost before = nums@;
        if g.len() >= 2 {
            match g[1] {
                Some(grp) => {
                    proof {
                        assert(gs[i as int][1] is Some);
                        lemma_char_index_mono(s@, 0, 0, grp.0 as int, grp.1 as int);
                    }
                    let a = char_index_of_byte_exec(s, grp.0);
                    let b = char_index_of_byte_exec(s, grp.1);
                    let t = slice_to_vec(&s[a..b]);
                    match parse_u32_chars(t.as_slice()) {
                        Some(n) => {
                            nums.push(n);
                            assert(nums@ + marker_numbers_from(s@, gs, i as int + 1) =~= before + (
                            seq![n] + marker_numbers_from(s@, gs, i as int + 1)));
                        },
                        None => {},
                    }
                },
                None => {},
            }
        }
        i += 1;
    }
    assert(nums@ + Seq::<u32>::empty() == nums@);
    nums
}

impl CitationService for DefaultCitationService {
    fn assemble_sources(&self, chunks: &[RankedChunk], collection_name: &str) -> (r: Vec<Citation>)
        ensures
            r@.len() == chunks@.len(),
            forall|i: int|
                0 <= i < r@.len() ==> citation_view(#[trigger] r@[i]) == citation_of(
                    i,
                    chunks@[i],
                    collection_name@,
                ),
    {
        let mut out: Vec<Citation> = Vec::new();
        let mut i: usize = 0;
        while i < chunks.len()
            invariant
                i <= chunks@.len(),
                out@.len() == i,
                forall|k: int|
                    0 <= k < i ==> citation_view(#[trigger] out@[k]) == citation_of(
                        k,
                        chunks@[k],
                        collection_name@,
                    ),
            decreases chunks@.len() - i,
        {
            let rc = &chunks[i];
            #[verifier::truncate]
            let number = (i + 1) as u32;
            out.push(
                Citation {
                    source_number: number,
                    document_id: rc.chunk.document_id.0.clone(),
                    original_filename: rc.chunk.source_filename.clone(),
                    page_number: rc.chunk.page_number,
                    section_title: match &rc.chunk.section_title {
                        Some(s) => Some(s.clone()),
                        None => None,
                    },
                    chunk_preview: prefix_string(rc.chunk.text.as_str(), 500),
                    score_bits: rc.score_bits,
                    collection_name: String::from_str(collection_name),
                },
            );
            i += 1;
        }
        out
    }

    fn parse_markers(&self, response: &str, citations: &[Citation]) -> (r: CitationParseResult)
        ensures
            citations_view(r.resolved@) == citations_view(citations@).filter(
                |c: (u32, Seq<char>, Seq<char>, Option<u32>, Option<Seq<char>>, Seq<char>, u64, Seq<char>)|
                    source_marker_numbers(response@).contains(c.0),
            ),
            r.dangling@ == dangling_of(source_marker_numbers(response@), citation_numbers(citations@)),
            r.uncited_warning == (citations@.len() > 0 && source_marker_numbers(response@).len() == 0),
    {
        let found = marker_numbers(response);
        let ghost pred = |c: (u32, Seq<char>, Seq<char>, Option<u32>, Option<Seq<char>>, Seq<char>, u64, Seq<char>)|
            found@.contains(c.0);
        let ghost cv = citations_view(citations@);
        let mut resolved: Vec<Citation> = Vec::new();
        let mut valid: Vec<u32> = Vec::new();
        let mut i: usize = 0;
        while i < citations.len()
            invariant
                i <= citations@.len(),
                cv == citations_view(citations@),
                pred == (|c: (u32, Seq<char>, Seq<char>, Option<u32>, Option<Seq<char>>, Seq<char>, u64, Seq<char>)|
                    found@.contains(c.0)),
                citations_view(resolved@) == cv.take(i as int).filter(pred),
                valid@ == citations@.take(i as int).map_values(|c: Citation| c.source_number),
            decreases citations@.len() - i,
        {
            let c = &citations[i];
            let ghost before = citations_view(resolved@);
            proof {
                reveal(Seq::filter);
                let t = cv.take(i as int + 1);
                assert(t.drop_last() == cv.take(i as int));
                assert(t.last() == cv[i as int]);
            }
            if holds_number(&found, c.source_number) {
                resolved.push(clone_citation(c));
                assert(citations_view(resolved@) =~= before.push(cv[i as int]));
            }
            valid.push(c.source_number);
            assert(citations@.take(i as int + 1).map_values(|c: Citation| c.source_number) =~= citations@.take(
                i as int,
            ).map_values(|c: Citation| c.source_number).push(c.source_number));
            i += 1;
        }
        assert(cv.take(cv.len() as int) == cv);
        assert(citations@.take(citations@.len() as int) == citations@);
        let ghost cited = citation_numbers(citations@);
        assert forall|n: u32| valid@.contains(n) <==> cited.contains(n) by {
            if valid@.contains(n) {
                let k = choose|k: int| 0 <= k < valid@.len() && valid@[k] == n;
                assert(citations@[k].source_number == n);
            }
            if cited.contains(n) {
                let k = choose|k: int| 0 <= k < citations@.len() && (#[trigger] citations@[k]).source_number == n;
                assert(valid@[k] == n);
            }
        }
        let mut dangling: Vec<u32> = Vec::new();
        let mut j: usize = 0;
        while j < found.len()
            invariant
                j <= found@.len(),
                forall|n: u32| valid@.contains(n) <==> cited.contains(n),
                dangling@ == dangling_of(found@.take(j as int), cited),
            decreases found@.len() - j,
        {
            let n = found[j];
            proof {
                let t = found@.take(j as int + 1);
                assert(t.drop_last() == found@.take(j as int));
                assert(t.last() == n);
            }
            if !holds_number(&valid, n) && !holds_number(&dangling, n) {
                dangling.push(n);
            }
            j += 1;
        }
        assert(found@.take(found@.len() as int) == found@);
        let uncited_warning = citations.len() != 0 && found.len() == 0;
        CitationParseResult { resolved, dangling, uncited_warning }
    }
}

} // verus!

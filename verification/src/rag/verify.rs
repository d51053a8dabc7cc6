use vstd::prelude::*;
use vstd::string::*;

use crate::cite::types::Citation;
use crate::memory::format::memory_for_number;
use crate::memory::types::Memory;
use crate::patterns::{
    captures_ordered, char_index_of_byte, char_index_of_byte_exec, find_capture_spans,
    lemma_char_index_from_bounds, lemma_char_index_mono, regex_group_spans,
};
use crate::rag::types::{claims_view, RankedChunk, UnsupportedClaim, UnsupportedClaimView};
use crate::text::{
    chars_of, contains, contains_chars, lower_str, lowercase, parse_u32, parse_u32_chars,
    slice_to_vec, split_whitespace_chars, string_from, trim, trim_by, trim_chars, trim_chars_by,
    utf8_len, utf8_len_exec, words, CharClass,
};

verus! {

/// The marker of a citation of a source.
pub const SOURCE_MARKER_PATTERN: &'static str = "\\[Source\\s+(\\d+)\\]";

/// The marker of a citation of a memory.
pub const MEMORY_MARKER_PATTERN: &'static str = "\\[Memory\\s+(\\d+)\\]";

/// A claim term: a word trimmed of non-alphanumeric characters at both ends.
pub open spec fn claim_term(w: Seq<char>) -> Seq<char> {
    trim_by(w, CharClass::NotAlphanumeric)
}

/// The terms longer than four bytes of a list of words, in order.
pub open spec fn claim_terms_of(ws: Seq<Seq<char>>) -> Seq<Seq<char>>
    decreases ws.len(),
{
    if ws.len() == 0 {
        Seq::empty()
    } else {
        claim_terms_of(ws.drop_last()) + (if utf8_len(claim_term(ws.last())) > 4 {
            seq![claim_term(ws.last())]
        } else {
            Seq::empty()
        })
    }
}

/// How many of the terms occur in `source`.
pub open spec fn count_in(ts: Seq<Seq<char>>, source: Seq<char>) -> nat
    decreases ts.len(),
{
    if ts.len() == 0 {
        0
    } else {
        count_in(ts.drop_last(), source) + (if contains(source, ts.last()) {
            1nat
        } else {
            0nat
        })
    }
}

/// A claim is supported by a source text when it has no term longer than four bytes, or
/// when at least 35% of those terms occur in the lower-cased source.
pub open spec fn spec_claim_supported(claim: Seq<char>, source: Seq<char>) -> bool {
    let ts = claim_terms_of(words(lowercase(claim)));
    ts.len() == 0 || 20 * count_in(ts, lowercase(source)) >= 7 * ts.len()
}

/// Whether the claim's terms overlap the source text enough (see [`spec_claim_supported`]).
pub fn claim_supported(claim: &str, source_text: &str) -> (r: bool)
    ensures
        r == spec_claim_supported(claim@, source_text@),
{
    let cl = lower_str(claim);
    let sl = lower_str(source_text);
    let ws = split_whitespace_chars(cl.as_slice());
    let ghost wv = ws@.map_values(|v: Vec<char>| v@);
    let ghost src = sl@;
    let mut n_terms: usize = 0;
    let mut matched: usize = 0;
    let ghost mut terms: Seq<Seq<char>> = Seq::empty();
    let mut i: usize = 0;
    while i < ws.len()
        invariant
            i <= ws@.len(),
            wv == ws@.map_values(|v: Vec<char>| v@),
            src == sl@,
            terms == claim_terms_of(wv.take(i as int)),
            n_terms == terms.len(),
            matched == count_in(terms, src),
            matched <= n_terms <= i,
        decreases ws@.len() - i,
    {
        assert(wv[i as int] == ws@[i as int]@);
        let t = trim_chars_by(ws[i].as_slice(), CharClass::NotAlphanumeric);
        let ghost before = terms;
        if utf8_len_exec(t.as_slice()) > 4 {
            n_terms += 1;
            if contains_chars(sl.as_slice(), t.as_slice()) {
                matched += 1;
            }
            proof {
                terms = terms.push(t@);
                assert(terms.drop_last() == before);
            }
        }
        proof {
            let tk = wv.take(i as int + 1);
            assert(tk.drop_last() == wv.take(i as int));
            assert(tk.last() == wv[i as int]);
            if !(utf8_len(t@) > 4) {
                assert(terms == before + Seq::<Seq<char>>::empty());
            } else {
                assert(claim_terms_of(tk) == before + seq![t@]);
            }
        }
        i += 1;
    }
    assert(wv.take(wv.len() as int) == wv);
    if n_terms == 0 {
        return true;
    }
    20 * (matched as u128) >= 7 * (n_terms as u128)
}

/// The bytes `a..b` of a text, as characters.
pub open spec fn byte_slice(text: Seq<char>, a: int, b: int) -> Seq<char> {
    text.subrange(char_index_of_byte(text, a), char_index_of_byte(text, b))
}

/// The cited claims of a text, from the `i`-th marker on, the previous claim having ended at
/// byte `last`: for each marker whose number parses, the text since the previous such marker,
/// trimmed, when it is at least ten bytes long, with the number.
pub open spec fn marked_claims_from(
    text: Seq<char>,
    caps: Seq<Seq<Option<(usize, usize)>>>,
    i: int,
    last: int,
) -> Seq<(Seq<char>, u32)>
    decreases caps.len() - i,
{
    if i < 0 || i >= caps.len() {
        Seq::empty()
    } else {
        let g = caps[i];
        if g.len() < 2 || g[0] is None || g[1] is None {
            marked_claims_from(text, caps, i + 1, last)
        } else {
            let full = g[0]->0;
            let grp = g[1]->0;
            match parse_u32(byte_slice(text, grp.0 as int, grp.1 as int)) {
                None => marked_claims_from(text, caps, i + 1, last),
                Some(num) => {
                    let claim = trim(byte_slice(text, last, full.0 as int));
                    let rest = marked_claims_from(text, caps, i + 1, full.1 as int);
                    if utf8_len(claim) >= 10 {
                        seq![(claim, num)] + rest
                    } else {
                        rest
                    }
                },
            }
        }
    }
}

/// The claims a text cites with markers matching the pattern, with the cited numbers;
/// nothing where the pattern does not compile.
pub open spec fn spec_marked_claims(text: Seq<char>, pattern: Seq<char>) -> Seq<(Seq<char>, u32)> {
    match regex_group_spans(pattern, text) {
        None => Seq::empty(),
        Some(caps) => marked_claims_from(text, caps, 0, 0),
    }
}

/// The claims and numbers.
pub open spec fn pairs_view(v: Seq<(String, u32)>) -> Seq<(Seq<char>, u32)> {
    v.map_values(|p: (String, u32)| (p.0@, p.1))
}

/// The claims the text cites with markers of the pattern (see [`spec_marked_claims`]).
pub fn extract_marked_claims(text: &str, marker_pattern: &str) -> (r: Vec<(String, u32)>)
    ensures
        pairs_view(r@) == spec_marked_claims(text@, marker_pattern@),
{
    let caps = match find_capture_spans(marker_pattern, text) {
        Some(c) => c,
        None => return Vec::new(),
    };
    let ghost gs = caps@.map_values(|g: Vec<Option<(usize, usize)>>| g@);
    let cs = chars_of(text);
    let s = cs.as_slice();
    let mut out: Vec<(String, u32)> = Vec::new();
    let mut last: usize = 0;
    let mut i: usize = 0;
    while i < caps.len()
        invariant
            i <= caps@.len(),
            s@ == text@,
            gs == caps@.map_values(|g: Vec<Option<(usize, usize)>>| g@),
            captures_ordered(gs),
            i > 0 ==> last <= (gs[i - 1][0]->0).1,
            i == 0 ==> last == 0,
            pairs_view(out@) + marked_claims_from(s@, gs, i as int, last as int)
                == marked_claims_from(s@, gs, 0, 0),
        decreases caps@.len() - i,
    {
        let g = &caps[i];
        assert(g@ == gs[i as int]);
        let ghost before = pairs_view(out@);
        if g.len() >= 2 {
            match (g[0], g[1]) {
                (Some(full), Some(grp)) => {
                    proof {
                        assert(gs[i as int][1] is Some);
                        lemma_char_index_mono(s@, 0, 0, grp.0 as int, grp.1 as int);
                    }
                    let a = char_index_of_byte_exec(s, grp.0);
                    let b = char_index_of_byte_exec(s, grp.1);
                    let num_text = slice_to_vec(&s[a..b]);
                    assert(num_text@ == byte_slice(s@, grp.0 as int, grp.1 as int));
                    match parse_u32_chars(num_text.as_slice()) {
                        Some(num) => {
                            proof {
                                if i > 0 {
                                    assert(((gs[i - 1][0])->0).1 <= ((gs[i as int][0])->0).0);
                                }
                                lemma_char_index_mono(s@, 0, 0, last as int, full.0 as int);
                            }
                            let st = char_index_of_byte_exec(s, last);
                            let en = char_index_of_byte_exec(s, full.0);
                            let raw = slice_to_vec(&s[st..en]);
                            let claim = trim_chars(raw.as_slice());
                            if utf8_len_exec(claim.as_slice()) >= 10 {
                                out.push((string_from(claim.as_slice()), num));
                                assert(pairs_view(out@) =~= before.push((claim@, num)));
                                assert(seq![(claim@, num)] + marked_claims_from(
                                    s@,
                                    gs,
                                    i as int + 1,
                                    full.1 as int,
                                ) == marked_claims_from(s@, gs, i as int, last as int));
                                assert(before.push((claim@, num)) + marked_claims_from(
                                    s@,
                                    gs,
                                    i as int + 1,
                                    full.1 as int,
                                ) =~= before + (seq![(claim@, num)] + marked_claims_from(
                                    s@,
                                    gs,
                                    i as int + 1,
                                    full.1 as int,
                                )));
                            }
                            last = full.1;
                        },
                        None => {},
                    }
                },
                _ => {},
            }
        }
        i += 1;
    }
    out
}


/// The text a claim citing a chunk is checked against: the chunk's text, then its expanded
/// context on a new line when it has one.
pub open spec fn spec_source_corpus(c: RankedChunk) -> Seq<char> {
    c.chunk.text@ + match c.expanded_context {
        Some(x) => "\n"@ + x@,
        None => Seq::empty(),
    }
}

/// The text a claim citing the chunk is checked against.
pub fn source_corpus(chunk: &RankedChunk) -> (r: String)
    ensures
        r@ == spec_source_corpus(*chunk),
{
    let mut out = chunk.chunk.text.clone();
    match &chunk.expanded_context {
        Some(x) => {
            out.append("\n");
            out.append(x.as_str());
        },
        None => {
            assert(out@ + Seq::<char>::empty() == out@);
        },
    }
    out
}

/// The first chunk at or after `i` numbered `num`.
pub open spec fn first_numbered_from(cs: Seq<RankedChunk>, num: u32, i: int) -> Option<int>
    decreases cs.len() - i,
{
    if i < 0 || i >= cs.len() {
        None
    } else if cs[i].source_number == Some(num) {
        Some(i)
    } else {
        first_numbered_from(cs, num, i + 1)
    }
}

/// The chunk cited as `[Source num]`: the first chunk numbered `num`, else the `num`-th chunk
/// (counting from 1), if there is one.
pub open spec fn spec_chunk_for_source(cs: Seq<RankedChunk>, num: u32) -> Option<int> {
    match first_numbered_from(cs, num, 0) {
        Some(i) => Some(i),
        None => if 1 <= num <= cs.len() {
            Some(num - 1)
        } else {
            None
        },
    }
}

/// The chunk cited as `[Source num]` (see [`spec_chunk_for_source`]).
pub fn chunk_for_source(chunks: &[RankedChunk], num: u32) -> (r: Option<&RankedChunk>)
    ensures
        r == (match spec_chunk_for_source(chunks@, num) {
            Some(i) => Some(&chunks@[i]),
            None => None::<&RankedChunk>,
        }),
{
    let mut i: usize = 0;
    while i < chunks.len()
        invariant
            i <= chunks@.len(),
            first_numbered_from(chunks@, num, 0) == first_numbered_from(chunks@, num, i as int),
        decreases chunks@.len() - i,
    {
        if chunks[i].source_number == Some(num) {
            return Some(&chunks[i]);
        }
        i += 1;
    }
    if num == 0 || num as usize > chunks.len() {
        None
    } else {
        Some(&chunks[num as usize - 1])
    }
}

/// Some citation has the number.
pub open spec fn cited_number(citations: Seq<Citation>, num: u32) -> bool {
    exists|k: int| 0 <= k < citations.len() && (#[trigger] citations[k]).source_number == num
}

/// An unsupported claim.
pub open spec fn flagged(sentence: Seq<char>, num: u32, reason: Seq<char>) -> UnsupportedClaimView {
    UnsupportedClaimView { sentence, cited_source: Some(num), reason }
}

/// What is wrong with a claim citing a source, if anything: its number is not among the
/// citations, no retrieved chunk answers to it, or it shares too few terms with that chunk.
pub open spec fn source_verdict(
    claim: (Seq<char>, u32),
    citations: Seq<Citation>,
    cs: Seq<RankedChunk>,
) -> Option<UnsupportedClaimView> {
    if !cited_number(citations, claim.1) {
        Some(flagged(claim.0, claim.1, "Citation number not in resolved list"@))
    } else {
        match spec_chunk_for_source(cs, claim.1) {
            None => Some(flagged(claim.0, claim.1, "Source chunk not found in retrieval set"@)),
            Some(i) => if spec_claim_supported(claim.0, spec_source_corpus(cs[i])) {
                None
            } else {
                Some(
                    flagged(
                        claim.0,
                        claim.1,
                        "Claim lacks sufficient lexical overlap with cited source"@,
                    ),
                )
            },
        }
    }
}

/// What is wrong with a claim citing a memory, if anything: no memory has its number, or it
/// shares too few terms with that memory's content.
pub open spec fn memory_verdict(claim: (Seq<char>, u32), ms: Seq<Memory>) -> Option<
    UnsupportedClaimView,
> {
    if !(1 <= claim.1 <= ms.len()) {
        Some(flagged(claim.0, claim.1, "Memory number not in injected set"@))
    } else if spec_claim_supported(claim.0, ms[claim.1 - 1].content@) {
        None
    } else {
        Some(flagged(claim.0, claim.1, "Claim lacks sufficient lexical overlap with cited memory"@))
    }
}

/// The verdicts on claims citing sources, in order, the sound ones left out.
pub open spec fn source_verdicts(
    claims: Seq<(Seq<char>, u32)>,
    citations: Seq<Citation>,
    cs: Seq<RankedChunk>,
) -> Seq<UnsupportedClaimView>
    decreases claims.len(),
{
    if claims.len() == 0 {
        Seq::empty()
    } else {
        source_verdicts(claims.drop_last(), citations, cs) + match source_verdict(
            claims.last(),
            citations,
            cs,
        ) {
            Some(v) => seq![v],
            None => Seq::empty(),
        }
    }
}

/// The verdicts on claims citing memories, in order, the sound ones left out.
pub open spec fn memory_verdicts(claims: Seq<(Seq<char>, u32)>, ms: Seq<Memory>) -> Seq<
    UnsupportedClaimView,
>
    decreases claims.len(),
{
    if claims.len() == 0 {
        Seq::empty()
    } else {
        memory_verdicts(claims.drop_last(), ms) + match memory_verdict(claims.last(), ms) {
            Some(v) => seq![v],
            None => Seq::empty(),
        }
    }
}

/// Whether some citation has the number.
fn has_citation(citations: &[Citation], num: u32) -> (r: bool)
    ensures
        r == cited_number(citations@, num),
{
    let mut k: usize = 0;
    while k < citations.len()
        invariant
            k <= citations@.len(),
            forall|j: int| 0 <= j < k ==> (#[trigger] citations@[j]).source_number != num,
        decreases citations@.len() - k,
    {
        if citations[k].source_number == num {
            return true;
        }
        k += 1;
    }
    false
}

/// An unsupported claim with its reason.
fn flag(sentence: &String, num: u32, reason: &str) -> (r: UnsupportedClaim)
    ensures
        r@ == flagged(sentence@, num, reason@),
{
    UnsupportedClaim {
        sentence: sentence.clone(),
        cited_source: Some(num),
        reason: String::from_str(reason),
    }
}

/// The claims citing sources that do not hold up (see [`source_verdict`]).
pub fn verify_source_claims(answer_text: &str, citations: &[Citation], chunks: &[RankedChunk]) -> (r: Vec<
    UnsupportedClaim,
>)
    ensures
        claims_view(r@) == source_verdicts(
            spec_marked_claims(answer_text@, SOURCE_MARKER_PATTERN@),
            citations@,
            chunks@,
        ),
{
    let claims = extract_marked_claims(answer_text, SOURCE_MARKER_PATTERN);
    let ghost cv = pairs_view(claims@);
    let mut out: Vec<UnsupportedClaim> = Vec::new();
    let mut i: usize = 0;
    while i < claims.len()
        invariant
            i <= claims@.len(),
            cv == pairs_view(claims@),
            claims_view(out@) == source_verdicts(cv.take(i as int), citations@, chunks@),
        decreases claims@.len() - i,
    {
        let claim = &claims[i].0;
        let num = claims[i].1;
        assert(cv[i as int] == (claim@, num));
        let ghost before = claims_view(out@);
        proof {
            let t = cv.take(i as int + 1);
            assert(t.drop_last() == cv.take(i as int));
            assert(t.last() == cv[i as int]);
        }
        if !has_citation(citations, num) {
            out.push(flag(claim, num, "Citation number not in resolved list"));
            assert(claims_view(out@) =~= before.push(flagged(claim@, num, "Citation number not in resolved list"@)));
        } else {
            match chunk_for_source(chunks, num) {
                None => {
                    out.push(flag(claim, num, "Source chunk not found in retrieval set"));
                    assert(claims_view(out@) =~= before.push(flagged(claim@, num, "Source chunk not found in retrieval set"@)));
                },
                Some(chunk) => {
                    let corpus = source_corpus(chunk);
                    if !claim_supported(claim.as_str(), corpus.as_str()) {
                        out.push(flag(claim, num, "Claim lacks sufficient lexical overlap with cited source"));
                        assert(claims_view(out@) =~= before.push(flagged(claim@, num, "Claim lacks sufficient lexical overlap with cited source"@)));
                    } else {
                        assert(claims_view(out@) =~= before + Seq::<UnsupportedClaimView>::empty());
                    }
                },
            }
        }
        i += 1;
    }
    assert(cv.take(cv.len() as int) == cv);
    out
}

/// The claims citing memories that do not hold up (see [`memory_verdict`]).
pub fn verify_memory_claims(answer_text: &str, memories: &[Memory]) -> (r: Vec<UnsupportedClaim>)
    ensures
        claims_view(r@) == memory_verdicts(
            spec_marked_claims(answer_text@, MEMORY_MARKER_PATTERN@),
            memories@,
        ),
{
    let claims = extract_marked_claims(answer_text, MEMORY_MARKER_PATTERN);
    let ghost cv = pairs_view(claims@);
    let mut out: Vec<UnsupportedClaim> = Vec::new();
    let mut i: usize = 0;
    while i < claims.len()
        invariant
            i <= claims@.len(),
            cv == pairs_view(claims@),
            claims_view(out@) == memory_verdicts(cv.take(i as int), memories@),
        decreases claims@.len() - i,
    {
        let claim = &claims[i].0;
        let num = claims[i].1;
        assert(cv[i as int] == (claim@, num));
        let ghost before = claims_view(out@);
        proof {
            let t = cv.take(i as int + 1);
            assert(t.drop_last() == cv.take(i as int));
            assert(t.last() == cv[i as int]);
        }
        match memory_for_number(memories, num) {
            None => {
                out.push(flag(claim, num, "Memory number not in injected set"));
                assert(claims_view(out@) =~= before.push(flagged(claim@, num, "Memory number not in injected set"@)));
            },
            Some(memory) => {
                if !claim_supported(claim.as_str(), memory.content.as_str()) {
                    out.push(flag(claim, num, "Claim lacks sufficient lexical overlap with cited memory"));
                    assert(claims_view(out@) =~= before.push(flagged(claim@, num, "Claim lacks sufficient lexical overlap with cited memory"@)));
                } else {
                    assert(claims_view(out@) =~= before + Seq::<UnsupportedClaimView>::empty());
                }
            },
        }
        i += 1;
    }
    assert(cv.take(cv.len() as int) == cv);
    out
}

/// What the verifier reports on an answer: the claims citing sources that do not hold up,
/// then those citing memories.
pub open spec fn spec_verify(
    answer: Seq<char>,
    citations: Seq<Citation>,
    cs: Seq<RankedChunk>,
    ms: Seq<Memory>,
) -> Seq<UnsupportedClaimView> {
    source_verdicts(spec_marked_claims(answer, SOURCE_MARKER_PATTERN@), citations, cs)
        + memory_verdicts(spec_marked_claims(answer, MEMORY_MARKER_PATTERN@), ms)
}

/// Checks the citations of an answer against what was retrieved and remembered.
pub struct CitationVerifier;

impl CitationVerifier {
    /// The sentences of an answer whose `[Source N]` or `[Memory N]` citation does not hold up:
    /// the number is unknown, or the sentence shares too few terms with what it cites.
    pub fn verify(
        answer_text: &str,
        citations: &[Citation],
        chunks: &[RankedChunk],
        memories: &[Memory],
    ) -> (r: Vec<UnsupportedClaim>)
        ensures
            claims_view(r@) == spec_verify(answer_text@, citations@, chunks@, memories@),
    {
        let mut unsupported = verify_source_claims(answer_text, citations, chunks);
        let mut more = verify_memory_claims(answer_text, memories);
        let ghost a = claims_view(unsupported@);
        let ghost b = claims_view(more@);
        unsupported.append(&mut more);
        assert(claims_view(unsupported@) =~= a + b);
        unsupported
    }
}

} // verus!

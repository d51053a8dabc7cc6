use vstd::prelude::*;

use crate::documents::entities::{match_texts, matched_texts};
use crate::rag::types::RankedChunk;
use crate::text::{
    contains, contains_chars, lower_chars, lower_str, lowercase, split_whitespace_chars, utf8_len,
    utf8_len_exec, words,
};

verus! {

/// A phase number in a question, such as `Phase 2`, in any case.
pub const PHASE_PATTERN: &'static str = "(?i)\\bphase\\s+\\d+\\b";

/// An optional text, empty when absent.
pub open spec fn or_empty(o: Option<String>) -> Seq<char> {
    match o {
        Some(s) => s@,
        None => Seq::empty(),
    }
}

/// The lower-cased texts of a chunk that the heuristic compares: text, heading path, section
/// title and entity tokens.
pub open spec fn chunk_texts(c: RankedChunk) -> (Seq<char>, Seq<char>, Seq<char>, Seq<char>) {
    (
        lowercase(c.chunk.text@),
        lowercase(or_empty(c.chunk.heading_path)),
        lowercase(or_empty(c.chunk.section_title)),
        lowercase(or_empty(c.chunk.entity_tokens)),
    )
}

/// The weight, in quarters, of one query term: nothing for terms shorter than two bytes, else
/// 4 when the text holds it, 2 for the heading path, 2 for the section title and 3 for the
/// entity tokens.
pub open spec fn term_quarters(term: Seq<char>, c: RankedChunk) -> nat {
    let (text, heading, section, entity) = chunk_texts(c);
    if utf8_len(term) < 2 {
        0
    } else {
        (if contains(text, term) { 4nat } else { 0nat }) + (if contains(heading, term) {
            2nat
        } else {
            0nat
        }) + (if contains(section, term) { 2nat } else { 0nat }) + (if contains(entity, term) {
            3nat
        } else {
            0nat
        })
    }
}

/// The weights of the terms, in quarters.
pub open spec fn terms_quarters(ts: Seq<Seq<char>>, c: RankedChunk) -> nat
    decreases ts.len(),
{
    if ts.len() == 0 {
        0
    } else {
        terms_quarters(ts.drop_last(), c) + term_quarters(ts.last(), c)
    }
}

/// The bonus, in quarters, for the first phase number of the question: 20 when the heading
/// path, section title or text holds it, lower-cased.
pub open spec fn phase_quarters(query: Seq<char>, c: RankedChunk) -> nat {
    let (text, heading, section, _) = chunk_texts(c);
    let ms = match_texts(query, PHASE_PATTERN@);
    if ms.len() > 0 && (contains(heading, lowercase(ms[0])) || contains(section, lowercase(ms[0]))
        || contains(text, lowercase(ms[0]))) {
        20
    } else {
        0
    }
}

/// How much a chunk overlaps a question, in quarters of a point: the weights of the
/// question's lower-cased words, 8 when the text holds the whole lower-cased question, and
/// the phase bonus.
pub open spec fn spec_overlap_quarters(query: Seq<char>, c: RankedChunk) -> nat {
    let q = lowercase(query);
    terms_quarters(words(q), c) + (if contains(chunk_texts(c).0, q) { 8nat } else { 0nat })
        + phase_quarters(query, c)
}

/// Reranks retrieved chunks by how much they overlap the question.
pub struct HeuristicReranker;

impl HeuristicReranker {
    /// How much a chunk overlaps a question, in quarters of a point (see
    /// [`spec_overlap_quarters`]); the reranker weighs this against the fused score.
    pub fn overlap_quarters(query: &str, chunk: &RankedChunk) -> (r: u128)
        ensures
            r == spec_overlap_quarters(query@, *chunk),
    {
        let q = lower_str(query);
        let empty: Vec<char> = Vec::new();
        assert(empty@ =~= Seq::<char>::empty());
        let text = lower_str(chunk.chunk.text.as_str());
        let heading = match &chunk.chunk.heading_path {
            Some(h) => lower_str(h.as_str()),
            None => lower_chars(empty.as_slice()),
        };
        let section = match &chunk.chunk.section_title {
            Some(h) => lower_str(h.as_str()),
            None => lower_chars(empty.as_slice()),
        };
        let entity = match &chunk.chunk.entity_tokens {
            Some(h) => lower_str(h.as_str()),
            None => lower_chars(empty.as_slice()),
        };
        assert((text@, heading@, section@, entity@) == chunk_texts(*chunk));
        let terms = split_whitespace_chars(q.as_slice());
        let ghost tv = terms@.map_values(|v: Vec<char>| v@);
        let mut total: u128 = 0;
        let mut i: usize = 0;
        while i < terms.len()
            invariant
                i <= terms@.len(),
                tv == terms@.map_values(|v: Vec<char>| v@),
                (text@, heading@, section@, entity@) == chunk_texts(*chunk),
                total == terms_quarters(tv.take(i as int), *chunk),
                total <= 11 * i,
            decreases terms@.len() - i,
        {
            let t = terms[i].as_slice();
            assert(t@ == tv[i as int]);
            let mut w: u128 = 0;
            if utf8_len_exec(t) >= 2 {
                if contains_chars(text.as_slice(), t) {
                    w = w + 4;
                }
                if contains_chars(heading.as_slice(), t) {
                    w = w + 2;
                }
                if contains_chars(section.as_slice(), t) {
                    w = w + 2;
                }
                if contains_chars(entity.as_slice(), t) {
                    w = w + 3;
                }
            }
            assert(w == term_quarters(tv[i as int], *chunk));
            proof {
                let tk = tv.take(i as int + 1);
                assert(tk.drop_last() == tv.take(i as int));
                assert(tk.last() == tv[i as int]);
            }
            total = total + w;
            i += 1;
        }
        assert(tv.take(tv.len() as int) == tv);
        if contains_chars(text.as_slice(), q.as_slice()) {
            total = total + 8;
        }
        let ms = matched_texts(query, PHASE_PATTERN);
        let ghost mv = ms@.map_values(|v: Vec<char>| v@);
        if ms.len() > 0 {
            assert(mv[0] == ms@[0]@);
            let phrase = lower_chars(ms[0].as_slice());
            if contains_chars(heading.as_slice(), phrase.as_slice()) || contains_chars(
                section.as_slice(),
                phrase.as_slice(),
            ) || contains_chars(text.as_slice(), phrase.as_slice()) {
                total = total + 20;
            }
        }
        total
    }
}

} // verus!

use vstd::prelude::*;

use crate::documents::entities::{
    add_entities, entities_from, entity_patterns, match_texts, spec_extract_entities, ACRONYM_PATTERN,
    ERROR_LOWER_PATTERN, ERROR_UPPER_PATTERN, FIELD_LOWER_PATTERN, FIELD_UPPER_PATTERN, PART_NUMBER_PATTERN,
};
use crate::documents::graph_types::{EntityKind, EntityView};
use crate::memory::direct::spec_direct_memory_answer;
use crate::memory::direct::{answers_lookups, first_answering_from, spec_memory_answers_lookup};
use crate::memory::types::{Memory, MemoryType};
use crate::rag::context::{expansion_parts, ExpansionFacts};
use crate::rag::types::RankedChunk;
use crate::rag::verify::{claim_term, claim_terms_of, count_in, spec_claim_supported};
use crate::rerank::heuristic::{spec_overlap_quarters, term_quarters, terms_quarters};
use crate::text::{contains, lowercase, matches_at, trim_by, trim_end_by, trim_start_by, in_class, utf8_len, words, words_from, skip_ws, skip_word, CharClass};

verus! {

// ---------------------------------------------------------------------------------------
// Substrings.

proof fn lemma_matches_trans(s: Seq<char>, w: Seq<char>, t: Seq<char>, a: int, b: int)
    requires
        matches_at(s, w, a),
        matches_at(w, t, b),
    ensures
        matches_at(s, t, a + b),
{
    assert(s.subrange(a + b, a + b + t.len()) =~= w.subrange(b, b + t.len()));
}

proof fn lemma_trim_start_at(s: Seq<char>, k: CharClass) -> (a: int)
    ensures
        0 <= a <= s.len(),
        trim_start_by(s, k) == s.subrange(a, s.len() as int),
    decreases s.len(),
{
    if s.len() > 0 && in_class(k, s[0]) {
        let a1 = lemma_trim_start_at(s.drop_first(), k);
        assert(s.drop_first().subrange(a1, s.len() - 1) =~= s.subrange(a1 + 1, s.len() as int));
        a1 + 1
    } else {
        assert(s.subrange(0, s.len() as int) =~= s);
        0
    }
}

proof fn lemma_trim_end_at(s: Seq<char>, k: CharClass) -> (b: int)
    ensures
        0 <= b <= s.len(),
        trim_end_by(s, k) == s.subrange(0, b),
    decreases s.len(),
{
    if s.len() > 0 && in_class(k, s.last()) {
        let b1 = lemma_trim_end_at(s.drop_last(), k);
        assert(s.drop_last().subrange(0, b1) =~= s.subrange(0, b1));
        b1
    } else {
        assert(s.subrange(0, s.len() as int) =~= s);
        s.len() as int
    }
}

/// A text trimmed at both ends is part of it.
proof fn lemma_trim_by_within(s: Seq<char>, k: CharClass) -> (a: int)
    ensures
        matches_at(s, trim_by(s, k), a),
{
    let a = lemma_trim_start_at(s, k);
    let u = s.subrange(a, s.len() as int);
    let b = lemma_trim_end_at(u, k);
    assert(u.subrange(0, b) =~= s.subrange(a, a + b));
    a
}

/// Every word of a text is part of it.
proof fn lemma_words_within(s: Seq<char>, i: int)
    ensures
        forall|j: int| 0 <= j < words_from(s, i).len() ==> contains(s, #[trigger] words_from(s, i)[j]),
    decreases s.len() - i,
{
    let a = skip_ws(s, i);
    if !(i < 0 || a < i || a >= s.len()) {
        let b = skip_word(s, a);
        if !(b <= a || b > s.len()) {
            lemma_words_within(s, b);
            let ws = words_from(s, i);
            let rest = words_from(s, b);
            assert(ws == seq![s.subrange(a, b)] + rest);
            assert forall|j: int| 0 <= j < ws.len() implies contains(s, #[trigger] ws[j]) by {
                if j == 0 {
                    assert(matches_at(s, s.subrange(a, b), a));
                } else {
                    assert(ws[j] == rest[j - 1]);
                }
            }
        }
    }
}

proof fn lemma_claim_terms_within(ws: Seq<Seq<char>>, src: Seq<char>)
    requires
        forall|j: int| 0 <= j < ws.len() ==> contains(src, #[trigger] ws[j]),
    ensures
        forall|j: int| 0 <= j < claim_terms_of(ws).len() ==> contains(src, #[trigger] claim_terms_of(ws)[j]),
    decreases ws.len(),
{
    if ws.len() > 0 {
        let init = ws.drop_last();
        assert forall|j: int| 0 <= j < init.len() implies contains(src, #[trigger] init[j]) by {
            assert(init[j] == ws[j]);
        }
        lemma_claim_terms_within(init, src);
        let w = ws.last();
        assert(contains(src, ws[ws.len() - 1]));
        let p = choose|p: int| #[trigger] matches_at(src, w, p);
        let a = lemma_trim_by_within(w, CharClass::NotAlphanumeric);
        lemma_matches_trans(src, w, claim_term(w), p, a);
        let ts = claim_terms_of(ws);
        assert forall|j: int| 0 <= j < ts.len() implies contains(src, #[trigger] ts[j]) by {
            if j < claim_terms_of(init).len() {
                assert(ts[j] == claim_terms_of(init)[j]);
            } else {
                assert(ts[j] == claim_term(w));
            }
        }
    }
}

proof fn lemma_count_all(ts: Seq<Seq<char>>, src: Seq<char>)
    requires
        forall|j: int| 0 <= j < ts.len() ==> contains(src, #[trigger] ts[j]),
    ensures
        count_in(ts, src) == ts.len(),
    decreases ts.len(),
{
    if ts.len() > 0 {
        let init = ts.drop_last();
        assert forall|j: int| 0 <= j < init.len() implies contains(src, #[trigger] init[j]) by {
            assert(init[j] == ts[j]);
        }
        lemma_count_all(init, src);
        assert(contains(src, ts[ts.len() - 1]));
    }
}

// ---------------------------------------------------------------------------------------
// Claims and their sources.

/// A claim is always supported by a source text identical to it: every term of the claim
/// occurs in the claim itself.
pub proof fn law_claim_supported_by_itself(s: Seq<char>)
    ensures
        spec_claim_supported(s, s),
{
    let ws = words(lowercase(s));
    lemma_words_within(lowercase(s), 0);
    lemma_claim_terms_within(ws, lowercase(s));
    lemma_count_all(claim_terms_of(ws), lowercase(s));
}

/// Support does not depend on the letter case of the source: two sources that read the same
/// once lower-cased support the same claims.
pub proof fn law_support_ignores_source_case(claim: Seq<char>, s1: Seq<char>, s2: Seq<char>)
    requires
        lowercase(s1) == lowercase(s2),
    ensures
        spec_claim_supported(claim, s1) == spec_claim_supported(claim, s2),
{
}

// ---------------------------------------------------------------------------------------
// Heuristic overlap.

/// How many of the terms, two bytes or longer, occur in `text`.
pub open spec fn terms_found(ts: Seq<Seq<char>>, text: Seq<char>) -> nat
    decreases ts.len(),
{
    if ts.len() == 0 {
        0
    } else {
        terms_found(ts.drop_last(), text) + (if utf8_len(ts.last()) >= 2 && contains(text, ts.last()) {
            1nat
        } else {
            0nat
        })
    }
}

proof fn lemma_terms_quarters_found(ts: Seq<Seq<char>>, c: RankedChunk)
    ensures
        terms_quarters(ts, c) >= 4 * terms_found(ts, lowercase(c.chunk.text@)),
    decreases ts.len(),
{
    if ts.len() > 0 {
        lemma_terms_quarters_found(ts.drop_last(), c);
        assert(utf8_len(ts.last()) >= 2 && contains(lowercase(c.chunk.text@), ts.last()) ==> term_quarters(
            ts.last(),
            c,
        ) >= 4);
    }
}

/// Every word of the lower-cased question that is two bytes or longer and occurs in the
/// lower-cased chunk text adds a point (four quarters) to the chunk's overlap.
pub proof fn law_overlap_counts_text_hits(query: Seq<char>, c: RankedChunk)
    ensures
        spec_overlap_quarters(query, c) >= 4 * terms_found(words(lowercase(query)), lowercase(c.chunk.text@)),
{
    lemma_terms_quarters_found(words(lowercase(query)), c);
}

// ---------------------------------------------------------------------------------------
// Direct answers from memory.

/// The same memory with a project fact made a decision and a decision a project fact.
pub open spec fn swap_fact_decision(m: Memory) -> Memory {
    Memory {
        memory_type: if m.memory_type == MemoryType::ProjectFact {
            MemoryType::Decision
        } else if m.memory_type == MemoryType::Decision {
            MemoryType::ProjectFact
        } else {
            m.memory_type
        },
        ..m
    }
}

proof fn lemma_first_answering_in_range(query: Seq<char>, ms: Seq<Memory>, i: int)
    ensures
        first_answering_from(query, ms, i) matches Some(k) ==> 0 <= k < ms.len(),
    decreases ms.len() - i,
{
    if 0 <= i < ms.len() {
        lemma_first_answering_in_range(query, ms, i + 1);
    }
}

proof fn lemma_first_answering_swap(query: Seq<char>, ms: Seq<Memory>, j: int, i: int)
    requires
        0 <= j < ms.len(),
    ensures
        first_answering_from(query, ms, i) == first_answering_from(query, ms.update(j, swap_fact_decision(ms[j])), i),
    decreases ms.len() - i,
{
    let ms2 = ms.update(j, swap_fact_decision(ms[j]));
    if 0 <= i < ms.len() {
        lemma_first_answering_swap(query, ms, j, i + 1);
        if i == j {
            assert(ms2[i] == swap_fact_decision(ms[i]));
            assert(spec_memory_answers_lookup(query, ms2[i]) == spec_memory_answers_lookup(query, ms[i]));
            assert(answers_lookups(ms2[i].memory_type) == answers_lookups(ms[i].memory_type));
        } else {
            assert(ms2[i] == ms[i]);
        }
    }
}

/// Decisions answer lookup questions exactly as project facts do: making one memory a
/// decision instead of a project fact, or the other way round, never changes the direct
/// answer.
pub proof fn law_decisions_answer_like_facts(query: Seq<char>, ms: Seq<Memory>, j: int)
    requires
        0 <= j < ms.len(),
    ensures
        spec_direct_memory_answer(query, ms) == spec_direct_memory_answer(
            query,
            ms.update(j, swap_fact_decision(ms[j])),
        ),
{
    let ms2 = ms.update(j, swap_fact_decision(ms[j]));
    lemma_first_answering_swap(query, ms, j, 0);
    lemma_first_answering_in_range(query, ms, 0);
    match first_answering_from(query, ms, 0) {
        Some(i) => {
            if i == j {
                assert(ms2[i].content == ms[i].content);
            } else {
                assert(ms2[i] == ms[i]);
            }
        },
        None => {},
    }
}

// ---------------------------------------------------------------------------------------
// Entities.

/// The pattern names the kind by the word it starts with (after its `\b`): `error` or
/// `Error` an error code, `field` or `Field` a field id, an upper-case letter class an
/// acronym, five or more digits a part number.
pub open spec fn pattern_names_kind(p: Seq<char>, k: EntityKind) -> bool {
    match k {
        EntityKind::ErrorCode => p.len() >= 7 && (p.subrange(2, 7) == "error"@ || p.subrange(2, 7) == "Error"@),
        EntityKind::FieldId => p.len() >= 7 && (p.subrange(2, 7) == "field"@ || p.subrange(2, 7) == "Field"@),
        EntityKind::Acronym => p.len() >= 7 && p.subrange(2, 7) == "[A-Z]"@,
        EntityKind::PartNumber => p.len() >= 8 && p.subrange(2, 8) == "\\d{5,}"@,
        EntityKind::Other => false,
    }
}

/// The entity was found by the `k`-th pattern, which names its kind.
pub open spec fn found_by(t: Seq<char>, e: EntityView, k: int) -> bool {
    &&& match_texts(t, entity_patterns()[k].0).contains(e.value)
    &&& pattern_names_kind(entity_patterns()[k].0, e.kind)
}

/// The entity was found by one of the patterns, which names its kind.
pub open spec fn found_by_some(t: Seq<char>, e: EntityView) -> bool {
    exists|k: int| 0 <= k < 6 && #[trigger] found_by(t, e, k)
}

proof fn lemma_patterns_name_kinds()
    ensures
        forall|k: int| 0 <= k < 6 ==> pattern_names_kind(#[trigger] entity_patterns()[k].0, entity_patterns()[k].1),
{
    reveal_strlit("\\b[A-Z]{2,6}\\b");
    reveal_strlit("\\bfield\\s+\\d+\\b");
    reveal_strlit("\\bField\\s+\\d+\\b");
    reveal_strlit("\\berror\\s+\\d+\\b");
    reveal_strlit("\\bError\\s+\\d+\\b");
    reveal_strlit("\\b\\d{5,}\\b");
    reveal_strlit("error");
    reveal_strlit("Error");
    reveal_strlit("field");
    reveal_strlit("Field");
    reveal_strlit("[A-Z]");
    reveal_strlit("\\d{5,}");
    assert(ACRONYM_PATTERN@.subrange(2, 7) =~= "[A-Z]"@);
    assert(FIELD_LOWER_PATTERN@.subrange(2, 7) =~= "field"@);
    assert(FIELD_UPPER_PATTERN@.subrange(2, 7) =~= "Field"@);
    assert(ERROR_LOWER_PATTERN@.subrange(2, 7) =~= "error"@);
    assert(ERROR_UPPER_PATTERN@.subrange(2, 7) =~= "Error"@);
    assert(PART_NUMBER_PATTERN@.subrange(2, 8) =~= "\\d{5,}"@);
}

proof fn lemma_add_entities_found(
    acc: Seq<EntityView>,
    vals: Seq<Seq<char>>,
    i: int,
    p: int,
    doc: Seq<char>,
    chunk: Seq<char>,
    t: Seq<char>,
)
    requires
        0 <= p < 6,
        0 <= i,
        vals == match_texts(t, entity_patterns()[p].0),
        pattern_names_kind(entity_patterns()[p].0, entity_patterns()[p].1),
        forall|m: int| 0 <= m < acc.len() ==> found_by_some(t, #[trigger] acc[m]),
    ensures
        forall|m: int|
            0 <= m < add_entities(acc, vals, i, entity_patterns()[p].1, doc, chunk).len() ==> found_by_some(
                t,
                #[trigger] add_entities(acc, vals, i, entity_patterns()[p].1, doc, chunk)[m],
            ),
    decreases vals.len() - i,
{
    let kind = entity_patterns()[p].1;
    if i < vals.len() {
        let v = vals[i];
        if crate::documents::entities::has_value(acc, v) {
            assert(add_entities(acc, vals, i, kind, doc, chunk) == add_entities(acc, vals, i + 1, kind, doc, chunk));
            lemma_add_entities_found(acc, vals, i + 1, p, doc, chunk, t);
        } else {
            let e = EntityView {
                id: crate::documents::entities::entity_id(doc, chunk, v),
                document_id: doc,
                chunk_id: Some(chunk),
                kind,
                value: v,
            };
            let acc2 = acc.push(e);
            assert(vals.contains(v));
            assert(found_by(t, e, p));
            assert forall|m: int| 0 <= m < acc2.len() implies found_by_some(t, #[trigger] acc2[m]) by {
                if m < acc.len() {
                    assert(acc2[m] == acc[m]);
                }
            }
            assert(add_entities(acc, vals, i, kind, doc, chunk) == add_entities(acc2, vals, i + 1, kind, doc, chunk));
            lemma_add_entities_found(acc2, vals, i + 1, p, doc, chunk, t);
        }
    }
}

proof fn lemma_entities_from_found(acc: Seq<EntityView>, t: Seq<char>, p: int, doc: Seq<char>, chunk: Seq<char>)
    requires
        0 <= p,
        forall|m: int| 0 <= m < acc.len() ==> found_by_some(t, #[trigger] acc[m]),
    ensures
        forall|m: int|
            0 <= m < entities_from(acc, t, p, doc, chunk).len() ==> found_by_some(
                t,
                #[trigger] entities_from(acc, t, p, doc, chunk)[m],
            ),
    decreases 6 - p,
{
    if p < 6 {
        lemma_patterns_name_kinds();
        let pat = entity_patterns()[p].0;
        let kind = entity_patterns()[p].1;
        assert(pattern_names_kind(pat, kind));
        let acc2 = add_entities(acc, match_texts(t, pat), 0, kind, doc, chunk);
        assert(entities_from(acc, t, p, doc, chunk) == entities_from(acc2, t, p + 1, doc, chunk));
        lemma_add_entities_found(acc, match_texts(t, pat), 0, p, doc, chunk, t);
        lemma_entities_from_found(acc2, t, p + 1, doc, chunk);
    }
}

/// Each entity found in a text has the kind that the pattern which matched its value names:
/// values of the `error`/`Error` patterns are error codes, of the `field`/`Field` patterns
/// field ids, of the upper-case pattern acronyms, and of the five-digit pattern part numbers.
pub proof fn law_entity_kind_matches_pattern(doc: Seq<char>, chunk: Seq<char>, t: Seq<char>)
    ensures
        forall|m: int|
            0 <= m < spec_extract_entities(doc, chunk, t).len() ==> found_by_some(
                t,
                #[trigger] spec_extract_entities(doc, chunk, t)[m],
            ),
{
    lemma_entities_from_found(seq![], t, 0, doc, chunk);
}

// ---------------------------------------------------------------------------------------
// Context expansion.

/// The first 150 characters of a text.
pub open spec fn first_150(t: Seq<char>) -> Seq<char> {
    t.take(if t.len() <= 150 { t.len() as int } else { 150 })
}

/// A chunk that names the chunks before and after it, where the store has their texts, is
/// expanded with the first 150 characters of each, the previous one as `Previous context:`
/// and the next one as `Next context:`.
pub proof fn law_expansion_shows_neighbours(c: RankedChunk, f: ExpansionFacts)
    ensures
        c.chunk.prev_chunk_id is Some && f.previous_text is Some ==> expansion_parts(c, f).contains(
            "Previous context: "@ + first_150(f.previous_text->0@),
        ),
        c.chunk.next_chunk_id is Some && f.next_text is Some ==> expansion_parts(c, f).contains(
            "Next context: "@ + first_150(f.next_text->0@),
        ),
{
    let pl = crate::rag::context::place_part(c);
    let pa = crate::rag::context::parent_part(c, f);
    let pr = crate::rag::context::prev_part(c, f);
    let nx = crate::rag::context::next_part(c, f);
    let e = expansion_parts(c, f);
    if c.chunk.prev_chunk_id is Some && f.previous_text is Some {
        let t = f.previous_text->0@;
        assert(crate::rag::prompt::prefix_chars(t, 150) =~= first_150(t));
        let idx = pl.len() + pa.len();
        assert(e[idx as int] == pr[0]);
    }
    if c.chunk.next_chunk_id is Some && f.next_text is Some {
        let t = f.next_text->0@;
        assert(crate::rag::prompt::prefix_chars(t, 150) =~= first_150(t));
        let idx = pl.len() + pa.len() + pr.len();
        assert(e[idx as int] == nx[0]);
    }
}

/// Which texts of the neighbours the store gave matters only for the neighbours the chunk
/// names: without a previous chunk the previous text is not shown, without a next chunk the
/// next text is not.
pub proof fn law_expansion_ignores_unnamed_neighbours(
    c: RankedChunk,
    f: ExpansionFacts,
    prev: Option<String>,
    next: Option<String>,
)
    ensures
        c.chunk.prev_chunk_id is None ==> expansion_parts(c, f) == expansion_parts(
            c,
            ExpansionFacts { previous_text: prev, ..f },
        ),
        c.chunk.next_chunk_id is None ==> expansion_parts(c, f) == expansion_parts(
            c,
            ExpansionFacts { next_text: next, ..f },
        ),
{
}

} // verus!

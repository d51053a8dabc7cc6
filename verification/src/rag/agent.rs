use vstd::prelude::*;
use vstd::string::*;

use crate::documents::graph_types::DocumentSummary;
use crate::rag::retrieve::{dedup_prefix, hash_of, seen_before, spec_dedup_chunks};
use crate::rag::types::{
    CorpusMapResult, EntityFrequency, RankedChunk, RetrievalMode, SectionEntry, ThemeEntry,
};
use crate::search::query_plan::QueryPlan;
use crate::text::{
    chars_eq, chars_of, contains, contains_chars, lower_chars, lower_str, lowercase,
    split_whitespace_chars, utf8_len, utf8_len_exec, words,
};

verus! {

/// The heading path of a chunk, empty when it has none.
pub open spec fn heading_or_empty(c: RankedChunk) -> Seq<char> {
    match c.chunk.heading_path {
        Some(h) => h@,
        None => Seq::empty(),
    }
}

/// The words longer than three bytes, in order.
pub open spec fn long_terms(ws: Seq<Seq<char>>) -> Seq<Seq<char>>
    decreases ws.len(),
{
    if ws.len() == 0 {
        Seq::empty()
    } else {
        long_terms(ws.drop_last()) + (if utf8_len(ws.last()) > 3 {
            seq![ws.last()]
        } else {
            Seq::empty()
        })
    }
}

/// A chunk mentions a term in its lower-cased text or heading path.
pub open spec fn chunk_mentions(c: RankedChunk, t: Seq<char>) -> bool {
    contains(lowercase(c.chunk.text@), t) || contains(lowercase(heading_or_empty(c)), t)
}

/// Some chunk mentions the term.
pub open spec fn covered_by(cs: Seq<RankedChunk>, t: Seq<char>) -> bool {
    exists|i: int| 0 <= i < cs.len() && #[trigger] chunk_mentions(cs[i], t)
}

/// How many of the terms some chunk mentions.
pub open spec fn count_covered(ts: Seq<Seq<char>>, cs: Seq<RankedChunk>) -> nat
    decreases ts.len(),
{
    if ts.len() == 0 {
        0
    } else {
        count_covered(ts.drop_last(), cs) + (if covered_by(cs, ts.last()) {
            1nat
        } else {
            0nat
        })
    }
}

/// A second retrieval pass is wanted when nothing was found, or when fewer than half (rounded
/// down) of the question's words longer than three bytes occur in the chunks found.
pub open spec fn spec_needs_second_pass(query: Seq<char>, cs: Seq<RankedChunk>) -> bool {
    if cs.len() == 0 {
        true
    } else {
        let ts = long_terms(words(lowercase(query)));
        if ts.len() == 0 {
            false
        } else {
            count_covered(ts, cs) < ts.len() / 2
        }
    }
}

/// Decides whether and how retrieval takes a second pass, and merges the two passes.
pub struct RetrievalAgent;

impl RetrievalAgent {
    /// Whether a second retrieval pass is wanted (see [`spec_needs_second_pass`]).
    pub fn needs_second_pass(query: &str, chunks: &[RankedChunk]) -> (r: bool)
        ensures
            r == spec_needs_second_pass(query@, chunks@),
    {
        if chunks.len() == 0 {
            return true;
        }
        let q = lower_str(query);
        let ws = split_whitespace_chars(q.as_slice());
        let ghost wv = ws@.map_values(|v: Vec<char>| v@);
        // the terms longer than three bytes
        let mut terms: Vec<Vec<char>> = Vec::new();
        let mut i: usize = 0;
        while i < ws.len()
            invariant
                i <= ws@.len(),
                wv == ws@.map_values(|v: Vec<char>| v@),
                terms@.map_values(|v: Vec<char>| v@) == long_terms(wv.take(i as int)),
            decreases ws@.len() - i,
        {
            let ghost before = terms@.map_values(|v: Vec<char>| v@);
            assert(wv[i as int] == ws@[i as int]@);
            if utf8_len_exec(ws[i].as_slice()) > 3 {
                terms.push(ws[i].clone());
                assert(terms@.map_values(|v: Vec<char>| v@) =~= before.push(wv[i as int]));
            }
            proof {
                let t = wv.take(i as int + 1);
                assert(t.drop_last() == wv.take(i as int));
                assert(t.last() == wv[i as int]);
            }
            i += 1;
        }
        assert(wv.take(wv.len() as int) == wv);
        let ghost tv = terms@.map_values(|v: Vec<char>| v@);
        if terms.len() == 0 {
            return false;
        }
        // the lower-cased text and heading path of each chunk
        let mut texts: Vec<Vec<char>> = Vec::new();
        let mut heads: Vec<Vec<char>> = Vec::new();
        let mut k: usize = 0;
        while k < chunks.len()
            invariant
                k <= chunks@.len(),
                texts@.len() == k,
                heads@.len() == k,
                forall|j: int| 0 <= j < k ==> (#[trigger] texts@[j])@ == lowercase(chunks@[j].chunk.text@),
                forall|j: int| 0 <= j < k ==> (#[trigger] heads@[j])@ == lowercase(heading_or_empty(chunks@[j])),
            decreases chunks@.len() - k,
        {
            texts.push(lower_str(chunks[k].chunk.text.as_str()));
            let empty: Vec<char> = Vec::new();
            let h: Vec<char> = match &chunks[k].chunk.heading_path {
                Some(p) => lower_str(p.as_str()),
                None => lower_chars(empty.as_slice()),
            };
            assert(empty@ =~= Seq::<char>::empty());
            heads.push(h);
            k += 1;
        }
        let mut covered: usize = 0;
        let mut t: usize = 0;
        while t < terms.len()
            invariant
                t <= terms@.len(),
                tv == terms@.map_values(|v: Vec<char>| v@),
                texts@.len() == chunks@.len(),
                heads@.len() == chunks@.len(),
                forall|j: int| 0 <= j < chunks@.len() ==> (#[trigger] texts@[j])@ == lowercase(chunks@[j].chunk.text@),
                forall|j: int| 0 <= j < chunks@.len() ==> (#[trigger] heads@[j])@ == lowercase(heading_or_empty(chunks@[j])),
                covered == count_covered(tv.take(t as int), chunks@),
                covered <= t,
            decreases terms@.len() - t,
        {
            let mut found = false;
            let mut j: usize = 0;
            while j < chunks.len()
                invariant
                    j <= chunks@.len(),
                    t < terms@.len(),
                    tv == terms@.map_values(|v: Vec<char>| v@),
                    texts@.len() == chunks@.len(),
                    heads@.len() == chunks@.len(),
                    forall|m: int| 0 <= m < chunks@.len() ==> (#[trigger] texts@[m])@ == lowercase(chunks@[m].chunk.text@),
                    forall|m: int| 0 <= m < chunks@.len() ==> (#[trigger] heads@[m])@ == lowercase(heading_or_empty(chunks@[m])),
                    found <==> exists|m: int| 0 <= m < j && #[trigger] chunk_mentions(chunks@[m], tv[t as int]),
                decreases chunks@.len() - j,
            {
                assert(tv[t as int] == terms@[t as int]@);
                if contains_chars(texts[j].as_slice(), terms[t].as_slice()) || contains_chars(
                    heads[j].as_slice(),
                    terms[t].as_slice(),
                ) {
                    assert(chunk_mentions(chunks@[j as int], tv[t as int]));
                    found = true;
                }
                j += 1;
            }
            proof {
                let tk = tv.take(t as int + 1);
                assert(tk.drop_last() == tv.take(t as int));
                assert(tk.last() == tv[t as int]);
            }
            if found {
                covered += 1;
            }
            t += 1;
        }
        assert(tv.take(tv.len() as int) == tv);
        covered < terms.len() / 2
    }
}

impl RetrievalAgent {
    /// The query variants a second pass searches: all but the first (the question itself).
    pub fn second_pass_queries(plan: &QueryPlan) -> (r: Vec<String>)
        ensures
            r@.map_values(|s: String| s@) == (if plan.variants@.len() == 0 {
                Seq::empty()
            } else {
                plan.variants@.map_values(|s: String| s@).skip(1)
            }),
    {
        let ghost pv = plan.variants@.map_values(|s: String| s@);
        let mut out: Vec<String> = Vec::new();
        let mut i: usize = 1;
        if plan.variants.len() == 0 {
            return out;
        }
        while i < plan.variants.len()
            invariant
                1 <= i <= plan.variants@.len(),
                pv == plan.variants@.map_values(|s: String| s@),
                out@.map_values(|s: String| s@) == pv.subrange(1, i as int),
            decreases plan.variants@.len() - i,
        {
            let ghost before = out@.map_values(|s: String| s@);
            out.push(plan.variants[i].clone());
            assert(out@.map_values(|s: String| s@) =~= before.push(pv[i as int]));
            assert(pv.subrange(1, i as int + 1) =~= pv.subrange(1, i as int).push(pv[i as int]));
            i += 1;
        }
        assert(pv.subrange(1, pv.len() as int) =~= pv.skip(1));
        out
    }
}

/// Deduplicating more chunks keeps what deduplicating fewer gave, as a prefix.
pub proof fn lemma_dedup_prefix_extends(cs: Seq<RankedChunk>, n: int, m: int)
    requires
        0 <= n <= m <= cs.len(),
    ensures
        dedup_prefix(cs, n).len() <= dedup_prefix(cs, m).len(),
        dedup_prefix(cs, m).take(dedup_prefix(cs, n).len() as int) == dedup_prefix(cs, n),
    decreases m - n,
{
    if n == m {
        assert(dedup_prefix(cs, m).take(dedup_prefix(cs, m).len() as int) == dedup_prefix(cs, m));
    } else {
        lemma_dedup_prefix_extends(cs, n, m - 1);
        let a = dedup_prefix(cs, n);
        let b = dedup_prefix(cs, m - 1);
        let c = dedup_prefix(cs, m);
        assert(c.take(b.len() as int) == b);
        assert(c.take(a.len() as int) == b.take(a.len() as int));
    }
}

/// The merged results of two passes: the first pass's chunks, then the second's, each
/// content hash kept once, at most `max` of them (one when `max` is 0 and there is any).
pub open spec fn spec_merge_results(
    first: Seq<RankedChunk>,
    second: Seq<RankedChunk>,
    max: usize,
) -> Seq<RankedChunk> {
    let d = spec_dedup_chunks(first + second);
    let k: int = if max == 0 {
        1
    } else {
        max as int
    };
    if d.len() <= k {
        d
    } else {
        d.take(k)
    }
}

impl RetrievalAgent {
    /// Merges the chunks of two retrieval passes: first-pass chunks before second-pass ones, each
    /// content hash once, stopping once `max` chunks are kept.
    pub fn merge_results(first: Vec<RankedChunk>, second: Vec<RankedChunk>, max: usize) -> (r: Vec<
        RankedChunk,
    >)
        ensures
            r@ == spec_merge_results(first@, second@, max),
    {
        let ghost cs = first@ + second@;
        let ghost f0 = first@;
        let ghost s0 = second@;
        let mut all = first;
        let mut rest = second;
        all.append(&mut rest);
        assert(all@ == cs);
        let ghost k: int = if max == 0 {
            1
        } else {
            max as int
        };
        let mut seen: Vec<Vec<char>> = Vec::new();
        let mut out: Vec<RankedChunk> = Vec::new();
        let mut done = false;
        for c in it: all.into_iter()
            invariant
                it.seq() == cs,
                it.index() <= cs.len(),
                k == (if max == 0 {
                    1
                } else {
                    max as int
                }),
                !done ==> out@ == dedup_prefix(cs, it.index() as int),
                !done ==> out@.len() < k,
                max == 0 && !done ==> it.index() == 0,
                cs == f0 + s0,
                done ==> out@ == spec_merge_results(f0, s0, max),
                seen@.len() == it.index(),
                forall|j: int| 0 <= j < it.index() ==> (#[trigger] seen@[j])@ == hash_of(cs[j]),
        {
            let ghost i = it.index() as int;
            if !done {
                assert(c == cs[i]);
                let h = chars_of(c.chunk.content_hash.as_str());
                let mut dup = false;
                let mut j: usize = 0;
                while j < seen.len()
                    invariant
                        j <= seen@.len(),
                        seen@.len() == i,
                        forall|m: int| 0 <= m < i ==> (#[trigger] seen@[m])@ == hash_of(cs[m]),
                        h@ == hash_of(cs[i]),
                        dup <==> exists|m: int| 0 <= m < j && #[trigger] hash_of(cs[m]) == hash_of(cs[i]),
                    decreases seen@.len() - j,
                {
                    if chars_eq(seen[j].as_slice(), h.as_slice()) {
                        assert(hash_of(cs[j as int]) == hash_of(cs[i]));
                        dup = true;
                    }
                    j += 1;
                }
                assert(dup == seen_before(cs, i));
                if !dup {
                    out.push(c);
                }
                seen.push(h);
                if out.len() >= max {
                    done = true;
                    proof {
                        lemma_dedup_prefix_extends(cs, i + 1, cs.len() as int);
                        let d = spec_dedup_chunks(cs);
                        assert(out@.len() == k);
                        assert(d.take(k) == out@);
                    }
                }
            } else {
                seen.push(chars_of(c.chunk.content_hash.as_str()));
                proof {
                    assert(seen@[i]@ == hash_of(cs[i]));
                }
            }
        }
        if !done {
            assert(out@ == spec_dedup_chunks(cs));
        }
        out
    }
}

/// Whether the mode asks for a corpus map.
pub fn supports_corpus_map(mode: RetrievalMode) -> (r: bool)
    ensures
        r == (mode == RetrievalMode::CorpusMap),
{
    match mode {
        RetrievalMode::CorpusMap => true,
        _ => false,
    }
}


/// The distinct values of `vs`, in order of first occurrence.
pub open spec fn distinct_values(vs: Seq<Seq<char>>) -> Seq<Seq<char>>
    decreases vs.len(),
{
    if vs.len() == 0 {
        Seq::empty()
    } else {
        let d = distinct_values(vs.drop_last());
        if d.contains(vs.last()) {
            d
        } else {
            d.push(vs.last())
        }
    }
}

/// How often `v` occurs in `vs`.
pub open spec fn occurrences(vs: Seq<Seq<char>>, v: Seq<char>) -> nat
    decreases vs.len(),
{
    if vs.len() == 0 {
        0
    } else {
        occurrences(vs.drop_last(), v) + (if vs.last() == v {
            1nat
        } else {
            0nat
        })
    }
}

/// Where an entry with count `n` goes in a list ordered by falling count: after every entry
/// whose count is at least `n`.
pub open spec fn insert_pos(s: Seq<(Seq<char>, nat)>, n: nat) -> int
    decreases s.len(),
{
    if s.len() == 0 {
        0
    } else if s.last().1 >= n {
        s.len() as int
    } else {
        insert_pos(s.drop_last(), n)
    }
}

/// The entries ordered by falling count, entries of equal count in their given order.
pub open spec fn sort_by_count(es: Seq<(Seq<char>, nat)>) -> Seq<(Seq<char>, nat)>
    decreases es.len(),
{
    if es.len() == 0 {
        Seq::empty()
    } else {
        let s = sort_by_count(es.drop_last());
        s.insert(insert_pos(s, es.last().1), es.last())
    }
}

/// Each distinct value with its number of occurrences, in order of first occurrence.
pub open spec fn value_counts(vs: Seq<Seq<char>>) -> Seq<(Seq<char>, nat)> {
    let d = distinct_values(vs);
    Seq::new(d.len(), |i: int| (d[i], occurrences(vs, d[i])))
}

/// The thirty most frequent entity values with their counts, most frequent first; values of
/// equal count in order of first occurrence.
pub open spec fn spec_entity_frequencies(vs: Seq<Seq<char>>) -> Seq<(Seq<char>, nat)> {
    let s = sort_by_count(value_counts(vs));
    if s.len() <= 30 {
        s
    } else {
        s.take(30)
    }
}

/// The value and count of entity frequencies.
pub open spec fn frequencies_view(v: Seq<EntityFrequency>) -> Seq<(Seq<char>, nat)> {
    v.map_values(|e: EntityFrequency| (e.value@, e.count as nat))
}

proof fn lemma_occurrences_bound(vs: Seq<Seq<char>>, v: Seq<char>)
    ensures
        occurrences(vs, v) <= vs.len(),
        !vs.contains(v) ==> occurrences(vs, v) == 0,
    decreases vs.len(),
{
    if vs.len() > 0 {
        lemma_occurrences_bound(vs.drop_last(), v);
        if !vs.contains(v) {
            assert(!vs.drop_last().contains(v)) by {
                if vs.drop_last().contains(v) {
                    let j = choose|j: int| 0 <= j < vs.drop_last().len() && vs.drop_last()[j] == v;
                    assert(vs[j] == v);
                }
            }
            assert(vs.last() != v) by {
                assert(vs[vs.len() - 1] == vs.last());
            }
        }
    }
}

proof fn lemma_distinct_values(vs: Seq<Seq<char>>)
    ensures
        forall|v: Seq<char>| distinct_values(vs).contains(v) <==> vs.contains(v),
        forall|i: int, j: int|
            0 <= i < j < distinct_values(vs).len() ==> distinct_values(vs)[i] != distinct_values(
                vs,
            )[j],
    decreases vs.len(),
{
    if vs.len() > 0 {
        let p = vs.drop_last();
        let l = vs.last();
        lemma_distinct_values(p);
        let d = distinct_values(p);
        let dv = distinct_values(vs);
        assert forall|v: Seq<char>| dv.contains(v) implies vs.contains(v) by {
            let j = choose|j: int| 0 <= j < dv.len() && dv[j] == v;
            if j < d.len() {
                assert(d[j] == v);
                assert(d.contains(v));
                assert(p.contains(v));
                let k = choose|k: int| 0 <= k < p.len() && p[k] == v;
                assert(vs[k] == v);
            } else {
                assert(v == l);
                assert(vs[vs.len() - 1] == v);
            }
        }
        assert forall|v: Seq<char>| vs.contains(v) implies dv.contains(v) by {
            let j = choose|j: int| 0 <= j < vs.len() && vs[j] == v;
            if j < vs.len() - 1 {
                assert(p[j] == v);
                assert(p.contains(v));
                assert(d.contains(v));
                let k = choose|k: int| 0 <= k < d.len() && d[k] == v;
                if !d.contains(l) {
                    assert(dv[k] == v);
                }
            } else {
                assert(v == l);
                if !d.contains(l) {
                    assert(dv[d.len() as int] == v);
                }
            }
        }
        if !d.contains(l) {
            assert forall|i: int, j: int| 0 <= i < j < dv.len() implies dv[i] != dv[j] by {
                if j == d.len() {
                    assert(dv[i] == d[i]);
                    assert(d.contains(d[i]));
                }
            }
        }
    }
}

/// Counts each entity value and keeps the thirty most frequent, most frequent first; values
/// of equal count keep the order of their first occurrence.
pub fn entity_frequencies(values: &[String]) -> (r: Vec<EntityFrequency>)
    requires
        values@.len() <= u32::MAX,
    ensures
        frequencies_view(r@) == spec_entity_frequencies(values@.map_values(|s: String| s@)),
{
    let ghost vs = values@.map_values(|s: String| s@);
    let mut keys: Vec<Vec<char>> = Vec::new();
    let mut names: Vec<String> = Vec::new();
    let mut counts: Vec<u32> = Vec::new();
    let mut i: usize = 0;
    while i < values.len()
        invariant
            i <= values@.len(),
            values@.len() <= u32::MAX,
            vs == values@.map_values(|s: String| s@),
            keys@.len() == counts@.len(),
            names@.len() == counts@.len(),
            keys@.map_values(|k: Vec<char>| k@) == distinct_values(vs.take(i as int)),
            forall|k: int| 0 <= k < names@.len() ==> (#[trigger] names@[k])@ == keys@[k]@,
            forall|k: int|
                0 <= k < counts@.len() ==> #[trigger] counts@[k] == occurrences(
                    vs.take(i as int),
                    keys@[k]@,
                ),
        decreases values@.len() - i,
    {
        let ghost pre = vs.take(i as int);
        let ghost cur = vs.take(i as int + 1);
        assert(cur.drop_last() == pre);
        assert(cur.last() == vs[i as int]);
        assert(vs[i as int] == values@[i as int]@);
        proof {
            lemma_distinct_values(pre);
        }
        let v = chars_of(values[i].as_str());
        let mut found: Option<usize> = None;
        let mut k: usize = 0;
        let ghost kv = keys@.map_values(|x: Vec<char>| x@);
        while k < keys.len()
            invariant
                k <= keys@.len(),
                kv == keys@.map_values(|x: Vec<char>| x@),
                v@ == vs[i as int],
                found matches Some(f) ==> f < keys@.len() && kv[f as int] == v@,
                found is None ==> forall|m: int| 0 <= m < k ==> kv[m] != v@,
            decreases keys@.len() - k,
        {
            if found.is_none() && chars_eq(keys[k].as_slice(), v.as_slice()) {
                found = Some(k);
            }
            k += 1;
        }
        match found {
            Some(f) => {
                proof {
                    lemma_occurrences_bound(pre, kv[f as int]);
                    assert(kv.contains(v@));
                }
                let c = counts[f];
                counts.set(f, c + 1);
                assert(distinct_values(cur) == distinct_values(pre));
                assert forall|m: int| 0 <= m < counts@.len() implies #[trigger] counts@[m]
                    == occurrences(cur, keys@[m]@) by {
                    if m != f {
                        assert(keys@[m]@ == kv[m]);
                        assert(kv[m] != kv[f as int]);
                    }
                }
            },
            None => {
                proof {
                    assert(!kv.contains(v@)) by {
                        if kv.contains(v@) {
                            let m = choose|m: int| 0 <= m < kv.len() && kv[m] == v@;
                            assert(kv[m] != v@);
                        }
                    }
                    assert(!pre.contains(v@));
                    lemma_occurrences_bound(pre, v@);
                }
                keys.push(v);
                names.push(values[i].clone());
                counts.push(1);
                assert(keys@.map_values(|x: Vec<char>| x@) =~= kv.push(vs[i as int]));
                assert forall|m: int| 0 <= m < counts@.len() implies #[trigger] counts@[m]
                    == occurrences(cur, keys@[m]@) by {
                    if m < counts@.len() - 1 {
                        assert(keys@[m]@ == kv[m]);
                        assert(kv.contains(kv[m]));
                        assert(kv[m] != vs[i as int]);
                    }
                }
            },
        }
        i += 1;
    }
    assert(vs.take(vs.len() as int) == vs);
    // order by falling count, keeping the order of first occurrence among equal counts
    let ghost es = value_counts(vs);
    assert(es.len() == counts@.len());
    let mut sorted: Vec<EntityFrequency> = Vec::new();
    let mut j: usize = 0;
    while j < counts.len()
        invariant
            j <= counts@.len(),
            es.len() == counts@.len(),
            names@.len() == counts@.len(),
            forall|m: int| 0 <= m < es.len() ==> #[trigger] es[m] == (names@[m]@, counts@[m] as nat),
            frequencies_view(sorted@) == sort_by_count(es.take(j as int)),
        decreases counts@.len() - j,
    {
        let n = counts[j];
        let ghost s = frequencies_view(sorted@);
        let mut p: usize = sorted.len();
        assert(s.take(s.len() as int) == s);
        while p > 0 && sorted[p - 1].count < n
            invariant
                p <= sorted@.len(),
                s == frequencies_view(sorted@),
                insert_pos(s, n as nat) == insert_pos(s.take(p as int), n as nat),
            decreases p,
        {
            assert(s.take(p as int).drop_last() == s.take(p as int - 1));
            p -= 1;
        }
        proof {
            if p > 0 {
                assert(s.take(p as int).last() == s[p - 1]);
            }
            assert(insert_pos(s, n as nat) == p);
        }
        sorted.insert(p, EntityFrequency { value: names[j].clone(), count: n });
        proof {
            let t = es.take(j as int + 1);
            assert(t.drop_last() == es.take(j as int));
            assert(t.last() == es[j as int]);
            assert(frequencies_view(sorted@) =~= s.insert(p as int, es[j as int]));
        }
        j += 1;
    }
    assert(es.take(es.len() as int) == es);
    sorted.truncate(30);
    sorted
}


/// A chunk relates to the lower-cased question `q`: its lower-cased text or heading path
/// holds `q`.
pub open spec fn relates(c: RankedChunk, q: Seq<char>) -> bool {
    contains(lowercase(c.chunk.text@), q) || contains(lowercase(heading_or_empty(c)), q)
}

/// The test of relating to the lower-cased question `q`.
pub open spec fn relates_to(q: Seq<char>) -> spec_fn(RankedChunk) -> bool {
    |c: RankedChunk| relates(c, q)
}

/// The chunks a corpus map lists as related: all of them for an empty question, else the
/// first twenty that relate to the lower-cased question.
pub open spec fn spec_related_chunks(query: Seq<char>, cs: Seq<RankedChunk>) -> Seq<RankedChunk> {
    let q = lowercase(query);
    if q.len() == 0 {
        cs
    } else {
        let f = cs.filter(relates_to(q));
        if f.len() <= 20 {
            f
        } else {
            f.take(20)
        }
    }
}

/// The chunks related to the question (see [`spec_related_chunks`]).
pub fn related_chunks(query: &str, chunks: Vec<RankedChunk>) -> (r: Vec<RankedChunk>)
    ensures
        r@ == spec_related_chunks(query@, chunks@),
{
    let q = lower_str(query);
    if q.len() == 0 {
        return chunks;
    }
    let ghost cs = chunks@;
    let ghost pred = relates_to(q@);
    let mut out: Vec<RankedChunk> = Vec::new();
    for c in it: chunks.into_iter()
        invariant
            it.seq() == cs,
            it.index() <= cs.len(),
            q@ == lowercase(query@),
            pred == relates_to(q@),
            out@.len() <= 20,
            out@.len() < 20 ==> out@ == cs.take(it.index() as int).filter(pred),
            out@.len() == 20 ==> out@ == cs.take(it.index() as int).filter(pred).take(20),
            out@.len() == 20 ==> cs.take(it.index() as int).filter(pred).len() >= 20,
    {
        let ghost i = it.index() as int;
        assert(c == cs[i]);
        let ghost before = out@;
        let t = lower_str(c.chunk.text.as_str());
        let empty: Vec<char> = Vec::new();
        let h: Vec<char> = match &c.chunk.heading_path {
            Some(p) => lower_str(p.as_str()),
            None => lower_chars(empty.as_slice()),
        };
        assert(empty@ =~= Seq::<char>::empty());
        let rel = contains_chars(t.as_slice(), q.as_slice()) || contains_chars(h.as_slice(), q.as_slice());
        assert(rel == relates(cs[i], q@));
        proof {
            reveal(Seq::filter);
            let tk = cs.take(i + 1);
            assert(tk.drop_last() == cs.take(i));
            assert(tk.last() == cs[i]);
        }
        if rel && out.len() < 20 {
            out.push(c);
        }
        proof {
            let f0 = cs.take(i).filter(pred);
            let f1 = cs.take(i + 1).filter(pred);
            if rel {
                assert(f1 == f0.push(cs[i]));
                if before.len() == 20 {
                    assert(f1.take(20) =~= f0.take(20));
                } else if out@.len() == 20 {
                    assert(f1.take(20) =~= f1);
                }
            } else {
                assert(f1 == f0);
            }
        }
    }
    proof {
        assert(cs.take(cs.len() as int) == cs);
        let f = cs.filter(pred);
        if out@.len() < 20 {
            assert(f.len() <= 20);
        } else {
            if f.len() == 20 {
                assert(f.take(20) =~= f);
            }
        }
    }
    out
}

/// A document-level summary with the document it belongs to, if that was found.
#[derive(Clone, Debug)]
pub struct ThemeSource {
    pub summary: DocumentSummary,
    pub title: Option<String>,
    pub original_filename: Option<String>,
}

/// The theme a summary gives: only a summary of a whole document (no section) whose document
/// was found, titled by the document's title or else its file name.
pub open spec fn theme_of(t: ThemeSource) -> Option<(Seq<char>, Seq<char>, Seq<char>)> {
    if t.summary.section_id is None && t.original_filename is Some {
        Some(
            (
                t.summary.document_id@,
                match t.title {
                    Some(x) => x@,
                    None => t.original_filename->0@,
                },
                t.summary.summary@,
            ),
        )
    } else {
        None
    }
}

/// The themes of the summaries, in order.
pub open spec fn themes_of(ts: Seq<ThemeSource>) -> Seq<(Seq<char>, Seq<char>, Seq<char>)>
    decreases ts.len(),
{
    if ts.len() == 0 {
        Seq::empty()
    } else {
        themes_of(ts.drop_last()) + match theme_of(ts.last()) {
            Some(e) => seq![e],
            None => Seq::empty(),
        }
    }
}

/// The values of theme entries.
pub open spec fn themes_view(v: Seq<ThemeEntry>) -> Seq<(Seq<char>, Seq<char>, Seq<char>)> {
    v.map_values(|e: ThemeEntry| (e.document_id@, e.title@, e.summary@))
}

/// The section entries of documents, document by document.
pub open spec fn sections_of(ds: Seq<(String, Vec<crate::documents::graph_types::Section>)>) -> Seq<
    (Seq<char>, Seq<char>, Option<Seq<char>>),
>
    decreases ds.len(),
{
    if ds.len() == 0 {
        Seq::empty()
    } else {
        sections_of(ds.drop_last()) + ds.last().1@.map_values(
            |s: crate::documents::graph_types::Section|
                (ds.last().0@, s.heading_path@, crate::documents::graph_types::opt_view(s.summary)),
        )
    }
}

/// The values of section entries.
pub open spec fn section_entries_view(v: Seq<SectionEntry>) -> Seq<
    (Seq<char>, Seq<char>, Option<Seq<char>>),
> {
    v.map_values(
        |e: SectionEntry| (e.document_id@, e.heading_path@, crate::documents::graph_types::opt_view(e.summary)),
    )
}

/// Builds the map of the whole corpus: the themes of whole-document summaries, the thirty
/// most frequent entity values, every section of every document, and the retrieved chunks
/// that relate to the question.
pub fn build_corpus_map(
    query: &str,
    chunks: Vec<RankedChunk>,
    themes: &[ThemeSource],
    entity_values: &[String],
    doc_sections: &[(String, Vec<crate::documents::graph_types::Section>)],
) -> (r: CorpusMapResult)
    requires
        entity_values@.len() <= u32::MAX,
    ensures
        themes_view(r.themes@) == themes_of(themes@),
        frequencies_view(r.entities@) == spec_entity_frequencies(
            entity_values@.map_values(|s: String| s@),
        ),
        section_entries_view(r.sections@) == sections_of(doc_sections@),
        r.related_chunks@ == spec_related_chunks(query@, chunks@),
{
    let mut theme_entries: Vec<ThemeEntry> = Vec::new();
    let mut i: usize = 0;
    while i < themes.len()
        invariant
            i <= themes@.len(),
            themes_view(theme_entries@) == themes_of(themes@.take(i as int)),
        decreases themes@.len() - i,
    {
        let t = &themes[i];
        let ghost before = themes_view(theme_entries@);
        proof {
            let tk = themes@.take(i as int + 1);
            assert(tk.drop_last() == themes@.take(i as int));
            assert(tk.last() == themes@[i as int]);
        }
        if t.summary.section_id.is_none() {
            match &t.original_filename {
                Some(f) => {
                    let title = match &t.title {
                        Some(x) => x.clone(),
                        None => f.clone(),
                    };
                    theme_entries.push(
                        ThemeEntry {
                            document_id: t.summary.document_id.clone(),
                            title,
                            summary: t.summary.summary.clone(),
                        },
                    );
                    assert(themes_view(theme_entries@) =~= before + seq![
                        theme_of(themes@[i as int])->0,
                    ]);
                },
                None => {
                    assert(themes_view(theme_entries@) =~= before + Seq::empty());
                },
            }
        } else {
            assert(themes_view(theme_entries@) =~= before + Seq::empty());
        }
        i += 1;
    }
    assert(themes@.take(themes@.len() as int) == themes@);
    let entities = entity_frequencies(entity_values);
    let mut sections: Vec<SectionEntry> = Vec::new();
    let mut d: usize = 0;
    while d < doc_sections.len()
        invariant
            d <= doc_sections@.len(),
            section_entries_view(sections@) == sections_of(doc_sections@.take(d as int)),
        decreases doc_sections@.len() - d,
    {
        let ghost base = section_entries_view(sections@);
        let doc_id = &doc_sections[d].0;
        let secs = &doc_sections[d].1;
        let ghost target = secs@.map_values(
            |s: crate::documents::graph_types::Section|
                (doc_id@, s.heading_path@, crate::documents::graph_types::opt_view(s.summary)),
        );
        let mut k: usize = 0;
        while k < secs.len()
            invariant
                k <= secs@.len(),
                target == secs@.map_values(
                    |s: crate::documents::graph_types::Section|
                        (doc_id@, s.heading_path@, crate::documents::graph_types::opt_view(s.summary)),
                ),
                section_entries_view(sections@) == base + target.take(k as int),
            decreases secs@.len() - k,
        {
            let sec = &secs[k];
            let summary = match &sec.summary {
                Some(x) => Some(x.clone()),
                None => None,
            };
            let ghost old_view = section_entries_view(sections@);
            sections.push(
                SectionEntry {
                    document_id: doc_id.clone(),
                    heading_path: sec.heading_path.clone(),
                    summary,
                },
            );
            assert(target.take(k as int + 1) == target.take(k as int).push(target[k as int]));
            assert(section_entries_view(sections@) =~= old_view.push(target[k as int]));
            k += 1;
        }
        proof {
            assert(target.take(target.len() as int) == target);
            let tk = doc_sections@.take(d as int + 1);
            assert(tk.drop_last() == doc_sections@.take(d as int));
            assert(tk.last() == doc_sections@[d as int]);
        }
        d += 1;
    }
    assert(doc_sections@.take(doc_sections@.len() as int) == doc_sections@);
    let related = related_chunks(query, chunks);
    CorpusMapResult { themes: theme_entries, entities, sections, related_chunks: related }
}

} // verus!

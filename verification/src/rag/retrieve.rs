use vstd::prelude::*;
use vstd::string::*;

use crate::chunking::util::{estimate_tokens, matches_file_types, spec_estimate_tokens, spec_matches_file_types};
use crate::documents::graph_types::{opt_view, strs_view};
use crate::chunking::types::Chunk;
use crate::documents::types::str_eq;
use crate::rag::types::{RankedChunk, RetrievalFilters};
use crate::search::fusion::{spec_source_type_str, SourceType};
use crate::text::{
    chars_eq, chars_of, contains, contains_chars, lower_str, lowercase, starts_with,
    starts_with_chars, utf8_len,
};

verus! {

/// The content hash of a ranked chunk.
pub open spec fn hash_of(c: RankedChunk) -> Seq<char> {
    c.chunk.content_hash@
}

/// An earlier chunk of `cs` has the same content hash as the `i`-th.
pub open spec fn seen_before(cs: Seq<RankedChunk>, i: int) -> bool {
    exists|j: int| 0 <= j < i && #[trigger] hash_of(cs[j]) == hash_of(cs[i])
}

/// The first `n` chunks of `cs` with every chunk whose content hash already occurred dropped.
pub open spec fn dedup_prefix(cs: Seq<RankedChunk>, n: int) -> Seq<RankedChunk>
    decreases n,
{
    if n <= 0 {
        Seq::empty()
    } else {
        dedup_prefix(cs, n - 1) + (if seen_before(cs, n - 1) {
            Seq::empty()
        } else {
            seq![cs[n - 1]]
        })
    }
}

/// The chunks with later duplicates (by content hash) dropped, in order.
pub open spec fn spec_dedup_chunks(cs: Seq<RankedChunk>) -> Seq<RankedChunk> {
    dedup_prefix(cs, cs.len() as int)
}

/// Keeps the first chunk of each content hash, in order.
pub fn dedup_chunks(chunks: Vec<RankedChunk>) -> (r: Vec<RankedChunk>)
    ensures
        r@ == spec_dedup_chunks(chunks@),
{
    let ghost cs = chunks@;
    let mut seen: Vec<Vec<char>> = Vec::new();
    let mut out: Vec<RankedChunk> = Vec::new();
    for c in it: chunks.into_iter()
        invariant
            it.seq() == cs,
            it.index() <= cs.len(),
            out@ == dedup_prefix(cs, it.index() as int),
            seen@.len() == it.index(),
            forall|j: int| 0 <= j < it.index() ==> (#[trigger] seen@[j])@ == hash_of(cs[j]),
    {
        let ghost i = it.index() as int;
        assert(c == cs[i]);
        let h = chars_of(c.chunk.content_hash.as_str());
        let mut dup = false;
        let mut k: usize = 0;
        while k < seen.len()
            invariant
                k <= seen@.len(),
                seen@.len() == i,
                forall|j: int| 0 <= j < i ==> (#[trigger] seen@[j])@ == hash_of(cs[j]),
                h@ == hash_of(cs[i]),
                dup <==> exists|j: int| 0 <= j < k && #[trigger] hash_of(cs[j]) == hash_of(cs[i]),
            decreases seen@.len() - k,
        {
            if chars_eq(seen[k].as_slice(), h.as_slice()) {
                assert(hash_of(cs[k as int]) == hash_of(cs[i]));
                dup = true;
            }
            k += 1;
        }
        assert(dup == seen_before(cs, i));
        if !dup {
            out.push(c);
        }
        seen.push(h);
    }
    out
}

/// A chunk passes the filters: its document is among the listed ones, its file among the
/// listed types, its heading path (empty when absent) begins with the section prefix, its
/// lower-cased entity tokens (empty when absent) hold the lower-cased entity, and its page
/// (0 when absent for the lower bound, the largest page when absent for the upper bound) lies
/// within the bounds; each test applies only where its filter is set.
pub open spec fn passes_filters(c: RankedChunk, f: RetrievalFilters) -> bool {
    let ids = f.document_ids@.map_values(|s: String| s@);
    &&& (ids.len() == 0 || ids.contains(c.chunk.document_id.0@))
    &&& (f.file_types@.len() == 0 || spec_matches_file_types(
        c.chunk.source_filename@,
        f.file_types@.map_values(|s: String| s@),
    ))
    &&& match f.section_prefix {
        Some(p) => starts_with(
            match c.chunk.heading_path {
                Some(h) => h@,
                None => Seq::empty(),
            },
            p@,
        ),
        None => true,
    }
    &&& match f.entity_match {
        Some(e) => contains(
            lowercase(
                match c.chunk.entity_tokens {
                    Some(t) => t@,
                    None => Seq::empty(),
                },
            ),
            lowercase(e@),
        ),
        None => true,
    }
    &&& match f.page_min {
        Some(min) => (match c.chunk.page_number {
            Some(p) => p,
            None => 0u32,
        }) >= min,
        None => true,
    }
    &&& match f.page_max {
        Some(max) => (match c.chunk.page_number {
            Some(p) => p,
            None => u32::MAX,
        }) <= max,
        None => true,
    }
}

/// The chunks that pass the filters, in order.
pub open spec fn spec_apply_filters(cs: Seq<RankedChunk>, f: RetrievalFilters) -> Seq<
    RankedChunk,
> {
    cs.filter(|c: RankedChunk| passes_filters(c, f))
}

/// Whether the document id is one of `ids`.
fn id_listed(ids: &Vec<String>, id: &str) -> (r: bool)
    ensures
        r == ids@.map_values(|s: String| s@).contains(id@),
{
    let ghost iv = ids@.map_values(|s: String| s@);
    let target = chars_of(id);
    let mut i: usize = 0;
    while i < ids.len()
        invariant
            i <= ids@.len(),
            iv == ids@.map_values(|s: String| s@),
            target@ == id@,
            forall|j: int| 0 <= j < i ==> iv[j] != id@,
        decreases ids@.len() - i,
    {
        let c = chars_of(ids[i].as_str());
        if chars_eq(c.as_slice(), target.as_slice()) {
            assert(iv[i as int] == id@);
            return true;
        }
        i += 1;
    }
    false
}

/// Whether one chunk passes the filters.
fn chunk_passes(c: &RankedChunk, filters: &RetrievalFilters) -> (r: bool)
    ensures
        r == passes_filters(*c, *filters),
{
    if filters.document_ids.len() != 0 && !id_listed(
        &filters.document_ids,
        c.chunk.document_id.0.as_str(),
    ) {
        return false;
    }
    if filters.file_types.len() != 0 && !matches_file_types(
        c.chunk.source_filename.as_str(),
        filters.file_types.as_slice(),
    ) {
        return false;
    }
    match &filters.section_prefix {
        Some(prefix) => {
            let path: Vec<char> = match &c.chunk.heading_path {
                Some(h) => chars_of(h.as_str()),
                None => Vec::new(),
            };
            let p = chars_of(prefix.as_str());
            if !starts_with_chars(path.as_slice(), p.as_slice()) {
                return false;
            }
        },
        None => {},
    }
    match &filters.entity_match {
        Some(entity) => {
            let tokens: &str = match &c.chunk.entity_tokens {
                Some(t) => t.as_str(),
                None => "",
            };
            proof {
                reveal_strlit("");
            }
            assert(tokens@ == (match c.chunk.entity_tokens {
                Some(t) => t@,
                None => Seq::<char>::empty(),
            }));
            let tl = lower_str(tokens);
            let el = lower_str(entity.as_str());
            if !contains_chars(tl.as_slice(), el.as_slice()) {
                return false;
            }
        },
        None => {},
    }
    match filters.page_min {
        Some(min) => {
            let p = match c.chunk.page_number {
                Some(p) => p,
                None => 0,
            };
            if p < min {
                return false;
            }
        },
        None => {},
    }
    match filters.page_max {
        Some(max) => {
            let p = match c.chunk.page_number {
                Some(p) => p,
                None => u32::MAX,
            };
            if p > max {
                return false;
            }
        },
        None => {},
    }
    true
}

/// Keeps the chunks that pass every filter that is set, in order; with no filter set every
/// chunk passes.
pub fn apply_filters(chunks: Vec<RankedChunk>, filters: &RetrievalFilters) -> (r: Vec<
    RankedChunk,
>)
    ensures
        r@ == spec_apply_filters(chunks@, *filters),
{
    let ghost cs = chunks@;
    let mut out: Vec<RankedChunk> = Vec::new();
    for c in it: chunks.into_iter()
        invariant
            it.seq() == cs,
            it.index() <= cs.len(),
            out@ == spec_apply_filters(cs.take(it.index() as int), *filters),
    {
        let ghost i = it.index() as int;
        assert(c == cs[i]);
        let keep = chunk_passes(&c, filters);
        proof {
            let t = cs.take(i + 1);
            assert(t.drop_last() == cs.take(i));
            assert(t.last() == cs[i]);
            reveal(Seq::filter);
            assert(t == cs.take(i).push(cs[i]));
        }
        if keep {
            out.push(c);
        }
    }
    assert(cs.take(cs.len() as int) == cs);
    out
}

/// The tokens a chunk adds to the context: its own count and the estimate for its expanded
/// context, if any.
pub open spec fn chunk_cost(c: RankedChunk) -> int {
    c.chunk.token_count + match c.expanded_context {
        Some(e) => spec_estimate_tokens(utf8_len(e@)) as int,
        None => 0,
    }
}

/// How many chunks from the `i`-th on fit, `total` tokens being spent already: chunks are
/// taken in order until the next one would pass `max`.
pub open spec fn budget_count_from(cs: Seq<RankedChunk>, max: int, i: int, total: int) -> int
    decreases cs.len() - i,
{
    if i < 0 || i >= cs.len() {
        i
    } else if total + chunk_cost(cs[i]) > max {
        i
    } else {
        budget_count_from(cs, max, i + 1, total + chunk_cost(cs[i]))
    }
}

/// The chunks that fit in `max` tokens: the longest prefix taken greedily.
pub open spec fn spec_apply_budget(cs: Seq<RankedChunk>, max: int) -> Seq<RankedChunk> {
    cs.take(budget_count_from(cs, max, 0, 0))
}

/// Keeps chunks, in order, while their token counts (with expanded context) fit in
/// `max_tokens`; stops at the first that does not.
pub fn apply_budget(chunks: Vec<RankedChunk>, max_tokens: u32) -> (r: Vec<RankedChunk>)
    ensures
        r@ == spec_apply_budget(chunks@, max_tokens as int),
{
    let ghost cs = chunks@;
    let mut total: u64 = 0;
    let mut out: Vec<RankedChunk> = Vec::new();
    let mut stopped = false;
    for c in it: chunks.into_iter()
        invariant
            it.seq() == cs,
            it.index() <= cs.len(),
            total <= max_tokens,
            !stopped ==> out@ == cs.take(it.index() as int),
            !stopped ==> budget_count_from(cs, max_tokens as int, 0, 0) == budget_count_from(
                cs,
                max_tokens as int,
                it.index() as int,
                total as int,
            ),
            stopped ==> out@ == spec_apply_budget(cs, max_tokens as int),
    {
        let ghost i = it.index() as int;
        if !stopped {
            assert(c == cs[i]);
            let extra: u32 = match &c.expanded_context {
                Some(e) => estimate_tokens(e.as_str()),
                None => 0,
            };
            let cost: u64 = c.chunk.token_count as u64 + extra as u64;
            assert(cost == chunk_cost(cs[i]));
            if total + cost > max_tokens as u64 {
                stopped = true;
                assert(budget_count_from(cs, max_tokens as int, i, total as int) == i);
            } else {
                total = total + cost;
                out.push(c);
                assert(cs.take(i + 1) == cs.take(i).push(cs[i]));
            }
        }
    }
    if !stopped {
        assert(budget_count_from(cs, max_tokens as int, cs.len() as int, total as int) == cs.len());
        assert(cs.take(cs.len() as int) == cs);
    }
    out
}

/// `b` is `a` with its source number set to `n`.
pub open spec fn numbered(a: RankedChunk, b: RankedChunk, n: u32) -> bool {
    &&& b.chunk == a.chunk
    &&& b.score_bits == a.score_bits
    &&& b.source_type == a.source_type
    &&& b.rerank_score_bits == a.rerank_score_bits
    &&& b.expanded_context == a.expanded_context
    &&& b.source_number == Some(n)
}

/// Numbers the chunks `[Source 1]`, `[Source 2]`, ... in the order given (the order of
/// relevance after fusion and reranking), changing nothing else.
pub fn assign_source_numbers(chunks: Vec<RankedChunk>) -> (r: Vec<RankedChunk>)
    ensures
        r@.len() == chunks@.len(),
        forall|i: int| 0 <= i < r@.len() ==> numbered(chunks@[i], #[trigger] r@[i], (i + 1) as u32),
{
    let ghost cs = chunks@;
    let count = chunks.len();
    let mut out: Vec<RankedChunk> = Vec::new();
    for c in it: chunks.into_iter()
        invariant
            it.seq() == cs,
            cs.len() == count,
            it.index() <= cs.len(),
            out@.len() == it.index(),
            forall|k: int| 0 <= k < out@.len() ==> numbered(cs[k], #[trigger] out@[k], (k + 1) as u32),
    {
        let ghost i = it.index() as int;
        assert(c == cs[i]);
        let n = out.len();
        #[verifier::truncate]
        let num = (n + 1) as u32;
        let mut c2 = c;
        c2.source_number = Some(num);
        out.push(c2);
    }
    out
}


/// The tokens retrieved context may take: the stated percentage of the context size.
pub fn context_budget(context_size: u32, budget_pct: u32) -> (r: u32)
    requires
        context_size * budget_pct <= u32::MAX,
    ensures
        r == context_size * budget_pct / 100,
{
    context_size * budget_pct / 100
}

/// The positions of a fused list that become candidates, from position `i` on with `taken`
/// taken so far: an excluded id is passed over; any other is looked up, and taken when the
/// store holds it; after each lookup the collection stops once `cap` are taken (so even a
/// cap of 0 lets the first one found through).
pub open spec fn collected(
    ids: Seq<Seq<char>>,
    present: Seq<bool>,
    excl: Seq<Seq<char>>,
    cap: int,
    i: int,
    taken: int,
) -> Seq<int>
    decreases ids.len() - i,
{
    if i < 0 || i >= ids.len() {
        Seq::empty()
    } else if excl.contains(ids[i]) {
        collected(ids, present, excl, cap, i + 1, taken)
    } else {
        let t = if present[i] {
            taken + 1
        } else {
            taken
        };
        let here = if present[i] {
            seq![i]
        } else {
            Seq::<int>::empty()
        };
        if t >= cap {
            here
        } else {
            here + collected(ids, present, excl, cap, i + 1, t)
        }
    }
}

/// The ids of a fused list.
pub open spec fn fused_list_ids(fused: Seq<(String, u64, SourceType)>) -> Seq<Seq<char>> {
    fused.map_values(|e: (String, u64, SourceType)| e.0@)
}

/// Which fused ids the store holds.
pub open spec fn found_mask(found: Seq<Option<Chunk>>) -> Seq<bool> {
    found.map_values(|c: Option<Chunk>| c is Some)
}

/// The candidate built from a fused entry and the chunk found for it: its fused score and
/// source, not yet numbered, reranked or expanded.
pub open spec fn candidate_of(e: (String, u64, SourceType), c: Chunk, r: RankedChunk) -> bool {
    &&& r.chunk == c
    &&& r.score_bits == e.1
    &&& r.source_type@ == spec_source_type_str(e.2)
    &&& r.source_number is None
    &&& r.rerank_score_bits is None
    &&& r.expanded_context is None
}

fn is_excluded(id: &String, exclude: &[String]) -> (r: bool)
    ensures
        r == strs_view(exclude@).contains(id@),
{
    let ghost ev = strs_view(exclude@);
    let mut k: usize = 0;
    while k < exclude.len()
        invariant
            k <= exclude@.len(),
            ev == strs_view(exclude@),
            forall|j: int| 0 <= j < k ==> ev[j] != id@,
        decreases exclude@.len() - k,
    {
        if str_eq(exclude[k].as_str(), id.as_str()) {
            assert(ev[k as int] == id@);
            return true;
        }
        k += 1;
    }
    false
}

/// The candidates of a fused list (see [`collected`]), `found` holding what the store holds
/// for each fused id, in the same order.
pub fn collect_ranked(
    fused: &[(String, u64, SourceType)],
    found: Vec<Option<Chunk>>,
    exclude: &[String],
    cap: usize,
) -> (r: Vec<RankedChunk>)
    requires
        found@.len() == fused@.len(),
    ensures
        ({
            let sel = collected(
                fused_list_ids(fused@),
                found_mask(found@),
                strs_view(exclude@),
                cap as int,
                0,
                0,
            );
            &&& r@.len() == sel.len()
            &&& forall|k: int|
                0 <= k < sel.len() ==> 0 <= #[trigger] sel[k] < fused@.len() && found@[sel[k]] is Some
                    && candidate_of(fused@[sel[k]], found@[sel[k]]->0, r@[k])
        }),
{
    let ghost ids = fused_list_ids(fused@);
    let ghost mask = found_mask(found@);
    let ghost ev = strs_view(exclude@);
    let ghost all = found@;
    let ghost whole = collected(ids, mask, ev, cap as int, 0, 0);
    let mut rest = found;
    let mut out: Vec<RankedChunk> = Vec::new();
    let ghost mut picked: Seq<int> = Seq::empty();
    let mut i: usize = 0;
    assert(all.skip(0) =~= all);
    while i < fused.len()
        invariant
            i <= fused@.len(),
            all.len() == fused@.len(),
            all == found@,
            rest@ == all.skip(i as int),
            ids == fused_list_ids(fused@),
            mask == found_mask(all),
            ev == strs_view(exclude@),
            whole == collected(ids, mask, ev, cap as int, 0, 0),
            out@.len() == picked.len(),
            (out@.len() as int) < cap || out@.len() == 0,
            picked + collected(ids, mask, ev, cap as int, i as int, out@.len() as int) == whole,
            forall|k: int|
                0 <= k < picked.len() ==> 0 <= #[trigger] picked[k] < i && all[picked[k]] is Some
                    && candidate_of(fused@[picked[k]], all[picked[k]]->0, out@[k]),
        decreases fused@.len() - i,
    {
        assert(rest@.len() > 0);
        let entry = rest.remove(0);
        assert(entry == all[i as int]);
        assert(rest@ =~= all.skip(i as int + 1));
        assert(ids[i as int] == fused@[i as int].0@);
        assert(mask[i as int] == (all[i as int] is Some));
        if is_excluded(&fused[i].0, exclude) {
            i += 1;
            continue;
        }
        let ghost taken = out@.len() as int;
        let ghost p0 = picked;
        let ghost here = if mask[i as int] {
            seq![i as int]
        } else {
            Seq::<int>::empty()
        };
        let ghost t = if mask[i as int] {
            taken + 1
        } else {
            taken
        };
        assert(!ev.contains(ids[i as int]));
        assert(collected(ids, mask, ev, cap as int, i as int, taken) == (if t >= cap {
            here
        } else {
            here + collected(ids, mask, ev, cap as int, i as int + 1, t)
        }));
        match entry {
            Some(chunk) => {
                let ghost before = out@;
                assert(all[i as int] == Some(chunk));
                out.push(
                    RankedChunk {
                        chunk,
                        score_bits: fused[i].1,
                        source_type: String::from_str(fused[i].2.as_str()),
                        source_number: None,
                        rerank_score_bits: None,
                        expanded_context: None,
                    },
                );
                proof {
                    picked = picked.push(i as int);
                    assert forall|k: int| 0 <= k < picked.len() implies 0 <= #[trigger] picked[k] < i + 1
                        && all[picked[k]] is Some && candidate_of(fused@[picked[k]], all[picked[k]]->0, out@[k]) by {
                        if k < p0.len() {
                            assert(picked[k] == p0[k]);
                            assert(out@[k] == before[k]);
                        } else {
                            assert(picked[k] == i);
                        }
                    }
                }
            },
            None => {},
        }
        assert(picked =~= p0 + here);
        assert(out@.len() == t);
        assert(forall|k: int| 0 <= k < picked.len() ==> 0 <= #[trigger] picked[k] < i + 1 && all[picked[k]] is Some
            && candidate_of(fused@[picked[k]], all[picked[k]]->0, out@[k]));
        if out.len() >= cap {
            assert(picked =~= whole);
            return out;
        }
        assert(picked + collected(ids, mask, ev, cap as int, i as int + 1, t) =~= whole);
        i += 1;
    }
    proof {
        assert(collected(ids, mask, ev, cap as int, i as int, out@.len() as int) =~= Seq::<int>::empty());
        assert(picked =~= whole);
    }
    out
}

} // verus!

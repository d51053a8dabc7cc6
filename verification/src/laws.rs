use vstd::prelude::*;

use crate::llm::generation::{hits_stop, spec_run};

use crate::chunking::hierarchy::{
    chunk_id_of, doc_sections, entity_tokens_of, fallback_from, final_acc, linked_chunk, primary_acc,
    section_body, section_segments_from, section_split, sections_chunks_from, spec_chunk_with_graph,
    table_id_of, table_lines, table_row_chunk, table_rows_from, tables_from, tables_view, uses_fallback, GraphAcc,
};
use crate::chunking::util::spec_estimate_tokens;
use crate::documents::entities::spec_extract_entities;
use crate::documents::structure::{doc_fallback_title, first_section_at};
use crate::ids::spec_hash_text;
use crate::documents::types::TableView;
use crate::documents::graph_types::StoredTableView;
use crate::chunking::types::{contextual_text, section_label_of};
use crate::text::trim;

use crate::rerank::pack::{batch_tokens, pack_state, spec_pack};

use crate::documents::structure::{
    headings_of, pop_levels, spec_markdown_sections, spec_section_id, spec_sections_to_stored, stack_heading_path,
    stored_from, SectionNodeView,
};
use crate::documents::graph_types::{
    spec_entity_kind_str, spec_stored_entity_kind, spec_stored_summary_level, spec_summary_level_str, EntityKind,
    SectionView, SummaryLevel,
};
use crate::documents::types::{
    spec_file_type_name, spec_import_status_name, spec_stored_file_type, spec_stored_import_status, Document, FileType,
    ImportStatus,
};
use crate::offsets::byte_slice;

use crate::memory::store::{
    spec_apply_update, spec_approved_input, spec_edited_input, EditCandidateInput, MemoryCandidate,
    UpdateMemoryInput,
};

use crate::memory::format::{memory_entries, memory_entry, spec_format_memory_block};
use crate::memory::types::{
    spec_candidate_status_from, spec_candidate_status_str, spec_memory_status_from,
    spec_memory_status_str, spec_memory_type_from, spec_memory_type_str, CandidateStatus, Memory,
    MemoryStatus, MemoryType,
};
use crate::rag::types::{mode_of_lower, RetrievalMode};
use crate::text::contains;
use crate::rag::retrieve::{budget_count_from, chunk_cost, dedup_prefix, hash_of, passes_filters, seen_before, spec_apply_budget, spec_apply_filters, spec_dedup_chunks};
use crate::rag::agent::spec_merge_results;
use crate::rag::types::{RankedChunk, RetrievalFilters};
use crate::rag::prompt::source_block_of;
use crate::cite::service::{citation_numbers, citation_of, citations_view, dangling_of, source_marker_numbers};
use crate::cite::types::Citation;
use crate::chunking::hierarchy::spec_link_neighbors;
use crate::chunking::recursive::{windows_cut_ok, windows_from};
use crate::offsets::lemma_byte_slice_len;
use crate::text::utf8_len;
use crate::chunking::types::ChunkView;
use crate::rag::types::spec_mode_params;
use crate::config::model_paths::{
    ascii_lower_eq, lemma_dir_pick_is_gguf, spec_normalize, spec_resolve_gguf_path, PathProbe, ProbedPath,
};
use crate::chunking::util::path_extension;
use crate::config::model_paths::{lemma_pick_from_in_range, first_with_keyword, pick_from, spec_pick_best_gguf, ModelFileInfo, ModelPathHint};
use crate::extensions::registry::AshkorixExtensionHost;
use crate::search::query_plan::{add_all_new, add_new, expand_from, spec_decompose_subquestions, spec_extract_keyword_query, spec_plan_variants};

verus! {

/// A memory type read back from its stored name is the same type.
pub proof fn law_memory_type_round_trip(t: MemoryType)
    ensures
        spec_memory_type_from(spec_memory_type_str(t)) == Some(t),
{
    reveal_strlit("user_preference");
    reveal_strlit("project_fact");
    reveal_strlit("decision");
    reveal_strlit("procedure");
    assert("user_preference"@.len() == 15);
    assert("project_fact"@.len() == 12);
    assert("decision"@.len() == 8);
    assert("procedure"@.len() == 9);
}

/// A memory status read back from its stored name is the same status.
pub proof fn law_memory_status_round_trip(s: MemoryStatus)
    ensures
        spec_memory_status_from(spec_memory_status_str(s)) == Some(s),
{
    reveal_strlit("active");
    reveal_strlit("inactive");
    reveal_strlit("superseded");
    reveal_strlit("deleted");
    assert("active"@.len() == 6);
    assert("inactive"@.len() == 8);
    assert("superseded"@.len() == 10);
    assert("deleted"@.len() == 7);
}

/// A candidate status read back from its stored name is the same status.
pub proof fn law_candidate_status_round_trip(s: CandidateStatus)
    ensures
        spec_candidate_status_from(spec_candidate_status_str(s)) == Some(s),
{
    reveal_strlit("pending");
    reveal_strlit("approved");
    reveal_strlit("rejected");
    reveal_strlit("edited");
    assert("pending"@.len() == 7);
    assert("approved"@.len() == 8);
    assert("rejected"@.len() == 8);
    assert("edited"@.len() == 6);
    assert("approved"@[0] != "rejected"@[0]);
}

/// The lower-case name of each retrieval mode selects that mode.
pub proof fn law_retrieval_mode_names()
    ensures
        mode_of_lower("fast"@) == RetrievalMode::Fast,
        mode_of_lower("balanced"@) == RetrievalMode::Balanced,
        mode_of_lower("thorough"@) == RetrievalMode::Thorough,
        mode_of_lower("deep"@) == RetrievalMode::Deep,
        mode_of_lower("corpus-map"@) == RetrievalMode::CorpusMap,
{
    reveal_strlit("fast");
    reveal_strlit("balanced");
    reveal_strlit("thorough");
    reveal_strlit("deep");
    reveal_strlit("corpus-map");
    reveal_strlit("corpusmap");
    reveal_strlit("corpus_map");
    assert("fast"@[0] != "deep"@[0]);
    assert("balanced"@[0] != "thorough"@[0]);
    assert("balanced"@.len() != "fast"@.len());
    assert("balanced"@.len() != "deep"@.len());
    assert("balanced"@.len() != "corpus-map"@.len());
    assert("balanced"@.len() != "corpusmap"@.len());
    assert("balanced"@.len() != "corpus_map"@.len());
    assert("thorough"@.len() != "fast"@.len());
    assert("deep"@[0] != "fast"@[0]);
    assert("corpus-map"@.len() != "fast"@.len());
    assert("corpus-map"@.len() != "thorough"@.len());
    assert("corpus-map"@.len() != "deep"@.len());
}

proof fn lemma_entries_split(ms: Seq<Memory>, i: int) -> (r: (Seq<char>, Seq<char>))
    requires
        0 <= i < ms.len(),
    ensures
        memory_entries(ms) == r.0 + memory_entry((i + 1) as nat, ms[i]) + r.1,
    decreases ms.len(),
{
    let p = ms.drop_last();
    if i == ms.len() - 1 {
        let a = memory_entries(p);
        let b = Seq::<char>::empty();
        assert(memory_entries(ms) == a + memory_entry((i + 1) as nat, ms[i]) + b);
        (a, b)
    } else {
        let (a, b) = lemma_entries_split(p, i);
        assert(p[i] == ms[i]);
        let b2 = b + memory_entry(ms.len(), ms.last());
        assert(memory_entries(ms) == a + memory_entry((i + 1) as nat, ms[i]) + b2);
        (a, b2)
    }
}

/// The memory block lists each memory under the number that cites it: for every memory at
/// index `i`, the block holds `[Memory {i + 1}] [Label] content`, and `memory_for_number`
/// gives that memory back for the number `i + 1`.
pub proof fn law_memory_block_numbering(ms: Seq<Memory>, i: int)
    requires
        0 <= i < ms.len(),
    ensures
        contains(spec_format_memory_block(ms), memory_entry((i + 1) as nat, ms[i])),
        1 <= (i + 1) <= ms.len() && ms[(i + 1) - 1] == ms[i],
{
    let (a, b) = lemma_entries_split(ms, i);
    let h = crate::memory::format::MEMORY_BLOCK_HEADER@;
    let e = memory_entry((i + 1) as nat, ms[i]);
    let block = spec_format_memory_block(ms);
    let k: int = (h.len() + a.len()) as int;
    assert(block == h + (a + e + b));
    assert(block.subrange(k, k + e.len()) =~= e);
    assert(crate::text::matches_at(block, e, k));
}


proof fn lemma_dedup_prefix_facts(cs: Seq<RankedChunk>, n: int)
    requires
        0 <= n <= cs.len(),
    ensures
        forall|k: int| 0 <= k < dedup_prefix(cs, n).len() ==> exists|j: int| 0 <= j < n && #[trigger] cs[j] == #[trigger] dedup_prefix(cs, n)[k],
        forall|a: int, b: int|
            0 <= a < b < dedup_prefix(cs, n).len() ==> hash_of(#[trigger] dedup_prefix(cs, n)[a]) != hash_of(
                #[trigger] dedup_prefix(cs, n)[b],
            ),
        forall|j: int| 0 <= j < n ==> exists|k: int| 0 <= k < dedup_prefix(cs, n).len() && hash_of(#[trigger] dedup_prefix(cs, n)[k]) == hash_of(#[trigger] cs[j]),
    decreases n,
{
    if n > 0 {
        lemma_dedup_prefix_facts(cs, n - 1);
        let p = dedup_prefix(cs, n - 1);
        let r = dedup_prefix(cs, n);
        if seen_before(cs, n - 1) {
            assert(r == p + Seq::<RankedChunk>::empty());
            assert(r =~= p);
            assert forall|j: int| 0 <= j < n implies exists|k: int| 0 <= k < r.len() && hash_of(#[trigger] r[k]) == hash_of(#[trigger] cs[j]) by {
                if j == n - 1 {
                    let jj = choose|jj: int| 0 <= jj < n - 1 && #[trigger] hash_of(cs[jj]) == hash_of(cs[n - 1]);
                    let k = choose|k: int| 0 <= k < p.len() && hash_of(#[trigger] p[k]) == hash_of(#[trigger] cs[jj]);
                    assert(hash_of(r[k]) == hash_of(cs[j]));
                }
            }
        } else {
            assert(r == p.push(cs[n - 1]));
            assert forall|k: int| 0 <= k < r.len() implies exists|j: int| 0 <= j < n && #[trigger] cs[j] == #[trigger] r[k] by {
                if k < p.len() {
                    assert(r[k] == p[k]);
                    let j = choose|j: int| 0 <= j < n - 1 && #[trigger] cs[j] == p[k];
                    assert(cs[j] == r[k]);
                } else {
                    assert(cs[n - 1] == r[k]);
                }
            }
            assert forall|a: int, b: int| 0 <= a < b < r.len() implies hash_of(#[trigger] r[a]) != hash_of(#[trigger] r[b]) by {
                if b == p.len() {
                    assert(r[a] == p[a]);
                    let j = choose|j: int| 0 <= j < n - 1 && #[trigger] cs[j] == p[a];
                    if hash_of(r[a]) == hash_of(r[b]) {
                        assert(hash_of(cs[j]) == hash_of(cs[n - 1]));
                        assert(seen_before(cs, n - 1));
                    }
                } else {
                    assert(r[a] == p[a] && r[b] == p[b]);
                }
            }
            assert forall|j: int| 0 <= j < n implies exists|k: int| 0 <= k < r.len() && hash_of(#[trigger] r[k]) == hash_of(#[trigger] cs[j]) by {
                if j == n - 1 {
                    assert(hash_of(r[p.len() as int]) == hash_of(cs[j]));
                } else {
                    let k = choose|k: int| 0 <= k < p.len() && hash_of(#[trigger] p[k]) == hash_of(#[trigger] cs[j]);
                    assert(r[k] == p[k]);
                }
            }
        }
    }
}

/// Deduplicating retrieved chunks keeps one chunk per content hash: no two kept chunks share
/// a hash, every kept chunk is one of the input chunks, and every input hash is kept.
pub proof fn law_dedup_keeps_one_per_hash(cs: Seq<RankedChunk>)
    ensures
        forall|a: int, b: int|
            0 <= a < b < spec_dedup_chunks(cs).len() ==> hash_of(#[trigger] spec_dedup_chunks(cs)[a])
                != hash_of(#[trigger] spec_dedup_chunks(cs)[b]),
        forall|k: int| 0 <= k < spec_dedup_chunks(cs).len() ==> exists|j: int| 0 <= j < cs.len() && #[trigger] cs[j] == #[trigger] spec_dedup_chunks(cs)[k],
        forall|j: int| 0 <= j < cs.len() ==> exists|k: int| 0 <= k < spec_dedup_chunks(cs).len() && hash_of(#[trigger] spec_dedup_chunks(cs)[k]) == hash_of(#[trigger] cs[j]),
{
    lemma_dedup_prefix_facts(cs, cs.len() as int);
    let r = dedup_prefix(cs, cs.len() as int);
    assert forall|j: int| 0 <= j < cs.len() implies exists|k: int| 0 <= k < spec_dedup_chunks(cs).len() && hash_of(#[trigger] spec_dedup_chunks(cs)[k]) == hash_of(#[trigger] cs[j]) by {
        let k = choose|k: int| 0 <= k < r.len() && hash_of(#[trigger] r[k]) == hash_of(#[trigger] cs[j]);
        assert(hash_of(spec_dedup_chunks(cs)[k]) == hash_of(cs[j]));
    }
}

/// Merging two retrieval passes keeps at most `max` chunks (one when `max` is 0), no two
/// with the same content hash.
pub proof fn law_merge_results_bounded(first: Seq<RankedChunk>, second: Seq<RankedChunk>, max: usize)
    ensures
        spec_merge_results(first, second, max).len() <= (if max == 0 { 1 } else { max as int }),
        forall|a: int, b: int|
            0 <= a < b < spec_merge_results(first, second, max).len() ==> hash_of(
                #[trigger] spec_merge_results(first, second, max)[a],
            ) != hash_of(#[trigger] spec_merge_results(first, second, max)[b]),
{
    law_dedup_keeps_one_per_hash(first + second);
    let d = spec_dedup_chunks(first + second);
    let r = spec_merge_results(first, second, max);
    assert forall|a: int, b: int| 0 <= a < b < r.len() implies hash_of(#[trigger] r[a]) != hash_of(#[trigger] r[b]) by {
        assert(r[a] == d[a] && r[b] == d[b]);
    }
}

/// The tokens that a run of chunks adds to the context.
pub open spec fn cost_sum(cs: Seq<RankedChunk>) -> int
    decreases cs.len(),
{
    if cs.len() == 0 {
        0
    } else {
        cost_sum(cs.drop_last()) + chunk_cost(cs.last())
    }
}

proof fn lemma_cost_sum_push(cs: Seq<RankedChunk>, c: RankedChunk)
    ensures
        cost_sum(cs.push(c)) == cost_sum(cs) + chunk_cost(c),
{
    assert(cs.push(c).drop_last() == cs);
}

proof fn lemma_budget_count(cs: Seq<RankedChunk>, max: int, i: int, total: int)
    requires
        0 <= i <= cs.len(),
        total == cost_sum(cs.take(i)),
        total <= max,
    ensures
        i <= budget_count_from(cs, max, i, total) <= cs.len(),
        cost_sum(cs.take(budget_count_from(cs, max, i, total))) <= max,
        budget_count_from(cs, max, i, total) < cs.len() ==> cost_sum(
            cs.take(budget_count_from(cs, max, i, total)),
        ) + chunk_cost(cs[budget_count_from(cs, max, i, total)]) > max,
    decreases cs.len() - i,
{
    if i < cs.len() && total + chunk_cost(cs[i]) <= max {
        assert(cs.take(i + 1) == cs.take(i).push(cs[i]));
        lemma_cost_sum_push(cs.take(i), cs[i]);
        lemma_budget_count(cs, max, i + 1, total + chunk_cost(cs[i]));
    }
}

/// The chunks kept for the context budget are the longest prefix whose tokens fit: they fit
/// in `max` tokens, and where chunks were dropped the next one would not have fit.
pub proof fn law_budget_fits(cs: Seq<RankedChunk>, max: u32)
    ensures
        spec_apply_budget(cs, max as int).len() <= cs.len(),
        spec_apply_budget(cs, max as int) == cs.take(spec_apply_budget(cs, max as int).len() as int),
        cost_sum(spec_apply_budget(cs, max as int)) <= max,
        spec_apply_budget(cs, max as int).len() < cs.len() ==> cost_sum(spec_apply_budget(cs, max as int))
            + chunk_cost(cs[spec_apply_budget(cs, max as int).len() as int]) > max,
{
    assert(cs.take(0) =~= Seq::<RankedChunk>::empty());
    lemma_budget_count(cs, max as int, 0, 0);
}

proof fn lemma_filter_filter(cs: Seq<RankedChunk>, f: RetrievalFilters)
    ensures
        spec_apply_filters(spec_apply_filters(cs, f), f) == spec_apply_filters(cs, f),
    decreases cs.len(),
{
    reveal(Seq::filter);
    if cs.len() > 0 {
        lemma_filter_filter(cs.drop_last(), f);
        let p = spec_apply_filters(cs.drop_last(), f);
        if passes_filters(cs.last(), f) {
            assert(spec_apply_filters(cs, f) == p.push(cs.last()));
            assert(p.push(cs.last()).drop_last() == p);
        }
    }
}

/// Filtering retrieved chunks twice keeps what filtering once keeps, and every kept chunk
/// passes the filters.
pub proof fn law_filters_idempotent(cs: Seq<RankedChunk>, f: RetrievalFilters)
    ensures
        spec_apply_filters(spec_apply_filters(cs, f), f) == spec_apply_filters(cs, f),
        forall|k: int| 0 <= k < spec_apply_filters(cs, f).len() ==> passes_filters(#[trigger] spec_apply_filters(cs, f)[k], f),
{
    lemma_filter_filter(cs, f);
    cs.filter_lemma(|c: RankedChunk| passes_filters(c, f));
}

/// Switching an extension off makes its importer read as disabled, switching it on as
/// enabled, and other extensions keep their state: from the host before `set_enabled` to the
/// host after it, over the switched-off ids that `is_importer_enabled` reads.
pub proof fn law_enable_read_back(
    before: AshkorixExtensionHost,
    after: AshkorixExtensionHost,
    id: Seq<char>,
    enabled: bool,
    other: Seq<char>,
)
    requires
        after.disabled_ids() == (if enabled {
            before.disabled_ids().remove(id)
        } else {
            before.disabled_ids().insert(id)
        }),
        other != id,
    ensures
        !after.disabled_ids().contains(id) == enabled,
        after.disabled_ids().contains(other) == before.disabled_ids().contains(other),
{
}

/// The `i`-th retrieved chunk is cited as `[Source i+1]` both in the source blocks the model
/// sees and in the citations assembled for the answer.
pub proof fn law_source_numbers_agree(i: int, rc: RankedChunk, score_text: Option<String>, collection: Seq<char>)
    requires
        0 <= i,
    ensures
        source_block_of(i, rc, score_text).number == citation_of(i, rc, collection).0,
{
}


proof fn lemma_dangling(ns: Seq<u32>, cited: Set<u32>)
    ensures
        dangling_of(ns, cited).no_duplicates(),
        forall|x: u32| dangling_of(ns, cited).contains(x) ==> ns.contains(x) && !cited.contains(x),
        forall|x: u32| ns.contains(x) && !cited.contains(x) ==> dangling_of(ns, cited).contains(x),
    decreases ns.len(),
{
    if ns.len() > 0 {
        let p = ns.drop_last();
        lemma_dangling(p, cited);
        let d = dangling_of(p, cited);
        let l = ns.last();
        assert forall|x: u32| dangling_of(ns, cited).contains(x) implies ns.contains(x) && !cited.contains(x) by {
            if d.contains(x) {
                assert(p.contains(x));
                let j = choose|j: int| 0 <= j < p.len() && p[j] == x;
                assert(ns[j] == x);
            } else {
                assert(x == l);
                assert(ns[ns.len() - 1] == x);
            }
        }
        assert forall|x: u32| ns.contains(x) && !cited.contains(x) implies dangling_of(ns, cited).contains(x) by {
            let j = choose|j: int| 0 <= j < ns.len() && ns[j] == x;
            if j < ns.len() - 1 {
                assert(p[j] == x);
                assert(p.contains(x));
                assert(d.contains(x));
                if !(cited.contains(l) || d.contains(l)) {
                    let k = choose|k: int| 0 <= k < d.len() && d[k] == x;
                    assert(d.push(l)[k] == x);
                }
            } else {
                if !(cited.contains(l) || d.contains(l)) {
                    assert(d.push(l)[d.len() as int] == x);
                }
            }
        }
        if !(cited.contains(l) || d.contains(l)) {
            let r = d.push(l);
            assert forall|a: int, b: int| 0 <= a < b < r.len() implies r[a] != r[b] by {
                if b == d.len() {
                    assert(r[a] == d[a]);
                    assert(d.contains(d[a]));
                } else {
                    assert(r[a] == d[a] && r[b] == d[b]);
                }
            }
        }
    }
}

/// Parsing an answer's `[Source N]` markers accounts for every number it cites: a number
/// that a citation carries resolves to that citation, any other is reported once as
/// dangling, and nothing else is reported.
pub proof fn law_markers_partition(response: Seq<char>, citations: Seq<Citation>)
    ensures
        ({
            let ns = source_marker_numbers(response);
            let cited = citation_numbers(citations);
            let d = dangling_of(ns, cited);
            let resolved = citations_view(citations).filter(
                |c: (u32, Seq<char>, Seq<char>, Option<u32>, Option<Seq<char>>, Seq<char>, u64, Seq<char>)|
                    ns.contains(c.0),
            );
            &&& d.no_duplicates()
            &&& forall|x: u32| d.contains(x) <==> (ns.contains(x) && !cited.contains(x))
            &&& forall|x: u32| ns.contains(x) && cited.contains(x) ==> exists|k: int| 0 <= k < resolved.len() && (#[trigger] resolved[k]).0 == x
            &&& forall|k: int| 0 <= k < resolved.len() ==> ns.contains((#[trigger] resolved[k]).0)
        }),
{
    let ns = source_marker_numbers(response);
    let cited = citation_numbers(citations);
    lemma_dangling(ns, cited);
    let pred = |c: (u32, Seq<char>, Seq<char>, Option<u32>, Option<Seq<char>>, Seq<char>, u64, Seq<char>)|
        ns.contains(c.0);
    let cv = citations_view(citations);
    let resolved = cv.filter(pred);
    cv.filter_lemma(pred);
    assert forall|x: u32| ns.contains(x) && cited.contains(x) implies exists|k: int| 0 <= k < resolved.len() && (#[trigger] resolved[k]).0 == x by {
        let j = choose|j: int| 0 <= j < citations.len() && (#[trigger] citations[j]).source_number == x;
        assert(cv[j].0 == x);
        assert(pred(cv[j]));
        assert(resolved.contains(cv[j]));
        let k = choose|k: int| 0 <= k < resolved.len() && resolved[k] == cv[j];
        assert(resolved[k].0 == x);
    }
}

proof fn lemma_add_all_new(vs: Seq<Seq<char>>, xs: Seq<Seq<char>>)
    requires
        vs.no_duplicates(),
        vs.len() > 0,
    ensures
        add_all_new(vs, xs).no_duplicates(),
        add_all_new(vs, xs).len() > 0,
        add_all_new(vs, xs)[0] == vs[0],
    decreases xs.len(),
{
    if xs.len() > 0 {
        lemma_add_all_new(vs, xs.drop_last());
        lemma_add_new(add_all_new(vs, xs.drop_last()), xs.last());
    }
}

proof fn lemma_add_new(vs: Seq<Seq<char>>, x: Seq<char>)
    requires
        vs.no_duplicates(),
        vs.len() > 0,
    ensures
        add_new(vs, x).no_duplicates(),
        add_new(vs, x).len() > 0,
        add_new(vs, x)[0] == vs[0],
{
    if !vs.contains(x) {
        let r = vs.push(x);
        assert forall|a: int, b: int| 0 <= a < b < r.len() implies r[a] != r[b] by {
            if b == vs.len() {
                assert(r[a] == vs[a]);
                assert(vs.contains(vs[a]));
            } else {
                assert(r[a] == vs[a] && r[b] == vs[b]);
            }
        }
    }
}

/// The query variants of a plan hold no duplicates and no more than the mode allows, and the
/// question itself comes first whenever the mode allows any variant.
pub proof fn law_plan_variants(query: Seq<char>, mode: RetrievalMode, expansions: Seq<Seq<char>>)
    ensures
        spec_plan_variants(query, mode, expansions).no_duplicates(),
        spec_plan_variants(query, mode, expansions).len() <= spec_mode_params(mode).4,
        spec_mode_params(mode).4 >= 1 ==> spec_plan_variants(query, mode, expansions)[0] == query,
{
    let max = spec_mode_params(mode).4;
    let v0 = seq![query];
    assert(v0.no_duplicates());
    let v1 = match spec_extract_keyword_query(query) {
        Some(k) => add_new(v0, k),
        None => v0,
    };
    if let Some(k) = spec_extract_keyword_query(query) {
        lemma_add_new(v0, k);
    }
    let ex = if expansions.len() <= 3 { expansions } else { expansions.take(3) };
    lemma_add_all_new(v1, ex);
    let v2 = add_all_new(v1, ex);
    let v3 = if max >= 3 {
        match expand_from(query, 0) {
            Some(a) => add_new(v2, a),
            None => v2,
        }
    } else {
        v2
    };
    if max >= 3 {
        if let Some(a) = expand_from(query, 0) {
            lemma_add_new(v2, a);
        }
    }
    let v4 = if max >= 5 { add_all_new(v3, spec_decompose_subquestions(query)) } else { v3 };
    if max >= 5 {
        lemma_add_all_new(v3, spec_decompose_subquestions(query));
    }
    if v4.len() > max {
        let t = v4.take(max as int);
        assert forall|a: int, b: int| 0 <= a < b < t.len() implies t[a] != t[b] by {
            assert(t[a] == v4[a] && t[b] == v4[b]);
        }
    }
}


/// Linking neighbours makes each chunk point at the next one and the next one back at it,
/// and changes nothing but those links.
pub proof fn law_neighbors_linked(cs: Seq<ChunkView>)
    ensures
        spec_link_neighbors(cs).len() == cs.len(),
        forall|i: int|
            0 <= i < cs.len() - 1 ==> (#[trigger] spec_link_neighbors(cs)[i]).next_chunk_id == Some(
                spec_link_neighbors(cs)[i + 1].id,
            ) && spec_link_neighbors(cs)[i + 1].prev_chunk_id == Some(spec_link_neighbors(cs)[i].id),
        forall|i: int|
            0 <= i < cs.len() ==> (#[trigger] spec_link_neighbors(cs)[i]).id == cs[i].id
                && spec_link_neighbors(cs)[i].text == cs[i].text && spec_link_neighbors(cs)[i].chunk_index
                == cs[i].chunk_index,
{
}

proof fn lemma_windows_bounded(s: Seq<char>, start: int, size: int, overlap: int)
    requires
        size >= 1,
        windows_cut_ok(s, start, size, overlap),
    ensures
        forall|k: int|
            0 <= k < windows_from(s, start, size, overlap).len() ==> 1 <= utf8_len(
                #[trigger] windows_from(s, start, size, overlap)[k],
            ) <= size,
    decreases utf8_len(s) - start,
{
    let n = utf8_len(s) as int;
    if !(start < 0 || start >= n || overlap < 0) {
        let end = if start + size <= n { start + size } else { n };
        let next = if end >= overlap { end - overlap } else { 0 };
        lemma_byte_slice_len(s, start, end);
        let w = windows_from(s, start, size, overlap);
        if end != n && next > start {
            lemma_windows_bounded(s, next, size, overlap);
            let rest = windows_from(s, next, size, overlap);
            assert forall|k: int| 0 <= k < w.len() implies 1 <= utf8_len(#[trigger] w[k]) <= size by {
                if k > 0 {
                    assert(w[k] == rest[k - 1]);
                }
            }
        }
    }
}

/// Every window of a text holds at least one and at most `size` bytes, wherever the windows
/// begin and end at character boundaries.
pub proof fn law_windows_bounded(s: Seq<char>, size: int, overlap: int)
    requires
        size >= 1,
        windows_cut_ok(s, 0, size, overlap),
    ensures
        forall|k: int|
            0 <= k < windows_from(s, 0, size, overlap).len() ==> 1 <= utf8_len(
                #[trigger] windows_from(s, 0, size, overlap)[k],
            ) <= size,
{
    lemma_windows_bounded(s, 0, size, overlap);
}


/// The model picked in a directory is one of the models found there, and some model is
/// picked whenever one was found.
pub proof fn law_pick_is_listed(ms: Seq<ModelFileInfo>, hint: ModelPathHint)
    ensures
        spec_pick_best_gguf(ms, hint) is Some <==> ms.len() > 0,
        spec_pick_best_gguf(ms, hint) matches Some(p) ==> exists|i: int| 0 <= i < ms.len() && (#[trigger] ms[i]).path@ == p,
{
    if ms.len() > 0 {
        lemma_pick_from_in_range(ms, crate::config::model_paths::hint_keywords(hint), 0);
        match pick_from(ms, crate::config::model_paths::hint_keywords(hint), 0) {
            Some(i) => {
                assert(ms[i].path@ == ms[i].path@);
            },
            None => {
                assert(ms[0].path@ == ms[0].path@);
            },
        }
    }
}


/// An update that gives no field leaves a memory as it was.
pub proof fn law_empty_update_keeps_memory(m: Memory)
    ensures
        spec_apply_update(
            m,
            UpdateMemoryInput {
                memory_type: None,
                scope: None,
                title: None,
                content: None,
                status: None,
                metadata_json: None,
            },
        ) == m,
{
}

/// Applying the same update twice gives what applying it once gives, and every field it
/// gives is read back.
pub proof fn law_update_idempotent(m: Memory, u: UpdateMemoryInput)
    ensures
        spec_apply_update(spec_apply_update(m, u), u) == spec_apply_update(m, u),
        u.scope matches Some(s) ==> spec_apply_update(m, u).scope == s,
        u.content matches Some(c) ==> spec_apply_update(m, u).content == c,
        u.title matches Some(t) ==> spec_apply_update(m, u).title == t,
        u.status matches Some(st) ==> spec_apply_update(m, u).status == st,
{
}

/// Approving a candidate with an edit that changes nothing stores what approving it
/// unedited stores.
pub proof fn law_empty_edit_is_approval(c: MemoryCandidate)
    ensures
        spec_edited_input(
            c,
            EditCandidateInput { proposed_type: None, proposed_scope: None, proposed_title: None, proposed_content: None },
        ) == spec_approved_input(c),
{
}

/// The sections cut at a text's headings follow one another without gap or overlap: each
/// ends where the next begins, the last ends at the end of the text, and each body is the
/// text between its offsets.
pub proof fn law_sections_tile_text(d: Document, t: Seq<char>)
    ensures
        forall|k: int|
            0 <= k < spec_markdown_sections(d, t).len() - 1 ==> (#[trigger] spec_markdown_sections(d, t)[k]).end_offset
                == spec_markdown_sections(d, t)[k + 1].start_offset,
        spec_markdown_sections(d, t).len() >= 1,
        spec_markdown_sections(d, t).last().end_offset == utf8_len(t),
        headings_of(t).len() > 0 ==> forall|k: int|
            0 <= k < spec_markdown_sections(d, t).len() ==> (#[trigger] spec_markdown_sections(d, t)[k]).body
                == byte_slice(t, spec_markdown_sections(d, t)[k].start_offset, spec_markdown_sections(d, t)[k].end_offset),
{
}

/// The stored section at `k` has no parent, or its parent is an earlier stored section of a
/// lower level.
pub open spec fn parent_precedes(out: Seq<SectionView>, k: int) -> bool {
    out[k].parent_section_id matches Some(p) ==> exists|j: int|
        0 <= j < k && (#[trigger] out[j]).id == p && out[j].level < out[k].level
}

/// Every open entry of the stack is an emitted section (its level and id).
spec fn stack_emitted(stack: Seq<(u32, Seq<char>)>, prev: Seq<SectionView>) -> bool {
    forall|m: int|
        0 <= m < stack.len() ==> exists|j: int|
            0 <= j < prev.len() && (#[trigger] prev[j]).id == (#[trigger] stack[m]).1 && prev[j].level == stack[m].0
}

proof fn lemma_pop_levels(stack: Seq<(u32, Seq<char>)>, level: u32)
    ensures
        pop_levels(stack, level).len() <= stack.len(),
        pop_levels(stack, level) == stack.take(pop_levels(stack, level).len() as int),
        pop_levels(stack, level).len() > 0 ==> pop_levels(stack, level).last().0 < level,
    decreases stack.len(),
{
    if stack.len() > 0 && stack.last().0 >= level {
        lemma_pop_levels(stack.drop_last(), level);
        let r = pop_levels(stack.drop_last(), level);
        assert(stack.drop_last().take(r.len() as int) == stack.take(r.len() as int));
    } else {
        assert(stack.take(stack.len() as int) == stack);
    }
}

proof fn lemma_parents_precede(
    doc_id: Seq<char>,
    nodes: Seq<SectionNodeView>,
    i: int,
    stack: Seq<(u32, Seq<char>)>,
    prev: Seq<SectionView>,
)
    requires
        0 <= i,
        stack_emitted(stack, prev),
    ensures
        forall|k: int|
            prev.len() <= k < prev.len() + stored_from(doc_id, nodes, i, stack).len() ==> parent_precedes(
                #[trigger] (prev + stored_from(doc_id, nodes, i, stack)),
                k,
            ),
    decreases nodes.len() - i,
{
    if i < nodes.len() {
        let n = nodes[i];
        let st = pop_levels(stack, n.level);
        let hp = stack_heading_path(st, n.title);
        let id = spec_section_id(doc_id, hp, n.start_offset);
        let rest = stored_from(doc_id, nodes, i + 1, st.push((n.level, id)));
        let here = stored_from(doc_id, nodes, i, stack);
        let sec = here[0];
        assert(here == seq![sec] + rest);
        lemma_pop_levels(stack, n.level);
        let prev2 = prev.push(sec);
        let stack2 = st.push((n.level, id));
        assert forall|m: int| 0 <= m < stack2.len() implies exists|j: int|
            0 <= j < prev2.len() && (#[trigger] prev2[j]).id == (#[trigger] stack2[m]).1 && prev2[j].level == stack2[m].0 by {
            if m < st.len() {
                assert(stack2[m] == stack[m]);
                let j = choose|j: int| 0 <= j < prev.len() && (#[trigger] prev[j]).id == stack[m].1 && prev[j].level == stack[m].0;
                assert(prev2[j] == prev[j]);
            } else {
                assert(prev2[prev.len() as int] == sec);
            }
        }
        lemma_parents_precede(doc_id, nodes, i + 1, stack2, prev2);
        let out = prev + here;
        assert(out == prev2 + rest);
        assert forall|k: int| prev.len() <= k < prev.len() + here.len() implies parent_precedes(#[trigger] (prev + here), k) by {
            if k == prev.len() {
                assert(out[k] == sec);
                if st.len() > 0 {
                    let m = st.len() - 1;
                    assert(st[m] == stack[m]);
                    let j = choose|j: int| 0 <= j < prev.len() && (#[trigger] prev[j]).id == stack[m].1 && prev[j].level == stack[m].0;
                    assert(out[j] == prev[j]);
                }
            } else {
                assert(prev + here == prev2 + rest);
            }
        }
    }
}

/// The stored sections form a hierarchy: there is one per section node, and each one's
/// parent, where it has one, is an earlier stored section of a lower level.
pub proof fn law_parents_precede(doc_id: Seq<char>, nodes: Seq<SectionNodeView>)
    ensures
        spec_sections_to_stored(doc_id, nodes).len() == nodes.len(),
        forall|k: int|
            0 <= k < spec_sections_to_stored(doc_id, nodes).len() ==> parent_precedes(
                spec_sections_to_stored(doc_id, nodes),
                k,
            ),
{
    lemma_stored_len(doc_id, nodes, 0, seq![]);
    lemma_parents_precede(doc_id, nodes, 0, seq![], seq![]);
    assert(Seq::<SectionView>::empty() + spec_sections_to_stored(doc_id, nodes) == spec_sections_to_stored(doc_id, nodes));
}

proof fn lemma_stored_len(doc_id: Seq<char>, nodes: Seq<SectionNodeView>, i: int, stack: Seq<(u32, Seq<char>)>)
    requires
        0 <= i <= nodes.len(),
    ensures
        stored_from(doc_id, nodes, i, stack).len() == nodes.len() - i,
    decreases nodes.len() - i,
{
    if i < nodes.len() {
        let n = nodes[i];
        let st = pop_levels(stack, n.level);
        let hp = stack_heading_path(st, n.title);
        let id = spec_section_id(doc_id, hp, n.start_offset);
        lemma_stored_len(doc_id, nodes, i + 1, st.push((n.level, id)));
    }
}

/// A file type read back from the name it is stored under is the same type; the one
/// exception is the unknown type, which reads back as plain text.
pub proof fn law_file_type_stored_round_trip(t: FileType)
    requires
        t != FileType::Unknown,
    ensures
        spec_stored_file_type(spec_file_type_name(t)) == t,
{
    reveal_strlit("Txt");
    reveal_strlit("Markdown");
    reveal_strlit("Html");
    reveal_strlit("Csv");
    reveal_strlit("Json");
    reveal_strlit("Xml");
    reveal_strlit("Pdf");
    reveal_strlit("Docx");
    reveal_strlit("Xlsx");
    assert("Txt"@.len() == 3);
    assert("Markdown"@.len() == 8);
    assert("Html"@.len() == 4);
    assert("Csv"@.len() == 3);
    assert("Json"@.len() == 4);
    assert("Xml"@.len() == 3);
    assert("Pdf"@.len() == 3);
    assert("Docx"@.len() == 4);
    assert("Xlsx"@.len() == 4);
    assert("Txt"@[0] == 'T' && "Csv"@[0] == 'C' && "Xml"@[0] == 'X' && "Pdf"@[0] == 'P');
    assert("Html"@[0] == 'H' && "Json"@[0] == 'J' && "Docx"@[0] == 'D' && "Xlsx"@[0] == 'X');
}

/// An import status read back from the name it is stored under is the same status.
pub proof fn law_import_status_stored_round_trip(s: ImportStatus)
    ensures
        spec_stored_import_status(spec_import_status_name(s)) == s,
{
    reveal_strlit("Imported");
    reveal_strlit("Duplicate");
    reveal_strlit("Failed");
    reveal_strlit("Chunked");
    assert("Imported"@.len() == 8);
    assert("Duplicate"@.len() == 9);
    assert("Failed"@.len() == 6);
    assert("Chunked"@.len() == 7);
}

/// An entity kind read back from the name it is stored under is the same kind.
pub proof fn law_entity_kind_stored_round_trip(k: EntityKind)
    ensures
        spec_stored_entity_kind(spec_entity_kind_str(k)) == k,
{
    reveal_strlit("acronym");
    reveal_strlit("part_number");
    reveal_strlit("field_id");
    reveal_strlit("error_code");
    reveal_strlit("other");
    assert("acronym"@.len() == 7);
    assert("part_number"@.len() == 11);
    assert("field_id"@.len() == 8);
    assert("error_code"@.len() == 10);
    assert("other"@.len() == 5);
}

/// A summary level read back from the name it is stored under is the same level.
pub proof fn law_summary_level_stored_round_trip(l: SummaryLevel)
    ensures
        spec_stored_summary_level(spec_summary_level_str(l)) == l,
{
    reveal_strlit("section");
    reveal_strlit("document");
    assert("section"@.len() == 7);
    assert("document"@.len() == 8);
}

/// A configured path resolves only to a `.gguf` file: a file whose extension is `gguf` in
/// any case, or a model listed in a directory whose extension is `gguf`.
pub proof fn law_resolved_is_gguf(path: Seq<char>, probe: PathProbe, hint: ModelPathHint)
    ensures
        spec_resolve_gguf_path(path, probe, hint) matches Some(p) ==> (path_extension(p) matches Some(e)
            && ascii_lower_eq(e, "gguf"@)),
{
    match probe {
        PathProbe::Dir(ms) => {
            lemma_dir_pick_is_gguf(ms@, hint);
        },
        _ => {},
    }
}

/// A batch was closed only because the next sequence did not fit: it already held
/// `max_seqs` sequences, or its tokens and the next sequence's would pass `max_tokens`.
pub open spec fn closed_for<T>(b: Seq<Vec<T>>, next: Vec<T>, max_seqs: nat, max_tokens: nat) -> bool {
    b.len() >= max_seqs || batch_tokens(b) + next@.len() > max_tokens
}

proof fn lemma_pack_state_greedy<T>(seqs: Seq<Vec<T>>, n: int, ms: nat, mt: nat)
    requires
        0 <= n <= seqs.len(),
    ensures
        ({
            let (b, c, t) = pack_state(seqs, n, ms, mt);
            &&& t == batch_tokens(c)
            &&& forall|i: int| 0 <= i < b.len() ==> (#[trigger] b[i]).len() > 0
            &&& forall|i: int| 0 <= i < b.len() - 1 ==> closed_for(#[trigger] b[i], b[i + 1][0], ms, mt)
            &&& b.len() > 0 ==> c.len() > 0 && closed_for(b.last(), c[0], ms, mt)
        }),
    decreases n,
{
    if n > 0 {
        lemma_pack_state_greedy(seqs, n - 1, ms, mt);
        let (b0, c0, t0) = pack_state(seqs, n - 1, ms, mt);
        let s = seqs[n - 1];
        assert(c0.push(s).drop_last() == c0);
        assert(c0.push(s).last() == s);
        assert(seq![s].drop_last() == Seq::<Vec<T>>::empty());
        assert(seq![s].last() == s);
        assert(batch_tokens(Seq::<Vec<T>>::empty()) == 0);
        assert(batch_tokens(seq![s]) == s@.len());
        assert(batch_tokens(c0.push(s)) == batch_tokens(c0) + s@.len());
        if c0.len() > 0 && (c0.len() >= ms || t0 + s@.len() > mt) {
            assert(pack_state(seqs, n, ms, mt) == (b0.push(c0), seq![s], s@.len()));
            let b = b0.push(c0);
            assert forall|i: int| 0 <= i < b.len() - 1 implies closed_for(#[trigger] b[i], b[i + 1][0], ms, mt) by {
                if i < b0.len() - 1 {
                    assert(b[i] == b0[i] && b[i + 1] == b0[i + 1]);
                } else {
                    assert(b[i] == b0.last() && b[i + 1] == c0);
                }
            }
            assert forall|i: int| 0 <= i < b.len() implies (#[trigger] b[i]).len() > 0 by {
                if i < b0.len() {
                    assert(b[i] == b0[i]);
                }
            }
            assert(b.last() == c0);
            assert(seq![s][0] == s);
        } else {
            assert(pack_state(seqs, n, ms, mt) == (b0, c0.push(s), t0 + s@.len()));
            if c0.len() > 0 {
                assert(c0.push(s)[0] == c0[0]);
            }
        }
    } else {
        assert(batch_tokens(Seq::<Vec<T>>::empty()) == 0);
    }
}

/// Packing is greedy: every batch but the last was closed only because the next sequence
/// did not fit in it.
pub proof fn law_pack_greedy<T>(seqs: Seq<Vec<T>>, max_seqs: nat, max_tokens: nat)
    ensures
        forall|i: int|
            0 <= i < spec_pack(seqs, max_seqs, max_tokens).len() - 1 ==> closed_for(
                #[trigger] spec_pack(seqs, max_seqs, max_tokens)[i],
                spec_pack(seqs, max_seqs, max_tokens)[i + 1][0],
                max_seqs,
                max_tokens,
            ),
{
    lemma_pack_state_greedy(seqs, seqs.len() as int, max_seqs, max_tokens);
    let (b, c, t) = pack_state(seqs, seqs.len() as int, max_seqs, max_tokens);
    let r = spec_pack(seqs, max_seqs, max_tokens);
    if c.len() > 0 {
        assert forall|i: int| 0 <= i < r.len() - 1 implies closed_for(#[trigger] r[i], r[i + 1][0], max_seqs, max_tokens) by {
            if i < b.len() - 1 {
                assert(r[i] == b[i] && r[i + 1] == b[i + 1]);
            } else {
                assert(r[i] == b.last() && r[i + 1] == c);
            }
        }
    }
}

/// What holds of each chunk gathered so far: numbered by its position, owned by the
/// document and the collection, not yet linked, and not blank.
pub open spec fn chunks_ok(d: Document, coll: Seq<char>, cs: Seq<ChunkView>) -> bool {
    forall|i: int|
        0 <= i < cs.len() ==> {
            let c = #[trigger] cs[i];
            &&& c.chunk_index == i as u32
            &&& c.document_id == d.id.0@
            &&& c.collection_id == coll
            &&& c.source_filename == d.original_filename@
            &&& c.prev_chunk_id is None
            &&& c.next_chunk_id is None
            &&& trim(c.text).len() > 0
        }
}

proof fn lemma_chunks_ok_push(d: Document, coll: Seq<char>, cs: Seq<ChunkView>, c: ChunkView)
    requires
        chunks_ok(d, coll, cs),
        c.chunk_index == cs.len() as u32,
        c.document_id == d.id.0@,
        c.collection_id == coll,
        c.source_filename == d.original_filename@,
        c.prev_chunk_id is None,
        c.next_chunk_id is None,
        trim(c.text).len() > 0,
    ensures
        chunks_ok(d, coll, cs.push(c)),
{
    assert forall|i: int| 0 <= i < cs.push(c).len() implies {
        let x = #[trigger] cs.push(c)[i];
        &&& x.chunk_index == i as u32
        &&& x.document_id == d.id.0@
        &&& x.collection_id == coll
        &&& x.source_filename == d.original_filename@
        &&& x.prev_chunk_id is None
        &&& x.next_chunk_id is None
        &&& trim(x.text).len() > 0
    } by {
        if i < cs.len() {
            assert(cs.push(c)[i] == cs[i]);
        }
    }
}

proof fn lemma_rows_ok(
    d: Document,
    coll: Seq<char>,
    title: Seq<char>,
    caption: Option<Seq<char>>,
    tid: Seq<char>,
    lines: Seq<Seq<char>>,
    r: int,
    acc: GraphAcc,
)
    requires
        chunks_ok(d, coll, acc.chunks),
    ensures
        chunks_ok(d, coll, table_rows_from(d, coll, title, caption, tid, lines, r, acc).chunks),
    decreases lines.len() - r,
{
    if 0 <= r < lines.len() {
        let line = lines[r];
        if trim(line).len() != 0 {
            let c = table_row_chunk(d, coll, title, caption, tid, r, line, acc.chunks.len() as int);
            lemma_chunks_ok_push(d, coll, acc.chunks, c);
            lemma_rows_ok(d, coll, title, caption, tid, lines, r + 1, GraphAcc {
                chunks: acc.chunks.push(c),
                entities: acc.entities + spec_extract_entities(d.id.0@, c.id, line),
                tables: acc.tables,
            });
        } else {
            lemma_rows_ok(d, coll, title, caption, tid, lines, r + 1, acc);
        }
    }
}

proof fn lemma_tables_ok(d: Document, coll: Seq<char>, title: Seq<char>, ts: Seq<TableView>, ti: int, acc: GraphAcc)
    requires
        chunks_ok(d, coll, acc.chunks),
    ensures
        chunks_ok(d, coll, tables_from(d, coll, title, ts, ti, acc).chunks),
    decreases ts.len() - ti,
{
    if 0 <= ti < ts.len() {
        let t = ts[ti];
        let tid = table_id_of(d.id.0@, ti);
        let a = table_rows_from(d, coll, title, t.name, tid, table_lines(t), 0, acc);
        lemma_rows_ok(d, coll, title, t.name, tid, table_lines(t), 0, acc);
        lemma_tables_ok(d, coll, title, ts, ti + 1, GraphAcc {
            chunks: a.chunks,
            entities: a.entities,
            tables: a.tables.push(
                StoredTableView {
                    id: tid,
                    document_id: d.id.0@,
                    section_id: None,
                    caption: t.name,
                    headers: t.headers,
                    row_data: t.rows,
                },
            ),
        });
    }
}

proof fn lemma_segments_ok(
    d: Document,
    coll: Seq<char>,
    title: Seq<char>,
    sec: SectionView,
    segs: Seq<Seq<char>>,
    j: int,
    local: usize,
    acc: GraphAcc,
)
    requires
        chunks_ok(d, coll, acc.chunks),
    ensures
        chunks_ok(d, coll, section_segments_from(d, coll, title, sec, segs, j, local, acc).chunks),
    decreases segs.len() - j,
{
    if 0 <= j < segs.len() {
        let seg = segs[j];
        let next_local = (local + utf8_len(seg)) as usize;
        if trim(seg).len() == 0 {
            lemma_segments_ok(d, coll, title, sec, segs, j + 1, next_local, acc);
        } else {
            let r = section_segments_from(d, coll, title, sec, segs, j, local, acc);
            let ch = spec_hash_text(seg);
            let id = chunk_id_of(d.content_hash@, ch);
            let ents = spec_extract_entities(d.id.0@, id, seg);
            let c = ChunkView {
                id,
                document_id: d.id.0@,
                collection_id: coll,
                text: seg,
                start_offset: local,
                end_offset: next_local,
                page_number: sec.page_start,
                section_title: Some(sec.title),
                row_sheet_info: None,
                source_filename: d.original_filename@,
                content_hash: ch,
                token_count: spec_estimate_tokens(utf8_len(seg)),
                parent_section_id: Some(sec.id),
                heading_path: Some(sec.heading_path),
                chunk_index: acc.chunks.len() as u32,
                prev_chunk_id: None,
                next_chunk_id: None,
                contextual_text: Some(contextual_text(title, sec.heading_path, seg)),
                table_id: None,
                entity_tokens: entity_tokens_of(ents),
            };
            let a2 = GraphAcc { chunks: acc.chunks.push(c), entities: acc.entities + ents, tables: acc.tables };
            assert(r == section_segments_from(d, coll, title, sec, segs, j + 1, next_local, a2));
            lemma_chunks_ok_push(d, coll, acc.chunks, c);
            lemma_segments_ok(d, coll, title, sec, segs, j + 1, next_local, a2);
        }
    }
}

proof fn lemma_sections_ok(
    d: Document,
    coll: Seq<char>,
    title: Seq<char>,
    secs: Seq<SectionView>,
    si: int,
    max: int,
    ov: int,
    acc: GraphAcc,
)
    requires
        chunks_ok(d, coll, acc.chunks),
    ensures
        chunks_ok(d, coll, sections_chunks_from(d, coll, title, secs, si, max, ov, acc).chunks),
    decreases secs.len() - si,
{
    if 0 <= si < secs.len() {
        let sec = secs[si];
        let segs = section_split(section_body(d.extracted_text@, sec), max, ov);
        lemma_segments_ok(d, coll, title, sec, segs, 0, sec.start_offset, acc);
        lemma_sections_ok(d, coll, title, secs, si + 1, max, ov, section_segments_from(d, coll, title, sec, segs, 0, sec.start_offset, acc));
    }
}

proof fn lemma_fallback_ok(
    d: Document,
    coll: Seq<char>,
    title: Seq<char>,
    secs: Seq<SectionView>,
    segs: Seq<Seq<char>>,
    j: int,
    offset: usize,
    acc: GraphAcc,
)
    requires
        chunks_ok(d, coll, acc.chunks),
    ensures
        chunks_ok(d, coll, fallback_from(d, coll, title, secs, segs, j, offset, acc).chunks),
    decreases segs.len() - j,
{
    if 0 <= j < segs.len() {
        let seg = segs[j];
        let next_offset = (offset + utf8_len(seg)) as usize;
        if trim(seg).len() == 0 {
            lemma_fallback_ok(d, coll, title, secs, segs, j + 1, next_offset, acc);
        } else {
            let r = fallback_from(d, coll, title, secs, segs, j, offset, acc);
            let ch = spec_hash_text(seg);
            let id = chunk_id_of(d.content_hash@, ch);
            let found = first_section_at(secs, offset as int, 0);
            let st: Option<Seq<char>> = match found { Some(k) => Some(secs[k].title), None => None };
            let sid: Option<Seq<char>> = match found { Some(k) => Some(secs[k].id), None => None };
            let hp: Option<Seq<char>> = match found { Some(k) => Some(secs[k].heading_path), None => None };
            let c = ChunkView {
                id,
                document_id: d.id.0@,
                collection_id: coll,
                text: seg,
                start_offset: offset,
                end_offset: next_offset,
                page_number: None,
                section_title: st,
                row_sheet_info: None,
                source_filename: d.original_filename@,
                content_hash: ch,
                token_count: spec_estimate_tokens(utf8_len(seg)),
                parent_section_id: sid,
                heading_path: hp,
                chunk_index: acc.chunks.len() as u32,
                prev_chunk_id: None,
                next_chunk_id: None,
                contextual_text: Some(contextual_text(title, section_label_of(hp, st), seg)),
                table_id: None,
                entity_tokens: None,
            };
            let a2 = GraphAcc {
                chunks: acc.chunks.push(c),
                entities: acc.entities + spec_extract_entities(d.id.0@, id, seg),
                tables: acc.tables,
            };
            assert(r == fallback_from(d, coll, title, secs, segs, j + 1, next_offset, a2));
            lemma_chunks_ok_push(d, coll, acc.chunks, c);
            lemma_fallback_ok(d, coll, title, secs, segs, j + 1, next_offset, a2);
        }
    }
}

/// The chunks of a document's graph are numbered by their position, each points at the
/// chunk before and after it (none before the first, none after the last), each belongs to
/// the document, the collection and the document's file, and none is blank.
pub proof fn law_chunk_graph_linked(d: Document, coll: Seq<char>, max: int, ov: int)
    ensures
        ({
            let c = spec_chunk_with_graph(d, coll, max, ov).chunks;
            forall|i: int|
                0 <= i < c.len() ==> {
                    &&& (#[trigger] c[i]).chunk_index == i as u32
                    &&& c[i].prev_chunk_id == (if i > 0 { Some(c[i - 1].id) } else { None })
                    &&& c[i].next_chunk_id == (if i + 1 < c.len() { Some(c[i + 1].id) } else { None })
                    &&& c[i].document_id == d.id.0@
                    &&& c[i].collection_id == coll
                    &&& c[i].source_filename == d.original_filename@
                    &&& trim(c[i].text).len() > 0
                }
        }),
{
    let title = doc_fallback_title(d);
    let empty = GraphAcc { chunks: seq![], entities: seq![], tables: seq![] };
    lemma_tables_ok(d, coll, title, tables_view(d.extracted_tables@), 0, empty);
    let a0 = tables_from(d, coll, title, tables_view(d.extracted_tables@), 0, empty);
    lemma_sections_ok(d, coll, title, doc_sections(d), 0, max, ov, a0);
    let a = primary_acc(d, coll, max, ov);
    if uses_fallback(d, coll, max, ov) {
        lemma_fallback_ok(d, coll, title, doc_sections(d), section_split(d.extracted_text@, max, ov), 0, 0, a);
    }
    let f = final_acc(d, coll, max, ov);
    let c = spec_link_neighbors(f.chunks);
    assert forall|i: int| 0 <= i < c.len() implies (#[trigger] c[i]).chunk_index == i as u32 && c[i].prev_chunk_id == (
    if i > 0 { Some(c[i - 1].id) } else { None }) && c[i].next_chunk_id == (if i + 1 < c.len() { Some(c[i + 1].id) } else { None })
        && c[i].document_id == d.id.0@ && c[i].collection_id == coll && c[i].source_filename == d.original_filename@
        && trim(c[i].text).len() > 0 by {
        assert(c[i] == linked_chunk(f.chunks, i));
        let x = f.chunks[i];
        if i > 0 {
            assert(c[i - 1] == linked_chunk(f.chunks, i - 1));
        }
        if i + 1 < c.len() {
            assert(c[i + 1] == linked_chunk(f.chunks, i + 1));
        }
    }
}

/// Normalizing a model path again gives the same path: where the first normalization gave a
/// model, that model's path, probed again as the `.gguf` file it names, normalizes to
/// itself; where it gave none, normalizing nothing gives none too.
pub proof fn law_normalize_idempotent(
    path: Option<ProbedPath>,
    again: ProbedPath,
    hint: ModelPathHint,
    embeddings_dir: ProbedPath,
    rerankers_dir: ProbedPath,
    models_dir: ProbedPath,
)
    ensures
        spec_normalize(path, hint, embeddings_dir, rerankers_dir, models_dir) is Some && again.path@
            == spec_normalize(path, hint, embeddings_dir, rerankers_dir, models_dir)->0 && again.probe is File
            ==> spec_normalize(Some(again), hint, embeddings_dir, rerankers_dir, models_dir) == spec_normalize(
            path,
            hint,
            embeddings_dir,
            rerankers_dir,
            models_dir,
        ),
        spec_normalize(path, hint, embeddings_dir, rerankers_dir, models_dir) is None ==> spec_normalize(
            None,
            hint,
            embeddings_dir,
            rerankers_dir,
            models_dir,
        ) is None,
{
    match path {
        Some(p) => law_resolved_is_gguf(p.path@, p.probe, hint),
        None => {},
    }
    law_resolved_is_gguf(embeddings_dir.path@, embeddings_dir.probe, ModelPathHint::Embedding);
    law_resolved_is_gguf(models_dir.path@, models_dir.probe, ModelPathHint::Embedding);
    law_resolved_is_gguf(rerankers_dir.path@, rerankers_dir.probe, ModelPathHint::Reranker);
}

/// A generation run sends its pieces first, each unfinished and counting the tokens so far,
/// and only finished events, with no text, after them; when it ends without failing, having
/// run through the budget, its last event is finished.
pub proof fn law_run_events(
    g: u32,
    text: Seq<char>,
    n_cur: i32,
    n_ctx: u32,
    max: u32,
    stops: Seq<String>,
    samples: Seq<(bool, String)>,
    k: int,
)
    requires
        0 <= k,
    ensures
        spec_run(g, text, n_cur, n_ctx, max, stops, samples, k) matches Some(evs) ==> {
            &&& forall|i: int| 0 <= i < evs.len() && !(#[trigger] evs[i]).1 ==> evs[i].2 == g + i + 1
            &&& forall|i: int, j: int| 0 <= i < j < evs.len() && (#[trigger] evs[i]).1 ==> (#[trigger] evs[j]).1
            &&& forall|i: int| 0 <= i < evs.len() && (#[trigger] evs[i]).1 ==> evs[i].0.len() == 0
            &&& k + max - g <= samples.len() && g <= max ==> evs.len() > 0 && evs.last().1
        },
    decreases samples.len() - k,
{
    if g < max && !(n_cur as u32 >= n_ctx) && k < samples.len() && !samples[k].0 {
        let t2 = text + samples[k].1@;
        let g2 = (g + 1) as u32;
        if !hits_stop(t2, stops) {
            law_run_events(g2, t2, n_cur.wrapping_add(1), n_ctx, max, stops, samples, k + 1);
            match spec_run(g2, t2, n_cur.wrapping_add(1), n_ctx, max, stops, samples, k + 1) {
                Some(rest) => {
                    let evs = seq![(samples[k].1@, false, g2)] + rest;
                    assert forall|i: int| 0 < i < evs.len() implies #[trigger] evs[i] == rest[i - 1] by {}
                    assert forall|i: int, j: int| 0 <= i < j < evs.len() && (#[trigger] evs[i]).1 implies (
                    #[trigger] evs[j]).1 by {
                        assert(evs[i] == rest[i - 1] && evs[j] == rest[j - 1]);
                    }
                    assert forall|i: int| 0 <= i < evs.len() && !(#[trigger] evs[i]).1 implies evs[i].2 == g + i + 1 by {
                        if i > 0 {
                            assert(evs[i] == rest[i - 1]);
                        }
                    }
                    if rest.len() > 0 {
                        assert(evs.last() == rest.last());
                    }
                },
                None => {},
            }
        }
    }
}

} // verus!

use vstd::prelude::*;
use vstd::string::*;

use crate::chunking::recursive::{
    char_vecs_of, extend_vecs, merge_to_size, paragraph_sep, spec_merge_to_size, try_window_chars,
    window_halts, windows_cut_ok, windows_from, SENTENCE_SPLIT_PATTERN,
};
use crate::chunking::types::{chunks_view, contextual_text, section_label_of, Chunk, ChunkView};
use crate::chunking::util::{estimate_tokens, spec_estimate_tokens};
use crate::documents::entities::{entities_view, extract_entities_from_text, spec_extract_entities};
use crate::documents::graph_types::{
    Entity, EntityView, Section, SectionView, StoredTable, StoredTableView,
};
use crate::documents::structure::{
    build_section_tree, doc_fallback_title, find_section_for_offset, first_section_at, id_prefix, id_prefix_exec, id_prefix_ok, id_prefix_ok_exec,
    sections_to_stored, sections_view, slice_or_empty, spec_section_tree, spec_sections_to_stored,
    form_feed, pdf_cuts_exec, pdf_split_ok, text_fits,
};
use crate::documents::types::{Document, FileType, Table, TableView};
use crate::ids::{hash_text, short_id_from_hash, spec_hash_text, spec_short_id};
use crate::text::{bytes_from, utf8_len, utf8_len_exec, append_chars, chars_of, decimal, decimal_chars, join, join_chars, trim, trim_bounds};
use crate::config::settings::ChunkingConfig;
use crate::documents::graph_types::{ChunkRelation, ChunkRelationView, RelationKind};
use crate::ids::{ChunkId, CollectionId, DocumentId};
use crate::patterns::{spec_split_by_regex, split_by_regex};
use crate::text::{contains, contains_chars, lemma_split_from_sizes, slice_to_vec, split_chars, split_on, string_from};
use crate::offsets::{byte_slice, char_at_byte, is_boundary, lemma_byte_pos_mono};

verus! {

/// Copies an optional string.
pub fn clone_opt(o: &Option<String>) -> (r: Option<String>)
    ensures
        r == *o,
{
    match o {
        Some(s) => Some(s.clone()),
        None => None,
    }
}

/// Copies a chunk.
pub fn clone_chunk(c: &Chunk) -> (r: Chunk)
    ensures
        r@ == c@,
{
    Chunk {
        id: ChunkId(c.id.0.clone()),
        document_id: DocumentId(c.document_id.0.clone()),
        collection_id: CollectionId(c.collection_id.0.clone()),
        text: c.text.clone(),
        start_offset: c.start_offset,
        end_offset: c.end_offset,
        page_number: c.page_number,
        section_title: clone_opt(&c.section_title),
        row_sheet_info: clone_opt(&c.row_sheet_info),
        source_filename: c.source_filename.clone(),
        content_hash: c.content_hash.clone(),
        token_count: c.token_count,
        parent_section_id: clone_opt(&c.parent_section_id),
        heading_path: clone_opt(&c.heading_path),
        chunk_index: c.chunk_index,
        prev_chunk_id: clone_opt(&c.prev_chunk_id),
        next_chunk_id: clone_opt(&c.next_chunk_id),
        contextual_text: clone_opt(&c.contextual_text),
        table_id: clone_opt(&c.table_id),
        entity_tokens: clone_opt(&c.entity_tokens),
    }
}

/// Chunk `i` of `cs` with its neighbours' identifiers filled in: the previous chunk's where
/// there is one, the next chunk's where there is one (other links are left as they were).
pub open spec fn linked_chunk(cs: Seq<ChunkView>, i: int) -> ChunkView {
    let c = cs[i];
    ChunkView {
        prev_chunk_id: if i > 0 {
            Some(cs[i - 1].id)
        } else {
            c.prev_chunk_id
        },
        next_chunk_id: if i + 1 < cs.len() {
            Some(cs[i + 1].id)
        } else {
            c.next_chunk_id
        },
        ..c
    }
}

/// What `link_neighbors` makes of a sequence of chunks.
pub open spec fn spec_link_neighbors(cs: Seq<ChunkView>) -> Seq<ChunkView> {
    Seq::new(cs.len(), |i: int| linked_chunk(cs, i))
}

/// Points each chunk at the chunks before and after it.
pub fn link_neighbors(chunks: &mut Vec<Chunk>)
    ensures
        chunks_view(final(chunks)@) == spec_link_neighbors(chunks_view(old(chunks)@)),
{
    let ghost ov = chunks_view(chunks@);
    let mut out: Vec<Chunk> = Vec::new();
    let n = chunks.len();
    let mut i: usize = 0;
    while i < n
        invariant
            i <= n,
            n == chunks@.len(),
            ov == chunks_view(chunks@),
            chunks_view(out@) == spec_link_neighbors(ov).take(i as int),
        decreases n - i,
    {
        let mut c = clone_chunk(&chunks[i]);
        if i > 0 {
            c.prev_chunk_id = Some(chunks[i - 1].id.0.clone());
        }
        if i + 1 < n {
            c.next_chunk_id = Some(chunks[i + 1].id.0.clone());
        }
        assert(ov[i as int] == chunks@[i as int]@);
        assert(i > 0 ==> ov[i - 1] == chunks@[i - 1]@);
        assert(i + 1 < n ==> ov[i + 1] == chunks@[i + 1]@);
        assert(c@ == linked_chunk(ov, i as int));
        let ghost old_out = out@;
        out.push(c);
        assert(chunks_view(out@) == chunks_view(old_out).push(c@));
        assert(spec_link_neighbors(ov).take(i + 1) == spec_link_neighbors(ov).take(i as int).push(
            linked_chunk(ov, i as int),
        ));
        i += 1;
    }
    assert(spec_link_neighbors(ov).take(n as int) == spec_link_neighbors(ov));
    *chunks = out;
}

/// The relations of one chunk: to its previous and next chunks, then to its section.
pub open spec fn relations_of(c: ChunkView) -> Seq<ChunkRelationView> {
    (match c.prev_chunk_id {
        Some(p) => seq![ChunkRelationView { from_chunk_id: c.id, to_chunk_id: p, kind: RelationKind::Neighbor }],
        None => seq![],
    }) + (match c.next_chunk_id {
        Some(q) => seq![ChunkRelationView { from_chunk_id: c.id, to_chunk_id: q, kind: RelationKind::Neighbor }],
        None => seq![],
    }) + (match c.parent_section_id {
        Some(s) => seq![
            ChunkRelationView { from_chunk_id: c.id, to_chunk_id: s, kind: RelationKind::ParentSection },
        ],
        None => seq![],
    })
}

/// The relations of `cs[i..]`, chunk by chunk.
pub open spec fn relations_from(cs: Seq<ChunkView>, i: int) -> Seq<ChunkRelationView>
    decreases cs.len() - i,
{
    if i < 0 || i >= cs.len() {
        seq![]
    } else {
        relations_of(cs[i]) + relations_from(cs, i + 1)
    }
}

/// The views of relations.
pub open spec fn relations_view(v: Seq<ChunkRelation>) -> Seq<ChunkRelationView> {
    v.map_values(|r: ChunkRelation| r@)
}

/// The neighbour and parent-section relations of each chunk, in chunk order.
pub fn build_neighbor_relations(chunks: &[Chunk]) -> (r: Vec<ChunkRelation>)
    ensures
        relations_view(r@) == relations_from(chunks_view(chunks@), 0),
{
    let ghost cv = chunks_view(chunks@);
    let mut out: Vec<ChunkRelation> = Vec::new();
    let mut i: usize = 0;
    while i < chunks.len()
        invariant
            i <= chunks@.len(),
            cv == chunks_view(chunks@),
            relations_view(out@) + relations_from(cv, i as int) == relations_from(cv, 0),
        decreases chunks@.len() - i,
    {
        let c = &chunks[i];
        assert(cv[i as int] == c@);
        let ghost before = relations_view(out@);
        if let Some(p) = &c.prev_chunk_id {
            let ghost o = out@;
            out.push(ChunkRelation { from_chunk_id: c.id.0.clone(), to_chunk_id: p.clone(), kind: RelationKind::Neighbor });
            assert(relations_view(out@) == relations_view(o).push(out@.last()@));
        }
        let ghost mid1 = relations_view(out@);
        if let Some(q) = &c.next_chunk_id {
            let ghost o = out@;
            out.push(ChunkRelation { from_chunk_id: c.id.0.clone(), to_chunk_id: q.clone(), kind: RelationKind::Neighbor });
            assert(relations_view(out@) == relations_view(o).push(out@.last()@));
        }
        let ghost mid2 = relations_view(out@);
        if let Some(sid) = &c.parent_section_id {
            let ghost o = out@;
            out.push(ChunkRelation { from_chunk_id: c.id.0.clone(), to_chunk_id: sid.clone(), kind: RelationKind::ParentSection });
            assert(relations_view(out@) == relations_view(o).push(out@.last()@));
        }
        assert(relations_view(out@) =~= before + relations_of(c@));
        i += 1;
    }
    assert(relations_view(out@) + Seq::<ChunkRelationView>::empty() == relations_view(out@));
    out
}


/// What `split_section_text` gives: a text of at most `max` bytes is kept whole; otherwise it
/// is split at blank lines (pieces that do not fit split again), else at sentence ends (pieces
/// merged up to the size), else cut into windows with the given overlap.
pub open spec fn section_split(t: Seq<char>, max: int, ov: int) -> Seq<Seq<char>>
    decreases t.len(), 1int, 0int,
{
    if utf8_len(t) <= max {
        seq![t]
    } else if contains(t, paragraph_sep()) && split_on(t, paragraph_sep()).len() > 1 {
        section_split_all(split_on(t, paragraph_sep()), 0, max, ov, t.len() as int)
    } else {
        let ss = spec_split_by_regex(t, SENTENCE_SPLIT_PATTERN@);
        if ss is Some && ss->0.len() > 1 {
            spec_merge_to_size(ss->0, max)
        } else {
            windows_from(t, 0, max, ov)
        }
    }
}

/// `section_split` applied to each of `ps[i..]` that does not fit, pieces that fit kept.
pub open spec fn section_split_all(ps: Seq<Seq<char>>, i: int, max: int, ov: int, n: int) -> Seq<Seq<char>>
    decreases n, 0int, ps.len() - i,
{
    if i < 0 || i >= ps.len() || n < 0 {
        seq![]
    } else {
        (if utf8_len(ps[i]) <= max {
            seq![ps[i]]
        } else if ps[i].len() < n {
            section_split(ps[i], max, ov)
        } else {
            seq![ps[i]]
        }) + section_split_all(ps, i + 1, max, ov, n)
    }
}

/// Splitting a section's text comes to an end without cutting inside a character: every text
/// that reaches the window stage can be windowed with the overlap.
pub open spec fn section_split_ok(t: Seq<char>, max: int, ov: int) -> bool
    decreases t.len(), 1int, 0int,
{
    if utf8_len(t) <= max {
        true
    } else if contains(t, paragraph_sep()) && split_on(t, paragraph_sep()).len() > 1 {
        section_all_ok(split_on(t, paragraph_sep()), 0, max, ov, t.len() as int)
    } else {
        let ss = spec_split_by_regex(t, SENTENCE_SPLIT_PATTERN@);
        if ss is Some && ss->0.len() > 1 {
            true
        } else {
            window_halts(utf8_len(t) as int, max, ov) && windows_cut_ok(t, 0, max, ov)
        }
    }
}

/// Every piece of `ps[i..]` that does not fit splits well.
pub open spec fn section_all_ok(ps: Seq<Seq<char>>, i: int, max: int, ov: int, n: int) -> bool
    decreases n, 0int, ps.len() - i,
{
    if i < 0 || i >= ps.len() || n < 0 {
        true
    } else {
        (utf8_len(ps[i]) <= max || ps[i].len() >= n || section_split_ok(ps[i], max, ov))
            && section_all_ok(ps, i + 1, max, ov, n)
    }
}

proof fn lemma_section_all_ok_step(ps: Seq<Seq<char>>, i: int, max: int, ov: int, n: int)
    requires
        0 <= i,
        n >= 0,
        section_all_ok(ps, 0, max, ov, n),
    ensures
        section_all_ok(ps, i, max, ov, n),
        0 <= i < ps.len() && utf8_len(ps[i]) > max && ps[i].len() < n ==> section_split_ok(ps[i], max, ov),
    decreases i,
{
    if i > 0 {
        lemma_section_all_ok_step(ps, i - 1, max, ov, n);
    }
    if 0 <= i < ps.len() {
        assert(section_all_ok(ps, i, max, ov, n) == ((utf8_len(ps[i]) <= max || ps[i].len() >= n
            || section_split_ok(ps[i], max, ov)) && section_all_ok(ps, i + 1, max, ov, n)));
    }
}

fn section_split_checked(t: &[char], max_chars: usize, overlap: usize) -> (r: Option<Vec<Vec<char>>>)
    ensures
        r is Some <==> section_split_ok(t@, max_chars as int, overlap as int),
        r matches Some(v) ==> v@.map_values(|x: Vec<char>| x@) == section_split(t@, max_chars as int, overlap as int),
    decreases t@.len(),
{
    if utf8_len_exec(t) <= max_chars as u128 {
        let mut out: Vec<Vec<char>> = Vec::new();
        out.push(slice_to_vec(t));
        assert(out@.map_values(|x: Vec<char>| x@) == seq![t@]);
        return Some(out);
    }
    let sep: [char; 2] = ['\n', '\n'];
    assert(sep@ == paragraph_sep());
    if contains_chars(t, sep.as_slice()) {
        let parts = split_chars(t, sep.as_slice());
        if parts.len() > 1 {
            let ghost ps = split_on(t@, paragraph_sep());
            proof {
                lemma_split_from_sizes(t@, paragraph_sep(), 0);
            }
            let ghost n = t@.len() as int;
            let mut out: Vec<Vec<char>> = Vec::new();
            let mut i: usize = 0;
            while i < parts.len()
                invariant
                    i <= parts@.len(),
                    n == t@.len(),
                    utf8_len(t@) > max_chars,
                    contains(t@, paragraph_sep()),
                    ps == parts@.map_values(|x: Vec<char>| x@),
                    ps == split_on(t@, paragraph_sep()),
                    ps.len() > 1,
                    forall|k: int| 0 <= k < ps.len() ==> (#[trigger] ps[k]).len() < n,
                    section_all_ok(ps, 0, max_chars as int, overlap as int, n) == section_all_ok(
                        ps,
                        i as int,
                        max_chars as int,
                        overlap as int,
                        n,
                    ),
                    out@.map_values(|x: Vec<char>| x@) + section_split_all(
                        ps,
                        i as int,
                        max_chars as int,
                        overlap as int,
                        n,
                    ) == section_split_all(ps, 0, max_chars as int, overlap as int, n),
                decreases parts@.len() - i,
            {
                assert(section_all_ok(ps, i as int, max_chars as int, overlap as int, n) == ((utf8_len(ps[i as int])
                    <= max_chars || ps[i as int].len() >= n || section_split_ok(
                    ps[i as int],
                    max_chars as int,
                    overlap as int,
                )) && section_all_ok(ps, i + 1, max_chars as int, overlap as int, n)));
                assert(ps[i as int] == parts@[i as int]@);
                let ghost old_out = out@;
                if utf8_len_exec(parts[i].as_slice()) <= max_chars as u128 {
                    out.push(slice_to_vec(parts[i].as_slice()));
                    assert(out@.map_values(|x: Vec<char>| x@) == old_out.map_values(|x: Vec<char>| x@)
                        + seq![ps[i as int]]);
                } else {
                    match section_split_checked(parts[i].as_slice(), max_chars, overlap) {
                        Some(sub) => extend_vecs(&mut out, sub),
                        None => return None,
                    }
                }
                i += 1;
            }
            assert(out@.map_values(|x: Vec<char>| x@) + Seq::<Seq<char>>::empty() == out@.map_values(
                |x: Vec<char>| x@,
            ));
            return Some(out);
        }
    }
    let ts = string_from(t);
    let ss = split_by_regex(ts.as_str(), SENTENCE_SPLIT_PATTERN);
    if let Some(parts) = ss {
        if parts.len() > 1 {
            let merged = merge_to_size(parts, max_chars);
            return Some(char_vecs_of(&merged));
        }
    }
    try_window_chars(t, max_chars, overlap)
}

fn section_split_chars(t: &[char], max_chars: usize, overlap: usize) -> (r: Vec<Vec<char>>)
    requires
        section_split_ok(t@, max_chars as int, overlap as int),
    ensures
        r@.map_values(|x: Vec<char>| x@) == section_split(t@, max_chars as int, overlap as int),
{
    match section_split_checked(t, max_chars, overlap) {
        Some(v) => v,
        None => {
            assert(false);
            Vec::new()
        },
    }
}

proof fn lemma_bytes_from_le(ps: Seq<Seq<char>>, i: int, j: int)
    requires
        0 <= i <= j,
    ensures
        bytes_from(ps, i) >= bytes_from(ps, j),
    decreases j - i,
{
    if i < j {
        lemma_bytes_from_le(ps, i + 1, j);
    }
}

/// Whether the offsets of pieces starting at byte `start` stay within `usize`.
fn offsets_fit_exec(pieces: &Vec<Vec<char>>, start: usize) -> (r: bool)
    ensures
        r == (start + bytes_from(pieces@.map_values(|x: Vec<char>| x@), 0) <= usize::MAX),
{
    let ghost ps = pieces@.map_values(|x: Vec<char>| x@);
    let mut total: u128 = start as u128;
    let mut j: usize = pieces.len();
    assert(bytes_from(ps, j as int) == 0);
    while j > 0
        invariant
            j <= pieces@.len(),
            ps == pieces@.map_values(|x: Vec<char>| x@),
            total == start + bytes_from(ps, j as int),
            total <= usize::MAX,
        decreases j,
    {
        j -= 1;
        assert(ps[j as int] == pieces@[j as int]@);
        let nb = utf8_len_exec(pieces[j].as_slice());
        assert(bytes_from(ps, j as int) == utf8_len(ps[j as int]) + bytes_from(ps, j + 1));
        if nb > usize::MAX as u128 - total {
            proof {
                lemma_bytes_from_le(ps, 0, j as int);
            }
            return false;
        }
        total = total + nb;
    }
    true
}

/// Chunks documents along their heading structure.
pub struct HeadingHierarchyChunker {
    config: ChunkingConfig,
}

impl HeadingHierarchyChunker {
    /// A chunker with the given sizes.
    pub fn new(config: ChunkingConfig) -> (r: Self)
        ensures
            r.config() == config,
    {
        Self { config }
    }

    /// The sizes the chunker was made with.
    pub closed spec fn config(&self) -> ChunkingConfig {
        self.config
    }

    /// The largest chunk, in bytes: four per token.
    pub fn max_chars(&self) -> (r: usize)
        requires
            self.config().max_tokens as int * 4 <= usize::MAX,
        ensures
            r == self.config().max_tokens as int * 4,
    {
        self.config.max_tokens as usize * 4
    }

    /// The overlap between windows, in bytes: four per token.
    pub fn overlap_chars(&self) -> (r: usize)
        requires
            self.config().overlap_tokens as int * 4 <= usize::MAX,
        ensures
            r == self.config().overlap_tokens as int * 4,
    {
        self.config.overlap_tokens as usize * 4
    }

    /// Splits a section's text into pieces of at most `max_chars` bytes where it can:
    /// at blank lines, then at sentence ends, and as a last resort into overlapping windows.
    pub fn split_section_text(text: &str, max_chars: usize, overlap: usize) -> (r: Vec<String>)
        requires
            section_split_ok(text@, max_chars as int, overlap as int),
        ensures
            r@.map_values(|x: String| x@) == section_split(text@, max_chars as int, overlap as int),
    {
        let cs = crate::text::chars_of(text);
        let v = section_split_chars(cs.as_slice(), max_chars, overlap);
        crate::chunking::recursive::strings_of(&v)
    }
}


/// What chunking produces so far: chunks, entities and stored tables.
pub struct GraphAcc {
    pub chunks: Seq<ChunkView>,
    pub entities: Seq<EntityView>,
    pub tables: Seq<StoredTableView>,
}

/// The text of a table row: each header with its cell, `header: cell`, joined with `, `.
pub open spec fn row_line(headers: Seq<Seq<char>>, row: Seq<Seq<char>>) -> Seq<char> {
    let n = if headers.len() <= row.len() {
        headers.len()
    } else {
        row.len()
    };
    join(Seq::new(n, |k: int| headers[k] + ": "@ + row[k]), ", "@)
}

/// The identifier of the table at position `idx` of a document.
pub open spec fn table_id_of(doc_id: Seq<char>, idx: int) -> Seq<char> {
    id_prefix(doc_id) + "-tbl-"@ + decimal(idx as nat)
}

/// The identifier of a chunk: the short document hash, `-`, the short hash of `key`.
pub open spec fn chunk_id_of(doc_hash: Seq<char>, key_hash: Seq<char>) -> Seq<char> {
    spec_short_id(doc_hash) + "-"@ + spec_short_id(key_hash)
}

/// The chunk for a row of a table.
pub open spec fn table_row_chunk(
    d: Document,
    coll: Seq<char>,
    title: Seq<char>,
    caption: Option<Seq<char>>,
    tid: Seq<char>,
    row_i: int,
    line: Seq<char>,
    index: int,
) -> ChunkView {
    let ch = spec_hash_text(line);
    ChunkView {
        id: chunk_id_of(d.content_hash@, spec_hash_text(tid + decimal(row_i as nat) + ch)),
        document_id: d.id.0@,
        collection_id: coll,
        text: line,
        start_offset: 0,
        end_offset: utf8_len(line) as usize,
        page_number: None,
        section_title: caption,
        row_sheet_info: caption,
        source_filename: d.original_filename@,
        content_hash: ch,
        token_count: spec_estimate_tokens(utf8_len(line)),
        parent_section_id: None,
        heading_path: caption,
        chunk_index: index as u32,
        prev_chunk_id: None,
        next_chunk_id: None,
        contextual_text: Some(
            "Document: "@ + title + ". Table: "@ + (match caption {
                Some(c) => c,
                None => "Table"@,
            }) + ". Row: "@ + line,
        ),
        table_id: Some(tid),
        entity_tokens: None,
    }
}

/// The chunks and entities of rows `r..` of a table added to `acc`; blank rows are skipped.
pub open spec fn table_rows_from(
    d: Document,
    coll: Seq<char>,
    title: Seq<char>,
    caption: Option<Seq<char>>,
    tid: Seq<char>,
    lines: Seq<Seq<char>>,
    r: int,
    acc: GraphAcc,
) -> GraphAcc
    decreases lines.len() - r,
{
    if r < 0 || r >= lines.len() {
        acc
    } else {
        let line = lines[r];
        if trim(line).len() == 0 {
            table_rows_from(d, coll, title, caption, tid, lines, r + 1, acc)
        } else {
            let c = table_row_chunk(d, coll, title, caption, tid, r, line, acc.chunks.len() as int);
            table_rows_from(
                d,
                coll,
                title,
                caption,
                tid,
                lines,
                r + 1,
                GraphAcc {
                    chunks: acc.chunks.push(c),
                    entities: acc.entities + spec_extract_entities(d.id.0@, c.id, line),
                    tables: acc.tables,
                },
            )
        }
    }
}

/// The row texts of a table.
pub open spec fn table_lines(t: TableView) -> Seq<Seq<char>> {
    Seq::new(t.rows.len(), |i: int| row_line(t.headers, t.rows[i]))
}

/// The chunks, entities and stored tables of tables `ti..` added to `acc`.
pub open spec fn tables_from(d: Document, coll: Seq<char>, title: Seq<char>, ts: Seq<TableView>, ti: int, acc: GraphAcc) -> GraphAcc
    decreases ts.len() - ti,
{
    if ti < 0 || ti >= ts.len() {
        acc
    } else {
        let t = ts[ti];
        let tid = table_id_of(d.id.0@, ti);
        let a = table_rows_from(d, coll, title, t.name, tid, table_lines(t), 0, acc);
        tables_from(
            d,
            coll,
            title,
            ts,
            ti + 1,
            GraphAcc {
                chunks: a.chunks,
                entities: a.entities,
                tables: a.tables.push(
                    StoredTableView {
                        id: tid,
                        document_id: d.id.0@,
                        section_id: None,
                        caption: t.name,
                        headers: t.headers,
                        row_data: t.rows,
                    },
                ),
            },
        )
    }
}

/// The space-separated values of entities, when there are any.
pub open spec fn entity_tokens_of(es: Seq<EntityView>) -> Option<Seq<char>> {
    if es.len() > 0 {
        Some(join(es.map_values(|e: EntityView| e.value), " "@))
    } else {
        None
    }
}

/// The chunks and entities of segments `j..` of a section added to `acc`, the segment
/// starting at byte offset `local`; blank segments are skipped but still advance the offset.
pub open spec fn section_segments_from(
    d: Document,
    coll: Seq<char>,
    title: Seq<char>,
    sec: SectionView,
    segs: Seq<Seq<char>>,
    j: int,
    local: usize,
    acc: GraphAcc,
) -> GraphAcc
    decreases segs.len() - j,
{
    if j < 0 || j >= segs.len() {
        acc
    } else {
        let seg = segs[j];
        let next_local = (local + utf8_len(seg)) as usize;
        if trim(seg).len() == 0 {
            section_segments_from(d, coll, title, sec, segs, j + 1, next_local, acc)
        } else {
            let ch = spec_hash_text(seg);
            let id = chunk_id_of(d.content_hash@, ch);
            let ents = spec_extract_entities(d.id.0@, id, seg);
            let c = ChunkView {
                id,
                document_id: d.id.0@,
                collection_id: coll,
                text: seg,
                start_offset: local,
                end_offset: next_local,
                page_number: sec.page_start,
                section_title: Some(sec.title),
                row_sheet_info: None,
                source_filename: d.original_filename@,
                content_hash: ch,
                token_count: spec_estimate_tokens(utf8_len(seg)),
                parent_section_id: Some(sec.id),
                heading_path: Some(sec.heading_path),
                chunk_index: acc.chunks.len() as u32,
                prev_chunk_id: None,
                next_chunk_id: None,
                contextual_text: Some(contextual_text(title, sec.heading_path, seg)),
                table_id: None,
                entity_tokens: entity_tokens_of(ents),
            };
            section_segments_from(
                d,
                coll,
                title,
                sec,
                segs,
                j + 1,
                next_local,
                GraphAcc { chunks: acc.chunks.push(c), entities: acc.entities + ents, tables: acc.tables },
            )
        }
    }
}

/// The body of a stored section: the text between its byte offsets.
pub open spec fn section_body(t: Seq<char>, sec: SectionView) -> Seq<char> {
    byte_slice(t, sec.start_offset as int, sec.end_offset as int)
}

/// A section lies within the text: its byte offsets are in order, within the text and at
/// character boundaries (slicing elsewhere would panic).
pub open spec fn section_within(t: Seq<char>, sec: SectionView) -> bool {
    &&& sec.start_offset <= sec.end_offset <= utf8_len(t)
    &&& is_boundary(t, sec.start_offset as int)
    &&& is_boundary(t, sec.end_offset as int)
}

/// The offsets of a section's segments stay within `usize` (adding past it would overflow).
pub open spec fn section_offsets_fit(t: Seq<char>, sec: SectionView, max: int, ov: int) -> bool {
    sec.start_offset + bytes_from(section_split(section_body(t, sec), max, ov), 0) <= usize::MAX
}

/// The chunks and entities of sections `si..` added to `acc`.
pub open spec fn sections_chunks_from(
    d: Document,
    coll: Seq<char>,
    title: Seq<char>,
    secs: Seq<SectionView>,
    si: int,
    max: int,
    ov: int,
    acc: GraphAcc,
) -> GraphAcc
    decreases secs.len() - si,
{
    if si < 0 || si >= secs.len() {
        acc
    } else {
        let sec = secs[si];
        let segs = section_split(section_body(d.extracted_text@, sec), max, ov);
        sections_chunks_from(
            d,
            coll,
            title,
            secs,
            si + 1,
            max,
            ov,
            section_segments_from(d, coll, title, sec, segs, 0, sec.start_offset, acc),
        )
    }
}

/// The chunks and entities of segments `j..` of the whole text added to `acc` (used when
/// the sections gave no chunk), each taking the section that holds its start offset.
pub open spec fn fallback_from(
    d: Document,
    coll: Seq<char>,
    title: Seq<char>,
    secs: Seq<SectionView>,
    segs: Seq<Seq<char>>,
    j: int,
    offset: usize,
    acc: GraphAcc,
) -> GraphAcc
    decreases segs.len() - j,
{
    if j < 0 || j >= segs.len() {
        acc
    } else {
        let seg = segs[j];
        let next_offset = (offset + utf8_len(seg)) as usize;
        if trim(seg).len() == 0 {
            fallback_from(d, coll, title, secs, segs, j + 1, next_offset, acc)
        } else {
            let ch = spec_hash_text(seg);
            let id = chunk_id_of(d.content_hash@, ch);
            let found = first_section_at(secs, offset as int, 0);
            let st: Option<Seq<char>> = match found { Some(k) => Some(secs[k].title), None => None };
            let sid: Option<Seq<char>> = match found { Some(k) => Some(secs[k].id), None => None };
            let hp: Option<Seq<char>> = match found { Some(k) => Some(secs[k].heading_path), None => None };
            let c = ChunkView {
                id,
                document_id: d.id.0@,
                collection_id: coll,
                text: seg,
                start_offset: offset,
                end_offset: next_offset,
                page_number: None,
                section_title: st,
                row_sheet_info: None,
                source_filename: d.original_filename@,
                content_hash: ch,
                token_count: spec_estimate_tokens(utf8_len(seg)),
                parent_section_id: sid,
                heading_path: hp,
                chunk_index: acc.chunks.len() as u32,
                prev_chunk_id: None,
                next_chunk_id: None,
                contextual_text: Some(contextual_text(title, section_label_of(hp, st), seg)),
                table_id: None,
                entity_tokens: None,
            };
            fallback_from(
                d,
                coll,
                title,
                secs,
                segs,
                j + 1,
                next_offset,
                GraphAcc {
                    chunks: acc.chunks.push(c),
                    entities: acc.entities + spec_extract_entities(d.id.0@, id, seg),
                    tables: acc.tables,
                },
            )
        }
    }
}

/// The views of a document's tables.
pub open spec fn tables_view(v: Seq<Table>) -> Seq<TableView> {
    v.map_values(|t: Table| t@)
}

/// The stored sections of a document.
pub open spec fn doc_sections(d: Document) -> Seq<SectionView> {
    spec_sections_to_stored(d.id.0@, spec_section_tree(d))
}

/// The chunks and entities of tables and sections, before the fall-back.
pub open spec fn primary_acc(d: Document, coll: Seq<char>, max: int, ov: int) -> GraphAcc {
    let title = doc_fallback_title(d);
    let a = tables_from(d, coll, title, tables_view(d.extracted_tables@), 0, GraphAcc { chunks: seq![], entities: seq![], tables: seq![] });
    sections_chunks_from(d, coll, title, doc_sections(d), 0, max, ov, a)
}

/// The fall-back over the whole text is used: sections and tables gave no chunk and the
/// text is not empty.
pub open spec fn uses_fallback(d: Document, coll: Seq<char>, max: int, ov: int) -> bool {
    primary_acc(d, coll, max, ov).chunks.len() == 0 && d.extracted_text@.len() > 0
}

/// Everything chunking gathers, before neighbours are linked.
pub open spec fn final_acc(d: Document, coll: Seq<char>, max: int, ov: int) -> GraphAcc {
    let a = primary_acc(d, coll, max, ov);
    if uses_fallback(d, coll, max, ov) {
        fallback_from(
            d,
            coll,
            doc_fallback_title(d),
            doc_sections(d),
            section_split(d.extracted_text@, max, ov),
            0,
            0,
            a,
        )
    } else {
        a
    }
}

/// The mathematical value of a [`HierarchyChunkResult`].
pub struct HierarchyChunkView {
    pub chunks: Seq<ChunkView>,
    pub sections: Seq<SectionView>,
    pub tables: Seq<StoredTableView>,
    pub entities: Seq<EntityView>,
    pub relations: Seq<ChunkRelationView>,
}

/// What `chunk_with_graph` gives.
pub open spec fn spec_chunk_with_graph(d: Document, coll: Seq<char>, max: int, ov: int) -> HierarchyChunkView {
    let a = final_acc(d, coll, max, ov);
    let linked = spec_link_neighbors(a.chunks);
    HierarchyChunkView {
        chunks: linked,
        sections: doc_sections(d),
        tables: a.tables,
        entities: a.entities,
        relations: relations_from(linked, 0),
    }
}

/// The document can be chunked with these sizes: its text fits the machine and can be cut
/// into pages, the first eight bytes of its id can be cut off, every section lies within the
/// text, splits well and keeps its chunk offsets within `usize`, and so does the whole text
/// where the fall-back needs it.
pub open spec fn chunking_ok(d: Document, max: int, ov: int, coll: Seq<char>) -> bool {
    let t = d.extracted_text@;
    let secs = doc_sections(d);
    &&& text_fits(t)
    &&& pdf_split_ok(t, d.file_type)
    &&& id_prefix_ok(d.id.0@)
    &&& forall|k: int| 0 <= k < secs.len() ==> section_within(t, #[trigger] secs[k])
    &&& forall|k: int| 0 <= k < secs.len() ==> section_split_ok(section_body(t, #[trigger] secs[k]), max, ov)
    &&& forall|k: int| 0 <= k < secs.len() ==> section_offsets_fit(t, #[trigger] secs[k], max, ov)
    &&& uses_fallback(d, coll, max, ov) ==> section_split_ok(t, max, ov) && bytes_from(section_split(t, max, ov), 0)
        <= usize::MAX
}

/// The chunks of a document with the graph around them.
#[derive(Clone, Debug)]
pub struct HierarchyChunkResult {
    pub chunks: Vec<Chunk>,
    pub sections: Vec<Section>,
    pub tables: Vec<StoredTable>,
    pub entities: Vec<Entity>,
    pub relations: Vec<ChunkRelation>,
}


/// The views of stored tables.
pub open spec fn stored_tables_view(v: Seq<StoredTable>) -> Seq<StoredTableView> {
    v.map_values(|t: StoredTable| t@)
}

/// The gathered state as a [`GraphAcc`].
pub open spec fn acc_of(chunks: Seq<Chunk>, entities: Seq<Entity>, tables: Seq<StoredTable>) -> GraphAcc {
    GraphAcc { chunks: chunks_view(chunks), entities: entities_view(entities), tables: stored_tables_view(tables) }
}

/// Copies a list of strings.
pub fn clone_strings(v: &Vec<String>) -> (r: Vec<String>)
    ensures
        r@.map_values(|x: String| x@) == v@.map_values(|x: String| x@),
{
    let mut out: Vec<String> = Vec::new();
    let mut i: usize = 0;
    while i < v.len()
        invariant
            i <= v@.len(),
            out@.map_values(|x: String| x@) == v@.map_values(|x: String| x@).take(i as int),
        decreases v@.len() - i,
    {
        let ghost o = out@;
        out.push(v[i].clone());
        assert(out@.map_values(|x: String| x@) == o.map_values(|x: String| x@).push(v@[i as int]@));
        assert(v@.map_values(|x: String| x@).take(i + 1) == v@.map_values(|x: String| x@).take(i as int).push(v@[i as int]@));
        i += 1;
    }
    assert(v@.map_values(|x: String| x@).take(v@.len() as int) == v@.map_values(|x: String| x@));
    out
}

/// Copies a list of rows of strings.
pub fn clone_rows(v: &Vec<Vec<String>>) -> (r: Vec<Vec<String>>)
    ensures
        crate::documents::types::rows_view(r@) == crate::documents::types::rows_view(v@),
{
    let mut out: Vec<Vec<String>> = Vec::new();
    let mut i: usize = 0;
    while i < v.len()
        invariant
            i <= v@.len(),
            crate::documents::types::rows_view(out@) == crate::documents::types::rows_view(v@).take(i as int),
        decreases v@.len() - i,
    {
        let ghost o = out@;
        let row = clone_strings(&v[i]);
        out.push(row);
        assert(crate::documents::types::rows_view(out@) == crate::documents::types::rows_view(o).push(row@.map_values(|x: String| x@)));
        assert(crate::documents::types::rows_view(v@).take(i + 1) == crate::documents::types::rows_view(v@).take(i as int).push(v@[i as int]@.map_values(|x: String| x@)));
        i += 1;
    }
    assert(crate::documents::types::rows_view(v@).take(v@.len() as int) == crate::documents::types::rows_view(v@));
    out
}

pub fn chunk_id_exec(doc_hash: &str, key_hash: &str) -> (r: String)
    ensures
        r@ == chunk_id_of(doc_hash@, key_hash@),
{
    let mut out = short_id_from_hash(doc_hash);
    out.append("-");
    let k = short_id_from_hash(key_hash);
    out.append(k.as_str());
    out
}

fn row_line_exec(headers: &Vec<String>, row: &Vec<String>) -> (r: Vec<char>)
    ensures
        r@ == row_line(headers@.map_values(|h: String| h@), row@.map_values(|c: String| c@)),
{
    let ghost hv = headers@.map_values(|h: String| h@);
    let ghost rv = row@.map_values(|c: String| c@);
    let n = if headers.len() <= row.len() { headers.len() } else { row.len() };
    let ghost cells = Seq::new(n as nat, |k: int| hv[k] + ": "@ + rv[k]);
    let colon: [char; 2] = [':', ' '];
    proof {
        reveal_strlit(": ");
    }
    assert(colon@ =~= ": "@);
    let mut parts: Vec<Vec<char>> = Vec::new();
    let mut k: usize = 0;
    while k < n
        invariant
            k <= n,
            n <= headers@.len(),
            n <= row@.len(),
            hv == headers@.map_values(|h: String| h@),
            rv == row@.map_values(|c: String| c@),
            cells == Seq::new(n as nat, |k: int| hv[k] + ": "@ + rv[k]),
            colon@ == ": "@,
            parts@.map_values(|v: Vec<char>| v@) == cells.take(k as int),
        decreases n - k,
    {
        let mut cell = chars_of(headers[k].as_str());
        append_chars(&mut cell, colon.as_slice());
        let v = chars_of(row[k].as_str());
        append_chars(&mut cell, v.as_slice());
        let ghost old = parts@;
        parts.push(cell);
        assert(parts@.map_values(|v: Vec<char>| v@) == old.map_values(|v: Vec<char>| v@).push(cells[k as int]));
        assert(cells.take(k + 1) == cells.take(k as int).push(cells[k as int]));
        k += 1;
    }
    assert(cells.take(n as int) == cells);
    let sep: [char; 2] = [',', ' '];
    proof {
        reveal_strlit(", ");
    }
    assert(sep@ =~= ", "@);
    join_chars(parts.as_slice(), sep.as_slice())
}

pub fn is_blank(s: &[char]) -> (r: bool)
    ensures
        r == (trim(s@).len() == 0),
{
    let (a, b) = trim_bounds(s);
    a == b
}

fn table_chunks(
    document: &Document,
    collection_id: &str,
    title: &str,
    chunks: &mut Vec<Chunk>,
    entities: &mut Vec<Entity>,
    tables: &mut Vec<StoredTable>,
)
    requires
        title@ == doc_fallback_title(*document),
        document.extracted_tables@.len() > 0 ==> id_prefix_ok(document.id.0@),
    ensures
        acc_of(final(chunks)@, final(entities)@, final(tables)@) == tables_from(
            *document,
            collection_id@,
            title@,
            tables_view(document.extracted_tables@),
            0,
            acc_of(old(chunks)@, old(entities)@, old(tables)@),
        ),
{
    let ghost ts = tables_view(document.extracted_tables@);
    let ghost target = tables_from(*document, collection_id@, title@, ts, 0, acc_of(chunks@, entities@, tables@));
    let doc_cs = chars_of(document.id.0.as_str());
    if document.extracted_tables.len() == 0 {
        assert(tables_from(*document, collection_id@, title@, ts, 0, acc_of(chunks@, entities@, tables@)) == acc_of(
            chunks@,
            entities@,
            tables@,
        ));
        return;
    }
    let prefix = id_prefix_exec(doc_cs.as_slice());
    let tbl_mark: [char; 5] = ['-', 't', 'b', 'l', '-'];
    proof {
        reveal_strlit("-tbl-");
    }
    assert(tbl_mark@ =~= "-tbl-"@);
    let mut ti: usize = 0;
    while ti < document.extracted_tables.len()
        invariant
            ti <= document.extracted_tables@.len(),
            ts == tables_view(document.extracted_tables@),
            title@ == doc_fallback_title(*document),
            prefix@ == id_prefix(document.id.0@),
            tbl_mark@ == "-tbl-"@,
            tables_from(*document, collection_id@, title@, ts, ti as int, acc_of(chunks@, entities@, tables@)) == target,
        decreases document.extracted_tables@.len() - ti,
    {
        let table = &document.extracted_tables[ti];
        assert(ts[ti as int] == table@);
        let mut tid_cs = slice_to_vec(prefix.as_slice());
        append_chars(&mut tid_cs, tbl_mark.as_slice());
        let digits = decimal_chars(ti as u64);
        append_chars(&mut tid_cs, digits.as_slice());
        let tid = string_from(tid_cs.as_slice());
        assert(tid@ == table_id_of(document.id.0@, ti as int));
        let ghost lines = table_lines(table@);
        let ghost rows_target = table_rows_from(*document, collection_id@, title@, table@.name, tid@, lines, 0, acc_of(chunks@, entities@, tables@));
        let mut r: usize = 0;
        while r < table.rows.len()
            invariant
                r <= table.rows@.len(),
                lines == table_lines(table@),
                title@ == doc_fallback_title(*document),
                table_rows_from(*document, collection_id@, title@, table@.name, tid@, lines, r as int, acc_of(chunks@, entities@, tables@)) == rows_target,
            decreases table.rows@.len() - r,
        {
            let line = row_line_exec(&table.headers, &table.rows[r]);
            assert(line@ == lines[r as int]);
            if !is_blank(line.as_slice()) {
                let line_s = string_from(line.as_slice());
                let content_hash = hash_text(line_s.as_str());
                let mut key = chars_of(tid.as_str());
                let rd = decimal_chars(r as u64);
                append_chars(&mut key, rd.as_slice());
                let chc = chars_of(content_hash.as_str());
                append_chars(&mut key, chc.as_slice());
                let key_hash = hash_text(string_from(key.as_slice()).as_str());
                let id = chunk_id_exec(document.content_hash.as_str(), key_hash.as_str());
                let token_count = estimate_tokens(line_s.as_str());
                let lb = utf8_len_exec(line.as_slice());
                #[verifier::truncate]
                let line_bytes = lb as usize;
                let mut ctx = String::from_str("Document: ");
                ctx.append(title);
                ctx.append(". Table: ");
                match &table.name {
                    Some(c) => ctx.append(c.as_str()),
                    None => ctx.append("Table"),
                }
                ctx.append(". Row: ");
                ctx.append(line_s.as_str());
                let index = chunks.len() as u32;
                let c = Chunk {
                    id: ChunkId(id.clone()),
                    document_id: DocumentId(document.id.0.clone()),
                    collection_id: CollectionId(string_from(chars_of(collection_id).as_slice())),
                    text: line_s.clone(),
                    start_offset: 0,
                    end_offset: line_bytes,
                    page_number: None,
                    section_title: clone_opt(&table.name),
                    row_sheet_info: clone_opt(&table.name),
                    source_filename: document.original_filename.clone(),
                    content_hash: content_hash,
                    token_count,
                    parent_section_id: None,
                    heading_path: clone_opt(&table.name),
                    chunk_index: index,
                    prev_chunk_id: None,
                    next_chunk_id: None,
                    contextual_text: Some(ctx),
                    table_id: Some(tid.clone()),
                    entity_tokens: None,
                };
                assert(c@ == table_row_chunk(*document, collection_id@, title@, table@.name, tid@, r as int, line@, chunks@.len() as int));
                let ents = extract_entities_from_text(document.id.0.as_str(), id.as_str(), line_s.as_str());
                let ghost oc = chunks@;
                let ghost oe = entities@;
                chunks.push(c);
                assert(chunks_view(chunks@) == chunks_view(oc).push(c@));
                let mut ents = ents;
                let ghost ev = ents@;
                entities.append(&mut ents);
                assert(entities_view(entities@) =~= entities_view(oe) + entities_view(ev));
            }
            r += 1;
        }
        let stored = StoredTable {
            id: tid,
            document_id: document.id.0.clone(),
            section_id: None,
            caption: clone_opt(&table.name),
            headers: clone_strings(&table.headers),
            row_data: clone_rows(&table.rows),
        };
        assert(stored@.row_data =~= table@.rows);
        let ghost ot = tables@;
        tables.push(stored);
        assert(stored_tables_view(tables@) == stored_tables_view(ot).push(stored@));
        ti += 1;
    }
}


fn entity_tokens_exec(ents: &Vec<Entity>) -> (r: Option<String>)
    ensures
        opt_view_local(r) == entity_tokens_of(entities_view(ents@)),
{
    if ents.len() == 0 {
        return None;
    }
    let ghost ev = entities_view(ents@);
    let mut vals: Vec<Vec<char>> = Vec::new();
    let mut i: usize = 0;
    while i < ents.len()
        invariant
            i <= ents@.len(),
            ev == entities_view(ents@),
            vals@.map_values(|v: Vec<char>| v@) == ev.map_values(|e: EntityView| e.value).take(i as int),
        decreases ents@.len() - i,
    {
        let ghost o = vals@;
        vals.push(chars_of(ents[i].value.as_str()));
        assert(vals@.map_values(|v: Vec<char>| v@) == o.map_values(|v: Vec<char>| v@).push(ev[i as int].value));
        assert(ev.map_values(|e: EntityView| e.value).take(i + 1) == ev.map_values(|e: EntityView| e.value).take(i as int).push(ev[i as int].value));
        i += 1;
    }
    assert(ev.map_values(|e: EntityView| e.value).take(ents@.len() as int) == ev.map_values(|e: EntityView| e.value));
    let sp: [char; 1] = [' '];
    proof {
        reveal_strlit(" ");
    }
    assert(sp@ =~= " "@);
    let j = join_chars(vals.as_slice(), sp.as_slice());
    Some(string_from(j.as_slice()))
}

/// The characters of an optional string.
pub open spec fn opt_view_local(o: Option<String>) -> Option<Seq<char>> {
    crate::documents::graph_types::opt_view(o)
}

fn section_chunks(
    document: &Document,
    collection_id: &str,
    title: &str,
    sections: &Vec<Section>,
    max_chars: usize,
    overlap: usize,
    chunks: &mut Vec<Chunk>,
    entities: &mut Vec<Entity>,
    tables: &Vec<StoredTable>,
)
    requires
        title@ == doc_fallback_title(*document),
        forall|k: int| 0 <= k < sections@.len() ==> section_within(document.extracted_text@, #[trigger] sections@[k]@),
        forall|k: int| 0 <= k < sections@.len() ==> section_split_ok(
            section_body(document.extracted_text@, #[trigger] sections@[k]@),
            max_chars as int,
            overlap as int,
        ),
        forall|k: int| 0 <= k < sections@.len() ==> section_offsets_fit(
            document.extracted_text@,
            #[trigger] sections@[k]@,
            max_chars as int,
            overlap as int,
        ),
    ensures
        acc_of(final(chunks)@, final(entities)@, tables@) == sections_chunks_from(
            *document,
            collection_id@,
            title@,
            sections_view(sections@),
            0,
            max_chars as int,
            overlap as int,
            acc_of(old(chunks)@, old(entities)@, tables@),
        ),
{
    let ghost sv = sections_view(sections@);
    let ghost target = sections_chunks_from(*document, collection_id@, title@, sv, 0, max_chars as int, overlap as int, acc_of(chunks@, entities@, tables@));
    let text = chars_of(document.extracted_text.as_str());
    let mut si: usize = 0;
    while si < sections.len()
        invariant
            si <= sections@.len(),
            sv == sections_view(sections@),
            text@ == document.extracted_text@,
            title@ == doc_fallback_title(*document),
            forall|k: int| 0 <= k < sections@.len() ==> section_within(document.extracted_text@, #[trigger] sections@[k]@),
            forall|k: int| 0 <= k < sections@.len() ==> section_split_ok(
                section_body(document.extracted_text@, #[trigger] sections@[k]@),
                max_chars as int,
                overlap as int,
            ),
            forall|k: int| 0 <= k < sections@.len() ==> section_offsets_fit(
                document.extracted_text@,
                #[trigger] sections@[k]@,
                max_chars as int,
                overlap as int,
            ),
            sections_chunks_from(*document, collection_id@, title@, sv, si as int, max_chars as int, overlap as int, acc_of(chunks@, entities@, tables@)) == target,
        decreases sections@.len() - si,
    {
        let sec = &sections[si];
        assert(sv[si as int] == sec@);
        assert(section_within(document.extracted_text@, sec@));
        let ia = char_at_byte(text.as_slice(), sec.start_offset as u128);
        let ib = char_at_byte(text.as_slice(), sec.end_offset as u128);
        let (a, b) = match (ia, ib) {
            (Some(x), Some(y)) => (x, y),
            _ => {
                assert(false);
                (0, 0)
            },
        };
        proof {
            if a > b {
                lemma_byte_pos_mono(text@, b as int, a as int);
            }
        }
        let body = slice_to_vec(&text.as_slice()[a..b]);
        assert(body@ == section_body(document.extracted_text@, sec@));
        let segs = section_split_chars(body.as_slice(), max_chars, overlap);
        let ghost sg = segs@.map_values(|x: Vec<char>| x@);
        let ghost seg_target = section_segments_from(*document, collection_id@, title@, sec@, sg, 0, sec.start_offset, acc_of(chunks@, entities@, tables@));
        assert(section_offsets_fit(document.extracted_text@, sec@, max_chars as int, overlap as int));
        let mut local: usize = sec.start_offset;
        let mut j: usize = 0;
        while j < segs.len()
            invariant
                j <= segs@.len(),
                sg == segs@.map_values(|x: Vec<char>| x@),
                local + bytes_from(sg, j as int) <= usize::MAX,
                title@ == doc_fallback_title(*document),
                section_segments_from(*document, collection_id@, title@, sec@, sg, j as int, local, acc_of(chunks@, entities@, tables@)) == seg_target,
            decreases segs@.len() - j,
        {
            let seg = &segs[j];
            assert(sg[j as int] == seg@);
            let sb = utf8_len_exec(seg.as_slice());
            assert(bytes_from(sg, j as int) == utf8_len(sg[j as int]) + bytes_from(sg, j + 1));
            let sbu = sb as usize;
            let next_local = local + sbu;
            if !is_blank(seg.as_slice()) {
                let seg_s = string_from(seg.as_slice());
                let content_hash = hash_text(seg_s.as_str());
                let id = chunk_id_exec(document.content_hash.as_str(), content_hash.as_str());
                let ents = extract_entities_from_text(document.id.0.as_str(), id.as_str(), seg_s.as_str());
                let tokens = entity_tokens_exec(&ents);
                let ctx_cs = {
                    let mut c = String::from_str("Document: ");
                    c.append(title);
                    c.append(". Section: ");
                    c.append(sec.heading_path.as_str());
                    c.append(". ");
                    c.append(seg_s.as_str());
                    c
                };
                let index = chunks.len() as u32;
                let c = Chunk {
                    id: ChunkId(id),
                    document_id: DocumentId(document.id.0.clone()),
                    collection_id: CollectionId(string_from(chars_of(collection_id).as_slice())),
                    text: seg_s,
                    start_offset: local,
                    end_offset: next_local,
                    page_number: sec.page_start,
                    section_title: Some(sec.title.clone()),
                    row_sheet_info: None,
                    source_filename: document.original_filename.clone(),
                    content_hash,
                    token_count: estimate_tokens(string_from(seg.as_slice()).as_str()),
                    parent_section_id: Some(sec.id.clone()),
                    heading_path: Some(sec.heading_path.clone()),
                    chunk_index: index,
                    prev_chunk_id: None,
                    next_chunk_id: None,
                    contextual_text: Some(ctx_cs),
                    table_id: None,
                    entity_tokens: tokens,
                };
                let ghost oc = chunks@;
                let ghost oe = entities@;
                chunks.push(c);
                assert(chunks_view(chunks@) == chunks_view(oc).push(c@));
                let mut ents = ents;
                let ghost ev = ents@;
                entities.append(&mut ents);
                assert(entities_view(entities@) =~= entities_view(oe) + entities_view(ev));
            }
            local = next_local;
            j += 1;
        }
        si += 1;
    }
}


fn fallback_chunks(
    document: &Document,
    collection_id: &str,
    title: &str,
    sections: &Vec<Section>,
    max_chars: usize,
    overlap: usize,
    chunks: &mut Vec<Chunk>,
    entities: &mut Vec<Entity>,
    tables: &Vec<StoredTable>,
)
    requires
        title@ == doc_fallback_title(*document),
        section_split_ok(document.extracted_text@, max_chars as int, overlap as int),
        bytes_from(section_split(document.extracted_text@, max_chars as int, overlap as int), 0) <= usize::MAX,
    ensures
        acc_of(final(chunks)@, final(entities)@, tables@) == fallback_from(
            *document,
            collection_id@,
            title@,
            sections_view(sections@),
            section_split(document.extracted_text@, max_chars as int, overlap as int),
            0,
            0,
            acc_of(old(chunks)@, old(entities)@, tables@),
        ),
{
    let ghost sv = sections_view(sections@);
    let text = chars_of(document.extracted_text.as_str());
    let segs = section_split_chars(text.as_slice(), max_chars, overlap);
    let ghost sg = segs@.map_values(|x: Vec<char>| x@);
    let ghost target = fallback_from(*document, collection_id@, title@, sv, sg, 0, 0, acc_of(chunks@, entities@, tables@));
    let mut offset: usize = 0;
    let mut j: usize = 0;
    while j < segs.len()
        invariant
            j <= segs@.len(),
            sg == segs@.map_values(|x: Vec<char>| x@),
            sv == sections_view(sections@),
            title@ == doc_fallback_title(*document),
            fallback_from(*document, collection_id@, title@, sv, sg, j as int, offset, acc_of(chunks@, entities@, tables@)) == target,
            offset + bytes_from(sg, j as int) <= usize::MAX,
        decreases segs@.len() - j,
    {
        let seg = &segs[j];
        assert(sg[j as int] == seg@);
        let sb = utf8_len_exec(seg.as_slice());
        assert(bytes_from(sg, j as int) == utf8_len(sg[j as int]) + bytes_from(sg, j + 1));
        let sbu = sb as usize;
        let next_offset = offset + sbu;
        if !is_blank(seg.as_slice()) {
            let seg_s = string_from(seg.as_slice());
            let content_hash = hash_text(seg_s.as_str());
            let id = chunk_id_exec(document.content_hash.as_str(), content_hash.as_str());
            let found = find_section_for_offset(sections.as_slice(), offset);
            let (st, sid, hp): (Option<String>, Option<String>, Option<String>) = match found {
                Some(sec) => (Some(sec.title.clone()), Some(sec.id.clone()), Some(sec.heading_path.clone())),
                None => (None, None, None),
            };
            proof {
                let f = first_section_at(sv, offset as int, 0);
                crate::documents::structure::lemma_first_section_at(sv, offset as int, 0);
                match f {
                    Some(k) => {
                        assert(sv[k] == sections@[k]@);
                        assert(crate::documents::graph_types::opt_view(st) == Some(sv[k].title));
                        assert(crate::documents::graph_types::opt_view(sid) == Some(sv[k].id));
                        assert(crate::documents::graph_types::opt_view(hp) == Some(sv[k].heading_path));
                    },
                    None => {},
                }
            }
            let label: String = match &hp {
                Some(p) => p.clone(),
                None => match &st {
                    Some(t) => t.clone(),
                    None => String::from_str("General"),
                },
            };
            let mut ctx = String::from_str("Document: ");
            ctx.append(title);
            ctx.append(". Section: ");
            ctx.append(label.as_str());
            ctx.append(". ");
            ctx.append(seg_s.as_str());
            let ents = extract_entities_from_text(document.id.0.as_str(), id.as_str(), seg_s.as_str());
            let index = chunks.len() as u32;
            let c = Chunk {
                id: ChunkId(id),
                document_id: DocumentId(document.id.0.clone()),
                collection_id: CollectionId(string_from(chars_of(collection_id).as_slice())),
                text: seg_s,
                start_offset: offset,
                end_offset: next_offset,
                page_number: None,
                section_title: st,
                row_sheet_info: None,
                source_filename: document.original_filename.clone(),
                content_hash,
                token_count: estimate_tokens(string_from(seg.as_slice()).as_str()),
                parent_section_id: sid,
                heading_path: hp,
                chunk_index: index,
                prev_chunk_id: None,
                next_chunk_id: None,
                contextual_text: Some(ctx),
                table_id: None,
                entity_tokens: None,
            };
            assert(label@ == section_label_of(
                crate::documents::graph_types::opt_view(c.heading_path),
                crate::documents::graph_types::opt_view(c.section_title),
            ));
            let ghost oc = chunks@;
            let ghost oe = entities@;
            chunks.push(c);
            assert(chunks_view(chunks@) == chunks_view(oc).push(c@));
            let mut ents = ents;
            let ghost ev = ents@;
            entities.append(&mut ents);
            assert(entities_view(entities@) =~= entities_view(oe) + entities_view(ev));
        }
        offset = next_offset;
        j += 1;
    }
}

impl HeadingHierarchyChunker {
    /// Chunks a document: one chunk per non-blank table row, then the sections' text split to
    /// size, and the whole text when neither gave a chunk; the chunks are linked to their
    /// neighbours, with the sections, tables, entities and relations found on the way.
    pub fn chunk_with_graph(&self, document: &Document, collection_id: &str) -> (r: HierarchyChunkResult)
        requires
            self.config().max_tokens as int * 4 <= usize::MAX,
            self.config().overlap_tokens as int * 4 <= usize::MAX,
            chunking_ok(
                *document,
                self.config().max_tokens as int * 4,
                self.config().overlap_tokens as int * 4,
                collection_id@,
            ),
        ensures
            r@ == spec_chunk_with_graph(
                *document,
                collection_id@,
                self.config().max_tokens as int * 4,
                self.config().overlap_tokens as int * 4,
            ),
    {
        let nodes = build_section_tree(document);
        let sections = sections_to_stored(document.id.0.as_str(), nodes.as_slice());
        let title: String = match &document.title {
            Some(t) => t.clone(),
            None => document.original_filename.clone(),
        };
        let max_chars = self.max_chars();
        let overlap = self.overlap_chars();
        let mut chunks: Vec<Chunk> = Vec::new();
        let mut tables: Vec<StoredTable> = Vec::new();
        let mut entities: Vec<Entity> = Vec::new();
        let ghost empty = GraphAcc { chunks: seq![], entities: seq![], tables: seq![] };
        assert(acc_of(chunks@, entities@, tables@) == empty) by {
            assert(chunks_view(chunks@) =~= Seq::<ChunkView>::empty());
            assert(entities_view(entities@) =~= Seq::<EntityView>::empty());
            assert(stored_tables_view(tables@) =~= Seq::<StoredTableView>::empty());
        }
        table_chunks(document, collection_id, title.as_str(), &mut chunks, &mut entities, &mut tables);
        proof {
            let secs = doc_sections(*document);
            assert(sections_view(sections@) == secs);
            assert forall|k: int| 0 <= k < sections@.len() implies section_within(document.extracted_text@, #[trigger] sections@[k]@) by {
                assert(secs[k] == sections@[k]@);
            }
            assert forall|k: int| 0 <= k < sections@.len() implies section_split_ok(
                section_body(document.extracted_text@, #[trigger] sections@[k]@),
                max_chars as int,
                overlap as int,
            ) by {
                assert(secs[k] == sections@[k]@);
            }
            assert forall|k: int| 0 <= k < sections@.len() implies section_offsets_fit(
                document.extracted_text@,
                #[trigger] sections@[k]@,
                max_chars as int,
                overlap as int,
            ) by {
                assert(secs[k] == sections@[k]@);
            }
        }
        section_chunks(document, collection_id, title.as_str(), &sections, max_chars, overlap, &mut chunks, &mut entities, &tables);
        if chunks.len() == 0 && document.extracted_text.unicode_len() > 0 {
            fallback_chunks(document, collection_id, title.as_str(), &sections, max_chars, overlap, &mut chunks, &mut entities, &tables);
        }
        link_neighbors(&mut chunks);
        let relations = build_neighbor_relations(chunks.as_slice());
        HierarchyChunkResult { chunks, sections, tables, entities, relations }
    }
}

impl HeadingHierarchyChunker {
    /// Chunks a document with its graph (see [`HeadingHierarchyChunker::chunk_with_graph`])
    /// where it can be chunked with this chunker's sizes (see [`chunking_ok`]); `None` where
    /// it cannot (the cases in which chunking would panic, never end or overflow).
    pub fn try_chunk_with_graph(&self, document: &Document, collection_id: &str) -> (r: Option<
        HierarchyChunkResult,
    >)
        ensures
            r is Some <==> self.config().max_tokens as int * 4 <= usize::MAX && self.config().overlap_tokens as int
                * 4 <= usize::MAX && chunking_ok(
                *document,
                self.config().max_tokens as int * 4,
                self.config().overlap_tokens as int * 4,
                collection_id@,
            ),
            r matches Some(x) ==> x@ == spec_chunk_with_graph(
                *document,
                collection_id@,
                self.config().max_tokens as int * 4,
                self.config().overlap_tokens as int * 4,
            ),
    {
        if (self.config.max_tokens as usize).checked_mul(4).is_none() || (self.config.overlap_tokens as usize).checked_mul(
            4,
        ).is_none() {
            return None;
        }
        let max_chars = self.max_chars();
        let overlap = self.overlap_chars();
        let ghost mx = max_chars as int;
        let ghost ovx = overlap as int;
        let ghost t = document.extracted_text@;
        let text = chars_of(document.extracted_text.as_str());
        let n: u128 = utf8_len_exec(text.as_slice());
        if n > isize::MAX as u128 || n > 3000 * 4294967294 {
            return None;
        }
        let ff: [char; 1] = ['\u{0C}'];
        assert(ff@ =~= form_feed());
        if !contains_chars(text.as_slice(), ff.as_slice()) && document.file_type == FileType::Pdf && n > 4000 {
            if !pdf_cuts_exec(text.as_slice()) {
                return None;
            }
        }
        assert(text_fits(t) && pdf_split_ok(t, document.file_type));
        let id_cs = chars_of(document.id.0.as_str());
        if !id_prefix_ok_exec(id_cs.as_slice()) {
            return None;
        }
        let nodes = build_section_tree(document);
        let sections = sections_to_stored(document.id.0.as_str(), nodes.as_slice());
        let ghost secs = doc_sections(*document);
        assert(sections_view(sections@) == secs);
        let mut k: usize = 0;
        while k < sections.len()
            invariant
                k <= sections@.len(),
                secs == sections_view(sections@),
                secs == doc_sections(*document),
                text@ == t,
                t == document.extracted_text@,
                n == utf8_len(t),
                mx == max_chars,
                ovx == overlap,
                mx == self.config().max_tokens as int * 4,
                ovx == self.config().overlap_tokens as int * 4,
                forall|j: int| 0 <= j < k ==> section_within(t, #[trigger] secs[j]) && section_split_ok(
                    section_body(t, secs[j]),
                    mx,
                    ovx,
                ) && section_offsets_fit(t, secs[j], mx, ovx),
            decreases sections@.len() - k,
        {
            let sec = &sections[k];
            assert(secs[k as int] == sec@);
            if sec.start_offset > sec.end_offset || sec.end_offset as u128 > n {
                assert(!section_within(t, secs[k as int]));
                return None;
            }
            let ia = char_at_byte(text.as_slice(), sec.start_offset as u128);
            let ib = char_at_byte(text.as_slice(), sec.end_offset as u128);
            let (a, b) = match (ia, ib) {
                (Some(x), Some(y)) => (x, y),
                _ => {
                    assert(!section_within(t, secs[k as int]));
                    return None;
                },
            };
            proof {
                if a > b {
                    lemma_byte_pos_mono(text@, b as int, a as int);
                }
            }
            let body = slice_to_vec(&text.as_slice()[a..b]);
            assert(body@ == section_body(t, sec@));
            let segs = match section_split_checked(body.as_slice(), max_chars, overlap) {
                Some(v) => v,
                None => {
                    assert(!section_split_ok(section_body(t, secs[k as int]), mx, ovx));
                    return None;
                },
            };
            if !offsets_fit_exec(&segs, sec.start_offset) {
                assert(!section_offsets_fit(t, secs[k as int], mx, ovx));
                return None;
            }
            k += 1;
        }
        let title: String = match &document.title {
            Some(tt) => tt.clone(),
            None => document.original_filename.clone(),
        };
        let mut chunks: Vec<Chunk> = Vec::new();
        let mut tables: Vec<StoredTable> = Vec::new();
        let mut entities: Vec<Entity> = Vec::new();
        let ghost empty = GraphAcc { chunks: seq![], entities: seq![], tables: seq![] };
        assert(acc_of(chunks@, entities@, tables@) == empty) by {
            assert(chunks_view(chunks@) =~= Seq::<ChunkView>::empty());
            assert(entities_view(entities@) =~= Seq::<EntityView>::empty());
            assert(stored_tables_view(tables@) =~= Seq::<StoredTableView>::empty());
        }
        table_chunks(document, collection_id, title.as_str(), &mut chunks, &mut entities, &mut tables);
        proof {
            assert forall|j: int| 0 <= j < sections@.len() implies section_within(t, #[trigger] sections@[j]@) by {
                assert(secs[j] == sections@[j]@);
            }
            assert forall|j: int| 0 <= j < sections@.len() implies section_split_ok(
                section_body(t, #[trigger] sections@[j]@),
                mx,
                ovx,
            ) by {
                assert(secs[j] == sections@[j]@);
            }
            assert forall|j: int| 0 <= j < sections@.len() implies section_offsets_fit(
                t,
                #[trigger] sections@[j]@,
                mx,
                ovx,
            ) by {
                assert(secs[j] == sections@[j]@);
            }
        }
        section_chunks(document, collection_id, title.as_str(), &sections, max_chars, overlap, &mut chunks, &mut entities, &tables);
        assert(chunks_view(chunks@) == primary_acc(*document, collection_id@, mx, ovx).chunks);
        if chunks.len() == 0 && document.extracted_text.unicode_len() > 0 {
            let segs = match section_split_checked(text.as_slice(), max_chars, overlap) {
                Some(v) => v,
                None => return None,
            };
            if !offsets_fit_exec(&segs, 0) {
                return None;
            }
        }
        assert(chunking_ok(*document, mx, ovx, collection_id@));
        Some(self.chunk_with_graph(document, collection_id))
    }
}

impl View for HierarchyChunkResult {
    type V = HierarchyChunkView;

    open spec fn view(&self) -> HierarchyChunkView {
        HierarchyChunkView {
            chunks: chunks_view(self.chunks@),
            sections: sections_view(self.sections@),
            tables: stored_tables_view(self.tables@),
            entities: entities_view(self.entities@),
            relations: relations_view(self.relations@),
        }
    }
}

} // verus!

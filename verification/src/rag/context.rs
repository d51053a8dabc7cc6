use vstd::prelude::*;
use vstd::string::*;

use crate::rag::prompt::{prefix_chars, prefix_string};
use crate::rag::types::RankedChunk;
use crate::text::{chars_of, decimal, decimal_chars, join, join_chars, string_from, utf8_len, utf8_len_exec};
use crate::offsets::{byte_slice, char_at_byte, is_boundary, lemma_byte_pos_mono};

verus! {

/// What the document store holds about a chunk's parent section.
#[derive(Clone, Debug)]
pub struct ParentFacts {
    /// The extracted text of the section's document, when that document was found.
    pub document_text: Option<String>,
    pub start_offset: usize,
    pub end_offset: usize,
    pub summary: Option<String>,
}

/// What the document store holds about a chunk's table.
#[derive(Clone, Debug)]
pub struct TableFacts {
    pub caption: Option<String>,
    pub headers: Vec<String>,
}

/// What the document store holds about a chunk's document.
#[derive(Clone, Debug)]
pub struct DocumentFacts {
    pub title: Option<String>,
    /// The first summary of the whole document, if any.
    pub summary: Option<String>,
}

/// What the store gave back for the lookups that expanding a chunk makes; each is `None`
/// where the looked-up record was not found (or the chunk names none).
#[derive(Clone, Debug)]
pub struct ExpansionFacts {
    pub parent_section: Option<ParentFacts>,
    pub previous_text: Option<String>,
    pub next_text: Option<String>,
    pub table: Option<TableFacts>,
    pub document: Option<DocumentFacts>,
    /// The chunk's rerank score printed with three decimals.
    pub score_text: Option<String>,
}

/// `[line]` when present, else nothing.
pub open spec fn opt_part(o: Option<Seq<char>>) -> Seq<Seq<char>> {
    match o {
        Some(l) => seq![l],
        None => Seq::empty(),
    }
}

/// The excerpt of a section: the document text between byte offsets `start` and
/// `min(end, start + 200)`, cut to its first 200 characters; empty when that range is not a
/// slice of the text (out of order, beyond it, or not on character boundaries).
pub open spec fn section_excerpt(text: Seq<char>, start: int, end: int) -> Seq<char> {
    let e = if end < start + 200 {
        end
    } else {
        start + 200
    };
    if 0 <= start <= e <= utf8_len(text) && is_boundary(text, start) && is_boundary(text, e) {
        let piece = byte_slice(text, start, e);
        if piece.len() <= 200 {
            piece
        } else {
            piece.take(200)
        }
    } else {
        Seq::empty()
    }
}

/// The parent-section lines: a non-empty excerpt, then the section summary.
pub open spec fn parent_parts(p: ParentFacts) -> Seq<Seq<char>> {
    let excerpt = match p.document_text {
        Some(t) => section_excerpt(t@, p.start_offset as int, p.end_offset as int),
        None => Seq::empty(),
    };
    (if excerpt.len() > 0 {
        seq!["Parent section: "@ + excerpt]
    } else {
        Seq::empty()
    }) + opt_part(
        match p.summary {
            Some(s) => Some("Section summary: "@ + s@),
            None => None,
        },
    )
}

/// Where the chunk sits: its heading path, else its section title.
pub open spec fn place_part(c: RankedChunk) -> Seq<Seq<char>> {
    match c.chunk.heading_path {
        Some(p) => seq!["Heading path: "@ + p@],
        None => match c.chunk.section_title {
            Some(t) => seq!["Section: "@ + t@],
            None => Seq::empty(),
        },
    }
}

/// The parent-section lines, where the chunk names a section that was found.
pub open spec fn parent_part(c: RankedChunk, f: ExpansionFacts) -> Seq<Seq<char>> {
    if c.chunk.parent_section_id is Some && f.parent_section is Some {
        parent_parts(f.parent_section->0)
    } else {
        Seq::empty()
    }
}

/// The line of the previous chunk, where named and found.
pub open spec fn prev_part(c: RankedChunk, f: ExpansionFacts) -> Seq<Seq<char>> {
    if c.chunk.prev_chunk_id is Some && f.previous_text is Some {
        seq!["Previous context: "@ + prefix_chars(f.previous_text->0@, 150)]
    } else {
        Seq::empty()
    }
}

/// The line of the next chunk, where named and found.
pub open spec fn next_part(c: RankedChunk, f: ExpansionFacts) -> Seq<Seq<char>> {
    if c.chunk.next_chunk_id is Some && f.next_text is Some {
        seq!["Next context: "@ + prefix_chars(f.next_text->0@, 150)]
    } else {
        Seq::empty()
    }
}

/// The table lines, where the chunk names a table that was found.
pub open spec fn table_part(c: RankedChunk, f: ExpansionFacts) -> Seq<Seq<char>> {
    if c.chunk.table_id is Some && f.table is Some {
        let t = f.table->0;
        opt_part(
            match t.caption {
                Some(x) => Some("Table: "@ + x@),
                None => None,
            },
        ) + (if t.headers@.len() > 0 {
            seq!["Headers: "@ + join(t.headers@.map_values(|h: String| h@), ", "@)]
        } else {
            Seq::empty()
        })
    } else {
        Seq::empty()
    }
}

/// The document lines, where the document was found.
pub open spec fn doc_part(f: ExpansionFacts) -> Seq<Seq<char>> {
    match f.document {
        Some(d) => opt_part(
            match d.title {
                Some(x) => Some("Document: "@ + x@),
                None => None,
            },
        ) + opt_part(
            match d.summary {
                Some(x) => Some("Document summary: "@ + x@),
                None => None,
            },
        ),
        None => Seq::empty(),
    }
}

/// The page line.
pub open spec fn page_part(c: RankedChunk) -> Seq<Seq<char>> {
    match c.chunk.page_number {
        Some(p) => seq!["Page: "@ + decimal(p as nat)],
        None => Seq::empty(),
    }
}

/// The confidence line, for a reranked chunk.
pub open spec fn conf_part(c: RankedChunk, f: ExpansionFacts) -> Seq<Seq<char>> {
    match c.rerank_score_bits {
        Some(_) => seq![
            "Confidence: rerank_score="@ + (match f.score_text {
                Some(s) => s@,
                None => Seq::empty(),
            } + ", matched="@ + c.source_type@),
        ],
        None => Seq::empty(),
    }
}

/// The lines of a chunk's expanded context, in order: where it sits (heading path, else
/// section), its parent section, the chunks before and after it (150 characters each), its
/// table caption and headers, its document's title and summary, its page and its rerank
/// confidence; each where the chunk names it and the store has it.
pub open spec fn expansion_parts(c: RankedChunk, f: ExpansionFacts) -> Seq<Seq<char>> {
    place_part(c) + parent_part(c, f) + prev_part(c, f) + next_part(c, f) + table_part(c, f)
        + doc_part(f) + page_part(c) + conf_part(c, f)
}

/// The expanded context of a chunk: its lines joined by new lines.
pub open spec fn expansion_text(c: RankedChunk, f: ExpansionFacts) -> Seq<char> {
    join(expansion_parts(c, f), "\n"@)
}

/// The tokens the expanded context is counted as: a quarter of its bytes.
pub open spec fn expansion_tokens(c: RankedChunk, f: ExpansionFacts) -> int {
    (utf8_len(expansion_text(c, f)) / 4) as u32 as int
}

/// Appends a line.
fn add_part(parts: &mut Vec<Vec<char>>, prefix: &str, value: &str)
    ensures
        final(parts)@.map_values(|v: Vec<char>| v@) == old(parts)@.map_values(|v: Vec<char>| v@).push(
            prefix@ + value@,
        ),
{
    let mut s = String::from_str(prefix);
    s.append(value);
    let ghost before = parts@.map_values(|v: Vec<char>| v@);
    parts.push(chars_of(s.as_str()));
    assert(parts@.map_values(|v: Vec<char>| v@) =~= before.push(prefix@ + value@));
}

/// Appends a line when the value is present.
fn add_opt_part(parts: &mut Vec<Vec<char>>, prefix: &str, value: &Option<String>)
    ensures
        final(parts)@.map_values(|v: Vec<char>| v@) == old(parts)@.map_values(|v: Vec<char>| v@)
            + opt_part(
            match *value {
                Some(x) => Some(prefix@ + x@),
                None => None,
            },
        ),
{
    match value {
        Some(x) => add_part(parts, prefix, x.as_str()),
        None => {
            assert(parts@.map_values(|v: Vec<char>| v@) + Seq::<Seq<char>>::empty() =~= parts@.map_values(
                |v: Vec<char>| v@,
            ));
        },
    }
}

/// The excerpt of a section (see [`section_excerpt`]).
fn section_excerpt_exec(text: &str, start: usize, end: usize) -> (r: Vec<char>)
    ensures
        r@ == section_excerpt(text@, start as int, end as int),
{
    let cs = chars_of(text);
    let n: u128 = utf8_len_exec(cs.as_slice());
    let e: usize = if start > usize::MAX - 200 || end < start + 200 {
        end
    } else {
        start + 200
    };
    if start <= e && (e as u128) <= n {
        let ia = char_at_byte(cs.as_slice(), start as u128);
        let ib = char_at_byte(cs.as_slice(), e as u128);
        match (ia, ib) {
            (Some(a), Some(b)) => {
                proof {
                    if a > b {
                        lemma_byte_pos_mono(cs@, b as int, a as int);
                    }
                }
                let piece = crate::text::slice_to_vec(&cs.as_slice()[a..b]);
                if piece.len() <= 200 {
                    piece
                } else {
                    crate::text::slice_to_vec(&piece.as_slice()[0..200])
                }
            },
            _ => Vec::new(),
        }
    } else {
        Vec::new()
    }
}

/// The views of lines.
pub open spec fn lines_view(v: Seq<Vec<char>>) -> Seq<Seq<char>> {
    v.map_values(|x: Vec<char>| x@)
}

fn add_place(parts: &mut Vec<Vec<char>>, chunk: &RankedChunk)
    ensures
        lines_view(final(parts)@) == lines_view(old(parts)@) + place_part(*chunk),
{
    let ghost p0 = lines_view(parts@);
    match &chunk.chunk.heading_path {
        Some(p) => add_part(parts, "Heading path: ", p.as_str()),
        None => add_opt_part(parts, "Section: ", &chunk.chunk.section_title),
    }
    assert(lines_view(parts@) =~= p0 + place_part(*chunk));
}

fn add_parent(parts: &mut Vec<Vec<char>>, chunk: &RankedChunk, facts: &ExpansionFacts)
    ensures
        lines_view(final(parts)@) == lines_view(old(parts)@) + parent_part(*chunk, *facts),
{
    let ghost p1 = lines_view(parts@);
    if chunk.chunk.parent_section_id.is_some() {
        match &facts.parent_section {
            Some(pf) => {
                let excerpt: Vec<char> = match &pf.document_text {
                    Some(t) => section_excerpt_exec(t.as_str(), pf.start_offset, pf.end_offset),
                    None => Vec::new(),
                };
                if excerpt.len() > 0 {
                    add_part(parts, "Parent section: ", string_from(excerpt.as_slice()).as_str());
                }
                let ghost mid = lines_view(parts@);
                add_opt_part(parts, "Section summary: ", &pf.summary);
                proof {
                    if excerpt@.len() > 0 {
                        assert(mid == p1 + seq!["Parent section: "@ + excerpt@]);
                    } else {
                        assert(mid =~= p1 + Seq::<Seq<char>>::empty());
                    }
                }
                assert(lines_view(parts@) =~= p1 + parent_parts(*pf));
                return;
            },
            None => {},
        }
    }
    assert(lines_view(parts@) =~= p1 + parent_part(*chunk, *facts));
}

fn add_neighbors(parts: &mut Vec<Vec<char>>, chunk: &RankedChunk, facts: &ExpansionFacts)
    ensures
        lines_view(final(parts)@) == lines_view(old(parts)@) + prev_part(*chunk, *facts)
            + next_part(*chunk, *facts),
{
    let ghost p2 = lines_view(parts@);
    if chunk.chunk.prev_chunk_id.is_some() {
        match &facts.previous_text {
            Some(t) => add_part(parts, "Previous context: ", prefix_string(t.as_str(), 150).as_str()),
            None => {},
        }
    }
    let ghost p3 = lines_view(parts@);
    assert(p3 =~= p2 + prev_part(*chunk, *facts));
    if chunk.chunk.next_chunk_id.is_some() {
        match &facts.next_text {
            Some(t) => add_part(parts, "Next context: ", prefix_string(t.as_str(), 150).as_str()),
            None => {},
        }
    }
    assert(lines_view(parts@) =~= p3 + next_part(*chunk, *facts));
}

fn add_table(parts: &mut Vec<Vec<char>>, chunk: &RankedChunk, facts: &ExpansionFacts)
    ensures
        lines_view(final(parts)@) == lines_view(old(parts)@) + table_part(*chunk, *facts),
{
    let ghost p4 = lines_view(parts@);
    if chunk.chunk.table_id.is_some() {
        match &facts.table {
            Some(t) => {
                add_opt_part(parts, "Table: ", &t.caption);
                let ghost mid = lines_view(parts@);
                if t.headers.len() > 0 {
                    let mut hs: Vec<Vec<char>> = Vec::new();
                    let mut k: usize = 0;
                    while k < t.headers.len()
                        invariant
                            k <= t.headers@.len(),
                            lines_view(hs@) == t.headers@.map_values(|h: String| h@).take(k as int),
                        decreases t.headers@.len() - k,
                    {
                        let ghost before = lines_view(hs@);
                        hs.push(chars_of(t.headers[k].as_str()));
                        assert(lines_view(hs@) =~= before.push(t.headers@[k as int]@));
                        assert(t.headers@.map_values(|h: String| h@).take(k as int + 1) =~= t.headers@.map_values(
                            |h: String| h@,
                        ).take(k as int).push(t.headers@[k as int]@));
                        k += 1;
                    }
                    assert(t.headers@.map_values(|h: String| h@).take(t.headers@.len() as int) =~= t.headers@.map_values(
                        |h: String| h@,
                    ));
                    let sep = chars_of(", ");
                    let joined = join_chars(hs.as_slice(), sep.as_slice());
                    add_part(parts, "Headers: ", string_from(joined.as_slice()).as_str());
                } else {
                    assert(lines_view(parts@) =~= mid + Seq::<Seq<char>>::empty());
                }
                assert(lines_view(parts@) =~= p4 + table_part(*chunk, *facts));
                return;
            },
            None => {},
        }
    }
    assert(lines_view(parts@) =~= p4 + table_part(*chunk, *facts));
}

fn add_tail(parts: &mut Vec<Vec<char>>, chunk: &RankedChunk, facts: &ExpansionFacts)
    ensures
        lines_view(final(parts)@) == lines_view(old(parts)@) + doc_part(*facts) + page_part(*chunk)
            + conf_part(*chunk, *facts),
{
    let ghost p5 = lines_view(parts@);
    match &facts.document {
        Some(d) => {
            add_opt_part(parts, "Document: ", &d.title);
            add_opt_part(parts, "Document summary: ", &d.summary);
        },
        None => {},
    }
    let ghost p6 = lines_view(parts@);
    assert(p6 =~= p5 + doc_part(*facts));
    match chunk.chunk.page_number {
        Some(p) => add_part(parts, "Page: ", string_from(decimal_chars(p as u64).as_slice()).as_str()),
        None => {},
    }
    let ghost p7 = lines_view(parts@);
    assert(p7 =~= p6 + page_part(*chunk));
    match chunk.rerank_score_bits {
        Some(_) => {
            let mut line = String::new();
            match &facts.score_text {
                Some(s) => line.append(s.as_str()),
                None => {},
            }
            line.append(", matched=");
            line.append(chunk.source_type.as_str());
            add_part(parts, "Confidence: rerank_score=", line.as_str());
        },
        None => {},
    }
    assert(lines_view(parts@) =~= p7 + conf_part(*chunk, *facts));
}

/// The lines of a chunk's expanded context (see [`expansion_parts`]).
pub fn expansion_lines(chunk: &RankedChunk, facts: &ExpansionFacts) -> (r: Vec<Vec<char>>)
    ensures
        r@.map_values(|v: Vec<char>| v@) == expansion_parts(*chunk, *facts),
{
    let mut parts: Vec<Vec<char>> = Vec::new();
    assert(lines_view(parts@) =~= Seq::<Seq<char>>::empty());
    add_place(&mut parts, chunk);
    add_parent(&mut parts, chunk, facts);
    add_neighbors(&mut parts, chunk, facts);
    add_table(&mut parts, chunk, facts);
    add_tail(&mut parts, chunk, facts);
    assert(lines_view(parts@) =~= expansion_parts(*chunk, *facts));
    parts
}

/// `b` is `a` with its expanded context set to `ctx`.
pub open spec fn with_context(a: RankedChunk, b: RankedChunk, ctx: Option<Seq<char>>) -> bool {
    &&& b.chunk == a.chunk
    &&& b.score_bits == a.score_bits
    &&& b.source_type == a.source_type
    &&& b.source_number == a.source_number
    &&& b.rerank_score_bits == a.rerank_score_bits
    &&& crate::documents::graph_types::opt_view(b.expanded_context) == ctx
}

/// Expands one chunk with the context around it, `total` tokens of the budget being spent
/// already: once the budget is spent nothing more is expanded; otherwise the chunk takes its
/// expanded context when the context's tokens still fit in `budget`, and is left as it was if
/// not. Returns the tokens spent afterwards.
pub fn expand_chunk(chunk: &mut RankedChunk, facts: &ExpansionFacts, total: u32, budget: u32) -> (r: u32)
    ensures
        ({
            let tokens = expansion_tokens(*old(chunk), *facts);
            if total < budget && total + tokens <= budget {
                &&& with_context(*old(chunk), *final(chunk), Some(expansion_text(*old(chunk), *facts)))
                &&& r == total + tokens
            } else {
                &&& *final(chunk) == *old(chunk)
                &&& r == total
            }
        }),
{
    if total >= budget {
        return total;
    }
    let parts = expansion_lines(chunk, facts);
    let nl = chars_of("\n");
    let joined = join_chars(parts.as_slice(), nl.as_slice());
    let n = utf8_len_exec(joined.as_slice());
    #[verifier::truncate]
    let tokens = (n / 4) as u32;
    if total as u64 + tokens as u64 <= budget as u64 {
        chunk.expanded_context = Some(string_from(joined.as_slice()));
        total + tokens
    } else {
        total
    }
}

/// The tokens spent before the `i`-th chunk when expanding chunks in order.
pub open spec fn spent_before(cs: Seq<RankedChunk>, fs: Seq<ExpansionFacts>, budget: u32, i: int) -> int
    decreases i,
{
    if i <= 0 {
        0
    } else {
        let t = spent_before(cs, fs, budget, i - 1);
        let tokens = expansion_tokens(cs[i - 1], fs[i - 1]);
        if t < budget && t + tokens <= budget {
            t + tokens
        } else {
            t
        }
    }
}

proof fn lemma_spent_before(cs: Seq<RankedChunk>, fs: Seq<ExpansionFacts>, budget: u32, i: int)
    ensures
        0 <= spent_before(cs, fs, budget, i) <= budget,
    decreases i,
{
    if i > 0 {
        lemma_spent_before(cs, fs, budget, i - 1);
        assert(expansion_tokens(cs[i - 1], fs[i - 1]) >= 0);
    }
}

/// Expands chunks in order within a token budget, with what the store holds about each
/// (`facts[i]` for `chunks[i]`): a chunk takes its expanded context when the budget is not
/// yet spent and its context's tokens fit in what is left; once the budget is spent the
/// rest stay as they were.
pub fn expand_chunks(chunks: &mut Vec<RankedChunk>, facts: &Vec<ExpansionFacts>, budget: u32)
    requires
        old(chunks)@.len() == facts@.len(),
    ensures
        final(chunks)@.len() == old(chunks)@.len(),
        forall|i: int|
            0 <= i < old(chunks)@.len() ==> {
                let t = spent_before(old(chunks)@, facts@, budget, i);
                let tokens = expansion_tokens(old(chunks)@[i], facts@[i]);
                if t < budget && t + tokens <= budget {
                    with_context(old(chunks)@[i], #[trigger] final(chunks)@[i], Some(expansion_text(old(chunks)@[i], facts@[i])))
                } else {
                    final(chunks)@[i] == old(chunks)@[i]
                }
            },
{
    let ghost orig = chunks@;
    let n = chunks.len();
    let mut total: u32 = 0;
    let mut i: usize = 0;
    while i < n
        invariant
            i <= n,
            n == orig.len(),
            orig.len() == facts@.len(),
            chunks@.len() == n,
            total == spent_before(orig, facts@, budget, i as int),
            forall|j: int| i <= j < n ==> chunks@[j] == orig[j],
            forall|j: int|
                0 <= j < i ==> {
                    let t = spent_before(orig, facts@, budget, j);
                    let tokens = expansion_tokens(orig[j], facts@[j]);
                    if t < budget && t + tokens <= budget {
                        with_context(orig[j], #[trigger] chunks@[j], Some(expansion_text(orig[j], facts@[j])))
                    } else {
                        chunks@[j] == orig[j]
                    }
                },
        decreases n - i,
    {
        proof {
            lemma_spent_before(orig, facts@, budget, i as int);
        }
        let ghost before = chunks@;
        let mut c = chunks.remove(i);
        assert(c == before[i as int]);
        let next = expand_chunk(&mut c, &facts[i], total, budget);
        chunks.insert(i, c);
        assert forall|j: int| 0 <= j < n && j != i implies chunks@[j] == before[j] by {
            if j < i {
                assert(chunks@[j] == before.remove(i as int)[j]);
            } else {
                assert(chunks@[j] == before.remove(i as int)[j - 1]);
            }
        }
        total = next;
        i += 1;
    }
}

} // verus!

use vstd::prelude::*;
use vstd::string::*;

use crate::chunking::hierarchy::{chunk_id_exec, chunk_id_of, is_blank};
use crate::chunking::recursive::{split_ok, split_rec, split_recursive, try_split_recursive};
use crate::chunking::types::{Chunk, ChunkView, chunks_view};
use crate::chunking::util::{estimate_tokens, spec_estimate_tokens};
use crate::config::settings::ChunkingConfig;
use crate::documents::types::Document;
use crate::ids::{hash_text, spec_hash_text, ChunkId, CollectionId, DocumentId};
use crate::text::{bytes_from, chars_of, string_from, trim, utf8_len, utf8_len_exec};

verus! {

/// Cuts documents into chunks by headings, paragraphs, sentences and windows, without
/// regard to the section tree.
pub struct RecursiveChunker {
    pub config: ChunkingConfig,
}

/// The chunk for a segment starting at byte offset `offset`, numbered `index`.
pub open spec fn segment_chunk(d: Document, coll: Seq<char>, seg: Seq<char>, offset: usize, index: int) -> ChunkView {
    let ch = spec_hash_text(seg);
    ChunkView {
        id: chunk_id_of(d.content_hash@, ch),
        document_id: d.id.0@,
        collection_id: coll,
        text: seg,
        start_offset: offset,
        end_offset: (offset + utf8_len(seg)) as usize,
        page_number: None,
        section_title: None,
        row_sheet_info: None,
        source_filename: d.original_filename@,
        content_hash: ch,
        token_count: spec_estimate_tokens(utf8_len(seg)),
        parent_section_id: None,
        heading_path: None,
        chunk_index: index as u32,
        prev_chunk_id: None,
        next_chunk_id: None,
        contextual_text: None,
        table_id: None,
        entity_tokens: None,
    }
}

/// The chunks of the segments from the `j`-th on, the `j`-th starting at byte offset
/// `offset`, after `acc`: blank segments make no chunk but still advance the offset.
pub open spec fn segment_chunks_from(
    d: Document,
    coll: Seq<char>,
    segs: Seq<Seq<char>>,
    j: int,
    offset: usize,
    acc: Seq<ChunkView>,
) -> Seq<ChunkView>
    decreases segs.len() - j,
{
    if j < 0 || j >= segs.len() {
        acc
    } else {
        let seg = segs[j];
        let next = (offset + utf8_len(seg)) as usize;
        if trim(seg).len() == 0 {
            segment_chunks_from(d, coll, segs, j + 1, next, acc)
        } else {
            segment_chunks_from(d, coll, segs, j + 1, next, acc.push(segment_chunk(d, coll, seg, offset, acc.len() as int)))
        }
    }
}

/// The chunks of a document: its text split recursively at four bytes per token, each
/// non-blank segment a chunk at its byte offset.
pub open spec fn spec_recursive_chunks(d: Document, coll: Seq<char>, max_tokens: u32) -> Seq<ChunkView> {
    segment_chunks_from(d, coll, split_rec(d.extracted_text@, max_tokens * 4), 0, 0, Seq::empty())
}

proof fn lemma_bytes_from_tail(ps: Seq<Seq<char>>, i: int, j: int)
    requires
        0 <= i <= j,
    ensures
        bytes_from(ps, i) >= bytes_from(ps, j),
    decreases j - i,
{
    if i < j && i < ps.len() {
        lemma_bytes_from_tail(ps, i + 1, j);
    } else if i < j {
        lemma_bytes_from_tail(ps, i + 1, j);
    }
}

impl RecursiveChunker {
    /// A chunker with the given sizes.
    pub fn new(config: ChunkingConfig) -> (r: RecursiveChunker)
        ensures
            r.config == config,
    {
        RecursiveChunker { config }
    }

    /// A rough token count: a quarter of the UTF-8 length, at least one.
    pub fn estimate_tokens(text: &str) -> (r: u32)
        ensures
            r == spec_estimate_tokens(utf8_len(text@)),
    {
        estimate_tokens(text)
    }

    /// The chunks of a document (see [`spec_recursive_chunks`]); the text must split without
    /// cutting inside a character (see [`split_ok`]) and the segments' offsets must stay
    /// within `usize` (adding past it would overflow).
    pub fn chunk(&self, document: &Document, collection_id: &str) -> (r: Vec<Chunk>)
        requires
            self.config.max_tokens as int * 4 <= usize::MAX,
            split_ok(document.extracted_text@, self.config.max_tokens as int * 4),
            bytes_from(split_rec(document.extracted_text@, self.config.max_tokens as int * 4), 0) <= usize::MAX,
        ensures
            chunks_view(r@) == spec_recursive_chunks(*document, collection_id@, self.config.max_tokens),
    {
        let max_chars = self.config.max_tokens as usize * 4;
        let segments = split_recursive(document.extracted_text.as_str(), max_chars);
        let ghost sg = segments@.map_values(|x: String| x@);
        let ghost target = segment_chunks_from(*document, collection_id@, sg, 0, 0, Seq::empty());
        let mut chunks: Vec<Chunk> = Vec::new();
        let mut offset: usize = 0;
        let mut j: usize = 0;
        assert(chunks_view(chunks@) =~= Seq::<ChunkView>::empty());
        while j < segments.len()
            invariant
                j <= segments@.len(),
                sg == segments@.map_values(|x: String| x@),
                segment_chunks_from(*document, collection_id@, sg, j as int, offset, chunks_view(chunks@)) == target,
                offset + bytes_from(sg, j as int) <= usize::MAX,
            decreases segments@.len() - j,
        {
            let seg = &segments[j];
            assert(sg[j as int] == seg@);
            let cs = chars_of(seg.as_str());
            let nb = utf8_len_exec(cs.as_slice());
            assert(bytes_from(sg, j as int) == utf8_len(sg[j as int]) + bytes_from(sg, j + 1));
            let nbu = nb as usize;
            let next = offset + nbu;
            if !is_blank(cs.as_slice()) {
                let content_hash = hash_text(seg.as_str());
                let id = chunk_id_exec(document.content_hash.as_str(), content_hash.as_str());
                let index = chunks.len() as u32;
                let c = Chunk {
                    id: ChunkId(id),
                    document_id: DocumentId(document.id.0.clone()),
                    collection_id: CollectionId(String::from_str(collection_id)),
                    text: seg.clone(),
                    start_offset: offset,
                    end_offset: next,
                    page_number: None,
                    section_title: None,
                    row_sheet_info: None,
                    source_filename: document.original_filename.clone(),
                    content_hash,
                    token_count: estimate_tokens(seg.as_str()),
                    parent_section_id: None,
                    heading_path: None,
                    chunk_index: index,
                    prev_chunk_id: None,
                    next_chunk_id: None,
                    contextual_text: None,
                    table_id: None,
                    entity_tokens: None,
                };
                let ghost before = chunks_view(chunks@);
                assert(c@ == segment_chunk(*document, collection_id@, seg@, offset, before.len() as int));
                chunks.push(c);
                assert(chunks_view(chunks@) =~= before.push(c@));
            }
            offset = next;
            j += 1;
        }
        chunks
    }

    /// The chunks of a document where it can be chunked with this chunker's size (see
    /// [`RecursiveChunker::chunk`]); `None` where the size does not fit in `usize`, splitting
    /// would cut inside a character or not end, or the offsets would overflow.
    pub fn try_chunk(&self, document: &Document, collection_id: &str) -> (r: Option<Vec<Chunk>>)
        ensures
            r is Some <==> self.config.max_tokens as int * 4 <= usize::MAX && split_ok(
                document.extracted_text@,
                self.config.max_tokens as int * 4,
            ) && bytes_from(split_rec(document.extracted_text@, self.config.max_tokens as int * 4), 0)
                <= usize::MAX,
            r matches Some(v) ==> chunks_view(v@) == spec_recursive_chunks(
                *document,
                collection_id@,
                self.config.max_tokens,
            ),
    {
        let max_chars = match (self.config.max_tokens as usize).checked_mul(4) {
            Some(m) => m,
            None => return None,
        };
        let segments = match try_split_recursive(document.extracted_text.as_str(), max_chars) {
            Some(v) => v,
            None => return None,
        };
        let ghost sg = segments@.map_values(|x: String| x@);
        assert(sg == split_rec(document.extracted_text@, self.config.max_tokens as int * 4));
        let mut total: u128 = 0;
        let mut j: usize = segments.len();
        assert(bytes_from(sg, j as int) == 0);
        while j > 0
            invariant
                j <= segments@.len(),
                sg == segments@.map_values(|x: String| x@),
                total == bytes_from(sg, j as int),
                total <= usize::MAX,
                sg == split_rec(document.extracted_text@, self.config.max_tokens as int * 4),
                self.config.max_tokens as int * 4 <= usize::MAX,
                split_ok(document.extracted_text@, self.config.max_tokens as int * 4),
            decreases j,
        {
            j -= 1;
            assert(sg[j as int] == segments@[j as int]@);
            let cs = chars_of(segments[j].as_str());
            let nb = utf8_len_exec(cs.as_slice());
            proof {
                crate::offsets::lemma_utf8_len_bounds(cs@);
            }
            assert(bytes_from(sg, j as int) == utf8_len(sg[j as int]) + bytes_from(sg, j + 1));
            if nb > usize::MAX as u128 - total {
                proof {
                    lemma_bytes_from_tail(sg, 0, j as int);
                    assert(nb == utf8_len(sg[j as int]));
                    assert(bytes_from(sg, j as int) > usize::MAX);
                    assert(bytes_from(sg, 0) > usize::MAX);
                }
                return None;
            }
            total = total + nb;
        }
        Some(self.chunk(document, collection_id))
    }
}

} // verus!

use vstd::prelude::*;
use vstd::string::*;

use crate::documents::graph_types::opt_view;
use crate::ids::{ChunkId, CollectionId, DocumentId};

verus! {

/// A piece of a document's text with its position and context.
#[derive(Clone, Debug)]
pub struct Chunk {
    pub id: ChunkId,
    pub document_id: DocumentId,
    pub collection_id: CollectionId,
    pub text: String,
    pub start_offset: usize,
    pub end_offset: usize,
    pub page_number: Option<u32>,
    pub section_title: Option<String>,
    pub row_sheet_info: Option<String>,
    pub source_filename: String,
    pub content_hash: String,
    pub token_count: u32,
    pub parent_section_id: Option<String>,
    pub heading_path: Option<String>,
    pub chunk_index: u32,
    pub prev_chunk_id: Option<String>,
    pub next_chunk_id: Option<String>,
    pub contextual_text: Option<String>,
    pub table_id: Option<String>,
    pub entity_tokens: Option<String>,
}

/// The mathematical value of a [`Chunk`].
pub struct ChunkView {
    pub id: Seq<char>,
    pub document_id: Seq<char>,
    pub collection_id: Seq<char>,
    pub text: Seq<char>,
    pub start_offset: usize,
    pub end_offset: usize,
    pub page_number: Option<u32>,
    pub section_title: Option<Seq<char>>,
    pub row_sheet_info: Option<Seq<char>>,
    pub source_filename: Seq<char>,
    pub content_hash: Seq<char>,
    pub token_count: u32,
    pub parent_section_id: Option<Seq<char>>,
    pub heading_path: Option<Seq<char>>,
    pub chunk_index: u32,
    pub prev_chunk_id: Option<Seq<char>>,
    pub next_chunk_id: Option<Seq<char>>,
    pub contextual_text: Option<Seq<char>>,
    pub table_id: Option<Seq<char>>,
    pub entity_tokens: Option<Seq<char>>,
}

impl View for Chunk {
    type V = ChunkView;

    open spec fn view(&self) -> ChunkView {
        ChunkView {
            id: self.id.0@,
            document_id: self.document_id.0@,
            collection_id: self.collection_id.0@,
            text: self.text@,
            start_offset: self.start_offset,
            end_offset: self.end_offset,
            page_number: self.page_number,
            section_title: opt_view(self.section_title),
            row_sheet_info: opt_view(self.row_sheet_info),
            source_filename: self.source_filename@,
            content_hash: self.content_hash@,
            token_count: self.token_count,
            parent_section_id: opt_view(self.parent_section_id),
            heading_path: opt_view(self.heading_path),
            chunk_index: self.chunk_index,
            prev_chunk_id: opt_view(self.prev_chunk_id),
            next_chunk_id: opt_view(self.next_chunk_id),
            contextual_text: opt_view(self.contextual_text),
            table_id: opt_view(self.table_id),
            entity_tokens: opt_view(self.entity_tokens),
        }
    }
}

/// The views of chunks.
pub open spec fn chunks_view(v: Seq<Chunk>) -> Seq<ChunkView> {
    v.map_values(|c: Chunk| c@)
}

/// The section label a chunk is given in its contextual text: its heading path, else its
/// section title, else `General`.
pub open spec fn section_label(heading_path: Option<String>, section_title: Option<String>) -> Seq<char> {
    section_label_of(opt_view(heading_path), opt_view(section_title))
}

/// The section label for an optional heading path and section title.
pub open spec fn section_label_of(heading_path: Option<Seq<char>>, section_title: Option<Seq<char>>) -> Seq<char> {
    match heading_path {
        Some(p) => p,
        None => match section_title {
            Some(t) => t,
            None => "General"@,
        },
    }
}

/// `Document: {title}. Section: {section}. {text}`.
pub open spec fn contextual_text(doc_title: Seq<char>, section: Seq<char>, text: Seq<char>) -> Seq<char> {
    "Document: "@ + doc_title + ". Section: "@ + section + ". "@ + text
}

impl Chunk {
    /// The chunk's text prefixed with its document title and section.
    pub fn build_contextual_text(&self, doc_title: &str) -> (r: String)
        ensures
            r@ == contextual_text(
                doc_title@,
                section_label(self.heading_path, self.section_title),
                self.text@,
            ),
    {
        let section: &str = match &self.heading_path {
            Some(p) => p.as_str(),
            None => match &self.section_title {
                Some(t) => t.as_str(),
                None => "General",
            },
        };
        let mut out = String::from_str("Document: ");
        out.append(doc_title);
        out.append(". Section: ");
        out.append(section);
        out.append(". ");
        out.append(self.text.as_str());
        out
    }
}

/// The chunks a chunker produced.
#[derive(Clone, Debug)]
pub struct ChunkingOutput {
    pub chunks: Vec<Chunk>,
}

} // verus!

use vstd::prelude::*;

use crate::documents::graph_types::opt_view;

verus! {

/// One numbered source as it is shown to the model.
#[derive(Clone, Debug)]
pub struct SourceBlock {
    pub number: u32,
    pub filename: String,
    pub page_number: Option<u32>,
    pub section_title: Option<String>,
    pub heading_path: Option<String>,
    pub table_caption: Option<String>,
    pub neighbor_context: Option<String>,
    pub confidence: Option<String>,
    pub preview: String,
}

/// The mathematical value of a [`SourceBlock`].
pub struct SourceBlockView {
    pub number: u32,
    pub filename: Seq<char>,
    pub page_number: Option<u32>,
    pub section_title: Option<Seq<char>>,
    pub heading_path: Option<Seq<char>>,
    pub table_caption: Option<Seq<char>>,
    pub neighbor_context: Option<Seq<char>>,
    pub confidence: Option<Seq<char>>,
    pub preview: Seq<char>,
}

impl View for SourceBlock {
    type V = SourceBlockView;

    open spec fn view(&self) -> SourceBlockView {
        SourceBlockView {
            number: self.number,
            filename: self.filename@,
            page_number: self.page_number,
            section_title: opt_view(self.section_title),
            heading_path: opt_view(self.heading_path),
            table_caption: opt_view(self.table_caption),
            neighbor_context: opt_view(self.neighbor_context),
            confidence: opt_view(self.confidence),
            preview: self.preview@,
        }
    }
}

/// A source that an answer may cite as `[Source N]`. The retrieval score is carried as the
/// bit pattern of its 64-bit float.
#[derive(Clone, Debug)]
pub struct Citation {
    pub source_number: u32,
    pub document_id: String,
    pub original_filename: String,
    pub page_number: Option<u32>,
    pub section_title: Option<String>,
    pub chunk_preview: String,
    pub score_bits: u64,
    pub collection_name: String,
}

/// What parsing the citation markers of an answer found.
#[derive(Clone, Debug)]
pub struct CitationParseResult {
    pub resolved: Vec<Citation>,
    pub dangling: Vec<u32>,
    pub uncited_warning: bool,
}

} // verus!

use vstd::prelude::*;

use crate::documents::types::str_eq;


verus! {

/// The characters of an optional string.
pub open spec fn opt_view(o: Option<String>) -> Option<Seq<char>> {
    match o {
        Some(s) => Some(s@),
        None => None,
    }
}

/// The characters of each string.
pub open spec fn strs_view(v: Seq<String>) -> Seq<Seq<char>> {
    v.map_values(|s: String| s@)
}

/// A section of a document, as stored.
#[derive(Clone, Debug)]
pub struct Section {
    pub id: String,
    pub document_id: String,
    pub parent_section_id: Option<String>,
    pub title: String,
    pub level: u32,
    pub heading_path: String,
    pub start_offset: usize,
    pub end_offset: usize,
    pub page_start: Option<u32>,
    pub page_end: Option<u32>,
    pub summary: Option<String>,
}

/// The mathematical value of a [`Section`].
pub struct SectionView {
    pub id: Seq<char>,
    pub document_id: Seq<char>,
    pub parent_section_id: Option<Seq<char>>,
    pub title: Seq<char>,
    pub level: u32,
    pub heading_path: Seq<char>,
    pub start_offset: usize,
    pub end_offset: usize,
    pub page_start: Option<u32>,
    pub page_end: Option<u32>,
    pub summary: Option<Seq<char>>,
}

impl View for Section {
    type V = SectionView;

    open spec fn view(&self) -> SectionView {
        SectionView {
            id: self.id@,
            document_id: self.document_id@,
            parent_section_id: opt_view(self.parent_section_id),
            title: self.title@,
            level: self.level,
            heading_path: self.heading_path@,
            start_offset: self.start_offset,
            end_offset: self.end_offset,
            page_start: self.page_start,
            page_end: self.page_end,
            summary: opt_view(self.summary),
        }
    }
}

/// A table of a document, as stored.
#[derive(Clone, Debug)]
pub struct StoredTable {
    pub id: String,
    pub document_id: String,
    pub section_id: Option<String>,
    pub caption: Option<String>,
    pub headers: Vec<String>,
    pub row_data: Vec<Vec<String>>,
}

/// The mathematical value of a [`StoredTable`].
pub struct StoredTableView {
    pub id: Seq<char>,
    pub document_id: Seq<char>,
    pub section_id: Option<Seq<char>>,
    pub caption: Option<Seq<char>>,
    pub headers: Seq<Seq<char>>,
    pub row_data: Seq<Seq<Seq<char>>>,
}

impl View for StoredTable {
    type V = StoredTableView;

    open spec fn view(&self) -> StoredTableView {
        StoredTableView {
            id: self.id@,
            document_id: self.document_id@,
            section_id: opt_view(self.section_id),
            caption: opt_view(self.caption),
            headers: self.headers@.map_values(|h: String| h@),
            row_data: self.row_data@.map_values(|r: Vec<String>| r@.map_values(|c: String| c@)),
        }
    }
}

/// What kind of thing an entity names.
#[derive(Clone, Copy, Debug, PartialEq, Eq, Structural)]
pub enum EntityKind {
    Acronym,
    PartNumber,
    FieldId,
    ErrorCode,
    Other,
}

/// A named thing found in a chunk.
#[derive(Clone, Debug)]
pub struct Entity {
    pub id: String,
    pub document_id: String,
    pub chunk_id: Option<String>,
    pub kind: EntityKind,
    pub value: String,
}

/// The mathematical value of an [`Entity`].
pub struct EntityView {
    pub id: Seq<char>,
    pub document_id: Seq<char>,
    pub chunk_id: Option<Seq<char>>,
    pub kind: EntityKind,
    pub value: Seq<char>,
}

impl View for Entity {
    type V = EntityView;

    open spec fn view(&self) -> EntityView {
        EntityView {
            id: self.id@,
            document_id: self.document_id@,
            chunk_id: opt_view(self.chunk_id),
            kind: self.kind,
            value: self.value@,
        }
    }
}

/// How two chunks (or a chunk and a section) relate.
#[derive(Clone, Copy, Debug, PartialEq, Eq, Structural)]
pub enum RelationKind {
    Neighbor,
    ParentSection,
    SameTable,
    CitationOf,
    SharedEntity,
}

/// A directed relation from a chunk.
#[derive(Clone, Debug)]
pub struct ChunkRelation {
    pub from_chunk_id: String,
    pub to_chunk_id: String,
    pub kind: RelationKind,
}

/// The mathematical value of a [`ChunkRelation`].
pub struct ChunkRelationView {
    pub from_chunk_id: Seq<char>,
    pub to_chunk_id: Seq<char>,
    pub kind: RelationKind,
}

impl View for ChunkRelation {
    type V = ChunkRelationView;

    open spec fn view(&self) -> ChunkRelationView {
        ChunkRelationView {
            from_chunk_id: self.from_chunk_id@,
            to_chunk_id: self.to_chunk_id@,
            kind: self.kind,
        }
    }
}

/// Whether a summary covers a document or a section.
#[derive(Clone, Copy, Debug, PartialEq, Eq, Structural)]
pub enum SummaryLevel {
    Document,
    Section,
}

/// A summary of a document or of one of its sections.
#[derive(Clone, Debug)]
pub struct DocumentSummary {
    pub id: String,
    pub document_id: String,
    pub section_id: Option<String>,
    pub level: SummaryLevel,
    pub summary: String,
}

/// The stored name of an entity kind.
pub open spec fn spec_entity_kind_str(k: EntityKind) -> Seq<char> {
    match k {
        EntityKind::Acronym => "acronym"@,
        EntityKind::PartNumber => "part_number"@,
        EntityKind::FieldId => "field_id"@,
        EntityKind::ErrorCode => "error_code"@,
        EntityKind::Other => "other"@,
    }
}

/// The stored name of an entity kind.
pub fn entity_kind_str(kind: &EntityKind) -> (r: &'static str)
    ensures
        r@ == spec_entity_kind_str(*kind),
{
    match kind {
        EntityKind::Acronym => "acronym",
        EntityKind::PartNumber => "part_number",
        EntityKind::FieldId => "field_id",
        EntityKind::ErrorCode => "error_code",
        EntityKind::Other => "other",
    }
}

/// The stored name of a relation kind.
pub open spec fn spec_relation_kind_str(k: RelationKind) -> Seq<char> {
    match k {
        RelationKind::Neighbor => "neighbor"@,
        RelationKind::ParentSection => "parent_section"@,
        RelationKind::SameTable => "same_table"@,
        RelationKind::CitationOf => "citation_of"@,
        RelationKind::SharedEntity => "shared_entity"@,
    }
}

/// The stored name of a relation kind.
pub fn relation_kind_str(kind: &RelationKind) -> (r: &'static str)
    ensures
        r@ == spec_relation_kind_str(*kind),
{
    match kind {
        RelationKind::Neighbor => "neighbor",
        RelationKind::ParentSection => "parent_section",
        RelationKind::SameTable => "same_table",
        RelationKind::CitationOf => "citation_of",
        RelationKind::SharedEntity => "shared_entity",
    }
}

/// The stored name of a summary level.
pub open spec fn spec_summary_level_str(l: SummaryLevel) -> Seq<char> {
    match l {
        SummaryLevel::Document => "document"@,
        SummaryLevel::Section => "section"@,
    }
}

/// The stored name of a summary level.
pub fn summary_level_str(level: &SummaryLevel) -> (r: &'static str)
    ensures
        r@ == spec_summary_level_str(*level),
{
    match level {
        SummaryLevel::Document => "document",
        SummaryLevel::Section => "section",
    }
}

/// The entity kind a stored name reads back as: the kind of that name, other for any other
/// name.
pub open spec fn spec_stored_entity_kind(s: Seq<char>) -> EntityKind {
    if s == "acronym"@ {
        EntityKind::Acronym
    } else if s == "part_number"@ {
        EntityKind::PartNumber
    } else if s == "field_id"@ {
        EntityKind::FieldId
    } else if s == "error_code"@ {
        EntityKind::ErrorCode
    } else {
        EntityKind::Other
    }
}

/// The entity kind a stored name reads back as (other for an unknown name).
pub fn stored_entity_kind(s: &str) -> (r: EntityKind)
    ensures
        r == spec_stored_entity_kind(s@),
{
    if str_eq(s, "acronym") {
        EntityKind::Acronym
    } else if str_eq(s, "part_number") {
        EntityKind::PartNumber
    } else if str_eq(s, "field_id") {
        EntityKind::FieldId
    } else if str_eq(s, "error_code") {
        EntityKind::ErrorCode
    } else {
        EntityKind::Other
    }
}

/// The summary level a stored name reads back as: a section summary for `section`, a
/// document summary for any other name.
pub open spec fn spec_stored_summary_level(s: Seq<char>) -> SummaryLevel {
    if s == "section"@ {
        SummaryLevel::Section
    } else {
        SummaryLevel::Document
    }
}

/// The summary level a stored name reads back as (document for any name but `section`).
pub fn stored_summary_level(s: &str) -> (r: SummaryLevel)
    ensures
        r == spec_stored_summary_level(s@),
{
    if str_eq(s, "section") {
        SummaryLevel::Section
    } else {
        SummaryLevel::Document
    }
}

} // verus!

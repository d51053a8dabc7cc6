use vstd::prelude::*;
use vstd::string::*;

use crate::ids::DocumentId;
use crate::text::{chars_eq, chars_of, lowercase, str_to_lowercase};

verus! {

/// The kinds of files the importers handle.
#[derive(Clone, Copy, Debug, PartialEq, Eq, Structural)]
pub enum FileType {
    Txt,
    Markdown,
    Html,
    Csv,
    Json,
    Xml,
    Pdf,
    Docx,
    Xlsx,
    Unknown,
}

/// The file type named by an already lower-cased extension.
pub open spec fn file_type_of_lower(e: Seq<char>) -> FileType {
    if e == "txt"@ {
        FileType::Txt
    } else if e == "md"@ || e == "markdown"@ {
        FileType::Markdown
    } else if e == "html"@ || e == "htm"@ {
        FileType::Html
    } else if e == "csv"@ {
        FileType::Csv
    } else if e == "json"@ {
        FileType::Json
    } else if e == "xml"@ {
        FileType::Xml
    } else if e == "pdf"@ {
        FileType::Pdf
    } else if e == "docx"@ {
        FileType::Docx
    } else if e == "xlsx"@ || e == "xls"@ {
        FileType::Xlsx
    } else {
        FileType::Unknown
    }
}

/// The short label of a file type.
pub open spec fn spec_badge(t: FileType) -> Seq<char> {
    match t {
        FileType::Txt => "TXT"@,
        FileType::Markdown => "MD"@,
        FileType::Html => "HTML"@,
        FileType::Csv => "CSV"@,
        FileType::Json => "JSON"@,
        FileType::Xml => "XML"@,
        FileType::Pdf => "PDF"@,
        FileType::Docx => "DOCX"@,
        FileType::Xlsx => "XLSX"@,
        FileType::Unknown => "?"@,
    }
}

/// Whether two strings hold the same characters.
pub fn str_eq(a: &str, b: &str) -> (r: bool)
    ensures
        r == (a@ == b@),
{
    let x = chars_of(a);
    let y = chars_of(b);
    chars_eq(x.as_slice(), y.as_slice())
}

impl FileType {
    /// The file type for a file extension, compared without regard to case.
    pub fn from_extension(ext: &str) -> (r: FileType)
        ensures
            r == file_type_of_lower(lowercase(ext@)),
    {
        let lo = str_to_lowercase(ext);
        let e = lo.as_str();
        if str_eq(e, "txt") {
            FileType::Txt
        } else if str_eq(e, "md") || str_eq(e, "markdown") {
            FileType::Markdown
        } else if str_eq(e, "html") || str_eq(e, "htm") {
            FileType::Html
        } else if str_eq(e, "csv") {
            FileType::Csv
        } else if str_eq(e, "json") {
            FileType::Json
        } else if str_eq(e, "xml") {
            FileType::Xml
        } else if str_eq(e, "pdf") {
            FileType::Pdf
        } else if str_eq(e, "docx") {
            FileType::Docx
        } else if str_eq(e, "xlsx") || str_eq(e, "xls") {
            FileType::Xlsx
        } else {
            FileType::Unknown
        }
    }

    /// The short label shown for the file type.
    pub fn badge(&self) -> (r: &'static str)
        ensures
            r@ == spec_badge(*self),
    {
        match self {
            FileType::Txt => "TXT",
            FileType::Markdown => "MD",
            FileType::Html => "HTML",
            FileType::Csv => "CSV",
            FileType::Json => "JSON",
            FileType::Xml => "XML",
            FileType::Pdf => "PDF",
            FileType::Docx => "DOCX",
            FileType::Xlsx => "XLSX",
            FileType::Unknown => "?",
        }
    }
}

/// A table extracted from a document.
#[derive(Clone, Debug)]
pub struct Table {
    pub name: Option<String>,
    pub headers: Vec<String>,
    pub rows: Vec<Vec<String>>,
}

/// The mathematical value of a [`Table`].
pub struct TableView {
    pub name: Option<Seq<char>>,
    pub headers: Seq<Seq<char>>,
    pub rows: Seq<Seq<Seq<char>>>,
}

/// The characters of each row's cells.
pub open spec fn rows_view(rows: Seq<Vec<String>>) -> Seq<Seq<Seq<char>>> {
    rows.map_values(|r: Vec<String>| r@.map_values(|c: String| c@))
}

impl View for Table {
    type V = TableView;

    open spec fn view(&self) -> TableView {
        TableView {
            name: crate::documents::graph_types::opt_view(self.name),
            headers: self.headers@.map_values(|h: String| h@),
            rows: rows_view(self.rows@),
        }
    }
}

/// Where a document stands in the import pipeline.
#[derive(Clone, Copy, Debug, PartialEq, Eq, Structural)]
pub enum ImportStatus {
    Imported,
    Duplicate,
    Failed,
    Chunked,
}

/// An imported document: the values the library reads of it.
#[derive(Clone, Debug)]
pub struct Document {
    pub id: DocumentId,
    pub content_hash: String,
    pub original_filename: String,
    pub file_path: String,
    pub file_type: FileType,
    pub collection_id: String,
    pub title: Option<String>,
    pub author: Option<String>,
    pub extracted_text: String,
    pub extracted_tables: Vec<Table>,
    pub chunk_count: u32,
    pub import_status: ImportStatus,
}

/// The outcome of importing one file.
#[derive(Clone, Debug)]
pub struct ImportResult {
    pub document: Option<Document>,
    pub status: ImportStatus,
    pub message: String,
}

/// The name a file type is stored under (its variant name).
pub open spec fn spec_file_type_name(t: FileType) -> Seq<char> {
    match t {
        FileType::Txt => "Txt"@,
        FileType::Markdown => "Markdown"@,
        FileType::Html => "Html"@,
        FileType::Csv => "Csv"@,
        FileType::Json => "Json"@,
        FileType::Xml => "Xml"@,
        FileType::Pdf => "Pdf"@,
        FileType::Docx => "Docx"@,
        FileType::Xlsx => "Xlsx"@,
        FileType::Unknown => "Unknown"@,
    }
}

/// The file type a stored name reads back as: the type of that name, plain text for any
/// other name.
pub open spec fn spec_stored_file_type(s: Seq<char>) -> FileType {
    if s == "Markdown"@ {
        FileType::Markdown
    } else if s == "Html"@ {
        FileType::Html
    } else if s == "Csv"@ {
        FileType::Csv
    } else if s == "Json"@ {
        FileType::Json
    } else if s == "Xml"@ {
        FileType::Xml
    } else if s == "Pdf"@ {
        FileType::Pdf
    } else if s == "Docx"@ {
        FileType::Docx
    } else if s == "Xlsx"@ {
        FileType::Xlsx
    } else {
        FileType::Txt
    }
}

/// The name an import status is stored under (its variant name).
pub open spec fn spec_import_status_name(s: ImportStatus) -> Seq<char> {
    match s {
        ImportStatus::Imported => "Imported"@,
        ImportStatus::Duplicate => "Duplicate"@,
        ImportStatus::Failed => "Failed"@,
        ImportStatus::Chunked => "Chunked"@,
    }
}

/// The import status a stored name reads back as: the status of that name, imported for any
/// other name.
pub open spec fn spec_stored_import_status(s: Seq<char>) -> ImportStatus {
    if s == "Duplicate"@ {
        ImportStatus::Duplicate
    } else if s == "Failed"@ {
        ImportStatus::Failed
    } else if s == "Chunked"@ {
        ImportStatus::Chunked
    } else {
        ImportStatus::Imported
    }
}

/// The name a file type is stored under.
pub fn file_type_name(t: FileType) -> (r: &'static str)
    ensures
        r@ == spec_file_type_name(t),
{
    match t {
        FileType::Txt => "Txt",
        FileType::Markdown => "Markdown",
        FileType::Html => "Html",
        FileType::Csv => "Csv",
        FileType::Json => "Json",
        FileType::Xml => "Xml",
        FileType::Pdf => "Pdf",
        FileType::Docx => "Docx",
        FileType::Xlsx => "Xlsx",
        FileType::Unknown => "Unknown",
    }
}

/// The file type a stored name reads back as (plain text for an unknown name).
pub fn stored_file_type(s: &str) -> (r: FileType)
    ensures
        r == spec_stored_file_type(s@),
{
    if str_eq(s, "Markdown") {
        FileType::Markdown
    } else if str_eq(s, "Html") {
        FileType::Html
    } else if str_eq(s, "Csv") {
        FileType::Csv
    } else if str_eq(s, "Json") {
        FileType::Json
    } else if str_eq(s, "Xml") {
        FileType::Xml
    } else if str_eq(s, "Pdf") {
        FileType::Pdf
    } else if str_eq(s, "Docx") {
        FileType::Docx
    } else if str_eq(s, "Xlsx") {
        FileType::Xlsx
    } else {
        FileType::Txt
    }
}

/// The name an import status is stored under.
pub fn import_status_name(s: ImportStatus) -> (r: &'static str)
    ensures
        r@ == spec_import_status_name(s),
{
    match s {
        ImportStatus::Imported => "Imported",
        ImportStatus::Duplicate => "Duplicate",
        ImportStatus::Failed => "Failed",
        ImportStatus::Chunked => "Chunked",
    }
}

/// The import status a stored name reads back as (imported for an unknown name).
pub fn stored_import_status(s: &str) -> (r: ImportStatus)
    ensures
        r == spec_stored_import_status(s@),
{
    if str_eq(s, "Duplicate") {
        ImportStatus::Duplicate
    } else if str_eq(s, "Failed") {
        ImportStatus::Failed
    } else if str_eq(s, "Chunked") {
        ImportStatus::Chunked
    } else {
        ImportStatus::Imported
    }
}

} // verus!

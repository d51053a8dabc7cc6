use vstd::prelude::*;
use vstd::string::*;

use crate::chunking::util::{file_name, last_dot, path_extension, path_extension_of};
use crate::error::AshkorixError;
use crate::documents::types::{Document, ImportResult, ImportStatus, Table, TableView, rows_view};
use crate::text::{
    chars_eq, chars_of, is_ws, join, join_chars, lower_chars, lowercase, split_whitespace_chars,
    string_from, words,
};

verus! {

/// The importers of the library.
#[derive(Clone, Copy, Debug, PartialEq, Eq, Structural)]
pub enum ImporterKind {
    Txt,
    Markdown,
    Html,
    Csv,
    Json,
    Xml,
    Pdf,
    Docx,
    Xlsx,
}

/// The id of an importer.
pub open spec fn spec_importer_id(k: ImporterKind) -> Seq<char> {
    match k {
        ImporterKind::Txt => "builtin.txt"@,
        ImporterKind::Markdown => "builtin.markdown"@,
        ImporterKind::Html => "builtin.html"@,
        ImporterKind::Csv => "builtin.csv"@,
        ImporterKind::Json => "builtin.json"@,
        ImporterKind::Xml => "builtin.xml"@,
        ImporterKind::Pdf => "builtin.pdf"@,
        ImporterKind::Docx => "builtin.docx"@,
        ImporterKind::Xlsx => "builtin.xlsx"@,
    }
}

/// The display name of an importer (the text importers go by their id).
pub open spec fn spec_importer_name(k: ImporterKind) -> Seq<char> {
    match k {
        ImporterKind::Txt => "builtin.txt"@,
        ImporterKind::Markdown => "builtin.markdown"@,
        ImporterKind::Html => "HTML Importer"@,
        ImporterKind::Csv => "CSV Importer"@,
        ImporterKind::Json => "JSON Importer"@,
        ImporterKind::Xml => "XML Importer"@,
        ImporterKind::Pdf => "PDF Importer"@,
        ImporterKind::Docx => "DOCX Importer"@,
        ImporterKind::Xlsx => "XLSX Importer"@,
    }
}

/// The file extensions an importer declares.
pub open spec fn spec_importer_exts(k: ImporterKind) -> Seq<Seq<char>> {
    match k {
        ImporterKind::Txt => seq!["txt"@],
        ImporterKind::Markdown => seq!["md"@, "markdown"@],
        ImporterKind::Html => seq!["html"@, "htm"@],
        ImporterKind::Csv => seq!["csv"@],
        ImporterKind::Json => seq!["json"@],
        ImporterKind::Xml => seq!["xml"@],
        ImporterKind::Pdf => seq!["pdf"@],
        ImporterKind::Docx => seq!["docx"@],
        ImporterKind::Xlsx => seq!["xlsx"@, "xls"@],
    }
}

/// Whether an importer takes a path: by its extension, compared lower-cased for text,
/// Markdown, HTML and spreadsheet files and exactly for the others.
pub open spec fn spec_can_handle(k: ImporterKind, path: Seq<char>) -> bool {
    match path_extension(path) {
        None => false,
        Some(e) => match k {
            ImporterKind::Txt | ImporterKind::Markdown | ImporterKind::Html | ImporterKind::Xlsx => spec_importer_exts(
                k,
            ).contains(lowercase(e)),
            _ => spec_importer_exts(k).contains(e),
        },
    }
}

impl ImporterKind {
    /// The importer's id.
    pub fn id(&self) -> (r: &'static str)
        ensures
            r@ == spec_importer_id(*self),
    {
        match self {
            ImporterKind::Txt => "builtin.txt",
            ImporterKind::Markdown => "builtin.markdown",
            ImporterKind::Html => "builtin.html",
            ImporterKind::Csv => "builtin.csv",
            ImporterKind::Json => "builtin.json",
            ImporterKind::Xml => "builtin.xml",
            ImporterKind::Pdf => "builtin.pdf",
            ImporterKind::Docx => "builtin.docx",
            ImporterKind::Xlsx => "builtin.xlsx",
        }
    }

    /// The importer's display name.
    pub fn name(&self) -> (r: &'static str)
        ensures
            r@ == spec_importer_name(*self),
    {
        match self {
            ImporterKind::Txt => "builtin.txt",
            ImporterKind::Markdown => "builtin.markdown",
            ImporterKind::Html => "HTML Importer",
            ImporterKind::Csv => "CSV Importer",
            ImporterKind::Json => "JSON Importer",
            ImporterKind::Xml => "XML Importer",
            ImporterKind::Pdf => "PDF Importer",
            ImporterKind::Docx => "DOCX Importer",
            ImporterKind::Xlsx => "XLSX Importer",
        }
    }

    /// The extensions the importer declares.
    pub fn supported_extensions(&self) -> (r: Vec<String>)
        ensures
            r@.map_values(|s: String| s@) == spec_importer_exts(*self),
    {
        let mut v: Vec<String> = Vec::new();
        match self {
            ImporterKind::Txt => {
                v.push(String::from_str("txt"));
            },
            ImporterKind::Markdown => {
                v.push(String::from_str("md"));
                v.push(String::from_str("markdown"));
            },
            ImporterKind::Html => {
                v.push(String::from_str("html"));
                v.push(String::from_str("htm"));
            },
            ImporterKind::Csv => {
                v.push(String::from_str("csv"));
            },
            ImporterKind::Json => {
                v.push(String::from_str("json"));
            },
            ImporterKind::Xml => {
                v.push(String::from_str("xml"));
            },
            ImporterKind::Pdf => {
                v.push(String::from_str("pdf"));
            },
            ImporterKind::Docx => {
                v.push(String::from_str("docx"));
            },
            ImporterKind::Xlsx => {
                v.push(String::from_str("xlsx"));
                v.push(String::from_str("xls"));
            },
        }
        assert(v@.map_values(|s: String| s@) =~= spec_importer_exts(*self));
        v
    }

    /// Whether the importer takes the path (see [`spec_can_handle`]).
    pub fn can_handle(&self, path: &str) -> (r: bool)
        ensures
            r == spec_can_handle(*self, path@),
    {
        let e = match path_extension_of(path) {
            None => return false,
            Some(e) => e,
        };
        let key: Vec<char> = match self {
            ImporterKind::Txt | ImporterKind::Markdown | ImporterKind::Html | ImporterKind::Xlsx => lower_chars(
                e.as_slice(),
            ),
            _ => e,
        };
        let exts = self.supported_extensions();
        let ghost xv = exts@.map_values(|s: String| s@);
        let ghost want = match path_extension(path@) {
            None => false,
            Some(e0) => match *self {
                ImporterKind::Txt | ImporterKind::Markdown | ImporterKind::Html | ImporterKind::Xlsx => xv.contains(
                    lowercase(e0),
                ),
                _ => xv.contains(e0),
            },
        };
        assert(want == spec_can_handle(*self, path@));
        assert(want == xv.contains(key@));
        let mut i: usize = 0;
        while i < exts.len()
            invariant
                i <= exts@.len(),
                xv == exts@.map_values(|s: String| s@),
                want == xv.contains(key@),
                want == spec_can_handle(*self, path@),
                forall|j: int| 0 <= j < i ==> xv[j] != key@,
            decreases exts@.len() - i,
        {
            let c = chars_of(exts[i].as_str());
            assert(xv[i as int] == exts@[i as int]@);
            if chars_eq(c.as_slice(), key.as_slice()) {
                assert(xv.contains(key@));
                return true;
            }
            i += 1;
        }
        assert(!xv.contains(key@));
        false
    }
}

/// An importer as the registry lists it.
#[derive(Clone, Debug)]
pub struct ImporterInfo {
    pub id: String,
    pub name: String,
    pub extensions: Vec<String>,
}

/// The importers, in the order the registry tries them.
pub open spec fn builtin_kinds() -> Seq<ImporterKind> {
    seq![
        ImporterKind::Txt,
        ImporterKind::Markdown,
        ImporterKind::Html,
        ImporterKind::Csv,
        ImporterKind::Json,
        ImporterKind::Xml,
        ImporterKind::Pdf,
        ImporterKind::Docx,
        ImporterKind::Xlsx,
    ]
}

/// The importers a document may be read with.
pub struct ImporterRegistry {
    pub importers: Vec<ImporterKind>,
}

/// The first importer at or after `i` that takes the path.
pub open spec fn first_handler_from(ks: Seq<ImporterKind>, path: Seq<char>, i: int) -> Option<int>
    decreases ks.len() - i,
{
    if i < 0 || i >= ks.len() {
        None
    } else if spec_can_handle(ks[i], path) {
        Some(i)
    } else {
        first_handler_from(ks, path, i + 1)
    }
}

impl ImporterRegistry {
    /// The built-in importers: text, Markdown, HTML, CSV, JSON, XML, PDF, DOCX, XLSX.
    pub fn builtin() -> (r: ImporterRegistry)
        ensures
            r.importers@ == builtin_kinds(),
    {
        let mut v: Vec<ImporterKind> = Vec::new();
        v.push(ImporterKind::Txt);
        v.push(ImporterKind::Markdown);
        v.push(ImporterKind::Html);
        v.push(ImporterKind::Csv);
        v.push(ImporterKind::Json);
        v.push(ImporterKind::Xml);
        v.push(ImporterKind::Pdf);
        v.push(ImporterKind::Docx);
        v.push(ImporterKind::Xlsx);
        assert(v@ =~= builtin_kinds());
        ImporterRegistry { importers: v }
    }

    /// The id, name and extensions of each importer, in order.
    pub fn list(&self) -> (r: Vec<ImporterInfo>)
        ensures
            r@.len() == self.importers@.len(),
            forall|i: int|
                0 <= i < r@.len() ==> (#[trigger] r@[i]).id@ == spec_importer_id(self.importers@[i])
                    && r@[i].name@ == spec_importer_name(self.importers@[i])
                    && r@[i].extensions@.map_values(|s: String| s@) == spec_importer_exts(
                    self.importers@[i],
                ),
    {
        let mut out: Vec<ImporterInfo> = Vec::new();
        let mut i: usize = 0;
        while i < self.importers.len()
            invariant
                i <= self.importers@.len(),
                out@.len() == i,
                forall|k: int|
                    0 <= k < i ==> (#[trigger] out@[k]).id@ == spec_importer_id(self.importers@[k])
                        && out@[k].name@ == spec_importer_name(self.importers@[k])
                        && out@[k].extensions@.map_values(|s: String| s@) == spec_importer_exts(
                        self.importers@[k],
                    ),
            decreases self.importers@.len() - i,
        {
            let k = &self.importers[i];
            out.push(
                ImporterInfo {
                    id: String::from_str(k.id()),
                    name: String::from_str(k.name()),
                    extensions: k.supported_extensions(),
                },
            );
            i += 1;
        }
        out
    }

    /// The first importer that takes the path, if any.
    pub fn find(&self, path: &str) -> (r: Option<ImporterKind>)
        ensures
            r == (match first_handler_from(self.importers@, path@, 0) {
                Some(i) => Some(self.importers@[i]),
                None => None,
            }),
    {
        let mut i: usize = 0;
        while i < self.importers.len()
            invariant
                i <= self.importers@.len(),
                first_handler_from(self.importers@, path@, 0) == first_handler_from(
                    self.importers@,
                    path@,
                    i as int,
                ),
            decreases self.importers@.len() - i,
        {
            if self.importers[i].can_handle(path) {
                return Some(self.importers[i]);
            }
            i += 1;
        }
        None
    }
}

/// Whether the reader is inside a tag after the first `n` characters.
pub open spec fn in_tag_after(s: Seq<char>, n: int) -> bool
    decreases n,
{
    if n <= 0 {
        false
    } else if s[n - 1] == '<' {
        true
    } else if s[n - 1] == '>' {
        false
    } else {
        in_tag_after(s, n - 1)
    }
}

/// The characters of the first `n` that stand outside tags (the markers `<` and `>` are never
/// kept).
pub open spec fn untagged(s: Seq<char>, n: int) -> Seq<char>
    decreases n,
{
    if n <= 0 {
        Seq::empty()
    } else {
        untagged(s, n - 1) + (if s[n - 1] != '<' && s[n - 1] != '>' && !in_tag_after(s, n - 1) {
            seq![s[n - 1]]
        } else {
            Seq::empty()
        })
    }
}

/// The text of an XML document: what stands outside tags, its words joined by single
/// spaces.
pub open spec fn spec_extract_xml_text(xml: Seq<char>) -> Seq<char> {
    join(words(untagged(xml, xml.len() as int)), " "@)
}

/// The text of an XML document (see [`spec_extract_xml_text`]).
pub fn extract_xml_text(xml: &str) -> (r: String)
    ensures
        r@ == spec_extract_xml_text(xml@),
{
    let cs = chars_of(xml);
    let mut out: Vec<char> = Vec::new();
    let mut in_tag = false;
    let mut i: usize = 0;
    while i < cs.len()
        invariant
            i <= cs@.len(),
            out@ == untagged(cs@, i as int),
            in_tag == in_tag_after(cs@, i as int),
        decreases cs@.len() - i,
    {
        let ch = cs[i];
        if ch == '<' {
            in_tag = true;
        } else if ch == '>' {
            in_tag = false;
        } else if !in_tag {
            out.push(ch);
        }
        i += 1;
    }
    let ws = split_whitespace_chars(out.as_slice());
    let sp = chars_of(" ");
    let j = join_chars(ws.as_slice(), sp.as_slice());
    assert(cs@ == xml@);
    string_from(j.as_slice())
}

/// Names what `serde_json` makes of a text read as a JSON value and printed back
/// pretty: the printed text, or the error's message where the text is not JSON.
pub uninterp spec fn json_pretty(text: Seq<char>) -> Result<Seq<char>, Seq<char>>;

/// `serde_json::from_str` into a `serde_json::Value`, then `serde_json::to_string_pretty` of
/// it. Claimed: the outcome is the one named by [`json_pretty`], an error carrying the
/// error's message.
#[verifier::external_body]
pub fn pretty_json(text: &str) -> (r: Result<String, String>)
    ensures
        match r {
            Ok(s) => json_pretty(text@) == Ok::<Seq<char>, Seq<char>>(s@),
            Err(m) => json_pretty(text@) == Err::<Seq<char>, Seq<char>>(m@),
        },
{
    serde_json::from_str::<serde_json::Value>(text)
        .and_then(|v| serde_json::to_string_pretty(&v))
        .map_err(|e| e.to_string())
}

/// The text a JSON file is imported as: its content printed back pretty, or an import error
/// with the parser's message where it is not JSON.
pub fn json_document_text(content: &str) -> (r: Result<String, AshkorixError>)
    ensures
        match json_pretty(content@) {
            Ok(t) => r matches Ok(s) && s@ == t,
            Err(m) => r matches Err(AshkorixError::Import(e)) && e@ == m,
        },
{
    match pretty_json(content) {
        Ok(s) => Ok(s),
        Err(m) => Err(AshkorixError::Import(m)),
    }
}

/// The text of CSV records: each row's cells joined by `, `, the rows joined by new lines.
pub open spec fn spec_csv_text(rows: Seq<Seq<Seq<char>>>) -> Seq<char> {
    join(rows.map_values(|r: Seq<Seq<char>>| join(r, ", "@)), "\n"@)
}

/// The text of CSV records (see [`spec_csv_text`]).
pub fn csv_text(rows: &Vec<Vec<String>>) -> (r: String)
    ensures
        r@ == spec_csv_text(rows_view(rows@)),
{
    let ghost rv = rows_view(rows@);
    let mut lines: Vec<Vec<char>> = Vec::new();
    let sep = chars_of(", ");
    let mut i: usize = 0;
    while i < rows.len()
        invariant
            i <= rows@.len(),
            rv == rows_view(rows@),
            sep@ == ", "@,
            lines@.map_values(|v: Vec<char>| v@) == rv.map_values(|r: Seq<Seq<char>>| join(r, ", "@)).take(
                i as int,
            ),
        decreases rows@.len() - i,
    {
        let mut cells: Vec<Vec<char>> = Vec::new();
        let row = &rows[i];
        let mut k: usize = 0;
        while k < row.len()
            invariant
                k <= row@.len(),
                cells@.map_values(|v: Vec<char>| v@) == row@.map_values(|s: String| s@).take(k as int),
            decreases row@.len() - k,
        {
            let ghost before = cells@.map_values(|v: Vec<char>| v@);
            cells.push(chars_of(row[k].as_str()));
            assert(cells@.map_values(|v: Vec<char>| v@) =~= before.push(row@[k as int]@));
            assert(row@.map_values(|s: String| s@).take(k as int + 1) =~= row@.map_values(
                |s: String| s@,
            ).take(k as int).push(row@[k as int]@));
            k += 1;
        }
        assert(row@.map_values(|s: String| s@).take(row@.len() as int) =~= row@.map_values(
            |s: String| s@,
        ));
        assert(rv[i as int] == row@.map_values(|s: String| s@));
        let line = join_chars(cells.as_slice(), sep.as_slice());
        let ghost before = lines@.map_values(|v: Vec<char>| v@);
        lines.push(line);
        assert(lines@.map_values(|v: Vec<char>| v@) =~= before.push(join(rv[i as int], ", "@)));
        assert(rv.map_values(|r: Seq<Seq<char>>| join(r, ", "@)).take(i as int + 1) =~= rv.map_values(
            |r: Seq<Seq<char>>| join(r, ", "@),
        ).take(i as int).push(join(rv[i as int], ", "@)));
        i += 1;
    }
    assert(rv.map_values(|r: Seq<Seq<char>>| join(r, ", "@)).take(rv.len() as int) =~= rv.map_values(
        |r: Seq<Seq<char>>| join(r, ", "@),
    ));
    let nl = chars_of("\n");
    let j = join_chars(lines.as_slice(), nl.as_slice());
    string_from(j.as_slice())
}

/// The stem of a path's file name (as `Path::file_stem`): the name without its extension.
pub open spec fn file_stem(path: Seq<char>) -> Option<Seq<char>> {
    match file_name(path) {
        None => None,
        Some(name) => match last_dot(name) {
            Some(i) => if i > 0 {
                Some(name.subrange(0, i))
            } else {
                Some(name)
            },
            None => Some(name),
        },
    }
}

/// The outcome of importing a file whose content hash may already be stored: the stored
/// document as a duplicate, else the new document as imported.
pub fn dedup_result(existing: Option<Document>, imported: Document) -> (r: ImportResult)
    ensures
        match existing {
            Some(d) => r.document == Some(d) && r.status == ImportStatus::Duplicate && r.message@
                == "duplicate content hash"@,
            None => r.document == Some(imported) && r.status == ImportStatus::Imported
                && r.message@ == "imported successfully"@,
        },
{
    match existing {
        Some(doc) => ImportResult {
            document: Some(doc),
            status: ImportStatus::Duplicate,
            message: String::from_str("duplicate content hash"),
        },
        None => ImportResult {
            document: Some(imported),
            status: ImportStatus::Imported,
            message: String::from_str("imported successfully"),
        },
    }
}

} // verus!

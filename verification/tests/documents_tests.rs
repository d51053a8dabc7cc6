use ashkorix::chunking::types::Chunk;
use ashkorix::documents::graph_types::{
    entity_kind_str, relation_kind_str, summary_level_str, DocumentSummary, EntityKind, RelationKind, Section,
    SummaryLevel,
};
use ashkorix::documents::types::{file_type_name, import_status_name, stored_file_type, stored_import_status, FileType, ImportStatus};
use ashkorix::error::AshkorixError;
use ashkorix::ids::{ChunkId, CollectionId, DocumentId};
use ashkorix::memory::store::{new_candidate_id, new_memory_id, stored_candidate_status, stored_memory_status};
use ashkorix::memory::types::{CandidateStatus, MemoryStatus};
use ashkorix::rag::agent::{build_corpus_map, ThemeSource};
use ashkorix::rag::types::RankedChunk;
use ashkorix::search::indexer::{embed_text_for_chunk, index_precheck, section_summary};
use ashkorix::documents::importers::json_document_text;
use ashkorix::documents::entities::{add_value_entities, texts_of_spans};
use ashkorix::documents::structure::{captured_headings, sections_of_headings};
use ashkorix::documents::types::Document;
use ashkorix::memory::extract::resolve_json_items;

fn fnv_hex(s: &str) -> String {
    let mut h: u64 = 0xcbf2_9ce4_8422_2325;
    for c in s.chars() {
        h ^= c as u64;
        h = h.wrapping_mul(0x0000_0100_0000_01b3);
    }
    format!("{h:016x}")
}

fn section(id: &str, path: &str, start: usize, end: usize) -> Section {
    Section {
        id: id.into(),
        document_id: "doc1".into(),
        parent_section_id: None,
        title: path.into(),
        level: 1,
        heading_path: path.into(),
        start_offset: start,
        end_offset: end,
        page_start: None,
        page_end: None,
        summary: None,
    }
}

fn plain_chunk(text: &str, heading: Option<&str>) -> Chunk {
    Chunk {
        id: ChunkId("c1".into()),
        document_id: DocumentId("doc1".into()),
        collection_id: CollectionId("pool".into()),
        text: text.into(),
        start_offset: 0,
        end_offset: text.len(),
        page_number: None,
        section_title: None,
        row_sheet_info: None,
        source_filename: "plan.md".into(),
        content_hash: "h".into(),
        token_count: 3,
        parent_section_id: None,
        heading_path: heading.map(|h| h.into()),
        chunk_index: 0,
        prev_chunk_id: None,
        next_chunk_id: None,
        contextual_text: None,
        table_id: None,
        entity_tokens: None,
    }
}

#[test]
fn file_types_from_extensions() {
    assert_eq!(FileType::from_extension("MD"), FileType::Markdown);
    assert_eq!(FileType::from_extension("markdown"), FileType::Markdown);
    assert_eq!(FileType::from_extension("Htm"), FileType::Html);
    assert_eq!(FileType::from_extension("exe"), FileType::Unknown);
    assert_eq!(FileType::Docx.badge(), "DOCX");
    assert_eq!(FileType::from_extension("TXT").badge(), "TXT");
}

#[test]
fn stored_names_of_graph_kinds() {
    assert_eq!(entity_kind_str(&EntityKind::PartNumber), "part_number");
    assert_eq!(relation_kind_str(&RelationKind::SharedEntity), "shared_entity");
    assert_eq!(summary_level_str(&SummaryLevel::Section), "section");
}

#[test]
fn record_ids_hash_title_content_and_stamp() {
    let h = fnv_hex("TitleContent2024-01-01T00:00:00Z");
    assert_eq!(new_memory_id("Title", "Content", "2024-01-01T00:00:00Z"), format!("mem_{}", &h[..12]));
    assert_eq!(new_candidate_id("Title", "Content", "2024-01-01T00:00:00Z"), format!("cand_{}", &h[..12]));
}

#[test]
fn unknown_stored_statuses_fall_back() {
    assert_eq!(stored_memory_status("superseded"), MemoryStatus::Superseded);
    assert_eq!(stored_memory_status("garbage"), MemoryStatus::Active);
    assert_eq!(stored_candidate_status("edited"), CandidateStatus::Edited);
    assert_eq!(stored_candidate_status(""), CandidateStatus::Pending);
}

#[test]
fn section_summaries_take_the_section_text() {
    let text = "# Intro\nFirst line.\n\nSecond line.\n# Next\nOther.";
    let s = section_summary("doc1", text, &section("s1", "Intro", 0, 33)).unwrap();
    assert_eq!(s.summary, "# Intro First line. Second line.");
    assert_eq!(s.section_id.as_deref(), Some("s1"));
    assert_eq!(s.level, SummaryLevel::Section);
    assert_eq!(s.id, format!("sum-{}", &fnv_hex("sec-s1")[..12]));
    assert!(section_summary("doc1", text, &section("s2", "Empty", 7, 7)).is_none());
}

#[test]
fn index_needs_a_model_and_chunks() {
    assert!(matches!(index_precheck(0, 5), Err(AshkorixError::Config(m)) if m.starts_with("Embedding model is not loaded.")));
    assert!(matches!(index_precheck(768, 0), Err(AshkorixError::Config(m))
        if m == "No document chunks to index. Import files on the Documents page first."));
    assert!(index_precheck(768, 5).is_ok());
}

#[test]
fn embedding_text_prefers_stored_context() {
    let mut c = plain_chunk("Body text.", Some("Plan > Phase 1"));
    let built = embed_text_for_chunk(&c, "plan.md");
    assert_eq!(built, "Document: plan.md. Section: Plan > Phase 1. Body text.");
    c.contextual_text = Some("stored".into());
    assert_eq!(embed_text_for_chunk(&c, "plan.md"), "stored");
}

#[test]
fn corpus_map_collects_themes_entities_and_sections() {
    let theme = |doc: &str, section: Option<&str>, file: Option<&str>| ThemeSource {
        summary: DocumentSummary {
            id: format!("sum-{doc}"),
            document_id: doc.into(),
            section_id: section.map(|s| s.into()),
            level: if section.is_some() { SummaryLevel::Section } else { SummaryLevel::Document },
            summary: format!("About {doc}"),
        },
        title: None,
        original_filename: file.map(|f| f.into()),
    };
    let themes = vec![theme("d1", None, Some("a.md")), theme("d2", Some("s"), Some("b.md")), theme("d3", None, None)];
    let values: Vec<String> = vec!["SKU".into(), "API".into(), "API".into()];
    let sections = vec![("d1".to_string(), vec![section("s1", "Intro", 0, 5)])];
    let chunk = RankedChunk {
        chunk: plain_chunk("The API is stable.", None),
        score_bits: 1.0f64.to_bits(),
        source_type: "both".into(),
        source_number: None,
        rerank_score_bits: None,
        expanded_context: None,
    };
    let map = build_corpus_map("api", vec![chunk], &themes, &values, &sections);
    assert_eq!(map.themes.len(), 1);
    assert_eq!(map.themes[0].title, "a.md");
    assert_eq!(map.themes[0].summary, "About d1");
    let freq: Vec<(&str, u32)> = map.entities.iter().map(|e| (e.value.as_str(), e.count)).collect();
    assert_eq!(freq, vec![("API", 2), ("SKU", 1)]);
    assert_eq!(map.sections.len(), 1);
    assert_eq!(map.sections[0].heading_path, "Intro");
    assert_eq!(map.related_chunks.len(), 1);
}

#[test]
fn stored_type_and_status_names_read_back() {
    let types = [
        FileType::Txt,
        FileType::Markdown,
        FileType::Html,
        FileType::Csv,
        FileType::Json,
        FileType::Xml,
        FileType::Pdf,
        FileType::Docx,
        FileType::Xlsx,
    ];
    for t in types {
        assert_eq!(stored_file_type(file_type_name(t)), t);
    }
    assert_eq!(file_type_name(FileType::Markdown), "Markdown");
    assert_eq!(stored_file_type(file_type_name(FileType::Unknown)), FileType::Txt);
    assert_eq!(stored_file_type("markdown"), FileType::Txt);
    for s in [ImportStatus::Imported, ImportStatus::Duplicate, ImportStatus::Failed, ImportStatus::Chunked] {
        assert_eq!(stored_import_status(import_status_name(s)), s);
    }
    assert_eq!(import_status_name(ImportStatus::Chunked), "Chunked");
    assert_eq!(stored_import_status("???"), ImportStatus::Imported);
}

#[test]
fn json_files_import_as_pretty_text() {
    let text = json_document_text("{\"a\":[1,2]}").unwrap();
    assert_eq!(text, "{\n  \"a\": [\n    1,\n    2\n  ]\n}");
    match json_document_text("{oops") {
        Err(AshkorixError::Import(m)) => assert!(!m.is_empty()),
        _ => panic!("invalid JSON must be an import error"),
    }
}

#[test]
fn logic_after_outside_calls_takes_their_results() {
    let spans = vec![(0usize, 3usize), (4, 7), (8, 11)];
    let texts: Vec<String> = texts_of_spans("ABC DEF ABC", &spans).into_iter().map(|v| v.into_iter().collect()).collect();
    assert_eq!(texts, vec!["ABC", "DEF", "ABC"]);
    let mut acc = Vec::new();
    let values: Vec<Vec<char>> = texts.iter().map(|t| t.chars().collect()).collect();
    add_value_entities(&mut acc, &values, EntityKind::Acronym, "doc1", "c1");
    assert_eq!(acc.len(), 2);
    assert_eq!(acc[1].value, "DEF");
    assert!(acc[0].id.starts_with("ent-"));

    let text = "# Tête\nabc\n## B\nx";
    let caps = vec![
        vec![Some((0usize, 7usize)), Some((0, 1)), Some((2, 7))],
        vec![Some((12, 16)), Some((12, 14)), Some((15, 16))],
    ];
    let hs = captured_headings(text, &caps);
    assert_eq!(hs.len(), 2);
    assert_eq!((hs[0].0, hs[0].1, hs[0].2.iter().collect::<String>()), (0, 1, "Tête".to_string()));
    assert_eq!((hs[1].0, hs[1].1), (12, 2));
    let doc = Document {
        id: DocumentId("doc1".into()),
        content_hash: "h".into(),
        original_filename: "notes.md".into(),
        file_path: "/tmp/notes.md".into(),
        file_type: FileType::Markdown,
        collection_id: "pool".into(),
        title: None,
        author: None,
        extracted_text: text.into(),
        extracted_tables: vec![],
        chunk_count: 0,
        import_status: ImportStatus::Imported,
    };
    let nodes = sections_of_headings(&doc, text, &hs);
    assert_eq!((nodes[0].start_offset, nodes[0].end_offset), (0, 12));
    assert_eq!(nodes[1].body, "## B\nx");
    let none = sections_of_headings(&doc, text, &vec![]);
    assert_eq!(none[0].title, "notes.md");

    let items = vec![Some(vec![
        ("content".to_string(), Some("C".to_string())),
        ("scope".to_string(), Some("global".to_string())),
        ("title".to_string(), Some("T".to_string())),
        ("type".to_string(), Some("decision".to_string())),
    ])];
    let got = resolve_json_items(&items).unwrap();
    assert_eq!(got[0].proposed_title, "T");
    assert!(resolve_json_items(&vec![None]).is_err());
}

use ashkorix::chunking::chunker::RecursiveChunker;
use ashkorix::chunking::hierarchy::{link_neighbors, HeadingHierarchyChunker};
use ashkorix::chunking::recursive::{merge_to_size, split_recursive, try_split_recursive, window_chunk};
use ashkorix::chunking::types::Chunk;
use ashkorix::chunking::util::{estimate_tokens, file_extension, matches_file_types};
use ashkorix::config::settings::ChunkingConfig;
use ashkorix::documents::importers::{csv_text, dedup_result, extract_xml_text, ImporterKind, ImporterRegistry};
use ashkorix::documents::types::{Document, FileType, ImportStatus};
use ashkorix::documents::structure::{build_section_tree, find_section_for_offset, heading_path_for, sections_to_stored};
use ashkorix::ids::{hash_text, short_id_from_hash, ChunkId, CollectionId, DocumentId};
use ashkorix::patterns::split_by_regex;
use ashkorix::rerank::pack::pack_token_batches;
use ashkorix::search::indexer::{document_summary, summary_text};

fn fake_tokens(lens: &[usize]) -> Vec<Vec<i32>> {
    lens.iter().map(|&n| (0..n).map(|i| i as i32).collect()).collect()
}

fn batch_lens(batches: &[Vec<Vec<i32>>]) -> Vec<Vec<usize>> {
    batches.iter().map(|b| b.iter().map(|s| s.len()).collect()).collect()
}

fn document(text: &str) -> Document {
    Document {
        id: DocumentId("doc1".into()),
        content_hash: hash_text(text),
        original_filename: "notes.md".into(),
        file_path: "/tmp/notes.md".into(),
        file_type: FileType::Markdown,
        collection_id: "pool".into(),
        title: None,
        author: None,
        extracted_text: text.into(),
        extracted_tables: vec![],
        chunk_count: 0,
        import_status: ImportStatus::Imported,
    }
}

#[test]
fn splits_paragraphs() {
    let text = "First paragraph.\n\nSecond paragraph with more text.";
    let parts = split_recursive(text, 30);
    assert!(parts.len() >= 2);
}

#[test]
fn pack_respects_ubatch_token_budget() {
    let batches = pack_token_batches(fake_tokens(&[100, 100, 100, 100, 100]), 8, 512);
    for batch in &batches {
        let total: usize = batch.iter().map(|s| s.len()).sum();
        assert!(total <= 512);
        assert!(batch.len() <= 8);
    }
    assert_eq!(batch_lens(&batches), vec![vec![100, 100, 100, 100, 100]]);
}

#[test]
fn pack_splits_when_ubatch_exceeded() {
    let batches = pack_token_batches(fake_tokens(&[300, 300]), 8, 512);
    assert_eq!(batch_lens(&batches), vec![vec![300], vec![300]]);
}

#[test]
fn pack_splits_when_seq_count_exceeded() {
    let batches = pack_token_batches(fake_tokens(&[50; 10]), 8, 512);
    assert_eq!(batches.len(), 2);
    assert_eq!(batches[0].len(), 8);
    assert_eq!(batches[1].len(), 2);
    for batch in &batches {
        assert!(batch.iter().map(|s| s.len()).sum::<usize>() <= 512);
    }
}

#[test]
fn pack_allows_full_length_single_pair() {
    let batches = pack_token_batches(fake_tokens(&[256]), 4, 512);
    assert_eq!(batch_lens(&batches), vec![vec![256]]);
}

#[test]
fn pack_keeps_everything_in_order() {
    let input = fake_tokens(&[3, 700, 2, 2, 2]);
    let batches = pack_token_batches(input.clone(), 2, 10);
    assert_eq!(batch_lens(&batches), vec![vec![3], vec![700], vec![2, 2], vec![2]]);
    let flat: Vec<Vec<i32>> = batches.into_iter().flatten().collect();
    assert_eq!(flat, input);
    assert!(pack_token_batches(Vec::<Vec<i32>>::new(), 4, 10).is_empty());
    assert_eq!(batch_lens(&pack_token_batches(fake_tokens(&[1, 1]), 0, 10)), vec![vec![1], vec![1]]);
}

#[test]
fn windows_overlap_by_the_given_amount() {
    let w = window_chunk("abcdefghij", 4, 1);
    assert_eq!(w, vec!["abcd".to_string(), "defg".to_string(), "ghij".to_string()]);
    assert_eq!(window_chunk("", 4, 1), Vec::<String>::new());
    let m = merge_to_size(vec!["aa".into(), "bb".into(), "cccc".into()], 6);
    assert_eq!(m, vec!["aa bb".to_string(), "cccc".to_string()]);
}

#[test]
fn regex_split_cuts_at_match_starts() {
    let parts = split_by_regex("intro\n# A\nbody\n# B\nend", "(?m)^#{1,6}\\s+").unwrap();
    assert_eq!(parts, vec!["intro\n".to_string(), "# A\nbody\n".to_string(), "# B\nend".to_string()]);
    assert_eq!(parts.concat(), "intro\n# A\nbody\n# B\nend");
    assert!(split_by_regex("abc", "(unclosed").is_none());
}

#[test]
fn token_estimate_counts_bytes() {
    assert_eq!(estimate_tokens(""), 1);
    assert_eq!(estimate_tokens("abcdefgh"), 2);
    assert_eq!(estimate_tokens("éééé"), 2);
}

#[test]
fn file_types_match_case_insensitively() {
    assert_eq!(file_extension("dir/Report.PDF"), "pdf");
    assert_eq!(file_extension("noext"), "");
    assert!(matches_file_types("a.Md", &["MD".to_string()]));
    assert!(matches_file_types("a.txt", &[]));
    assert!(!matches_file_types("a.txt", &["pdf".to_string()]));
}

#[test]
fn recursive_chunker_offsets_and_ids() {
    let chunker = RecursiveChunker::new(ChunkingConfig { max_tokens: 4, overlap_tokens: 0 });
    let doc = document("First paragraph.\n\n\n\nSecond one here.");
    let chunks = chunker.chunk(&doc, "pool");
    assert_eq!(chunks.len(), 2);
    assert_eq!(chunks[0].text, "First paragraph.");
    assert_eq!(chunks[0].start_offset, 0);
    assert_eq!(chunks[0].end_offset, 16);
    assert_eq!(chunks[1].chunk_index, 1);
    let expected = format!("{}-{}", short_id_from_hash(&doc.content_hash), short_id_from_hash(&hash_text(&chunks[0].text)));
    assert_eq!(chunks[0].id.0, expected);
}

#[test]
fn hierarchy_chunker_links_neighbors() {
    let chunker = HeadingHierarchyChunker::new(ChunkingConfig { max_tokens: 64, overlap_tokens: 8 });
    let doc = document("# Intro\nHello there.\n\n# Next\nMore text here.");
    let result = chunker.chunk_with_graph(&doc, "pool");
    assert!(result.chunks.len() >= 2);
    for i in 0..result.chunks.len() - 1 {
        assert_eq!(result.chunks[i].next_chunk_id.as_deref(), Some(result.chunks[i + 1].id.0.as_str()));
        assert_eq!(result.chunks[i + 1].prev_chunk_id.as_deref(), Some(result.chunks[i].id.0.as_str()));
    }
    assert!(!result.sections.is_empty());
}

#[test]
fn linking_points_each_way() {
    let mk = |id: &str| Chunk {
        id: ChunkId(id.into()),
        document_id: DocumentId("d".into()),
        collection_id: CollectionId("c".into()),
        text: id.into(),
        start_offset: 0,
        end_offset: 1,
        page_number: None,
        section_title: None,
        row_sheet_info: None,
        source_filename: "f".into(),
        content_hash: id.into(),
        token_count: 1,
        parent_section_id: None,
        heading_path: None,
        chunk_index: 0,
        prev_chunk_id: None,
        next_chunk_id: None,
        contextual_text: None,
        table_id: None,
        entity_tokens: None,
    };
    let mut v = vec![mk("a"), mk("b"), mk("c")];
    link_neighbors(&mut v);
    assert_eq!(v[0].prev_chunk_id, None);
    assert_eq!(v[0].next_chunk_id.as_deref(), Some("b"));
    assert_eq!(v[1].prev_chunk_id.as_deref(), Some("a"));
    assert_eq!(v[2].next_chunk_id, None);
}

#[test]
fn importers_pick_by_extension() {
    let reg = ImporterRegistry::builtin();
    assert_eq!(reg.find("notes.MD"), Some(ImporterKind::Markdown));
    assert_eq!(reg.find("a/b/page.HTM"), Some(ImporterKind::Html));
    assert_eq!(reg.find("data.CSV"), None);
    assert_eq!(reg.find("data.csv"), Some(ImporterKind::Csv));
    assert_eq!(reg.find("book.xls"), Some(ImporterKind::Xlsx));
    assert_eq!(reg.find("README"), None);
    let list = reg.list();
    assert_eq!(list.len(), 9);
    assert_eq!(list[0].id, "builtin.txt");
    assert_eq!(list[1].extensions, vec!["md".to_string(), "markdown".to_string()]);
    assert_eq!(list[2].name, "HTML Importer");
}

#[test]
fn xml_and_csv_text() {
    assert_eq!(extract_xml_text("<a>Hello <b>big</b>\n  world</a>"), "Hello big world");
    assert_eq!(extract_xml_text("<only-tags/>"), "");
    let rows = vec![vec!["a".to_string(), "b".to_string()], vec!["c".to_string()]];
    assert_eq!(csv_text(&rows), "a, b\nc");
}

#[test]
fn dedup_result_reports_duplicates() {
    let a = document("x");
    let b = document("y");
    let r = dedup_result(Some(a.clone()), b.clone());
    assert_eq!(r.status, ImportStatus::Duplicate);
    assert_eq!(r.message, "duplicate content hash");
    assert_eq!(r.document.unwrap().extracted_text, "x");
    let r2 = dedup_result(None, b);
    assert_eq!(r2.status, ImportStatus::Imported);
    assert_eq!(r2.message, "imported successfully");
}

#[test]
fn summaries_take_first_nonblank_lines() {
    assert_eq!(summary_text("\n a \n\r\nb\r\nc\nd", 2, 400), " a  b");
    assert_eq!(summary_text("abcdef", 5, 3), "abc");
    let s = document_summary("doc1", "Title\n\nBody").unwrap();
    assert_eq!(s.summary, "Title Body");
    assert!(s.id.starts_with("sum-"));
    assert!(document_summary("doc1", "   \n\n").is_none());
}

#[test]
fn offsets_count_bytes() {
    let text = "héllo wörld";
    let chunker = RecursiveChunker::new(ChunkingConfig { max_tokens: 64, overlap_tokens: 0 });
    let chunks = chunker.chunk(&document(text), "pool");
    assert_eq!(chunks.len(), 1);
    assert_eq!(chunks[0].start_offset, 0);
    assert_eq!(chunks[0].end_offset, 13);
    assert_eq!(window_chunk("ééé", 2, 0), vec!["é".to_string(), "é".to_string(), "é".to_string()]);
    assert_eq!(window_chunk("aéb", 3, 0), vec!["aé".to_string(), "b".to_string()]);
}

#[test]
fn section_tree_uses_byte_offsets() {
    let text = "# Tête\nabc\n# B\nx";
    let nodes = build_section_tree(&document(text));
    assert_eq!(nodes.len(), 2);
    assert_eq!(nodes[0].title, "Tête");
    assert_eq!(nodes[0].level, 1);
    assert_eq!((nodes[0].start_offset, nodes[0].end_offset), (0, 12));
    assert_eq!(nodes[0].body, "# Tête\nabc\n");
    assert_eq!((nodes[1].start_offset, nodes[1].end_offset), (12, 17));
    assert_eq!(nodes[1].body, "# B\nx");
}

#[test]
fn form_feeds_make_pages() {
    let text = "# A\none\u{0C}# B\ntwo";
    let nodes = build_section_tree(&document(text));
    assert_eq!(nodes.len(), 2);
    assert_eq!(nodes[0].page_start, Some(1));
    assert_eq!((nodes[0].start_offset, nodes[0].end_offset), (0, 7));
    assert_eq!(nodes[1].page_start, Some(2));
    assert_eq!((nodes[1].start_offset, nodes[1].end_offset), (8, 15));
}

#[test]
fn stored_sections_nest_by_level() {
    let text = "# A\nx\n## B\ny\n### C\nz\n## D\nw";
    let nodes = build_section_tree(&document(text));
    assert_eq!(nodes.iter().map(|n| n.level).collect::<Vec<_>>(), vec![1, 2, 3, 2]);
    let stored = sections_to_stored("document-long-id", &nodes);
    assert_eq!(stored.len(), 4);
    assert!(stored.iter().all(|s| s.id.starts_with("document-sec-")));
    assert_eq!(stored[0].parent_section_id, None);
    assert_eq!(stored[1].parent_section_id, Some(stored[0].id.clone()));
    assert_eq!(stored[2].parent_section_id, Some(stored[1].id.clone()));
    assert_eq!(stored[3].parent_section_id, Some(stored[0].id.clone()));
    assert_eq!(stored[2].heading_path, format!("{} > {} > C", stored[0].id, stored[1].id));
    assert_eq!(stored[0].heading_path, "A");
    assert_eq!(heading_path_for(&nodes[2], &nodes), "A > B > C");
    assert_eq!(heading_path_for(&nodes[3], &nodes), "A > D");
    let at = find_section_for_offset(&stored, nodes[2].start_offset).unwrap();
    assert_eq!(at.title, "C");
    assert!(find_section_for_offset(&stored, text.len()).is_none());
}

#[test]
fn checked_splitting_refuses_cuts_inside_characters() {
    assert_eq!(try_split_recursive("short", 10), Some(vec!["short".to_string()]));
    assert_eq!(try_split_recursive("ééééé", 3), None);
    assert!(try_split_recursive("ééééé", 4).is_some());
    let chunker = RecursiveChunker::new(ChunkingConfig { max_tokens: 4, overlap_tokens: 0 });
    assert!(chunker.try_chunk(&document("First paragraph.\n\n\n\nSecond one here."), "pool").is_some());
    let tiny = RecursiveChunker::new(ChunkingConfig { max_tokens: 0, overlap_tokens: 0 });
    assert!(tiny.try_chunk(&document("text"), "pool").is_none());
}

#[test]
fn checked_graph_chunking() {
    let chunker = HeadingHierarchyChunker::new(ChunkingConfig { max_tokens: 64, overlap_tokens: 8 });
    let doc = document("# Intro\nHello there.\n\n# Next\nMore text here.");
    let checked = chunker.try_chunk_with_graph(&doc, "pool").unwrap();
    let plain = chunker.chunk_with_graph(&doc, "pool");
    assert_eq!(checked.chunks.len(), plain.chunks.len());
    for (i, c) in checked.chunks.iter().enumerate() {
        assert_eq!(c.chunk_index as usize, i);
        assert_eq!(c.text, plain.chunks[i].text);
    }
    let tiny = HeadingHierarchyChunker::new(ChunkingConfig { max_tokens: 0, overlap_tokens: 0 });
    assert!(tiny.try_chunk_with_graph(&document("no headings at all"), "pool").is_none());
}

#[test]
fn section_ids_take_eight_bytes_of_the_document_id() {
    let nodes = build_section_tree(&document("# A\nx"));
    let stored = sections_to_stored("ééééé", &nodes);
    assert!(stored[0].id.starts_with("éééé-sec-"));
    let plain = sections_to_stored("abcdefghij", &nodes);
    assert!(plain[0].id.starts_with("abcdefgh-sec-"));
}

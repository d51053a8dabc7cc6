use ashkorix::chunking::types::Chunk;
use ashkorix::cite::service::{CitationService, DefaultCitationService};
use ashkorix::cite::types::{Citation, SourceBlock};
use ashkorix::ids::{ChunkId, CollectionId, DocumentId};
use ashkorix::memory::types::{Memory, MemoryStatus, MemoryType};
use ashkorix::rag::agent::{entity_frequencies, related_chunks, supports_corpus_map, RetrievalAgent};
use ashkorix::rag::answer::{corpus_map_answer, has_memory_citations, verified_answer, verify_response};
use ashkorix::rag::prompt::{build_rag_messages, build_source_blocks, messages_to_debug_prompt, DefaultPromptBuilder, PromptBuilder};
use ashkorix::rag::retrieve::{apply_budget, apply_filters, assign_source_numbers, collect_ranked, context_budget, dedup_chunks};
use ashkorix::memory::direct::instant_text_events;
use ashkorix::memory::extract::conversation_transcript;
use ashkorix::memory::format::chat_messages_with_memory;
use ashkorix::model::{ChatMessage, TokenEvent};
use ashkorix::payloads::{closing_payload, error_payload, relay_stream, token_payload};
use ashkorix::rag::answer::RagVerification;
use ashkorix::rag::context::{expand_chunk, expand_chunks, expansion_lines, DocumentFacts, ExpansionFacts, ParentFacts};
use ashkorix::rag::types::{CorpusMapResult, UnsupportedClaim};
use ashkorix::rag::types::{RankedChunk, RetrievalFilters, RetrievalMode, SourceType};
use ashkorix::rag::verify::{claim_supported, extract_marked_claims, CitationVerifier};
use ashkorix::search::fusion::fused_source_types;
use ashkorix::search::query_plan::{decompose_subquestions, expand_acronyms, extract_keyword_query, plan_query, QueryPlan};

fn chunk(id: &str, index: u32, text: &str) -> Chunk {
    Chunk {
        id: ChunkId(id.into()),
        document_id: DocumentId("doc".into()),
        collection_id: CollectionId("pool".into()),
        text: text.into(),
        start_offset: 0,
        end_offset: 10,
        page_number: None,
        section_title: None,
        row_sheet_info: None,
        source_filename: "plan.md".into(),
        content_hash: id.into(),
        token_count: 5,
        parent_section_id: None,
        heading_path: None,
        chunk_index: index,
        prev_chunk_id: None,
        next_chunk_id: None,
        contextual_text: None,
        table_id: None,
        entity_tokens: None,
    }
}

fn ranked(id: &str, index: u32, score: f64, rerank: Option<f64>) -> RankedChunk {
    RankedChunk {
        chunk: chunk(id, index, &format!("chunk {index}")),
        score_bits: score.to_bits(),
        source_type: "both".into(),
        source_number: None,
        rerank_score_bits: rerank.map(|r| r.to_bits()),
        expanded_context: None,
    }
}

fn scope_chunk() -> RankedChunk {
    RankedChunk {
        chunk: Chunk {
            id: ChunkId("c1".into()),
            document_id: DocumentId("doc1".into()),
            collection_id: CollectionId("pool".into()),
            text: "The one sentence that defines done: upload a file, ask a local model questions, get answers with [Source N] citations, accurately.".into(),
            start_offset: 0,
            end_offset: 100,
            page_number: None,
            section_title: Some("1. Scope for this milestone".into()),
            row_sheet_info: None,
            source_filename: "plan.md".into(),
            content_hash: "h1".into(),
            token_count: 20,
            parent_section_id: None,
            heading_path: Some("1. Scope for this milestone".into()),
            chunk_index: 0,
            prev_chunk_id: None,
            next_chunk_id: None,
            contextual_text: None,
            table_id: None,
            entity_tokens: None,
        },
        score_bits: 1.0f64.to_bits(),
        source_type: "both".into(),
        source_number: Some(1),
        rerank_score_bits: Some((-6.345f64).to_bits()),
        expanded_context: None,
    }
}

fn memory(title: &str, content: &str, scope: &str) -> Memory {
    Memory {
        id: "m1".into(),
        memory_type: MemoryType::ProjectFact,
        scope: scope.into(),
        title: title.into(),
        content: content.into(),
        status: MemoryStatus::Active,
        source_type: None,
        source_ref: None,
        supersedes_id: None,
        metadata_json: None,
    }
}

fn source(number: u32, filename: &str, heading: Option<&str>, title: Option<&str>, preview: &str) -> SourceBlock {
    SourceBlock {
        number,
        filename: filename.into(),
        page_number: None,
        section_title: title.map(String::from),
        heading_path: heading.map(String::from),
        table_caption: None,
        neighbor_context: None,
        confidence: None,
        preview: preview.into(),
    }
}

fn citation(n: u32) -> Citation {
    Citation {
        source_number: n,
        document_id: "doc1".into(),
        original_filename: "a.txt".into(),
        page_number: None,
        section_title: None,
        chunk_preview: "text".into(),
        score_bits: 1.0f64.to_bits(),
        collection_name: "default".into(),
    }
}

#[test]
fn builds_prompt_with_sources() {
    let builder = DefaultPromptBuilder;
    let sources = vec![source(1, "test.txt", Some("Chapter 1"), None, "Hello world")];
    let prompt = builder.build_rag_prompt("What?", &sources, &[], &[]);
    assert!(prompt.contains("[Source 1]"));
    assert!(prompt.contains("Hello world"));
    assert!(prompt.contains("Chapter 1"));
    assert!(prompt.contains("=== SOURCES ==="));
    assert!(prompt.contains("AUTHORITATIVE MEMORY"));
}

#[test]
fn build_rag_messages_includes_memory_block() {
    let memories = vec![memory(
        "What Ashkorix is",
        "Ashkorix is intended to be a local-first GGUF model runner.",
        "project:ashkorix",
    )];
    let messages = build_rag_messages("What is Ashkorix?", &[], &[], &memories);
    assert!(messages[0].content.contains("=== AUTHORITATIVE MEMORY ==="));
    assert!(messages[0].content.contains("[Memory 1]"));
    assert!(messages[0].content.contains("local-first GGUF model runner"));
}

#[test]
fn build_rag_messages_uses_system_role() {
    let messages = build_rag_messages("What is X?", &[source(1, "a.md", None, None, "X is defined here.")], &[], &[]);
    assert_eq!(messages[0].role, "system");
    assert!(messages[0].content.contains("=== SOURCES ==="));
    assert_eq!(messages[1].role, "user");
    assert!(messages[1].content.contains("[Source N]"));
    assert!(!messages[1].content.contains("Answer ONLY from the authoritative memory"));
}

#[test]
fn build_rag_messages_user_turn_reinforces_sources_with_memory() {
    let memories = vec![memory("Scope", "Project uses local models.", "project:ashkorix")];
    let messages = build_rag_messages(
        "What is Phase 1?",
        &[source(1, "plan.md", None, Some("Phase 1"), "Phase 1 covers ingestion.")],
        &[],
        &memories,
    );
    let user = messages.last().unwrap();
    assert!(user.content.contains("[Source N]"));
    assert!(user.content.contains("[Memory N]"));
    assert!(!user.content.contains("Answer ONLY from the authoritative memory"));
}

#[test]
fn assign_source_numbers_preserves_rerank_order() {
    let chunks = vec![ranked("phase-1", 6, 0.7, Some(4.0)), ranked("overview", 4, 0.9, Some(2.0))];
    let numbered = assign_source_numbers(chunks);
    assert_eq!(numbered[0].source_number, Some(1));
    assert_eq!(numbered[0].chunk.chunk_index, 6);
    assert_eq!(numbered[1].source_number, Some(2));
    assert_eq!(numbered[1].chunk.chunk_index, 4);
}

#[test]
fn flags_hallucination_with_trailing_citation() {
    let chunks = vec![scope_chunk()];
    let answer = "Ashkorix is a fictional land mentioned in the document you uploaded. It is described as a lush green valley with rolling hills. [Source 1]";
    let unsupported = CitationVerifier::verify(answer, &[], &chunks, &[]);
    assert_eq!(unsupported.len(), 1);
    assert!(unsupported[0].sentence.contains("Ashkorix"));
}

#[test]
fn accepts_claim_grounded_in_source() {
    let chunks = vec![scope_chunk()];
    let preview: String = chunks[0].chunk.text.chars().take(200).collect();
    let citations = vec![Citation {
        source_number: 1,
        document_id: "doc1".into(),
        original_filename: "plan.md".into(),
        page_number: None,
        section_title: None,
        chunk_preview: preview,
        score_bits: 1.0f64.to_bits(),
        collection_name: "default".into(),
    }];
    let answer = "Done means uploading a file and getting cited answers from a local model. [Source 1]";
    let unsupported = CitationVerifier::verify(answer, &citations, &chunks, &[]);
    assert!(unsupported.is_empty());
}

#[test]
fn parses_citation_markers() {
    let svc = DefaultCitationService;
    let citations = vec![citation(1)];
    let result = svc.parse_markers("Answer based on [Source 1].", &citations);
    assert_eq!(result.resolved.len(), 1);
    assert!(result.dangling.is_empty());
}

#[test]
fn keyword_query_includes_phase_number() {
    let kw = extract_keyword_query("What is Phase 1?").expect("keywords");
    assert!(kw.to_lowercase().contains("phase 1"));
}

#[test]
fn markers_report_dangling_and_uncited() {
    let svc = DefaultCitationService;
    let citations = vec![citation(1), citation(2)];
    let r = svc.parse_markers("See [Source 3] and [Source 3] and [Source  2].", &citations);
    assert_eq!(r.resolved.len(), 1);
    assert_eq!(r.resolved[0].source_number, 2);
    assert_eq!(r.dangling, vec![3]);
    assert!(!r.uncited_warning);
    let none = svc.parse_markers("No markers here.", &citations);
    assert!(none.uncited_warning);
    assert!(none.resolved.is_empty());
    let empty = svc.parse_markers("No markers here.", &[]);
    assert!(!empty.uncited_warning);
}

#[test]
fn assembled_sources_are_numbered_and_previewed() {
    let svc = DefaultCitationService;
    let long = "x".repeat(600);
    let mut a = ranked("a", 0, 0.5, None);
    a.chunk.text = long;
    let b = ranked("b", 1, 0.25, None);
    let cites = svc.assemble_sources(&[a, b], "kb");
    assert_eq!(cites.len(), 2);
    assert_eq!(cites[0].source_number, 1);
    assert_eq!(cites[1].source_number, 2);
    assert_eq!(cites[0].chunk_preview.chars().count(), 500);
    assert_eq!(cites[1].collection_name, "kb");
    assert_eq!(f64::from_bits(cites[0].score_bits), 0.5);
}

#[test]
fn verify_response_warns_when_nothing_cited() {
    let chunks = vec![scope_chunk()];
    let v = verify_response("An answer without markers.", &[citation(1)], &chunks, &[]);
    assert!(v.uncited_warning);
    let w = verify_response("Uses memory [Memory 1] only.", &[citation(1)], &chunks, &[]);
    assert!(!w.uncited_warning);
    assert!(has_memory_citations("see [Memory 12]"));
    assert!(!has_memory_citations("see [Source 12]"));
}

#[test]
fn memory_claims_are_checked() {
    let memories = vec![memory("Local", "Ashkorix runs GGUF models locally on the desktop.", "global")];
    let good = CitationVerifier::verify("Ashkorix runs models locally on desktop machines. [Memory 1]", &[], &[], &memories);
    assert!(good.is_empty());
    let bad = CitationVerifier::verify("Something entirely different happened yesterday. [Memory 2]", &[], &[], &memories);
    assert_eq!(bad.len(), 1);
    assert_eq!(bad[0].reason, "Memory number not in injected set");
    assert_eq!(bad[0].cited_source, Some(2));
}

#[test]
fn short_claims_are_not_checked() {
    let claims = extract_marked_claims("Short. [Source 1] A longer sentence here. [Source 2]", "\\[Source\\s+(\\d+)\\]");
    assert_eq!(claims.len(), 1);
    assert_eq!(claims[0].0, "A longer sentence here.");
    assert_eq!(claims[0].1, 2);
    assert!(claim_supported("tiny word", "nothing"));
    assert!(!claim_supported("completely unrelated statement", "alpha beta"));
}

#[test]
fn dedup_keeps_first_per_hash() {
    let out = dedup_chunks(vec![ranked("a", 0, 0.1, None), ranked("b", 1, 0.1, None), ranked("a", 2, 0.1, None)]);
    assert_eq!(out.len(), 2);
    assert_eq!(out[0].chunk.chunk_index, 0);
    assert_eq!(out[1].chunk.chunk_index, 1);
}

#[test]
fn merge_stops_at_max() {
    let first = vec![ranked("a", 0, 0.1, None), ranked("b", 1, 0.1, None)];
    let second = vec![ranked("b", 2, 0.1, None), ranked("c", 3, 0.1, None), ranked("d", 4, 0.1, None)];
    let merged = RetrievalAgent::merge_results(first.clone(), second.clone(), 3);
    let idx: Vec<u32> = merged.iter().map(|c| c.chunk.chunk_index).collect();
    assert_eq!(idx, vec![0, 1, 3]);
    let one = RetrievalAgent::merge_results(first, second, 0);
    assert_eq!(one.len(), 1);
}

#[test]
fn budget_keeps_prefix_that_fits() {
    let mut a = ranked("a", 0, 0.1, None);
    a.chunk.token_count = 5;
    let mut b = ranked("b", 1, 0.1, None);
    b.chunk.token_count = 3;
    b.expanded_context = Some("12345678".into());
    let mut c = ranked("c", 2, 0.1, None);
    c.chunk.token_count = 1;
    let kept = apply_budget(vec![a.clone(), b.clone(), c.clone()], 10);
    assert_eq!(kept.len(), 2);
    let kept2 = apply_budget(vec![a, b, c], 9);
    assert_eq!(kept2.len(), 1);
}

#[test]
fn filters_select_chunks() {
    let mut a = ranked("a", 0, 0.1, None);
    a.chunk.page_number = Some(3);
    a.chunk.heading_path = Some("Intro > Scope".into());
    a.chunk.entity_tokens = Some("NASA FAA".into());
    let mut b = ranked("b", 1, 0.1, None);
    b.chunk.source_filename = "notes.PDF".into();
    let mut f = RetrievalFilters::default();
    assert_eq!(apply_filters(vec![a.clone(), b.clone()], &f).len(), 2);
    f.page_min = Some(2);
    let out = apply_filters(vec![a.clone(), b.clone()], &f);
    assert_eq!(out.len(), 1);
    assert_eq!(out[0].chunk.chunk_index, 0);
    let mut g = RetrievalFilters::default();
    g.file_types = vec![".pdf".into()];
    let out = apply_filters(vec![a.clone(), b.clone()], &g);
    assert_eq!(out.len(), 1);
    assert_eq!(out[0].chunk.chunk_index, 1);
    let mut h = RetrievalFilters::default();
    h.section_prefix = Some("Intro".into());
    h.entity_match = Some("nasa".into());
    assert_eq!(apply_filters(vec![a, b], &h).len(), 1);
}

#[test]
fn second_pass_wanted_when_terms_missing() {
    assert!(RetrievalAgent::needs_second_pass("anything", &[]));
    let chunks = vec![ranked("a", 0, 0.1, None)];
    assert!(RetrievalAgent::needs_second_pass("completely missing words entirely", &chunks));
    assert!(!RetrievalAgent::needs_second_pass("chunk", &chunks));
    assert!(!RetrievalAgent::needs_second_pass("a an", &chunks));
    let plan = QueryPlan { variants: vec!["q".into(), "k".into(), "z".into()] };
    assert_eq!(RetrievalAgent::second_pass_queries(&plan), vec!["k".to_string(), "z".to_string()]);
    assert!(supports_corpus_map(RetrievalMode::CorpusMap));
    assert!(!supports_corpus_map(RetrievalMode::Deep));
}

#[test]
fn source_blocks_number_and_label() {
    let mut a = ranked("a", 0, 0.1, Some(1.5));
    a.chunk.row_sheet_info = Some("Sheet1".into());
    let b = ranked("b", 1, 0.1, None);
    let blocks = build_source_blocks(&[a, b], &[Some("1.500".into()), None]);
    assert_eq!(blocks[0].number, 1);
    assert_eq!(blocks[0].confidence.as_deref(), Some("rerank_score=1.500, matched=both"));
    assert_eq!(blocks[0].table_caption.as_deref(), Some("Sheet1"));
    assert_eq!(blocks[1].number, 2);
    assert!(blocks[1].confidence.is_none());
}

#[test]
fn debug_prompt_lists_messages() {
    let messages = build_rag_messages("Q?", &[], &[], &[]);
    let p = messages_to_debug_prompt(&messages);
    assert!(p.starts_with("system: You are a document Q&A assistant"));
    assert!(p.ends_with("\n\nAssistant:"));
}

#[test]
fn modes_parse_case_insensitively() {
    assert_eq!(RetrievalMode::from_str("FAST"), RetrievalMode::Fast);
    assert_eq!(RetrievalMode::from_str("Corpus_Map"), RetrievalMode::CorpusMap);
    assert_eq!(RetrievalMode::from_str("whatever"), RetrievalMode::Balanced);
    assert_eq!(RetrievalMode::Deep.params(), (50, 50, true, 12, 5, true));
    assert_eq!(SourceType::Keyword.as_str(), "keyword");
}

#[test]
fn query_plan_variants() {
    let plan = plan_query("What is the security Phase 2 and error handling?", RetrievalMode::Deep, &["exp".to_string()]);
    assert_eq!(plan.variants[0], "What is the security Phase 2 and error handling?");
    assert!(plan.variants.len() <= 5);
    let fast = plan_query("hello world", RetrievalMode::Fast, &[]);
    assert_eq!(fast.variants, vec!["hello world".to_string()]);
    assert_eq!(expand_acronyms("Security review").unwrap(), "Security review authentication authorization encryption access control");
    assert!(expand_acronyms("nothing").is_none());
    assert_eq!(decompose_subquestions("cats and dogs and birds"), vec!["What is cats and dogs and birds?".to_string(), "Where is cats and dogs and birds documented?".to_string()]);
    assert_eq!(decompose_subquestions("alpha beta and gamma delta"), vec!["alpha beta".to_string(), "gamma delta".to_string()]);
    assert_eq!(extract_keyword_query("say \"exact phrase\" NASA"), Some("exact phrase NASA exact phrase nasa".to_string()));
}

#[test]
fn corpus_pieces() {
    let vals: Vec<String> = vec!["b".into(), "a".into(), "b".into(), "c".into(), "a".into(), "b".into()];
    let freq = entity_frequencies(&vals);
    let got: Vec<(String, u32)> = freq.iter().map(|e| (e.value.clone(), e.count)).collect();
    assert_eq!(got, vec![("b".to_string(), 3), ("a".to_string(), 2), ("c".to_string(), 1)]);
    let chunks = vec![ranked("a", 0, 0.1, None), ranked("b", 1, 0.1, None)];
    assert_eq!(related_chunks("", chunks.clone()).len(), 2);
    assert_eq!(related_chunks("CHUNK 1", chunks).len(), 1);
}

#[test]
fn fusion_marks_ids_found_by_both_searches() {
    let v = vec!["a".to_string(), "b".to_string()];
    let l = vec!["b".to_string(), "c".to_string()];
    let fused = fused_source_types(&[v, l]);
    assert_eq!(
        fused,
        vec![
            ("a".to_string(), SourceType::Vector),
            ("b".to_string(), SourceType::Both),
            ("c".to_string(), SourceType::Keyword),
        ]
    );
    assert_eq!(SourceType::Both.as_str(), "both");
    assert!(fused_source_types(&[]).is_empty());
}

#[test]
fn candidates_skip_excluded_and_missing_chunks() {
    let fused = vec![
        ("c1".to_string(), 1.5f64.to_bits(), SourceType::Both),
        ("c2".to_string(), 1.0f64.to_bits(), SourceType::Vector),
        ("c3".to_string(), 0.5f64.to_bits(), SourceType::Keyword),
        ("c4".to_string(), 0.25f64.to_bits(), SourceType::Keyword),
    ];
    let found = || vec![Some(chunk("c1", 0, "a")), None, Some(chunk("c3", 2, "c")), Some(chunk("c4", 3, "d"))];
    let ranked = collect_ranked(&fused, found(), &["c1".to_string()], 10);
    let ids: Vec<&str> = ranked.iter().map(|r| r.chunk.id.0.as_str()).collect();
    assert_eq!(ids, vec!["c3", "c4"]);
    assert_eq!(ranked[0].source_type, "keyword");
    assert_eq!(f64::from_bits(ranked[0].score_bits), 0.5);
    assert!(ranked[0].source_number.is_none() && ranked[0].rerank_score_bits.is_none());
    let capped = collect_ranked(&fused, found(), &[], 2);
    let ids: Vec<&str> = capped.iter().map(|r| r.chunk.id.0.as_str()).collect();
    assert_eq!(ids, vec!["c1", "c3"]);
    let zero = collect_ranked(&fused, found(), &[], 0);
    assert_eq!(zero.len(), 1);
    assert_eq!(context_budget(8192, 60), 4915);
}

#[test]
fn chat_turn_puts_memory_first() {
    let conversation = vec![
        ChatMessage { role: "user".into(), content: "Hi".into() },
        ChatMessage { role: "assistant".into(), content: "Hello".into() },
        ChatMessage { role: "user".into(), content: "What is Ashkorix?".into() },
    ];
    assert_eq!(conversation_transcript(&conversation), "user: Hi\nassistant: Hello\nuser: What is Ashkorix?");
    let plain = chat_messages_with_memory(&conversation, &[]);
    assert_eq!(plain.len(), 3);
    assert_eq!(plain[2].content, "What is Ashkorix?");
    let mems = vec![memory("What Ashkorix is", "Ashkorix is local-first.", "project:ashkorix")];
    let with = chat_messages_with_memory(&conversation, &mems);
    assert_eq!(with.len(), 4);
    assert_eq!(with[0].role, "system");
    assert!(with[0].content.contains("[Memory 1]"));
    assert_eq!(with[1].content, "Hi");
    assert!(with[3].content.starts_with("=== AUTHORITATIVE MEMORY ==="));
    assert!(with[3].content.ends_with("What is Ashkorix?"));
}

#[test]
fn stream_payloads() {
    let (p, stop) = token_payload(TokenEvent { token: "Hi".into(), finished: false, tokens_generated: 3 });
    assert!(!stop && p.token == "Hi" && p.tokens_generated == 3 && p.citations.is_none());
    let e = error_payload("model error: boom");
    assert_eq!(e.token, "[error: model error: boom]");
    assert!(e.finished && e.tokens_generated == 0);
    let v = RagVerification {
        resolved_citations: vec![],
        dangling_citations: vec![2],
        uncited_warning: true,
        unsupported_claims: vec![],
    };
    let last = closing_payload(v);
    assert!(last.finished && last.token.is_empty());
    assert_eq!(last.uncited_warning, Some(true));
    assert!(last.unsupported_claims.is_none());
    let v = RagVerification {
        resolved_citations: vec![],
        dangling_citations: vec![],
        uncited_warning: false,
        unsupported_claims: vec![UnsupportedClaim { sentence: "x".into(), cited_source: Some(1), reason: "r".into() }],
    };
    assert_eq!(closing_payload(v).unsupported_claims.map(|u| u.len()), Some(1));
    let events = instant_text_events("Answer".into());
    assert_eq!(events.len(), 2);
    assert!(events[0].token == "Answer" && !events[0].finished);
    assert!(events[1].finished && events[1].tokens_generated == 1);
}

#[test]
fn answers_carry_their_verification() {
    let map = CorpusMapResult { themes: vec![], entities: vec![], sections: vec![], related_chunks: vec![] };
    let a = corpus_map_answer(vec!["q".into()], map);
    assert_eq!(a.text, "Corpus Map mode returns structured overview; use the corpus_map field.");
    assert!(a.corpus_map.is_some() && a.citations.is_empty() && a.prompt.is_empty());
    assert_eq!(a.query_variants, vec!["q".to_string()]);
    let v = RagVerification {
        resolved_citations: vec![],
        dangling_citations: vec![4],
        uncited_warning: true,
        unsupported_claims: vec![],
    };
    let b = verified_answer("text".into(), v, vec![ranked("c1", 0, 1.0, None)], "prompt".into(), vec![]);
    assert_eq!(b.text, "text");
    assert_eq!(b.dangling_citations, vec![4]);
    assert!(b.uncited_warning && b.corpus_map.is_none());
    assert_eq!(b.retrieved_chunks.len(), 1);
    assert_eq!(b.prompt, "prompt");
}

fn facts_with_parent(text: &str, start: usize, end: usize) -> ExpansionFacts {
    ExpansionFacts {
        parent_section: Some(ParentFacts {
            document_text: Some(text.into()),
            start_offset: start,
            end_offset: end,
            summary: Some("About tea.".into()),
        }),
        previous_text: None,
        next_text: None,
        table: None,
        document: Some(DocumentFacts { title: Some("Notes".into()), summary: None }),
        score_text: None,
    }
}

#[test]
fn expansion_excerpts_sections_by_bytes() {
    let mut c = ranked("c1", 0, 0.5, None);
    c.chunk.parent_section_id = Some("s1".into());
    c.chunk.section_title = Some("Thé".into());
    let text = "# Thé\nGreen thé is mild.";
    let lines = expansion_lines(&c, &facts_with_parent(text, 7, 26));
    let lines: Vec<String> = lines.into_iter().map(|l| l.into_iter().collect()).collect();
    assert_eq!(
        lines,
        vec![
            "Section: Thé".to_string(),
            "Parent section: Green thé is mild.".to_string(),
            "Section summary: About tea.".to_string(),
            "Document: Notes".to_string(),
        ]
    );
    let inside_char = expansion_lines(&c, &facts_with_parent(text, 5, 26));
    assert_eq!(inside_char.len(), 3);
    let mut budgeted = c.clone();
    let spent = expand_chunk(&mut budgeted, &facts_with_parent(text, 7, 26), 0, 1000);
    let joined = lines.join("\n");
    assert_eq!(spent as usize, joined.len() / 4);
    assert_eq!(budgeted.expanded_context, Some(joined));
    let mut refused = c.clone();
    assert_eq!(expand_chunk(&mut refused, &facts_with_parent(text, 7, 26), 10, 10), 10);
    assert_eq!(refused.expanded_context, None);
}

#[test]
fn fusion_keeps_first_occurrence_order() {
    let v1 = vec!["x".to_string(), "y".to_string()];
    let k1 = vec!["z".to_string(), "x".to_string()];
    let v2 = vec!["w".to_string(), "z".to_string()];
    let ids: Vec<String> = fused_source_types(&[v1, k1, v2]).into_iter().map(|(id, _)| id).collect();
    assert_eq!(ids, vec!["x", "y", "z", "w"]);
}

#[test]
fn relay_stops_at_the_finished_piece_and_closes() {
    let ev = |t: &str, f: bool, n: u32| Ok(TokenEvent { token: t.into(), finished: f, tokens_generated: n });
    let items = vec![ev("An", false, 1), ev("swer", false, 2), ev("", true, 2), ev("late", false, 3)];
    let out = relay_stream(items, &[], &[], &[]);
    assert_eq!(out.len(), 4);
    assert_eq!(out[0].token, "An");
    assert!(out[2].finished && out[2].citations.is_none());
    assert!(out[3].finished && out[3].token.is_empty());
    assert_eq!(out[3].uncited_warning, Some(false));
    assert_eq!(out[3].citations.as_ref().map(|c| c.len()), Some(0));
    let failed = relay_stream(vec![ev("A", false, 1), Err("boom".to_string())], &[], &[], &[]);
    assert_eq!(failed.len(), 3);
    assert_eq!(failed[1].token, "[error: boom]");
    assert!(failed[2].finished);
}

#[test]
fn expansion_stops_once_the_budget_is_spent() {
    let mut c = ranked("c1", 0, 0.5, None);
    c.chunk.parent_section_id = Some("s1".into());
    c.chunk.section_title = Some("Thé".into());
    let text = "# Thé\nGreen thé is mild.";
    let facts = facts_with_parent(text, 7, 26);
    let mut probe = c.clone();
    let cost = expand_chunk(&mut probe, &facts, 0, 1000);
    assert!(cost > 0);
    let empty = ExpansionFacts {
        parent_section: None,
        previous_text: None,
        next_text: None,
        table: None,
        document: None,
        score_text: None,
    };
    let bare = ranked("c2", 1, 0.4, None);
    let mut chunks = vec![c.clone(), bare.clone()];
    expand_chunks(&mut chunks, &vec![facts_with_parent(text, 7, 26), empty], cost);
    assert!(chunks[0].expanded_context.is_some());
    assert_eq!(chunks[1].expanded_context, None);
    let mut spent = bare.clone();
    assert_eq!(expand_chunk(&mut spent, &facts_with_parent(text, 7, 26), 5, 5), 5);
    assert_eq!(spent.expanded_context, None);
}

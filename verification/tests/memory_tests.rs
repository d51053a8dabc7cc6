use ashkorix::memory::direct::try_direct_memory_answer;
use ashkorix::memory::extract::{build_extraction_prompt, parse_extraction_response, resolve_candidate, strip_code_fences, CandidateFields};
use ashkorix::memory::format::{
    augment_last_user_message, augment_user_message_for_rag, augment_user_message_with_memory,
    build_chat_memory_system_prompt, format_memory_block, memory_for_number, type_relevance_percent,
};
use ashkorix::memory::retrieve::{injected_limit, scope_match_percent};
use ashkorix::memory::store::{
    apply_memory_update, approval_input, edited_approval_input, edited_scope_content, has_duplicate_content,
    new_candidate, new_memory, new_memory_id, pending_candidate_matches, seed_inputs, stored_memory_type, CreateMemoryInput,
    EditCandidateInput, MemoryCandidate, UpdateMemoryInput,
};
use ashkorix::memory::types::{
    memory_cache_key, normalize_content, CandidateStatus, Memory, MemoryStatus, MemoryType,
};
use ashkorix::model::ChatMessage;
use ashkorix::error::AshkorixError;

fn sample_memory(content: &str, memory_type: MemoryType) -> Memory {
    Memory {
        id: "mem_test".into(),
        memory_type,
        scope: "global".into(),
        title: "Test".into(),
        content: content.into(),
        status: MemoryStatus::Active,
        source_type: None,
        source_ref: None,
        supersedes_id: None,
        metadata_json: None,
    }
}

fn fact_memory(content: &str) -> Memory {
    Memory {
        id: "m1".into(),
        memory_type: MemoryType::ProjectFact,
        scope: "project:ashkorix".into(),
        title: "Ashkorix is local-first".into(),
        content: content.into(),
        status: MemoryStatus::Active,
        source_type: None,
        source_ref: None,
        supersedes_id: None,
        metadata_json: None,
    }
}

#[test]
fn formats_memory_block() {
    let memories = vec![sample_memory("Ashkorix is local-first.", MemoryType::ProjectFact)];
    let block = format_memory_block(&memories);
    assert!(block.contains("=== AUTHORITATIVE MEMORY ==="));
    assert!(block.contains("[Memory 1]"));
    assert!(block.contains("[Project Fact]"));
    assert!(block.contains("Ashkorix is local-first."));
}

#[test]
fn empty_memories_returns_empty_string() {
    assert!(format_memory_block(&[]).is_empty());
}

#[test]
fn chat_prompt_includes_grounding_rules() {
    let memories = vec![sample_memory("Ashkorix is local-first.", MemoryType::ProjectFact)];
    let prompt = build_chat_memory_system_prompt(&memories);
    assert!(prompt.contains("Do not contradict memory"));
    assert!(prompt.contains("[Memory 1]"));
}

#[test]
fn answers_what_is_from_project_fact() {
    let memories = vec![fact_memory("Ashkorix is intended to be a local-first GGUF model runner.")];
    let answer = try_direct_memory_answer("What is Ashkorix?", &memories);
    assert!(answer.is_some());
    let answer = answer.unwrap();
    assert!(answer.contains("local-first GGUF model runner"));
    assert!(answer.contains("[Memory 1]"));
}

#[test]
fn skips_non_lookup_questions() {
    let memories = vec![fact_memory("Ashkorix is local-first.")];
    assert!(try_direct_memory_answer("How do I build the index?", &memories).is_none());
}

#[test]
fn skips_preference_memories_for_lookup() {
    let memories = vec![Memory {
        id: "m2".into(),
        memory_type: MemoryType::UserPreference,
        scope: "global".into(),
        title: "Style".into(),
        content: "The user prefers practical details.".into(),
        status: MemoryStatus::Active,
        source_type: None,
        source_ref: None,
        supersedes_id: None,
        metadata_json: None,
    }];
    assert!(try_direct_memory_answer("What is Ashkorix?", &memories).is_none());
}

#[test]
fn scope_prefers_conversation() {
    assert!(scope_match_percent("conversation:abc", "abc") > scope_match_percent("global", "abc"));
}

#[test]
fn parses_json_array() {
    let json = r#"[
            {
                "proposed_type": "project_fact",
                "proposed_scope": "project:ashkorix",
                "proposed_title": "Local-first",
                "proposed_content": "Ashkorix is local-first.",
                "importance": 0.9,
                "confidence": 1.0
            }
        ]"#;
    let parsed = parse_extraction_response(json).unwrap();
    assert_eq!(parsed.len(), 1);
    assert_eq!(parsed[0].proposed_type, MemoryType::ProjectFact);
}

#[test]
fn strips_markdown_fences() {
    let json = "```json\n[{\"proposed_type\":\"decision\",\"proposed_scope\":\"global\",\"proposed_title\":\"T\",\"proposed_content\":\"C\",\"importance\":0.8,\"confidence\":0.9}]\n```";
    let parsed = parse_extraction_response(json).unwrap();
    assert_eq!(parsed.len(), 1);
}

#[test]
fn extraction_errors_name_the_problem() {
    let msg = |t: &str| match parse_extraction_response(t) {
        Err(AshkorixError::Config(m)) => m,
        other => panic!("expected a configuration error, got {:?}", other.map(|v| v.len())),
    };
    assert!(msg("not json").starts_with("failed to parse memory extraction JSON: "));
    assert_eq!(msg("{\"a\": 1}"), "memory extraction response must be a JSON array");
    assert_eq!(msg("[1]"), "each memory candidate must be a JSON object");
    assert_eq!(msg("[{\"type\": \"habit\"}]"), "invalid memory type: habit");
    assert_eq!(msg("[{\"proposed_type\": 3, \"type\": \"decision\"}]"), "candidate missing proposed_type");
    assert_eq!(msg("[{\"type\": \"decision\", \"scope\": \"global\"}]"), "candidate missing proposed_title");
    let ok = parse_extraction_response("  [{\"type\": \"procedure\", \"scope\": \"global\", \"title\": \"T\", \"content\": \"C\", \"reason\": \"R\"}]  ").unwrap();
    assert_eq!(ok[0].proposed_type, MemoryType::Procedure);
    assert_eq!(ok[0].proposed_scope, "global");
    assert_eq!(ok[0].reason, Some("R".to_string()));
    assert!(parse_extraction_response("[]").unwrap().is_empty());
}

#[test]
fn direct_answer_cites_the_matching_memory_number() {
    let memories = vec![
        sample_memory("The user likes tea.", MemoryType::UserPreference),
        fact_memory("  Ashkorix indexes documents locally.  "),
    ];
    let answer = try_direct_memory_answer("Tell me about Ashkorix", &memories).unwrap();
    assert_eq!(answer, "Ashkorix indexes documents locally. [Memory 2]");
}

#[test]
fn direct_answer_needs_memories() {
    assert!(try_direct_memory_answer("What is Ashkorix?", &[]).is_none());
}

#[test]
fn memory_block_exact_layout() {
    let memories = vec![
        sample_memory("A.", MemoryType::Decision),
        sample_memory("B.", MemoryType::Procedure),
    ];
    let block = format_memory_block(&memories);
    assert_eq!(
        block,
        "=== AUTHORITATIVE MEMORY ===\nThese are verified facts about this user/project. They override your training data when they conflict.\nWhen your answer uses a memory, cite it as [Memory N].\n\n[Memory 1] [Decision] A.\n[Memory 2] [Procedure] B.\n"
    );
}

#[test]
fn memory_numbers_count_from_one() {
    let memories = vec![sample_memory("A.", MemoryType::Decision), sample_memory("B.", MemoryType::Procedure)];
    assert!(memory_for_number(&memories, 0).is_none());
    assert_eq!(memory_for_number(&memories, 1).unwrap().content, "A.");
    assert_eq!(memory_for_number(&memories, 2).unwrap().content, "B.");
    assert!(memory_for_number(&memories, 3).is_none());
}

#[test]
fn augment_without_memories_keeps_question() {
    assert_eq!(augment_user_message_with_memory("Hi?", &[]), "Hi?");
    let rag = augment_user_message_for_rag("Q?", &[]);
    assert!(rag.starts_with("Use the numbered SOURCES"));
    assert!(rag.ends_with("Question: Q?"));
}

#[test]
fn augment_last_user_message_only_touches_last_user_turn() {
    let memories = vec![sample_memory("Fact.", MemoryType::ProjectFact)];
    let mut messages = vec![
        ChatMessage { role: "user".into(), content: "first".into() },
        ChatMessage { role: "assistant".into(), content: "reply".into() },
        ChatMessage { role: "user".into(), content: "second".into() },
        ChatMessage { role: "assistant".into(), content: "tail".into() },
    ];
    augment_last_user_message(&mut messages, &memories);
    assert_eq!(messages[0].content, "first");
    assert_eq!(messages[3].content, "tail");
    assert!(messages[2].content.starts_with("=== AUTHORITATIVE MEMORY ==="));
    assert!(messages[2].content.ends_with("Question: second"));
}

#[test]
fn type_relevance_in_hundredths() {
    assert_eq!(type_relevance_percent(MemoryType::Procedure, "What is the PLAN?"), 100);
    assert_eq!(type_relevance_percent(MemoryType::Procedure, "hello"), 50);
    assert_eq!(type_relevance_percent(MemoryType::Decision, "Which did we choose?"), 55);
    assert_eq!(type_relevance_percent(MemoryType::Decision, "Why was it chosen?"), 100);
    assert_eq!(type_relevance_percent(MemoryType::ProjectFact, "tell me about it"), 90);
    assert_eq!(type_relevance_percent(MemoryType::UserPreference, "plan"), 65);
}

#[test]
fn scope_scores_in_hundredths() {
    assert_eq!(scope_match_percent("conversation:abc", "abc"), 100);
    assert_eq!(scope_match_percent("project:x", "abc"), 75);
    assert_eq!(scope_match_percent("global", "abc"), 50);
    assert_eq!(scope_match_percent("conversation:zzz", "abc"), 40);
    assert_eq!(injected_limit(0), 3);
    assert_eq!(injected_limit(5), 5);
    assert_eq!(injected_limit(20), 8);
}

#[test]
fn memory_type_names_round_trip() {
    for t in [MemoryType::UserPreference, MemoryType::ProjectFact, MemoryType::Decision, MemoryType::Procedure] {
        assert_eq!(MemoryType::from_str(t.as_str()), Some(t));
    }
    for s in [MemoryStatus::Active, MemoryStatus::Inactive, MemoryStatus::Superseded, MemoryStatus::Deleted] {
        assert_eq!(MemoryStatus::from_str(s.as_str()), Some(s));
    }
    for c in [CandidateStatus::Pending, CandidateStatus::Approved, CandidateStatus::Rejected, CandidateStatus::Edited] {
        assert_eq!(CandidateStatus::from_str(c.as_str()), Some(c));
    }
    assert_eq!(MemoryType::from_str("nonsense"), None);
    assert_eq!(stored_memory_type("nonsense"), MemoryType::ProjectFact);
    assert_eq!(MemoryType::ProjectFact.label(), "Project Fact");
}

#[test]
fn normalize_collapses_space_and_case() {
    assert_eq!(normalize_content("  Hello   WORLD\n again "), "hello world again");
    assert!(has_duplicate_content(&["hello  world".to_string()], "Hello World"));
    assert!(!has_duplicate_content(&["hello world!".to_string()], "Hello World"));
    let pending = vec![("global".to_string(), "A  b".to_string())];
    assert!(pending_candidate_matches(&pending, "global", "a B"));
    assert!(!pending_candidate_matches(&pending, "project:x", "a B"));
}

#[test]
fn ids_and_keys_use_short_hashes() {
    let key = memory_cache_key("abc");
    assert!(key.starts_with("mem:"));
    assert_eq!(key.len(), 4 + 16);
    let id = new_memory_id("t", "c", "2024");
    assert!(id.starts_with("mem_"));
    assert_eq!(id.len(), 4 + 12);
    assert_ne!(new_memory_id("t", "c", "2024"), new_memory_id("t", "c", "2025"));
}

#[test]
fn code_fences_left_alone_without_fence() {
    assert_eq!(strip_code_fences("[1, 2]"), "[1, 2]");
    assert_eq!(strip_code_fences("```\n[3]\n```"), "[3]");
    assert_eq!(strip_code_fences("```json no closing"), "```json no closing");
}

#[test]
fn candidate_fields_resolve_in_order() {
    let fields = CandidateFields {
        type_value: Some("decision".into()),
        proposed_scope: None,
        scope: Some("global".into()),
        proposed_title: Some("T".into()),
        title: Some("ignored".into()),
        proposed_content: Some("C".into()),
        content: None,
        reason: None,
    };
    let c = resolve_candidate(fields.clone()).unwrap();
    assert_eq!(c.proposed_type, MemoryType::Decision);
    assert_eq!(c.proposed_scope, "global");
    assert_eq!(c.proposed_title, "T");
    let mut bad = fields.clone();
    bad.type_value = Some("weird".into());
    match resolve_candidate(bad) {
        Err(AshkorixError::Config(m)) => assert_eq!(m, "invalid memory type: weird"),
        _ => panic!("expected a configuration error"),
    }
    let mut missing = fields;
    missing.proposed_content = None;
    match resolve_candidate(missing) {
        Err(AshkorixError::Config(m)) => assert_eq!(m, "candidate missing proposed_content"),
        _ => panic!("expected a configuration error"),
    }
}

#[test]
fn extraction_prompt_embeds_inputs() {
    let p = build_extraction_prompt("user: hi", "project:x", "0.75");
    assert!(p.contains("(below 0.75)"));
    assert!(p.contains("Active project scope: project:x"));
    assert!(p.ends_with("Conversation:\nuser: hi"));
}

fn candidate() -> MemoryCandidate {
    MemoryCandidate {
        id: "cand_1".into(),
        proposed_type: MemoryType::Decision,
        proposed_scope: "project:ashkorix".into(),
        proposed_title: "Use SQLite".into(),
        proposed_content: "Store memories in SQLite.".into(),
        reason: Some("stated twice".into()),
        source_type: Some("chat".into()),
        source_ref: Some("session-1".into()),
        status: CandidateStatus::Pending,
    }
}

fn no_edit() -> EditCandidateInput {
    EditCandidateInput { proposed_type: None, proposed_scope: None, proposed_title: None, proposed_content: None }
}

#[test]
fn update_replaces_given_fields_only() {
    let mut m = sample_memory("old content", MemoryType::ProjectFact);
    let u = UpdateMemoryInput {
        memory_type: None,
        scope: Some("project:x".into()),
        title: None,
        content: Some("new content".into()),
        status: Some(MemoryStatus::Superseded),
        metadata_json: Some("{}".into()),
    };
    apply_memory_update(&mut m, &u);
    assert_eq!(m.scope, "project:x");
    assert_eq!(m.content, "new content");
    assert_eq!(m.title, "Test");
    assert_eq!(m.memory_type, MemoryType::ProjectFact);
    assert_eq!(m.status, MemoryStatus::Superseded);
    assert_eq!(m.metadata_json, Some("{}".to_string()));
    assert_eq!(m.id, "mem_test");
    let before = m.clone();
    apply_memory_update(&mut m, &u);
    assert_eq!(m.content, before.content);
    assert_eq!(m.scope, before.scope);
    let empty = UpdateMemoryInput { memory_type: None, scope: None, title: None, content: None, status: None, metadata_json: None };
    apply_memory_update(&mut m, &empty);
    assert_eq!(m.title, before.title);
    assert_eq!(m.metadata_json, before.metadata_json);
}

#[test]
fn approving_copies_the_candidate() {
    let c = candidate();
    let i = approval_input(&c, false).unwrap();
    assert_eq!(i.memory_type, MemoryType::Decision);
    assert_eq!(i.scope, "project:ashkorix");
    assert_eq!(i.title, "Use SQLite");
    assert_eq!(i.content, "Store memories in SQLite.");
    assert_eq!(i.source_ref, Some("session-1".to_string()));
    assert_eq!(i.supersedes_id, None);
    match approval_input(&c, true) {
        Err(AshkorixError::Config(m)) => {
            assert_eq!(m, "an active memory with the same content already exists in this scope")
        },
        _ => panic!("a duplicate must be refused"),
    }
    let m = new_memory(&i, "2024-01-01T00:00:00Z");
    assert_eq!(m.id, new_memory_id("Use SQLite", "Store memories in SQLite.", "2024-01-01T00:00:00Z"));
    assert!(m.id.starts_with("mem_"));
    assert_eq!(m.status, MemoryStatus::Active);
    assert_eq!(m.content, "Store memories in SQLite.");
}

#[test]
fn editing_overrides_given_fields() {
    let c = candidate();
    let e = EditCandidateInput {
        proposed_type: Some(MemoryType::Procedure),
        proposed_scope: None,
        proposed_title: None,
        proposed_content: Some("Keep memories in SQLite.".into()),
    };
    let (scope, content) = edited_scope_content(&c, &e);
    assert_eq!(scope, "project:ashkorix");
    assert_eq!(content, "Keep memories in SQLite.");
    let i = edited_approval_input(&c, &e, false).unwrap();
    assert_eq!(i.memory_type, MemoryType::Procedure);
    assert_eq!(i.title, "Use SQLite");
    assert_eq!(i.content, "Keep memories in SQLite.");
    assert_eq!(i.source_type, Some("chat".to_string()));
    assert!(edited_approval_input(&c, &e, true).is_err());
    let plain: CreateMemoryInput = approval_input(&c, false).unwrap();
    let unedited = edited_approval_input(&c, &no_edit(), false).unwrap();
    assert_eq!((plain.memory_type, plain.scope, plain.title, plain.content), (unedited.memory_type, unedited.scope, unedited.title, unedited.content));
}

#[test]
fn new_candidates_are_pending() {
    let c = new_candidate(MemoryType::UserPreference, "global", "Short answers", "Prefers short answers.", None, Some("conversation".into()), Some("s1".into()), "t0");
    assert_eq!(c.status, CandidateStatus::Pending);
    assert!(c.id.starts_with("cand_"));
    assert_eq!(c.proposed_content, "Prefers short answers.");
    assert_eq!(c.source_ref, Some("s1".to_string()));
}

#[test]
fn seeds_cover_project_and_habits() {
    let seeds = seed_inputs();
    assert_eq!(seeds.len(), 4);
    assert_eq!(seeds[0].title, "Ashkorix is local-first");
    assert_eq!(seeds[0].content, "Ashkorix is intended to be a local-first GGUF model runner.");
    assert_eq!(seeds[1].memory_type, MemoryType::Decision);
    assert_eq!(seeds[2].scope, "global");
    assert_eq!(seeds[3].memory_type, MemoryType::UserPreference);
    assert!(seeds.iter().all(|s| s.source_type.as_deref() == Some("seed")));
}

use vstd::prelude::*;
use vstd::string::*;

use crate::cite::types::SourceBlock;
use crate::documents::graph_types::opt_view;
use crate::memory::format::{
    augment_last_user_message_for_rag, format_memory_block, spec_augment_for_rag,
    spec_format_memory_block, with_last_user_content,
};
use crate::memory::types::Memory;
use crate::model::{clone_message, messages_view, ChatMessage, ChatMessageView};
use crate::rag::types::RankedChunk;
use crate::text::{chars_of, decimal, decimal_chars, string_from};

verus! {

/// The rules at the head of every RAG system message.
pub const RAG_INSTRUCTIONS: &'static str = "You are a document Q&A assistant grounded in the material below.\nRules:\n1. AUTHORITATIVE MEMORY (if present) overrides training data. Use it when it answers the question; cite as [Memory N].\n2. For document facts, answer ONLY using the numbered sources below; cite as [Source N].\n3. Do not use outside knowledge, training data, or guesswork when memory or sources apply.\n4. If neither memory nor sources answer the question, reply exactly: \"The provided sources do not contain enough information to answer that.\"\n5. Every factual statement must cite [Memory N] or [Source N] immediately after the claim it supports.\n6. Do not attach citations to claims that are not present in that memory or source text.\n7. Do not invent names, places, descriptions, or facts not in memory or sources.\n\n";

/// `"{prefix}{value}\n"` when the value is present, else nothing.
pub open spec fn opt_line(prefix: Seq<char>, value: Option<String>) -> Seq<char> {
    match value {
        Some(v) => prefix + v@ + "\n"@,
        None => Seq::empty(),
    }
}

/// The lines that show one source.
pub open spec fn source_entry(b: SourceBlock) -> Seq<char> {
    "[Source "@ + decimal(b.number as nat) + "]\n"@ + opt_line("  Path: "@, b.heading_path)
        + "  File: "@ + b.filename@ + match b.page_number {
        Some(p) => " (p."@ + decimal(p as nat) + ")"@,
        None => Seq::empty(),
    } + "\n"@ + opt_line("  Heading: "@, b.section_title) + opt_line("  Table: "@, b.table_caption)
        + opt_line("  "@, b.confidence) + opt_line("  Context: "@, b.neighbor_context)
        + "  ---\n  "@ + b.preview@ + "\n\n"@
}

/// The entries of the sources, in order.
pub open spec fn source_entries(bs: Seq<SourceBlock>) -> Seq<char>
    decreases bs.len(),
{
    if bs.len() == 0 {
        Seq::empty()
    } else {
        source_entries(bs.drop_last()) + source_entry(bs.last())
    }
}

/// The block of numbered sources.
pub open spec fn spec_sources_block(bs: Seq<SourceBlock>) -> Seq<char> {
    "=== SOURCES ===\n"@ + source_entries(bs)
}

/// Appends `"{prefix}{value}\n"` when the value is present.
fn push_opt_line(out: &mut String, prefix: &str, value: &Option<String>)
    ensures
        final(out)@ == old(out)@ + opt_line(prefix@, *value),
{
    match value {
        Some(v) => {
            out.append(prefix);
            out.append(v.as_str());
            out.append("\n");
        },
        None => {
            assert(old(out)@ + Seq::<char>::empty() == old(out)@);
        },
    }
}

/// The lines that show one source.
fn source_entry_string(b: &SourceBlock) -> (r: String)
    ensures
        r@ == source_entry(*b),
{
    let mut s = String::from_str("[Source ");
    let n = string_from(decimal_chars(b.number as u64).as_slice());
    s.append(n.as_str());
    s.append("]\n");
    push_opt_line(&mut s, "  Path: ", &b.heading_path);
    s.append("  File: ");
    s.append(b.filename.as_str());
    match b.page_number {
        Some(p) => {
            s.append(" (p.");
            let ps = string_from(decimal_chars(p as u64).as_slice());
            s.append(ps.as_str());
            s.append(")");
        },
        None => {},
    }
    s.append("\n");
    push_opt_line(&mut s, "  Heading: ", &b.section_title);
    push_opt_line(&mut s, "  Table: ", &b.table_caption);
    push_opt_line(&mut s, "  ", &b.confidence);
    push_opt_line(&mut s, "  Context: ", &b.neighbor_context);
    s.append("  ---\n  ");
    s.append(b.preview.as_str());
    s.append("\n\n");
    s
}

/// The block of numbered sources: a heading, then for each source its number, path, file
/// (with page), heading, table, confidence and context lines where present, and its preview.
pub fn format_sources_block(sources: &[SourceBlock]) -> (r: String)
    ensures
        r@ == spec_sources_block(sources@),
{
    let mut block = String::from_str("=== SOURCES ===\n");
    let mut i: usize = 0;
    while i < sources.len()
        invariant
            i <= sources@.len(),
            block@ == "=== SOURCES ===\n"@ + source_entries(sources@.take(i as int)),
        decreases sources@.len() - i,
    {
        let e = source_entry_string(&sources[i]);
        block.append(e.as_str());
        proof {
            let t = sources@.take(i as int + 1);
            assert(t.drop_last() == sources@.take(i as int));
            assert(t.last() == sources@[i as int]);
        }
        i += 1;
    }
    assert(sources@.take(sources@.len() as int) == sources@);
    block
}

/// The messages laid out as one prompt, each as `role: content` and a blank line, ending
/// with `Assistant:`.
pub open spec fn debug_lines(ms: Seq<ChatMessageView>) -> Seq<char>
    decreases ms.len(),
{
    if ms.len() == 0 {
        Seq::empty()
    } else {
        debug_lines(ms.drop_last()) + ms.last().role + ": "@ + ms.last().content + "\n\n"@
    }
}

/// The messages laid out as one prompt for display.
pub open spec fn spec_debug_prompt(ms: Seq<ChatMessageView>) -> Seq<char> {
    debug_lines(ms) + "Assistant:"@
}

/// Lays the messages out as one prompt for display.
pub fn messages_to_debug_prompt(messages: &[ChatMessage]) -> (r: String)
    ensures
        r@ == spec_debug_prompt(messages_view(messages@)),
{
    let ghost mv = messages_view(messages@);
    let mut prompt = String::new();
    let mut i: usize = 0;
    while i < messages.len()
        invariant
            i <= messages@.len(),
            mv == messages_view(messages@),
            prompt@ == debug_lines(mv.take(i as int)),
        decreases messages@.len() - i,
    {
        prompt.append(messages[i].role.as_str());
        prompt.append(": ");
        prompt.append(messages[i].content.as_str());
        prompt.append("\n\n");
        proof {
            let t = mv.take(i as int + 1);
            assert(t.drop_last() == mv.take(i as int));
            assert(t.last() == mv[i as int]);
        }
        i += 1;
    }
    assert(mv.take(mv.len() as int) == mv);
    prompt.append("Assistant:");
    prompt
}

/// The system message of a RAG conversation: the rules, the memory block and a blank line
/// when there are memories, then the sources.
pub open spec fn spec_rag_system(sources: Seq<SourceBlock>, ms: Seq<Memory>) -> Seq<char> {
    RAG_INSTRUCTIONS@ + (if ms.len() == 0 {
        Seq::empty()
    } else {
        spec_format_memory_block(ms) + "\n"@
    }) + spec_sources_block(sources)
}

/// The messages of a RAG request before the user turn is reinforced: the system message,
/// then the conversation, or the question as the one user message when there is no
/// conversation.
pub open spec fn spec_rag_base(
    question: Seq<char>,
    sources: Seq<SourceBlock>,
    conversation: Seq<ChatMessageView>,
    ms: Seq<Memory>,
) -> Seq<ChatMessageView> {
    seq![ChatMessageView { role: "system"@, content: spec_rag_system(sources, ms) }] + if conversation.len()
        == 0 {
        seq![ChatMessageView { role: "user"@, content: question }]
    } else {
        conversation
    }
}

/// The messages of a RAG request: the base messages with the last user turn reinforced.
pub open spec fn spec_rag_messages(
    question: Seq<char>,
    sources: Seq<SourceBlock>,
    conversation: Seq<ChatMessageView>,
    ms: Seq<Memory>,
) -> Seq<ChatMessageView> {
    with_last_user_content(
        spec_rag_base(question, sources, conversation, ms),
        |c: Seq<char>| spec_augment_for_rag(c, ms),
    )
}

/// The messages sent to the model for a RAG question: a system message with the rules,
/// memories and sources, then the conversation (or the question alone), the last user turn
/// reminded to cite memory and sources.
pub fn build_rag_messages(
    question: &str,
    sources: &[SourceBlock],
    conversation: &[ChatMessage],
    memories: &[Memory],
) -> (r: Vec<ChatMessage>)
    ensures
        messages_view(r@) == spec_rag_messages(
            question@,
            sources@,
            messages_view(conversation@),
            memories@,
        ),
{
    let mut system = String::from_str(RAG_INSTRUCTIONS);
    if memories.len() != 0 {
        let block = format_memory_block(memories);
        system.append(block.as_str());
        system.append("\n");
    }
    let sb = format_sources_block(sources);
    system.append(sb.as_str());
    proof {
        if memories@.len() == 0 {
            assert(RAG_INSTRUCTIONS@ + Seq::<char>::empty() == RAG_INSTRUCTIONS@);
        }
    }
    assert(system@ == spec_rag_system(sources@, memories@));
    let mut messages: Vec<ChatMessage> = Vec::new();
    messages.push(ChatMessage { role: String::from_str("system"), content: system });
    let ghost head = messages_view(messages@);
    assert(head =~= seq![
        ChatMessageView { role: "system"@, content: spec_rag_system(sources@, memories@) },
    ]);
    if conversation.len() == 0 {
        messages.push(ChatMessage { role: String::from_str("user"), content: String::from_str(question) });
        assert(messages_view(messages@) =~= head + seq![
            ChatMessageView { role: "user"@, content: question@ },
        ]);
    } else {
        let ghost cv = messages_view(conversation@);
        let mut i: usize = 0;
        while i < conversation.len()
            invariant
                i <= conversation@.len(),
                cv == messages_view(conversation@),
                messages_view(messages@) == head + cv.take(i as int),
            decreases conversation@.len() - i,
        {
            let ghost before = messages_view(messages@);
            messages.push(clone_message(&conversation[i]));
            assert(messages_view(messages@) =~= before.push(cv[i as int]));
            assert(cv.take(i as int + 1) == cv.take(i as int).push(cv[i as int]));
            i += 1;
        }
        assert(cv.take(cv.len() as int) == cv);
    }
    assert(messages_view(messages@) == spec_rag_base(
        question@,
        sources@,
        messages_view(conversation@),
        memories@,
    ));
    augment_last_user_message_for_rag(&mut messages, memories);
    messages
}

/// The first (at most) `n` characters of `s`.
pub open spec fn prefix_chars(s: Seq<char>, n: nat) -> Seq<char> {
    if s.len() <= n {
        s
    } else {
        s.take(n as int)
    }
}

/// The source block shown for the `i`-th retrieved chunk (numbered `i + 1`), with
/// `score_text` the chunk's rerank score as printed to three decimals, if it has one.
pub open spec fn source_block_of(i: int, rc: RankedChunk, score_text: Option<String>) -> crate::cite::types::SourceBlockView {
    crate::cite::types::SourceBlockView {
        number: (i + 1) as u32,
        filename: rc.chunk.source_filename@,
        page_number: rc.chunk.page_number,
        section_title: opt_view(rc.chunk.section_title),
        heading_path: opt_view(rc.chunk.heading_path),
        table_caption: opt_view(rc.chunk.row_sheet_info),
        neighbor_context: opt_view(rc.expanded_context),
        confidence: match score_text {
            Some(t) => Some("rerank_score="@ + t@ + ", matched="@ + rc.source_type@),
            None => None,
        },
        preview: prefix_chars(rc.chunk.text@, 500),
    }
}

/// The first (at most) `n` characters of `s`.
pub fn prefix_string(s: &str, n: usize) -> (r: String)
    ensures
        r@ == prefix_chars(s@, n as nat),
{
    let cs = chars_of(s);
    if cs.len() <= n {
        string_from(cs.as_slice())
    } else {
        string_from(&cs.as_slice()[0..n])
    }
}

/// Copies an optional string.
fn clone_opt_string(o: &Option<String>) -> (r: Option<String>)
    ensures
        opt_view(r) == opt_view(*o),
{
    match o {
        Some(s) => Some(s.clone()),
        None => None,
    }
}

/// The numbered source blocks for retrieved chunks, in order. `score_texts[i]` is the rerank
/// score of the `i`-th chunk printed to three decimals, where it has one.
pub fn build_source_blocks(chunks: &[RankedChunk], score_texts: &[Option<String>]) -> (r: Vec<
    SourceBlock,
>)
    requires
        score_texts@.len() == chunks@.len(),
    ensures
        r@.len() == chunks@.len(),
        forall|i: int|
            0 <= i < r@.len() ==> (#[trigger] r@[i])@ == source_block_of(
                i,
                chunks@[i],
                score_texts@[i],
            ),
{
    let mut out: Vec<SourceBlock> = Vec::new();
    let mut i: usize = 0;
    while i < chunks.len()
        invariant
            i <= chunks@.len(),
            score_texts@.len() == chunks@.len(),
            out@.len() == i,
            forall|k: int|
                0 <= k < i ==> (#[trigger] out@[k])@ == source_block_of(
                    k,
                    chunks@[k],
                    score_texts@[k],
                ),
        decreases chunks@.len() - i,
    {
        let rc = &chunks[i];
        let confidence = match &score_texts[i] {
            Some(t) => {
                let mut c = String::from_str("rerank_score=");
                c.append(t.as_str());
                c.append(", matched=");
                c.append(rc.source_type.as_str());
                Some(c)
            },
            None => None,
        };
        #[verifier::truncate]
        let number = (i + 1) as u32;
        let b = SourceBlock {
            number,
            filename: rc.chunk.source_filename.clone(),
            page_number: rc.chunk.page_number,
            section_title: clone_opt_string(&rc.chunk.section_title),
            heading_path: clone_opt_string(&rc.chunk.heading_path),
            table_caption: clone_opt_string(&rc.chunk.row_sheet_info),
            neighbor_context: clone_opt_string(&rc.expanded_context),
            confidence,
            preview: prefix_string(rc.chunk.text.as_str(), 500),
        };
        out.push(b);
        i += 1;
    }
    out
}

/// Builds the prompt of a RAG question.
pub trait PromptBuilder {
    /// The prompt for a question, its sources, the conversation so far and the memories.
    fn build_rag_prompt(
        &self,
        question: &str,
        sources: &[SourceBlock],
        conversation: &[ChatMessage],
        memories: &[Memory],
    ) -> String;
}

/// The prompt builder of the library: the RAG messages laid out as one prompt.
pub struct DefaultPromptBuilder;

impl PromptBuilder for DefaultPromptBuilder {
    fn build_rag_prompt(
        &self,
        question: &str,
        sources: &[SourceBlock],
        conversation: &[ChatMessage],
        memories: &[Memory],
    ) -> (r: String)
        ensures
            r@ == spec_debug_prompt(
                spec_rag_messages(question@, sources@, messages_view(conversation@), memories@),
            ),
    {
        let messages = build_rag_messages(question, sources, conversation, memories);
        messages_to_debug_prompt(messages.as_slice())
    }
}

} // verus!

use vstd::prelude::*;
use vstd::string::*;

use crate::documents::types::str_eq;
use crate::memory::types::{spec_memory_type_label, Memory, MemoryType};
use crate::model::{clone_message, messages_view, ChatMessage, ChatMessageView};
use crate::text::{contains, decimal, decimal_chars, lower_str, contains_chars, chars_of, lowercase, string_from};

verus! {

/// The heading of the block of memories put before a model.
pub const MEMORY_BLOCK_HEADER: &'static str = "=== AUTHORITATIVE MEMORY ===\nThese are verified facts about this user/project. They override your training data when they conflict.\nWhen your answer uses a memory, cite it as [Memory N].\n\n";

/// The rules put before the memory block in a chat system prompt.
pub const CHAT_MEMORY_INSTRUCTIONS: &'static str = "You are Ashkorix, a local assistant.\nRules:\n1. When authoritative memory is provided below, treat it as ground truth about this user/project.\n2. Do not contradict memory with training data or general world knowledge.\n3. If memory answers the question, use it and cite as [Memory N].\n4. If you lack relevant memory and the user asks about their project, say you do not have that information.\n\n";

/// What follows the memory block in a chat user turn, before the question.
pub const MEMORY_ONLY_DIRECTIVE: &'static str = "CRITICAL: Answer ONLY from the authoritative memory above. Do NOT use training data or general world knowledge.\n\nQuestion: ";

/// The line that asks a RAG answer to use memory.
pub const RAG_MEMORY_LINE: &'static str = "Use authoritative memory when it applies; cite as [Memory N].\n";

/// What a RAG user turn says before the question.
pub const RAG_SOURCES_DIRECTIVE: &'static str = "Use the numbered SOURCES from the system message for document facts; cite as [Source N].\nDo not answer from training data or guesswork when memory or sources apply.\nIf neither memory nor sources answer the question, reply exactly: \"The provided sources do not contain enough information to answer that.\"\n\nQuestion: ";

/// The line of the memory block for the memory numbered `n`.
pub open spec fn memory_entry(n: nat, m: Memory) -> Seq<char> {
    "[Memory "@ + decimal(n) + "] ["@ + spec_memory_type_label(m.memory_type) + "] "@
        + m.content@ + "\n"@
}

/// The lines of the memory block, numbered from 1.
pub open spec fn memory_entries(ms: Seq<Memory>) -> Seq<char>
    decreases ms.len(),
{
    if ms.len() == 0 {
        Seq::empty()
    } else {
        memory_entries(ms.drop_last()) + memory_entry(ms.len(), ms.last())
    }
}

/// The memory block: empty without memories, else the heading and one numbered line per
/// memory.
pub open spec fn spec_format_memory_block(ms: Seq<Memory>) -> Seq<char> {
    if ms.len() == 0 {
        Seq::empty()
    } else {
        MEMORY_BLOCK_HEADER@ + memory_entries(ms)
    }
}

/// The chat system prompt for memories: empty without memories, else the rules and the block.
pub open spec fn spec_chat_memory_prompt(ms: Seq<Memory>) -> Seq<char> {
    if ms.len() == 0 {
        Seq::empty()
    } else {
        CHAT_MEMORY_INSTRUCTIONS@ + spec_format_memory_block(ms)
    }
}

/// A chat question with the memory block in front of it.
pub open spec fn spec_augment_with_memory(query: Seq<char>, ms: Seq<Memory>) -> Seq<char> {
    if ms.len() == 0 {
        query
    } else {
        spec_format_memory_block(ms) + MEMORY_ONLY_DIRECTIVE@ + query
    }
}

/// A RAG question with the reminders about memory and sources in front of it.
pub open spec fn spec_augment_for_rag(query: Seq<char>, ms: Seq<Memory>) -> Seq<char> {
    (if ms.len() == 0 { Seq::empty() } else { RAG_MEMORY_LINE@ }) + RAG_SOURCES_DIRECTIVE@
        + query
}

/// The index of the last message among the first `n` whose role is `user`.
pub open spec fn last_user_before(ms: Seq<ChatMessageView>, n: int) -> Option<int>
    decreases n,
{
    if n <= 0 {
        None
    } else if ms[n - 1].role == "user"@ {
        Some(n - 1)
    } else {
        last_user_before(ms, n - 1)
    }
}

/// The index of the last `user` message.
pub open spec fn last_user_index(ms: Seq<ChatMessageView>) -> Option<int> {
    last_user_before(ms, ms.len() as int)
}

/// The messages with the content of the last `user` message replaced by `f` of it.
pub open spec fn with_last_user_content(
    ms: Seq<ChatMessageView>,
    new_content: spec_fn(Seq<char>) -> Seq<char>,
) -> Seq<ChatMessageView> {
    match last_user_index(ms) {
        Some(i) => ms.update(
            i,
            ChatMessageView { role: ms[i].role, content: new_content(ms[i].content) },
        ),
        None => ms,
    }
}

proof fn lemma_last_user_before(ms: Seq<ChatMessageView>, n: int)
    requires
        n <= ms.len(),
    ensures
        last_user_before(ms, n) matches Some(i) ==> 0 <= i < n && ms[i].role == "user"@,
    decreases n,
{
    if n > 0 && ms[n - 1].role != "user"@ {
        lemma_last_user_before(ms, n - 1);
    }
}

/// The line of the memory block for memory number `n`.
fn memory_entry_string(n: u64, m: &Memory) -> (r: String)
    ensures
        r@ == memory_entry(n as nat, *m),
{
    let mut s = String::from_str("[Memory ");
    let d = string_from(decimal_chars(n).as_slice());
    s.append(d.as_str());
    s.append("] [");
    s.append(m.memory_type.label());
    s.append("] ");
    s.append(m.content.as_str());
    s.append("\n");
    s
}

/// Formats memories as the block that is put before a model: nothing when there are no
/// memories, else the heading and `[Memory N] [Label] content` for each, numbered from 1.
pub fn format_memory_block(memories: &[Memory]) -> (r: String)
    ensures
        r@ == spec_format_memory_block(memories@),
{
    if memories.len() == 0 {
        return String::new();
    }
    let mut block = String::from_str(MEMORY_BLOCK_HEADER);
    let mut i: usize = 0;
    while i < memories.len()
        invariant
            i <= memories@.len(),
            memories@.len() > 0,
            block@ == MEMORY_BLOCK_HEADER@ + memory_entries(memories@.take(i as int)),
        decreases memories@.len() - i,
    {
        let entry = memory_entry_string((i + 1) as u64, &memories[i]);
        block.append(entry.as_str());
        proof {
            let t = memories@.take(i as int + 1);
            assert(t.drop_last() == memories@.take(i as int));
            assert(t.last() == memories@[i as int]);
        }
        i += 1;
    }
    assert(memories@.take(memories@.len() as int) == memories@);
    block
}

/// The system prompt for a chat with memories: the grounding rules followed by the memory
/// block, or nothing when there are no memories.
pub fn build_chat_memory_system_prompt(memories: &[Memory]) -> (r: String)
    ensures
        r@ == spec_chat_memory_prompt(memories@),
{
    if memories.len() == 0 {
        return String::new();
    }
    let block = format_memory_block(memories);
    let mut out = String::from_str(CHAT_MEMORY_INSTRUCTIONS);
    out.append(block.as_str());
    out
}

/// The memory cited as `[Memory num]`: numbers count from 1, and a number outside the list
/// (0 among them) names none.
pub fn memory_for_number(memories: &[Memory], num: u32) -> (r: Option<&Memory>)
    ensures
        r == (if 1 <= num <= memories@.len() {
            Some(&memories@[num - 1])
        } else {
            None::<&Memory>
        }),
{
    if num == 0 || num as usize > memories.len() {
        None
    } else {
        Some(&memories[num as usize - 1])
    }
}

/// A chat question with the memory block in front of it and the instruction to answer from
/// memory only; the question alone when there are no memories.
pub fn augment_user_message_with_memory(query: &str, memories: &[Memory]) -> (r: String)
    ensures
        r@ == spec_augment_with_memory(query@, memories@),
{
    if memories.len() == 0 {
        return String::from_str(query);
    }
    let mut out = format_memory_block(memories);
    out.append(MEMORY_ONLY_DIRECTIVE);
    out.append(query);
    out
}

/// A RAG question with the reminder to cite memory (when there is any) and sources.
pub fn augment_user_message_for_rag(query: &str, memories: &[Memory]) -> (r: String)
    ensures
        r@ == spec_augment_for_rag(query@, memories@),
{
    let mut out = if memories.len() == 0 {
        String::new()
    } else {
        String::from_str(RAG_MEMORY_LINE)
    };
    out.append(RAG_SOURCES_DIRECTIVE);
    out.append(query);
    out
}

/// The index of the last message whose role is `user`.
fn find_last_user(messages: &Vec<ChatMessage>) -> (r: Option<usize>)
    ensures
        r matches Some(i) ==> last_user_index(crate::model::messages_view(messages@)) == Some(
            i as int,
        ) && i < messages@.len(),
        r is None ==> last_user_index(crate::model::messages_view(messages@)) is None,
{
    let ghost mv = crate::model::messages_view(messages@);
    let mut n: usize = messages.len();
    while n > 0
        invariant
            n <= messages@.len(),
            mv == crate::model::messages_view(messages@),
            last_user_index(mv) == last_user_before(mv, n as int),
        decreases n,
    {
        if str_eq(messages[n - 1].role.as_str(), "user") {
            assert(mv[n - 1].role == messages@[n - 1].role@);
            return Some(n - 1);
        }
        assert(mv[n - 1].role == messages@[n - 1].role@);
        n -= 1;
    }
    None
}

/// Puts the memory block, and the instruction to answer from memory only, in front of the
/// last `user` message. Without memories, or without a `user` message, nothing changes.
pub fn augment_last_user_message(messages: &mut Vec<ChatMessage>, memories: &[Memory])
    ensures
        crate::model::messages_view(final(messages)@) == (if memories@.len() == 0 {
            crate::model::messages_view(old(messages)@)
        } else {
            with_last_user_content(
                crate::model::messages_view(old(messages)@),
                |c: Seq<char>| spec_augment_with_memory(c, memories@),
            )
        }),
{
    if memories.len() == 0 {
        return;
    }
    match find_last_user(messages) {
        Some(i) => {
            let content = augment_user_message_with_memory(messages[i].content.as_str(), memories);
            let role = messages[i].role.clone();
            let ghost before = crate::model::messages_view(messages@);
            messages.set(i, ChatMessage { role, content });
            assert(crate::model::messages_view(messages@) =~= before.update(
                i as int,
                ChatMessageView {
                    role: before[i as int].role,
                    content: spec_augment_with_memory(before[i as int].content, memories@),
                },
            ));
        },
        None => {},
    }
}

/// Puts the RAG reminders in front of the last `user` message; without one nothing changes.
pub fn augment_last_user_message_for_rag(messages: &mut Vec<ChatMessage>, memories: &[Memory])
    ensures
        crate::model::messages_view(final(messages)@) == with_last_user_content(
            crate::model::messages_view(old(messages)@),
            |c: Seq<char>| spec_augment_for_rag(c, memories@),
        ),
{
    match find_last_user(messages) {
        Some(i) => {
            let content = augment_user_message_for_rag(messages[i].content.as_str(), memories);
            let role = messages[i].role.clone();
            let ghost before = crate::model::messages_view(messages@);
            messages.set(i, ChatMessage { role, content });
            assert(crate::model::messages_view(messages@) =~= before.update(
                i as int,
                ChatMessageView {
                    role: before[i as int].role,
                    content: spec_augment_for_rag(before[i as int].content, memories@),
                },
            ));
        },
        None => {},
    }
}

/// How well a memory type suits a question, in hundredths: procedures 100 for questions
/// about plans, implementation, phases, builds or architecture (else 50), decisions 100 for
/// questions about deciding or choosing (else 55), project facts 90 for questions about the
/// project or what something is (else 60), preferences always 65. The question is compared
/// lower-cased.
pub open spec fn spec_type_relevance_percent(t: MemoryType, query: Seq<char>) -> u32 {
    let q = lowercase(query);
    match t {
        MemoryType::Procedure => if contains(q, "plan"@) || contains(q, "implement"@) || contains(
            q,
            "phase"@,
        ) || contains(q, "build"@) || contains(q, "architecture"@) {
            100
        } else {
            50
        },
        MemoryType::Decision => if contains(q, "decid"@) || contains(q, "chose"@) || contains(
            q,
            "chosen"@,
        ) || contains(q, "should we"@) {
            100
        } else {
            55
        },
        MemoryType::ProjectFact => if contains(q, "project"@) || contains(q, "ashkorix"@)
            || contains(q, "what is"@) || contains(q, "about"@) {
            90
        } else {
            60
        },
        MemoryType::UserPreference => 65,
    }
}

/// Whether the lower-cased question `q` holds `word`.
fn holds(q: &[char], word: &str) -> (r: bool)
    ensures
        r == contains(q@, word@),
{
    let w = chars_of(word);
    contains_chars(q, w.as_slice())
}

/// How well a memory type suits a question, in hundredths (see
/// [`spec_type_relevance_percent`]).
pub fn type_relevance_percent(memory_type: MemoryType, query: &str) -> (r: u32)
    ensures
        r == spec_type_relevance_percent(memory_type, query@),
{
    let q = lower_str(query);
    let qs = q.as_slice();
    match memory_type {
        MemoryType::Procedure => {
            if holds(qs, "plan") || holds(qs, "implement") || holds(qs, "phase") || holds(
                qs,
                "build",
            ) || holds(qs, "architecture") {
                100
            } else {
                50
            }
        },
        MemoryType::Decision => {
            if holds(qs, "decid") || holds(qs, "chose") || holds(qs, "chosen") || holds(
                qs,
                "should we",
            ) {
                100
            } else {
                55
            }
        },
        MemoryType::ProjectFact => {
            if holds(qs, "project") || holds(qs, "ashkorix") || holds(qs, "what is") || holds(
                qs,
                "about",
            ) {
                90
            } else {
                60
            }
        },
        MemoryType::UserPreference => 65,
    }
}


/// The messages of a chat turn: without memories the conversation as it is; with memories
/// the memory system prompt first, then the conversation with its last user message led by
/// the memory block.
pub fn chat_messages_with_memory(conversation: &[ChatMessage], memories: &[Memory]) -> (r: Vec<ChatMessage>)
    ensures
        messages_view(r@) == (if memories@.len() == 0 {
            messages_view(conversation@)
        } else {
            with_last_user_content(
                seq![ChatMessageView { role: "system"@, content: spec_chat_memory_prompt(memories@) }]
                    + messages_view(conversation@),
                |c: Seq<char>| spec_augment_with_memory(c, memories@),
            )
        }),
{
    let mut messages: Vec<ChatMessage> = Vec::new();
    if memories.len() > 0 {
        messages.push(
            ChatMessage {
                role: String::from_str("system"),
                content: build_chat_memory_system_prompt(memories),
            },
        );
    }
    let ghost head = messages_view(messages@);
    assert(memories@.len() > 0 ==> head =~= seq![
        ChatMessageView { role: "system"@, content: spec_chat_memory_prompt(memories@) },
    ]);
    let mut i: usize = 0;
    while i < conversation.len()
        invariant
            i <= conversation@.len(),
            messages_view(messages@) == head + messages_view(conversation@).take(i as int),
        decreases conversation@.len() - i,
    {
        let ghost before = messages_view(messages@);
        messages.push(clone_message(&conversation[i]));
        assert(messages_view(messages@) =~= before.push(conversation@[i as int]@));
        assert(messages_view(conversation@).take(i as int + 1) =~= messages_view(conversation@).take(
            i as int,
        ).push(conversation@[i as int]@));
        i += 1;
    }
    assert(messages_view(conversation@).take(conversation@.len() as int) =~= messages_view(conversation@));
    if memories.len() == 0 {
        assert(head =~= Seq::<ChatMessageView>::empty());
        assert(messages_view(messages@) =~= messages_view(conversation@));
        return messages;
    }
    augment_last_user_message(&mut messages, memories);
    messages
}

} // verus!

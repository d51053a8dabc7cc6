use vstd::prelude::*;
use vstd::string::*;

use crate::error::AshkorixError;
use crate::chunking::hierarchy::clone_opt;
use crate::documents::graph_types::opt_view;
use crate::documents::types::str_eq;
use crate::memory::types::{spec_memory_type_from, MemoryType};
use crate::model::{messages_view, ChatMessage, ChatMessageView};
use crate::text::{
    chars_of, join, join_chars, matches_at, matches_at_exec, slice_to_vec, starts_with, starts_with_chars, string_from,
    trim, trim_chars,
};

verus! {

/// `s` with every leading copy of `p` removed (as `str::trim_start_matches` with a string).
pub open spec fn strip_prefixes(s: Seq<char>, p: Seq<char>) -> Seq<char>
    decreases s.len(),
{
    if p.len() > 0 && starts_with(s, p) {
        strip_prefixes(s.skip(p.len() as int), p)
    } else {
        s
    }
}

/// The last position where `p` occurs in `s` at or before `n`.
pub open spec fn last_match_at_or_before(s: Seq<char>, p: Seq<char>, n: int) -> Option<int>
    decreases n + 1,
{
    if n < 0 {
        None
    } else if matches_at(s, p, n) {
        Some(n)
    } else {
        last_match_at_or_before(s, p, n - 1)
    }
}

/// The last position where `p` occurs in `s` (as `str::rfind`).
pub open spec fn rfind(s: Seq<char>, p: Seq<char>) -> Option<int> {
    last_match_at_or_before(s, p, s.len() - p.len())
}

/// A model reply with its Markdown code fence removed: for a reply that begins with three
/// backticks, the text after the leading backticks, a `json` tag and leading new lines, up
/// to the last closing fence, trimmed; any other reply (or one without a closing fence) as
/// it is.
pub open spec fn spec_strip_code_fences(text: Seq<char>) -> Seq<char> {
    if starts_with(text, "```"@) {
        let without_start = strip_prefixes(text, "`"@);
        let inner = strip_prefixes(strip_prefixes(without_start, "json"@), "\n"@);
        match rfind(inner, "```"@) {
            Some(end) => trim(inner.take(end)),
            None => text,
        }
    } else {
        text
    }
}

/// `s` with every leading copy of `p` removed.
fn strip_prefixes_exec(s: &[char], p: &[char]) -> (r: Vec<char>)
    ensures
        r@ == strip_prefixes(s@, p@),
{
    if p.len() == 0 {
        return slice_to_vec(s);
    }
    let mut start: usize = 0;
    let slen = s.len();
    assert(s@.skip(0) =~= s@);
    while start <= slen && matches_at_exec(s, p, start)
        invariant
            start <= slen,
            slen == s@.len(),
            p@.len() > 0,
            strip_prefixes(s@, p@) == strip_prefixes(s@.skip(start as int), p@),
        decreases slen - start,
    {
        proof {
            let t = s@.skip(start as int);
            assert(t.take(p@.len() as int) =~= s@.subrange(start as int, start + p@.len()));
            assert(starts_with(t, p@));
            assert(t.skip(p@.len() as int) =~= s@.skip(start + p@.len()));
        }
        start = start + p.len();
    }
    proof {
        let t = s@.skip(start as int);
        if starts_with(t, p@) {
            assert(t.take(p@.len() as int) =~= s@.subrange(start as int, start + p@.len()));
        }
    }
    slice_to_vec(&s[start..slen])
}

/// Removes the Markdown code fence around a model reply (see [`spec_strip_code_fences`]).
pub fn strip_code_fences(text: &str) -> (r: String)
    ensures
        r@ == spec_strip_code_fences(text@),
{
    let cs = chars_of(text);
    let fence = chars_of("```");
    if !starts_with_chars(cs.as_slice(), fence.as_slice()) {
        return String::from_str(text);
    }
    let tick = chars_of("`");
    let json = chars_of("json");
    let nl = chars_of("\n");
    let a = strip_prefixes_exec(cs.as_slice(), tick.as_slice());
    let b = strip_prefixes_exec(a.as_slice(), json.as_slice());
    let inner = strip_prefixes_exec(b.as_slice(), nl.as_slice());
    // the last closing fence
    proof {
        reveal_strlit("```");
    }
    assert(spec_strip_code_fences(text@) == match rfind(inner@, "```"@) {
        Some(end) => trim(inner@.take(end)),
        None => text@,
    });
    if inner.len() < 3 {
        assert(rfind(inner@, "```"@) is None);
        return String::from_str(text);
    }
    let mut n: usize = inner.len() - 3;
    loop
        invariant
            n + 3 <= inner@.len(),
            fence@ == "```"@,
            spec_strip_code_fences(text@) == match rfind(inner@, "```"@) {
                Some(end) => trim(inner@.take(end)),
                None => text@,
            },
            rfind(inner@, "```"@) == last_match_at_or_before(inner@, "```"@, n as int),
        decreases n,
    {
        if matches_at_exec(inner.as_slice(), fence.as_slice(), n) {
            let head = slice_to_vec(&inner.as_slice()[0..n]);
            assert(head@ == inner@.take(n as int));
            let t = trim_chars(head.as_slice());
            return string_from(t.as_slice());
        }
        if n == 0 {
            assert(last_match_at_or_before(inner@, "```"@, -1) is None);
            return String::from_str(text);
        }
        n -= 1;
    }
}

/// A proposed memory's fields other than its scores.
#[derive(Clone, Debug)]
pub struct ResolvedCandidate {
    pub proposed_type: MemoryType,
    pub proposed_scope: String,
    pub proposed_title: String,
    pub proposed_content: String,
    pub reason: Option<String>,
}

/// The string fields of one proposed memory as the reply gave them (each `None` where the
/// key is missing or its value is not a string); `type_value` is the value under
/// `proposed_type`, else under `type`.
#[derive(Clone, Debug)]
pub struct CandidateFields {
    pub type_value: Option<String>,
    pub proposed_scope: Option<String>,
    pub scope: Option<String>,
    pub proposed_title: Option<String>,
    pub title: Option<String>,
    pub proposed_content: Option<String>,
    pub content: Option<String>,
    pub reason: Option<String>,
}

/// The mathematical value of [`CandidateFields`].
pub struct CandidateFieldsView {
    pub type_value: Option<Seq<char>>,
    pub proposed_scope: Option<Seq<char>>,
    pub scope: Option<Seq<char>>,
    pub proposed_title: Option<Seq<char>>,
    pub title: Option<Seq<char>>,
    pub proposed_content: Option<Seq<char>>,
    pub content: Option<Seq<char>>,
    pub reason: Option<Seq<char>>,
}

impl View for CandidateFields {
    type V = CandidateFieldsView;

    open spec fn view(&self) -> CandidateFieldsView {
        CandidateFieldsView {
            type_value: opt_view(self.type_value),
            proposed_scope: opt_view(self.proposed_scope),
            scope: opt_view(self.scope),
            proposed_title: opt_view(self.proposed_title),
            title: opt_view(self.title),
            proposed_content: opt_view(self.proposed_content),
            content: opt_view(self.content),
            reason: opt_view(self.reason),
        }
    }
}

/// The mathematical value of [`ResolvedCandidate`].
pub struct ResolvedCandidateView {
    pub proposed_type: MemoryType,
    pub proposed_scope: Seq<char>,
    pub proposed_title: Seq<char>,
    pub proposed_content: Seq<char>,
    pub reason: Option<Seq<char>>,
}

impl View for ResolvedCandidate {
    type V = ResolvedCandidateView;

    open spec fn view(&self) -> ResolvedCandidateView {
        ResolvedCandidateView {
            proposed_type: self.proposed_type,
            proposed_scope: self.proposed_scope@,
            proposed_title: self.proposed_title@,
            proposed_content: self.proposed_content@,
            reason: opt_view(self.reason),
        }
    }
}

/// The first of two optional texts that is present.
pub open spec fn first_present(a: Option<Seq<char>>, b: Option<Seq<char>>) -> Option<Seq<char>> {
    match a {
        Some(x) => Some(x),
        None => b,
    }
}

/// The first of two optional strings that is present.
pub open spec fn first_of(a: Option<String>, b: Option<String>) -> Option<Seq<char>> {
    first_present(opt_view(a), opt_view(b))
}

/// The error for a proposed memory, if any, checked in order: a missing type, an unknown
/// type, a missing scope, title or content (each under its `proposed_` key or its short key).
pub open spec fn problem_of(f: CandidateFieldsView) -> Option<Seq<char>> {
    match f.type_value {
        None => Some("candidate missing proposed_type"@),
        Some(t) => if spec_memory_type_from(t) is None {
            Some("invalid memory type: "@ + t)
        } else if first_present(f.proposed_scope, f.scope) is None {
            Some("candidate missing proposed_scope"@)
        } else if first_present(f.proposed_title, f.title) is None {
            Some("candidate missing proposed_title"@)
        } else if first_present(f.proposed_content, f.content) is None {
            Some("candidate missing proposed_content"@)
        } else {
            None
        },
    }
}

/// The error for a proposed memory, if any (see [`problem_of`]).
pub open spec fn candidate_problem(f: CandidateFields) -> Option<Seq<char>> {
    problem_of(f@)
}

/// The proposed memory that fields without a problem give: the named type and the first
/// present scope, title and content.
pub open spec fn resolved_of(f: CandidateFieldsView) -> ResolvedCandidateView {
    ResolvedCandidateView {
        proposed_type: spec_memory_type_from(f.type_value->0)->0,
        proposed_scope: first_present(f.proposed_scope, f.scope)->0,
        proposed_title: first_present(f.proposed_title, f.title)->0,
        proposed_content: first_present(f.proposed_content, f.content)->0,
        reason: f.reason,
    }
}

fn pick(a: Option<String>, b: Option<String>) -> (r: Option<String>)
    ensures
        match r {
            Some(x) => first_of(a, b) == Some(x@),
            None => first_of(a, b) is None,
        },
{
    match a {
        Some(x) => Some(x),
        None => b,
    }
}

/// Reads one proposed memory from the fields of a reply: the type must name a memory type,
/// and scope, title and content must be present (the `proposed_` key first, then the short
/// key); otherwise a configuration error says what is wrong (see [`candidate_problem`]).
pub fn resolve_candidate(fields: CandidateFields) -> (r: Result<ResolvedCandidate, AshkorixError>)
    ensures
        match candidate_problem(fields) {
            Some(msg) => r matches Err(AshkorixError::Config(m)) && m@ == msg,
            None => r matches Ok(c) && c@ == resolved_of(fields@),
        },
{
    let ghost f0 = fields;
    let type_str = match fields.type_value {
        None => return Err(AshkorixError::Config(String::from_str("candidate missing proposed_type"))),
        Some(t) => t,
    };
    let memory_type = match MemoryType::from_str(type_str.as_str()) {
        Some(m) => m,
        None => {
            let mut m = String::from_str("invalid memory type: ");
            m.append(type_str.as_str());
            return Err(AshkorixError::Config(m));
        },
    };
    let scope = match pick(fields.proposed_scope, fields.scope) {
        Some(s) => s,
        None => return Err(AshkorixError::Config(String::from_str("candidate missing proposed_scope"))),
    };
    let title = match pick(fields.proposed_title, fields.title) {
        Some(s) => s,
        None => return Err(AshkorixError::Config(String::from_str("candidate missing proposed_title"))),
    };
    let content = match pick(fields.proposed_content, fields.content) {
        Some(s) => s,
        None => return Err(AshkorixError::Config(String::from_str("candidate missing proposed_content"))),
    };
    Ok(ResolvedCandidate {
        proposed_type: memory_type,
        proposed_scope: scope,
        proposed_title: title,
        proposed_content: content,
        reason: fields.reason,
    })
}

/// The instruction sent to the model to extract durable memories from a conversation.
pub open spec fn spec_extraction_prompt(conversation: Seq<char>, project_scope: Seq<char>, min_confidence: Seq<char>) -> Seq<char> {
    "Extract only durable memories from this conversation.\nReturn a JSON array of objects with fields:\nproposed_type, proposed_scope, proposed_title, proposed_content, importance, confidence, reason\n\nAllowed types: user_preference, project_fact, decision, procedure\nReject: temporary details, random facts, one-off questions, sensitive personal information, facts already known, low-confidence guesses (below "@
        + min_confidence + ").\nActive project scope: "@ + project_scope
        + "\nAlso consider global scope for cross-project preferences and procedures.\nEach memory should contain one idea only. Keep content short.\nReturn JSON only, no markdown fences.\n\nConversation:\n"@
        + conversation
}

/// The extraction instruction; `min_confidence` is the confidence threshold as printed.
pub fn build_extraction_prompt(conversation: &str, project_scope: &str, min_confidence: &str) -> (r: String)
    ensures
        r@ == spec_extraction_prompt(conversation@, project_scope@, min_confidence@),
{
    let mut s = String::from_str("Extract only durable memories from this conversation.\nReturn a JSON array of objects with fields:\nproposed_type, proposed_scope, proposed_title, proposed_content, importance, confidence, reason\n\nAllowed types: user_preference, project_fact, decision, procedure\nReject: temporary details, random facts, one-off questions, sensitive personal information, facts already known, low-confidence guesses (below ");
    s.append(min_confidence);
    s.append(").\nActive project scope: ");
    s.append(project_scope);
    s.append("\nAlso consider global scope for cross-project preferences and procedures.\nEach memory should contain one idea only. Keep content short.\nReturn JSON only, no markdown fences.\n\nConversation:\n");
    s.append(conversation);
    s
}


/// The lines of a transcript: each message as its role, a colon and its content.
pub open spec fn transcript_lines(ms: Seq<ChatMessageView>) -> Seq<Seq<char>> {
    ms.map_values(|m: ChatMessageView| m.role + ": "@ + m.content)
}

/// A conversation as plain text for the extraction instruction: one line per message,
/// `role: content`, joined by new lines.
pub fn conversation_transcript(messages: &[ChatMessage]) -> (r: String)
    ensures
        r@ == join(transcript_lines(messages_view(messages@)), "\n"@),
{
    let ghost mv = messages_view(messages@);
    let mut lines: Vec<Vec<char>> = Vec::new();
    let mut i: usize = 0;
    while i < messages.len()
        invariant
            i <= messages@.len(),
            mv == messages_view(messages@),
            lines@.map_values(|v: Vec<char>| v@) == transcript_lines(mv).take(i as int),
        decreases messages@.len() - i,
    {
        let mut line = String::from_str(messages[i].role.as_str());
        line.append(": ");
        line.append(messages[i].content.as_str());
        let ghost before = lines@.map_values(|v: Vec<char>| v@);
        lines.push(chars_of(line.as_str()));
        assert(lines@.map_values(|v: Vec<char>| v@) =~= before.push(mv[i as int].role + ": "@ + mv[i as int].content));
        assert(transcript_lines(mv).take(i as int + 1) =~= transcript_lines(mv).take(i as int).push(
            transcript_lines(mv)[i as int],
        ));
        i += 1;
    }
    assert(transcript_lines(mv).take(mv.len() as int) =~= transcript_lines(mv));
    let nl = chars_of("\n");
    string_from(join_chars(lines.as_slice(), nl.as_slice()).as_slice())
}


/// Names what `serde_json` reads from a text: the parse error's message where the text is
/// not JSON; else, where the value is an array, for each item that is an object its entries
/// (key, and the value where it is a string) in the map's order, and `None` for any other
/// item; `None` where the value is not an array.
pub uninterp spec fn json_object_entries(text: Seq<char>) -> Result<
    Option<Seq<Option<Seq<(Seq<char>, Option<Seq<char>>)>>>>,
    Seq<char>,
>;

/// The view of an object's entries.
pub open spec fn entries_view(v: Seq<(String, Option<String>)>) -> Seq<(Seq<char>, Option<Seq<char>>)> {
    v.map_values(|e: (String, Option<String>)| (e.0@, opt_view(e.1)))
}

/// The view of an array's items.
pub open spec fn items_view(v: Seq<Option<Vec<(String, Option<String>)>>>) -> Seq<
    Option<Seq<(Seq<char>, Option<Seq<char>>)>>,
> {
    v.map_values(
        |o: Option<Vec<(String, Option<String>)>>|
            match o {
                Some(x) => Some(entries_view(x@)),
                None => None,
            },
    )
}

/// `serde_json::from_str` into a `serde_json::Value`, then `Value::as_array`,
/// `Value::as_object` on each item, and `Value::as_str` on each entry's value. Claimed: the
/// outcome is the one named by [`json_object_entries`], the error being the parse error's
/// message.
#[verifier::external_body]
pub fn read_json_objects(text: &str) -> (r: Result<Option<Vec<Option<Vec<(String, Option<String>)>>>>, String>)
    ensures
        match r {
            Err(m) => json_object_entries(text@) == Err::<Option<Seq<Option<Seq<(Seq<char>, Option<Seq<char>>)>>>>, Seq<char>>(m@),
            Ok(None) => json_object_entries(text@) == Ok::<Option<Seq<Option<Seq<(Seq<char>, Option<Seq<char>>)>>>>, Seq<char>>(None),
            Ok(Some(v)) => json_object_entries(text@) == Ok::<Option<Seq<Option<Seq<(Seq<char>, Option<Seq<char>>)>>>>, Seq<char>>(Some(items_view(v@))),
        },
{
    serde_json::from_str::<serde_json::Value>(text).map_err(|e| e.to_string()).map(|v| {
        v.as_array().map(|a| a.iter().map(|item| item.as_object().map(|o| {
            o.iter().map(|(k, x)| (k.clone(), x.as_str().map(|s| s.to_string()))).collect()
        })).collect())
    })
}

/// The value of the first entry under `key`: `Some` of the string (or of `None` for a value
/// that is not a string) where the key is present, `None` where it is absent.
pub open spec fn entry_of(es: Seq<(Seq<char>, Option<Seq<char>>)>, key: Seq<char>) -> Option<Option<Seq<char>>>
    decreases es.len(),
{
    if es.len() == 0 {
        None
    } else if es[0].0 == key {
        Some(es[0].1)
    } else {
        entry_of(es.drop_first(), key)
    }
}

/// The string under `key`, where present and a string.
pub open spec fn string_of(es: Seq<(Seq<char>, Option<Seq<char>>)>, key: Seq<char>) -> Option<Seq<char>> {
    match entry_of(es, key) {
        Some(v) => v,
        None => None,
    }
}

/// The fields of one proposed memory read from an object's entries: the type is the value
/// under `proposed_type` where that key is present (a string or nothing), else the string
/// under `type`.
pub open spec fn fields_of(es: Seq<(Seq<char>, Option<Seq<char>>)>) -> CandidateFieldsView {
    CandidateFieldsView {
        type_value: match entry_of(es, "proposed_type"@) {
            Some(v) => v,
            None => string_of(es, "type"@),
        },
        proposed_scope: string_of(es, "proposed_scope"@),
        scope: string_of(es, "scope"@),
        proposed_title: string_of(es, "proposed_title"@),
        title: string_of(es, "title"@),
        proposed_content: string_of(es, "proposed_content"@),
        content: string_of(es, "content"@),
        reason: string_of(es, "reason"@),
    }
}

/// The proposed memories of the items `i..`, or the error of the first item that is not an
/// object or whose fields have a problem.
pub open spec fn resolve_items(items: Seq<Option<Seq<(Seq<char>, Option<Seq<char>>)>>>, i: int) -> Result<
    Seq<ResolvedCandidateView>,
    Seq<char>,
>
    decreases items.len() - i,
{
    if i < 0 || i >= items.len() {
        Ok(Seq::empty())
    } else {
        match items[i] {
            None => Err("each memory candidate must be a JSON object"@),
            Some(es) => match problem_of(fields_of(es)) {
                Some(m) => Err(m),
                None => match resolve_items(items, i + 1) {
                    Ok(rest) => Ok(seq![resolved_of(fields_of(es))] + rest),
                    Err(m) => Err(m),
                },
            },
        }
    }
}

/// What reading a model's extraction reply gives: the reply trimmed and unfenced must be
/// JSON (else its parse error), an array (else an error saying so) of objects, each with a
/// valid type, scope, title and content (else the first item's error); then its proposed
/// memories in order.
pub open spec fn spec_parse_extraction(text: Seq<char>) -> Result<Seq<ResolvedCandidateView>, Seq<char>> {
    match json_object_entries(spec_strip_code_fences(trim(text))) {
        Err(m) => Err("failed to parse memory extraction JSON: "@ + m),
        Ok(None) => Err("memory extraction response must be a JSON array"@),
        Ok(Some(items)) => resolve_items(items, 0),
    }
}

fn entry_exec(es: &Vec<(String, Option<String>)>, key: &str) -> (r: Option<Option<String>>)
    ensures
        match r {
            Some(v) => entry_of(entries_view(es@), key@) == Some(opt_view(v)),
            None => entry_of(entries_view(es@), key@) is None,
        },
{
    let ghost ev = entries_view(es@);
    let mut i: usize = 0;
    assert(ev.skip(0) == ev);
    while i < es.len()
        invariant
            i <= es@.len(),
            ev == entries_view(es@),
            entry_of(ev, key@) == entry_of(ev.skip(i as int), key@),
        decreases es@.len() - i,
    {
        assert(ev.skip(i as int)[0] == ev[i as int]);
        assert(ev.skip(i as int).drop_first() == ev.skip(i + 1));
        if str_eq(es[i].0.as_str(), key) {
            return Some(clone_opt(&es[i].1));
        }
        i += 1;
    }
    None
}

fn string_exec(es: &Vec<(String, Option<String>)>, key: &str) -> (r: Option<String>)
    ensures
        opt_view(r) == string_of(entries_view(es@), key@),
{
    match entry_exec(es, key) {
        Some(v) => v,
        None => None,
    }
}

/// The fields of one proposed memory read from an object's entries (see [`fields_of`]).
pub fn fields_from_entries(es: &Vec<(String, Option<String>)>) -> (r: CandidateFields)
    ensures
        r@ == fields_of(entries_view(es@)),
{
    let type_value = match entry_exec(es, "proposed_type") {
        Some(v) => v,
        None => string_exec(es, "type"),
    };
    CandidateFields {
        type_value,
        proposed_scope: string_exec(es, "proposed_scope"),
        scope: string_exec(es, "scope"),
        proposed_title: string_exec(es, "proposed_title"),
        title: string_exec(es, "title"),
        proposed_content: string_exec(es, "proposed_content"),
        content: string_exec(es, "content"),
        reason: string_exec(es, "reason"),
    }
}

/// The views of proposed memories.
pub open spec fn resolved_view(v: Seq<ResolvedCandidate>) -> Seq<ResolvedCandidateView> {
    v.map_values(|c: ResolvedCandidate| c@)
}

/// The proposed memories of the items of a reply's array, or the error of the first item
/// that is not an object or whose fields have a problem (see [`resolve_items`]).
pub fn resolve_json_items(items: &Vec<Option<Vec<(String, Option<String>)>>>) -> (r: Result<Vec<ResolvedCandidate>, AshkorixError>)
    ensures
        match resolve_items(items_view(items@), 0) {
            Ok(v) => r matches Ok(x) && resolved_view(x@) == v,
            Err(m) => r matches Err(AshkorixError::Config(e)) && e@ == m,
        },
{
    let ghost iv = items_view(items@);
    let mut out: Vec<ResolvedCandidate> = Vec::new();
    let mut i: usize = 0;
    while i < items.len()
        invariant
            i <= items@.len(),
            iv == items_view(items@),
            forall|m: Seq<char>|
                resolve_items(iv, i as int) == Err::<Seq<ResolvedCandidateView>, Seq<char>>(m) ==> resolve_items(iv, 0) == Err::<Seq<ResolvedCandidateView>, Seq<char>>(m),
            forall|rest: Seq<ResolvedCandidateView>|
                resolve_items(iv, i as int) == Ok::<Seq<ResolvedCandidateView>, Seq<char>>(rest) ==> resolve_items(iv, 0) == Ok::<Seq<ResolvedCandidateView>, Seq<char>>(resolved_view(out@) + rest),
        decreases items@.len() - i,
    {
        match &items[i] {
            None => {
                return Err(AshkorixError::Config(String::from_str("each memory candidate must be a JSON object")));
            },
            Some(es) => {
                assert(iv[i as int] == Some(entries_view(es@)));
                let fields = fields_from_entries(es);
                match resolve_candidate(fields) {
                    Err(e) => {
                        return Err(e);
                    },
                    Ok(c) => {
                        let ghost before = out@;
                        out.push(c);
                        assert(resolved_view(out@) == resolved_view(before).push(c@));
                        assert forall|rest: Seq<ResolvedCandidateView>|
                            resolve_items(iv, i + 1) == Ok::<Seq<ResolvedCandidateView>, Seq<char>>(rest) implies resolve_items(iv, 0) == Ok::<Seq<ResolvedCandidateView>, Seq<char>>(resolved_view(out@) + rest) by {
                            assert(resolve_items(iv, i as int) == Ok::<Seq<ResolvedCandidateView>, Seq<char>>(seq![c@] + rest));
                            assert(resolved_view(before) + (seq![c@] + rest) == resolved_view(out@) + rest);
                        }
                    },
                }
            },
        }
        i += 1;
    }
    assert(resolve_items(iv, i as int) == Ok::<Seq<ResolvedCandidateView>, Seq<char>>(Seq::empty()));
    assert(resolved_view(out@) + Seq::<ResolvedCandidateView>::empty() == resolved_view(out@));
    Ok(out)
}

/// Reads the memories a model proposes from its reply (see [`spec_parse_extraction`]);
/// every error is a configuration error with the message given there.
pub fn parse_extraction_response(text: &str) -> (r: Result<Vec<ResolvedCandidate>, AshkorixError>)
    ensures
        match spec_parse_extraction(text@) {
            Ok(v) => r matches Ok(x) && resolved_view(x@) == v,
            Err(m) => r matches Err(AshkorixError::Config(e)) && e@ == m,
        },
{
    let trimmed = string_from(trim_chars(chars_of(text).as_slice()).as_slice());
    let unfenced = strip_code_fences(trimmed.as_str());
    let items = match read_json_objects(unfenced.as_str()) {
        Err(m) => {
            let mut e = String::from_str("failed to parse memory extraction JSON: ");
            e.append(m.as_str());
            return Err(AshkorixError::Config(e));
        },
        Ok(None) => {
            return Err(AshkorixError::Config(String::from_str("memory extraction response must be a JSON array")));
        },
        Ok(Some(v)) => v,
    };
    resolve_json_items(&items)
}

} // verus!

use vstd::prelude::*;
use vstd::string::*;

use crate::ids::{hash_text, short_id_from_hash, spec_hash_text, spec_short_id};
use crate::memory::types::{
    normalize_content, spec_candidate_status_from, spec_memory_status_from, spec_memory_type_from,
    spec_normalize_content, CandidateStatus, Memory, MemoryStatus, MemoryType,
};
use crate::error::AshkorixError;
use crate::text::{chars_eq, chars_of};

verus! {

/// The id of a new record: the prefix and the short hash of title, content and time stamp.
pub open spec fn spec_record_id(prefix: Seq<char>, title: Seq<char>, content: Seq<char>, stamp: Seq<char>) -> Seq<char> {
    prefix + spec_short_id(spec_hash_text(title + content + stamp))
}

fn record_id(prefix: &str, title: &str, content: &str, stamp: &str) -> (r: String)
    ensures
        r@ == spec_record_id(prefix@, title@, content@, stamp@),
{
    let mut key = String::from_str(title);
    key.append(content);
    key.append(stamp);
    let h = hash_text(key.as_str());
    let mut out = String::from_str(prefix);
    out.append(short_id_from_hash(h.as_str()).as_str());
    out
}

/// The id of a new memory, `mem_` and the short hash of title, content and time stamp.
pub fn new_memory_id(title: &str, content: &str, stamp: &str) -> (r: String)
    ensures
        r@ == spec_record_id("mem_"@, title@, content@, stamp@),
{
    record_id("mem_", title, content, stamp)
}

/// The id of a new candidate, `cand_` and the short hash of title, content and time stamp.
pub fn new_candidate_id(title: &str, content: &str, stamp: &str) -> (r: String)
    ensures
        r@ == spec_record_id("cand_"@, title@, content@, stamp@),
{
    record_id("cand_", title, content, stamp)
}

/// Some stored content equals the content once both are normalized.
pub open spec fn spec_has_duplicate(contents: Seq<String>, content: Seq<char>) -> bool {
    exists|i: int|
        0 <= i < contents.len() && spec_normalize_content((#[trigger] contents[i])@)
            == spec_normalize_content(content)
}

/// Whether some of the contents equals the content once both are normalized (white space
/// collapsed, lower-cased).
pub fn has_duplicate_content(contents: &[String], content: &str) -> (r: bool)
    ensures
        r == spec_has_duplicate(contents@, content@),
{
    let target = chars_of(normalize_content(content).as_str());
    let mut i: usize = 0;
    while i < contents.len()
        invariant
            i <= contents@.len(),
            target@ == spec_normalize_content(content@),
            forall|j: int| 0 <= j < i ==> spec_normalize_content((#[trigger] contents@[j])@) != spec_normalize_content(content@),
        decreases contents@.len() - i,
    {
        let c = chars_of(normalize_content(contents[i].as_str()).as_str());
        if chars_eq(c.as_slice(), target.as_slice()) {
            return true;
        }
        i += 1;
    }
    false
}

/// Some pending candidate has the scope and, normalized, the content.
pub open spec fn spec_pending_exists(pending: Seq<(String, String)>, scope: Seq<char>, content: Seq<char>) -> bool {
    exists|i: int|
        0 <= i < pending.len() && (#[trigger] pending[i]).0@ == scope && spec_normalize_content(pending[i].1@)
            == spec_normalize_content(content)
}

/// Whether a pending candidate (scope, content) has the scope and, normalized, the content.
pub fn pending_candidate_matches(pending: &[(String, String)], scope: &str, content: &str) -> (r: bool)
    ensures
        r == spec_pending_exists(pending@, scope@, content@),
{
    let target = chars_of(normalize_content(content).as_str());
    let sc = chars_of(scope);
    let mut i: usize = 0;
    while i < pending.len()
        invariant
            i <= pending@.len(),
            target@ == spec_normalize_content(content@),
            sc@ == scope@,
            forall|j: int|
                0 <= j < i ==> !((#[trigger] pending@[j]).0@ == scope@ && spec_normalize_content(pending@[j].1@)
                    == spec_normalize_content(content@)),
        decreases pending@.len() - i,
    {
        let s = chars_of(pending[i].0.as_str());
        let c = chars_of(normalize_content(pending[i].1.as_str()).as_str());
        if chars_eq(s.as_slice(), sc.as_slice()) && chars_eq(c.as_slice(), target.as_slice()) {
            return true;
        }
        i += 1;
    }
    false
}

/// A stored memory type, project fact when the stored name is unknown.
pub fn stored_memory_type(s: &str) -> (r: MemoryType)
    ensures
        r == match spec_memory_type_from(s@) {
            Some(t) => t,
            None => MemoryType::ProjectFact,
        },
{
    match MemoryType::from_str(s) {
        Some(t) => t,
        None => MemoryType::ProjectFact,
    }
}

/// A stored memory status, active when the stored name is unknown.
pub fn stored_memory_status(s: &str) -> (r: MemoryStatus)
    ensures
        r == match spec_memory_status_from(s@) {
            Some(t) => t,
            None => MemoryStatus::Active,
        },
{
    match MemoryStatus::from_str(s) {
        Some(t) => t,
        None => MemoryStatus::Active,
    }
}

/// A stored candidate status, pending when the stored name is unknown.
pub fn stored_candidate_status(s: &str) -> (r: CandidateStatus)
    ensures
        r == match spec_candidate_status_from(s@) {
            Some(t) => t,
            None => CandidateStatus::Pending,
        },
{
    match CandidateStatus::from_str(s) {
        Some(t) => t,
        None => CandidateStatus::Pending,
    }
}


/// What a new memory is made from: the values the library reads (its importance and
/// confidence scores are carried alongside by the caller).
#[derive(Clone, Debug)]
pub struct CreateMemoryInput {
    pub memory_type: MemoryType,
    pub scope: String,
    pub title: String,
    pub content: String,
    pub source_type: Option<String>,
    pub source_ref: Option<String>,
    pub supersedes_id: Option<String>,
    pub metadata_json: Option<String>,
}

/// The changes to a memory: each field given replaces the memory's (new scores are applied
/// alongside by the caller).
#[derive(Clone, Debug)]
pub struct UpdateMemoryInput {
    pub memory_type: Option<MemoryType>,
    pub scope: Option<String>,
    pub title: Option<String>,
    pub content: Option<String>,
    pub status: Option<MemoryStatus>,
    pub metadata_json: Option<String>,
}

/// A proposed memory waiting for review: the values the library reads (its scores are
/// carried alongside by the caller).
#[derive(Clone, Debug)]
pub struct MemoryCandidate {
    pub id: String,
    pub proposed_type: MemoryType,
    pub proposed_scope: String,
    pub proposed_title: String,
    pub proposed_content: String,
    pub reason: Option<String>,
    pub source_type: Option<String>,
    pub source_ref: Option<String>,
    pub status: CandidateStatus,
}

/// The changes made to a candidate while approving it.
#[derive(Clone, Debug)]
pub struct EditCandidateInput {
    pub proposed_type: Option<MemoryType>,
    pub proposed_scope: Option<String>,
    pub proposed_title: Option<String>,
    pub proposed_content: Option<String>,
}

/// A new candidate for review: an id from title, content and time stamp, pending, with the
/// proposed fields.
pub fn new_candidate(
    proposed_type: MemoryType,
    proposed_scope: &str,
    proposed_title: &str,
    proposed_content: &str,
    reason: Option<String>,
    source_type: Option<String>,
    source_ref: Option<String>,
    stamp: &str,
) -> (r: MemoryCandidate)
    ensures
        r.id@ == spec_record_id("cand_"@, proposed_title@, proposed_content@, stamp@),
        r.proposed_type == proposed_type,
        r.proposed_scope@ == proposed_scope@,
        r.proposed_title@ == proposed_title@,
        r.proposed_content@ == proposed_content@,
        r.reason == reason,
        r.source_type == source_type,
        r.source_ref == source_ref,
        r.status == CandidateStatus::Pending,
{
    MemoryCandidate {
        id: new_candidate_id(proposed_title, proposed_content, stamp),
        proposed_type,
        proposed_scope: String::from_str(proposed_scope),
        proposed_title: String::from_str(proposed_title),
        proposed_content: String::from_str(proposed_content),
        reason,
        source_type,
        source_ref,
        status: CandidateStatus::Pending,
    }
}

/// A memory input from the `seed` source.
fn seed_input(memory_type: MemoryType, scope: &str, title: &str, content: &str) -> (r: CreateMemoryInput)
    ensures
        r.memory_type == memory_type,
        r.scope@ == scope@,
        r.title@ == title@,
        r.content@ == content@,
        r.source_type matches Some(t) && t@ == "seed"@,
        r.source_ref is None && r.supersedes_id is None && r.metadata_json is None,
{
    CreateMemoryInput {
        memory_type,
        scope: String::from_str(scope),
        title: String::from_str(title),
        content: String::from_str(content),
        source_type: Some(String::from_str("seed")),
        source_ref: None,
        supersedes_id: None,
        metadata_json: None,
    }
}

/// The memories an empty store starts with, in order (their scores, 0.95, 0.95, 0.75 and
/// 0.75 importance and 1.0, 1.0, 0.9 and 0.85 confidence, are set alongside by the caller):
/// two facts of the Ashkorix project and two global habits of the user.
pub fn seed_inputs() -> (r: Vec<CreateMemoryInput>)
    ensures
        r@.len() == 4,
        r@[0].memory_type == MemoryType::ProjectFact && r@[0].scope@ == "project:ashkorix"@ && r@[0].title@
            == "Ashkorix is local-first"@ && r@[0].content@
            == "Ashkorix is intended to be a local-first GGUF model runner."@,
        r@[1].memory_type == MemoryType::Decision && r@[1].scope@ == "project:ashkorix"@ && r@[1].title@
            == "Remove Salutori branding"@ && r@[1].content@
            == "The user decided that Salutori branding is no longer relevant and should not be used for Ashkorix."@,
        r@[2].memory_type == MemoryType::Procedure && r@[2].scope@ == "global"@ && r@[2].title@
            == "Use phased implementation plans"@ && r@[2].content@
            == "When the user asks for implementation planning, prefer a phased implementation plan with concrete build steps."@,
        r@[3].memory_type == MemoryType::UserPreference && r@[3].scope@ == "global"@ && r@[3].title@
            == "Prefer practical architecture"@ && r@[3].content@
            == "The user prefers practical system architecture and implementation details over abstract theory."@,
        forall|i: int|
            0 <= i < 4 ==> ((#[trigger] r@[i]).source_type matches Some(t) && t@ == "seed"@ && r@[i].source_ref is None
                && r@[i].supersedes_id is None && r@[i].metadata_json is None),
{
    let mut v: Vec<CreateMemoryInput> = Vec::new();
    v.push(seed_input(MemoryType::ProjectFact, "project:ashkorix", "Ashkorix is local-first", "Ashkorix is intended to be a local-first GGUF model runner."));
    v.push(seed_input(MemoryType::Decision, "project:ashkorix", "Remove Salutori branding", "The user decided that Salutori branding is no longer relevant and should not be used for Ashkorix."));
    v.push(seed_input(MemoryType::Procedure, "global", "Use phased implementation plans", "When the user asks for implementation planning, prefer a phased implementation plan with concrete build steps."));
    v.push(seed_input(MemoryType::UserPreference, "global", "Prefer practical architecture", "The user prefers practical system architecture and implementation details over abstract theory."));
    v
}

/// The given value, else the current one.
pub open spec fn or_keep<T>(given: Option<T>, current: T) -> T {
    match given {
        Some(v) => v,
        None => current,
    }
}

fn or_keep_string(given: &Option<String>, current: &String) -> (r: String)
    ensures
        r == or_keep(*given, *current),
{
    match given {
        Some(v) => v.clone(),
        None => current.clone(),
    }
}

fn clone_opt_string(o: &Option<String>) -> (r: Option<String>)
    ensures
        r == *o,
{
    match o {
        Some(s) => Some(s.clone()),
        None => None,
    }
}

/// The memory an input makes: a new id from title, content and time stamp, active, with the
/// input's fields.
pub fn new_memory(input: &CreateMemoryInput, stamp: &str) -> (r: Memory)
    ensures
        r.id@ == spec_record_id("mem_"@, input.title@, input.content@, stamp@),
        r.memory_type == input.memory_type,
        r.scope == input.scope,
        r.title == input.title,
        r.content == input.content,
        r.status == MemoryStatus::Active,
        r.source_type == input.source_type,
        r.source_ref == input.source_ref,
        r.supersedes_id == input.supersedes_id,
        r.metadata_json == input.metadata_json,
{
    Memory {
        id: new_memory_id(input.title.as_str(), input.content.as_str(), stamp),
        memory_type: input.memory_type,
        scope: input.scope.clone(),
        title: input.title.clone(),
        content: input.content.clone(),
        status: MemoryStatus::Active,
        source_type: clone_opt_string(&input.source_type),
        source_ref: clone_opt_string(&input.source_ref),
        supersedes_id: clone_opt_string(&input.supersedes_id),
        metadata_json: clone_opt_string(&input.metadata_json),
    }
}

/// A memory with an update applied: each field the update gives replaces the memory's; the
/// rest stay.
pub open spec fn spec_apply_update(m: Memory, u: UpdateMemoryInput) -> Memory {
    Memory {
        id: m.id,
        memory_type: or_keep(u.memory_type, m.memory_type),
        scope: or_keep(u.scope, m.scope),
        title: or_keep(u.title, m.title),
        content: or_keep(u.content, m.content),
        status: or_keep(u.status, m.status),
        source_type: m.source_type,
        source_ref: m.source_ref,
        supersedes_id: m.supersedes_id,
        metadata_json: match u.metadata_json {
            Some(x) => Some(x),
            None => m.metadata_json,
        },
    }
}

/// Applies an update: each field it gives replaces the memory's; the rest stay.
pub fn apply_memory_update(memory: &mut Memory, input: &UpdateMemoryInput)
    ensures
        *final(memory) == spec_apply_update(*old(memory), *input),
{
    if let Some(t) = input.memory_type {
        memory.memory_type = t;
    }
    if let Some(s) = &input.scope {
        memory.scope = s.clone();
    }
    if let Some(t) = &input.title {
        memory.title = t.clone();
    }
    if let Some(c) = &input.content {
        memory.content = c.clone();
    }
    if let Some(s) = input.status {
        memory.status = s;
    }
    if let Some(m) = &input.metadata_json {
        memory.metadata_json = Some(m.clone());
    }
}

/// The message of the error that refuses a memory already held in its scope.
pub open spec fn duplicate_message() -> Seq<char> {
    "an active memory with the same content already exists in this scope"@
}

fn duplicate_error() -> (r: AshkorixError)
    ensures
        r matches AshkorixError::Config(m) && m@ == duplicate_message(),
{
    AshkorixError::Config(String::from_str("an active memory with the same content already exists in this scope"))
}

/// The scope and content that approving a candidate with an edit stores: the edit's where it
/// gives them, else the candidate's (an active memory with the same content in that scope
/// refuses the approval).
pub fn edited_scope_content(candidate: &MemoryCandidate, edit: &EditCandidateInput) -> (r: (String, String))
    ensures
        r.0 == or_keep(edit.proposed_scope, candidate.proposed_scope),
        r.1 == or_keep(edit.proposed_content, candidate.proposed_content),
{
    (or_keep_string(&edit.proposed_scope, &candidate.proposed_scope), or_keep_string(&edit.proposed_content, &candidate.proposed_content))
}

/// The memory input made from a candidate: its type, scope, title, content and source,
/// superseding nothing.
pub open spec fn spec_approved_input(c: MemoryCandidate) -> CreateMemoryInput {
    CreateMemoryInput {
        memory_type: c.proposed_type,
        scope: c.proposed_scope,
        title: c.proposed_title,
        content: c.proposed_content,
        source_type: c.source_type,
        source_ref: c.source_ref,
        supersedes_id: None,
        metadata_json: None,
    }
}

/// The memory input made from a candidate and an edit: each field the edit gives over the
/// candidate's, with the candidate's source, superseding nothing.
pub open spec fn spec_edited_input(c: MemoryCandidate, e: EditCandidateInput) -> CreateMemoryInput {
    CreateMemoryInput {
        memory_type: or_keep(e.proposed_type, c.proposed_type),
        scope: or_keep(e.proposed_scope, c.proposed_scope),
        title: or_keep(e.proposed_title, c.proposed_title),
        content: or_keep(e.proposed_content, c.proposed_content),
        source_type: c.source_type,
        source_ref: c.source_ref,
        supersedes_id: None,
        metadata_json: None,
    }
}

/// The memory input that approving a candidate stores, given whether an active memory with
/// the same content already exists in its scope: refused when one does, else the candidate's
/// type, scope, title, content and source, superseding nothing.
pub fn approval_input(candidate: &MemoryCandidate, duplicate_exists: bool) -> (r: Result<
    CreateMemoryInput,
    AshkorixError,
>)
    ensures
        duplicate_exists <==> r is Err,
        r matches Err(e) ==> e matches AshkorixError::Config(m) && m@ == duplicate_message(),
        r matches Ok(i) ==> i == spec_approved_input(*candidate),
{
    if duplicate_exists {
        return Err(duplicate_error());
    }
    Ok(
        CreateMemoryInput {
            memory_type: candidate.proposed_type,
            scope: candidate.proposed_scope.clone(),
            title: candidate.proposed_title.clone(),
            content: candidate.proposed_content.clone(),
            source_type: clone_opt_string(&candidate.source_type),
            source_ref: clone_opt_string(&candidate.source_ref),
            supersedes_id: None,
            metadata_json: None,
        },
    )
}

/// The memory input that approving a candidate with an edit stores, given whether an active
/// memory with the edited content already exists in the edited scope: refused when one does,
/// else each field the edit gives over the candidate's, with the candidate's source.
pub fn edited_approval_input(
    candidate: &MemoryCandidate,
    edit: &EditCandidateInput,
    duplicate_exists: bool,
) -> (r: Result<CreateMemoryInput, AshkorixError>)
    ensures
        duplicate_exists <==> r is Err,
        r matches Err(e) ==> e matches AshkorixError::Config(m) && m@ == duplicate_message(),
        r matches Ok(i) ==> i == spec_edited_input(*candidate, *edit),
{
    let (scope, content) = edited_scope_content(candidate, edit);
    if duplicate_exists {
        return Err(duplicate_error());
    }
    Ok(
        CreateMemoryInput {
            memory_type: match edit.proposed_type {
                Some(t) => t,
                None => candidate.proposed_type,
            },
            scope,
            title: or_keep_string(&edit.proposed_title, &candidate.proposed_title),
            content,
            source_type: clone_opt_string(&candidate.source_type),
            source_ref: clone_opt_string(&candidate.source_ref),
            supersedes_id: None,
            metadata_json: None,
        },
    )
}

} // verus!

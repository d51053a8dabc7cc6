use vstd::prelude::*;
use vstd::string::*;

use crate::documents::structure::slice_or_empty;
use crate::ids::{hash_text, spec_hash_text};
use crate::text::{chars_of, join, join_chars, lower_chars, lowercase, split_whitespace_chars, string_from, words};
use crate::documents::types::str_eq;

verus! {

/// The kinds of memory.
#[derive(Clone, Copy, Debug, PartialEq, Eq, Structural)]
pub enum MemoryType {
    UserPreference,
    ProjectFact,
    Decision,
    Procedure,
}

/// The stored name of a memory type.
pub open spec fn spec_memory_type_str(t: MemoryType) -> Seq<char> {
    match t {
        MemoryType::UserPreference => "user_preference"@,
        MemoryType::ProjectFact => "project_fact"@,
        MemoryType::Decision => "decision"@,
        MemoryType::Procedure => "procedure"@,
    }
}

/// The label shown for a memory type.
pub open spec fn spec_memory_type_label(t: MemoryType) -> Seq<char> {
    match t {
        MemoryType::UserPreference => "User Preference"@,
        MemoryType::ProjectFact => "Project Fact"@,
        MemoryType::Decision => "Decision"@,
        MemoryType::Procedure => "Procedure"@,
    }
}

/// The memory type with the given stored name.
pub open spec fn spec_memory_type_from(s: Seq<char>) -> Option<MemoryType> {
    if s == "user_preference"@ {
        Some(MemoryType::UserPreference)
    } else if s == "project_fact"@ {
        Some(MemoryType::ProjectFact)
    } else if s == "decision"@ {
        Some(MemoryType::Decision)
    } else if s == "procedure"@ {
        Some(MemoryType::Procedure)
    } else {
        None
    }
}

impl MemoryType {
    /// The stored name of the type.
    pub fn as_str(&self) -> (r: &'static str)
        ensures
            r@ == spec_memory_type_str(*self),
    {
        match self {
            MemoryType::UserPreference => "user_preference",
            MemoryType::ProjectFact => "project_fact",
            MemoryType::Decision => "decision",
            MemoryType::Procedure => "procedure",
        }
    }

    /// The type with the given stored name, if any.
    pub fn from_str(s: &str) -> (r: Option<MemoryType>)
        ensures
            r == spec_memory_type_from(s@),
    {
        if str_eq(s, "user_preference") {
            Some(MemoryType::UserPreference)
        } else if str_eq(s, "project_fact") {
            Some(MemoryType::ProjectFact)
        } else if str_eq(s, "decision") {
            Some(MemoryType::Decision)
        } else if str_eq(s, "procedure") {
            Some(MemoryType::Procedure)
        } else {
            None
        }
    }

    /// The label shown for the type.
    pub fn label(&self) -> (r: &'static str)
        ensures
            r@ == spec_memory_type_label(*self),
    {
        match self {
            MemoryType::UserPreference => "User Preference",
            MemoryType::ProjectFact => "Project Fact",
            MemoryType::Decision => "Decision",
            MemoryType::Procedure => "Procedure",
        }
    }
}

/// Where a memory stands.
#[derive(Clone, Copy, Debug, PartialEq, Eq, Structural)]
pub enum MemoryStatus {
    Active,
    Inactive,
    Superseded,
    Deleted,
}

/// The stored name of a memory status.
pub open spec fn spec_memory_status_str(t: MemoryStatus) -> Seq<char> {
    match t {
        MemoryStatus::Active => "active"@,
        MemoryStatus::Inactive => "inactive"@,
        MemoryStatus::Superseded => "superseded"@,
        MemoryStatus::Deleted => "deleted"@,
    }
}

/// The memory status with the given stored name.
pub open spec fn spec_memory_status_from(s: Seq<char>) -> Option<MemoryStatus> {
    if s == "active"@ {
        Some(MemoryStatus::Active)
    } else if s == "inactive"@ {
        Some(MemoryStatus::Inactive)
    } else if s == "superseded"@ {
        Some(MemoryStatus::Superseded)
    } else if s == "deleted"@ {
        Some(MemoryStatus::Deleted)
    } else {
        None
    }
}

impl MemoryStatus {
    /// The stored name of the status.
    pub fn as_str(&self) -> (r: &'static str)
        ensures
            r@ == spec_memory_status_str(*self),
    {
        match self {
            MemoryStatus::Active => "active",
            MemoryStatus::Inactive => "inactive",
            MemoryStatus::Superseded => "superseded",
            MemoryStatus::Deleted => "deleted",
        }
    }

    /// The status with the given stored name, if any.
    pub fn from_str(s: &str) -> (r: Option<MemoryStatus>)
        ensures
            r == spec_memory_status_from(s@),
    {
        if str_eq(s, "active") {
            Some(MemoryStatus::Active)
        } else if str_eq(s, "inactive") {
            Some(MemoryStatus::Inactive)
        } else if str_eq(s, "superseded") {
            Some(MemoryStatus::Superseded)
        } else if str_eq(s, "deleted") {
            Some(MemoryStatus::Deleted)
        } else {
            None
        }
    }
}

/// Where a proposed memory stands.
#[derive(Clone, Copy, Debug, PartialEq, Eq, Structural)]
pub enum CandidateStatus {
    Pending,
    Approved,
    Rejected,
    Edited,
}

/// The stored name of a candidate status.
pub open spec fn spec_candidate_status_str(t: CandidateStatus) -> Seq<char> {
    match t {
        CandidateStatus::Pending => "pending"@,
        CandidateStatus::Approved => "approved"@,
        CandidateStatus::Rejected => "rejected"@,
        CandidateStatus::Edited => "edited"@,
    }
}

/// The candidate status with the given stored name.
pub open spec fn spec_candidate_status_from(s: Seq<char>) -> Option<CandidateStatus> {
    if s == "pending"@ {
        Some(CandidateStatus::Pending)
    } else if s == "approved"@ {
        Some(CandidateStatus::Approved)
    } else if s == "rejected"@ {
        Some(CandidateStatus::Rejected)
    } else if s == "edited"@ {
        Some(CandidateStatus::Edited)
    } else {
        None
    }
}

impl CandidateStatus {
    /// The stored name of the status.
    pub fn as_str(&self) -> (r: &'static str)
        ensures
            r@ == spec_candidate_status_str(*self),
    {
        match self {
            CandidateStatus::Pending => "pending",
            CandidateStatus::Approved => "approved",
            CandidateStatus::Rejected => "rejected",
            CandidateStatus::Edited => "edited",
        }
    }

    /// The status with the given stored name, if any.
    pub fn from_str(s: &str) -> (r: Option<CandidateStatus>)
        ensures
            r == spec_candidate_status_from(s@),
    {
        if str_eq(s, "pending") {
            Some(CandidateStatus::Pending)
        } else if str_eq(s, "approved") {
            Some(CandidateStatus::Approved)
        } else if str_eq(s, "rejected") {
            Some(CandidateStatus::Rejected)
        } else if str_eq(s, "edited") {
            Some(CandidateStatus::Edited)
        } else {
            None
        }
    }
}

/// A remembered fact: the values the library reads of it.
#[derive(Clone, Debug)]
pub struct Memory {
    pub id: String,
    pub memory_type: MemoryType,
    pub scope: String,
    pub title: String,
    pub content: String,
    pub status: MemoryStatus,
    pub source_type: Option<String>,
    pub source_ref: Option<String>,
    pub supersedes_id: Option<String>,
    pub metadata_json: Option<String>,
}

/// Content compared without regard to spacing and case: its words joined with single
/// spaces, lower-cased.
pub open spec fn spec_normalize_content(s: Seq<char>) -> Seq<char> {
    lowercase(join(words(s), " "@))
}

/// Content with runs of white space made single spaces and lower-cased.
pub fn normalize_content(content: &str) -> (r: String)
    ensures
        r@ == spec_normalize_content(content@),
{
    let cs = chars_of(content);
    let ws = split_whitespace_chars(cs.as_slice());
    let sp: [char; 1] = [' '];
    proof {
        reveal_strlit(" ");
    }
    assert(sp@ =~= " "@);
    let j = join_chars(ws.as_slice(), sp.as_slice());
    string_from(lower_chars(j.as_slice()).as_slice())
}

/// The cache key of a memory's content: `mem:` and its content hash.
pub fn memory_cache_key(content: &str) -> (r: String)
    ensures
        r@ == "mem:"@ + spec_hash_text(content@),
{
    let mut out = String::from_str("mem:");
    let h = hash_text(content);
    out.append(h.as_str());
    out
}

} // verus!

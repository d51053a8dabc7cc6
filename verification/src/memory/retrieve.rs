use vstd::prelude::*;
use vstd::string::*;

use crate::documents::types::str_eq;
use crate::text::{chars_eq, chars_of, starts_with, str_starts_with};

verus! {

/// How well a memory's scope suits a conversation, in hundredths: 100 for the
/// conversation's own scope, 75 for a project scope, 50 for `global`, 40 otherwise.
pub open spec fn spec_scope_match_percent(scope: Seq<char>, session_id: Seq<char>) -> u32 {
    if scope == "conversation:"@ + session_id {
        100
    } else if starts_with(scope, "project:"@) {
        75
    } else if scope == "global"@ {
        50
    } else {
        40
    }
}

/// How well a memory's scope suits a conversation, in hundredths.
pub fn scope_match_percent(scope: &str, session_id: &str) -> (r: u32)
    ensures
        r == spec_scope_match_percent(scope@, session_id@),
{
    let mut own = String::from_str("conversation:");
    own.append(session_id);
    let a = chars_of(scope);
    let b = chars_of(own.as_str());
    if chars_eq(a.as_slice(), b.as_slice()) {
        100
    } else if str_starts_with(scope, "project:") {
        75
    } else if str_eq(scope, "global") {
        50
    } else {
        40
    }
}

/// How many memories a request takes: the configured number, at least 3 and at most 8.
pub fn injected_limit(max_injected: usize) -> (r: usize)
    ensures
        r == (if max_injected < 3 {
            3
        } else if max_injected > 8 {
            8
        } else {
            max_injected
        }),
{
    if max_injected < 3 {
        3
    } else if max_injected > 8 {
        8
    } else {
        max_injected
    }
}

} // verus!

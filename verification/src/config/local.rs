use vstd::prelude::*;
use vstd::string::*;

use crate::error::AshkorixError;
use crate::text::{chars_of, contains, contains_chars, lower_str, lowercase};

verus! {

/// The `k`-th configuration key that would reach a remote service.
pub open spec fn forbidden_key(k: int) -> Seq<char> {
    if k == 0 {
        "api_url"@
    } else if k == 1 {
        "openai_api_key"@
    } else if k == 2 {
        "anthropic_api_key"@
    } else if k == 3 {
        "remote_endpoint"@
    } else {
        "cloud_api"@
    }
}

fn forbidden_key_exec(k: usize) -> (r: &'static str)
    requires
        k < 5,
    ensures
        r@ == forbidden_key(k as int),
{
    if k == 0 {
        "api_url"
    } else if k == 1 {
        "openai_api_key"
    } else if k == 2 {
        "anthropic_api_key"
    } else if k == 3 {
        "remote_endpoint"
    } else {
        "cloud_api"
    }
}

/// The first forbidden key, from the `k`-th on, that the lower-cased content holds.
pub open spec fn first_forbidden_from(lower: Seq<char>, k: int) -> Option<int>
    decreases 5 - k,
{
    if k < 0 || k >= 5 {
        None
    } else if contains(lower, forbidden_key(k)) {
        Some(k)
    } else {
        first_forbidden_from(lower, k + 1)
    }
}

/// The message of the error for a forbidden key.
pub open spec fn remote_key_message(key: Seq<char>) -> Seq<char> {
    "remote/cloud config key '"@ + key + "' is not allowed in local-only mode"@
}

/// Refuses configuration text that holds (in any case) a key for a remote service:
/// `api_url`, `openai_api_key`, `anthropic_api_key`, `remote_endpoint`, `cloud_api`. The error
/// names the first of them, in that order, that occurs.
pub fn validate_no_remote_keys(content: &str) -> (r: Result<(), AshkorixError>)
    ensures
        match first_forbidden_from(lowercase(content@), 0) {
            None => r is Ok,
            Some(k) => r matches Err(AshkorixError::Config(m)) && m@ == remote_key_message(
                forbidden_key(k),
            ),
        },
{
    let lower = lower_str(content);
    let mut k: usize = 0;
    while k < 5
        invariant
            k <= 5,
            lower@ == lowercase(content@),
            first_forbidden_from(lower@, 0) == first_forbidden_from(lower@, k as int),
        decreases 5 - k,
    {
        let key = forbidden_key_exec(k);
        let kc = chars_of(key);
        if contains_chars(lower.as_slice(), kc.as_slice()) {
            let mut m = String::from_str("remote/cloud config key '");
            m.append(key);
            m.append("' is not allowed in local-only mode");
            return Err(AshkorixError::Config(m));
        }
        k += 1;
    }
    Ok(())
}

/// The scope of the active project: `project:` and its name.
pub fn project_scope(active_project: &str) -> (r: String)
    ensures
        r@ == "project:"@ + active_project@,
{
    let mut s = String::from_str("project:");
    s.append(active_project);
    s
}

/// The memory scopes a conversation sees: `global`, the project's scope, and the
/// conversation's own scope.
pub fn active_scopes(active_project: &str, session_id: &str) -> (r: Vec<String>)
    ensures
        r@.map_values(|s: String| s@) == seq![
            "global"@,
            "project:"@ + active_project@,
            "conversation:"@ + session_id@,
        ],
{
    let mut v: Vec<String> = Vec::new();
    v.push(String::from_str("global"));
    v.push(project_scope(active_project));
    let mut c = String::from_str("conversation:");
    c.append(session_id);
    v.push(c);
    assert(v@.map_values(|s: String| s@) =~= seq![
        "global"@,
        "project:"@ + active_project@,
        "conversation:"@ + session_id@,
    ]);
    v
}

} // verus!

use vstd::prelude::*;
use vstd::string::*;

use crate::memory::types::{Memory, MemoryType};
use crate::text::{
    chars_eq, chars_of, contains, contains_chars, decimal, decimal_chars, find_chars, find_from,
    lower_chars, lower_str, lowercase, slice_to_vec, split_whitespace_chars, starts_with,
    starts_with_chars, string_from, trim, trim_by, trim_chars, trim_chars_by, utf8_len,
    utf8_len_exec, words, CharClass,
};

verus! {

/// The words that say nothing about what a lookup question asks for.
pub open spec fn is_lookup_stop_word(w: Seq<char>) -> bool {
    ||| w == "what"@ || w == "is"@ || w == "the"@ || w == "a"@ || w == "an"@ || w == "about"@
    ||| w == "tell"@ || w == "me"@ || w == "who"@ || w == "define"@ || w == "describe"@
    ||| w == "this"@ || w == "that"@ || w == "project"@ || w == "please"@ || w == "explain"@
}

/// A question that asks what or who something is: its lower-cased text holds `what is`,
/// `what's`, `who is`, `tell me about` or `describe `, or begins with `define `.
pub open spec fn spec_is_lookup_query(query: Seq<char>) -> bool {
    let q = lowercase(query);
    contains(q, "what is"@) || contains(q, "what's"@) || contains(q, "who is"@) || contains(
        q,
        "tell me about"@,
    ) || contains(q, "describe "@) || starts_with(q, "define "@)
}

/// The lookup phrases, in the order in which a subject is looked for after them.
pub open spec fn lookup_prefix(k: int) -> Seq<char> {
    if k == 0 {
        "what is "@
    } else if k == 1 {
        "what's "@
    } else if k == 2 {
        "who is "@
    } else if k == 3 {
        "tell me about "@
    } else if k == 4 {
        "define "@
    } else {
        "describe "@
    }
}

/// A subject with white space, then `?`, `.` and `!`, trimmed at both ends, lower-cased.
pub open spec fn spec_normalize_subject(s: Seq<char>) -> Seq<char> {
    lowercase(trim_by(trim(s), CharClass::EndMark))
}

/// The subject of a lookup question, searching from the `k`-th phrase on: what follows the
/// first occurrence of the first phrase that occurs, normalized.
pub open spec fn lookup_subject_from(q: Seq<char>, k: int) -> Option<Seq<char>>
    decreases 6 - k,
{
    if k < 0 || k >= 6 {
        None
    } else {
        match find_from(q, lookup_prefix(k), 0) {
            Some(pos) => Some(
                spec_normalize_subject(q.subrange(pos + lookup_prefix(k).len(), q.len() as int)),
            ),
            None => lookup_subject_from(q, k + 1),
        }
    }
}

/// The subject of the lower-cased question `q`.
pub open spec fn spec_lookup_subject(q: Seq<char>) -> Option<Seq<char>> {
    lookup_subject_from(q, 0)
}

/// A word of a question reduced to its term: non-alphanumeric characters trimmed at both
/// ends, lower-cased.
pub open spec fn term_of(w: Seq<char>) -> Seq<char> {
    lowercase(trim_by(w, CharClass::NotAlphanumeric))
}

/// A term worth matching: longer than two bytes and not a stop word.
pub open spec fn significant(t: Seq<char>) -> bool {
    utf8_len(t) > 2 && !is_lookup_stop_word(t)
}

/// The significant terms of a list of words, in order.
pub open spec fn significant_terms_of(ws: Seq<Seq<char>>) -> Seq<Seq<char>>
    decreases ws.len(),
{
    if ws.len() == 0 {
        Seq::empty()
    } else {
        significant_terms_of(ws.drop_last()) + (if significant(term_of(ws.last())) {
            seq![term_of(ws.last())]
        } else {
            Seq::empty()
        })
    }
}

/// The significant terms of a question, in order.
pub open spec fn spec_significant_terms(q: Seq<char>) -> Seq<Seq<char>> {
    significant_terms_of(words(q))
}

/// A memory answers a lookup question when the question's subject (three bytes or more)
/// occurs in its lower-cased content or title, or else when one of the question's
/// significant terms does.
pub open spec fn spec_memory_answers_lookup(query: Seq<char>, m: Memory) -> bool {
    let q = lowercase(query);
    let content = lowercase(m.content@);
    let title = lowercase(m.title@);
    let by_subject = match spec_lookup_subject(q) {
        Some(subject) => utf8_len(subject) >= 3 && (contains(content, subject) || contains(
            title,
            subject,
        )),
        None => false,
    };
    let terms = spec_significant_terms(q);
    by_subject || exists|i: int|
        0 <= i < terms.len() && (contains(content, #[trigger] terms[i]) || contains(
            title,
            terms[i],
        ))
}

/// A memory that may answer a lookup: a project fact or a decision.
pub open spec fn answers_lookups(t: MemoryType) -> bool {
    t == MemoryType::ProjectFact || t == MemoryType::Decision
}

/// The first memory at or after `i` that may answer the question and does.
pub open spec fn first_answering_from(query: Seq<char>, ms: Seq<Memory>, i: int) -> Option<int>
    decreases ms.len() - i,
{
    if i < 0 || i >= ms.len() {
        None
    } else if answers_lookups(ms[i].memory_type) && spec_memory_answers_lookup(query, ms[i]) {
        Some(i)
    } else {
        first_answering_from(query, ms, i + 1)
    }
}

/// The direct answer to a question from memories: for a lookup question, the trimmed content
/// of the first project fact or decision that answers it, cited by its number; else none.
pub open spec fn spec_direct_memory_answer(query: Seq<char>, ms: Seq<Memory>) -> Option<
    Seq<char>,
> {
    if ms.len() == 0 || !spec_is_lookup_query(query) {
        None
    } else {
        match first_answering_from(query, ms, 0) {
            Some(i) => Some(
                trim(ms[i].content@) + " [Memory "@ + decimal((i + 1) as nat) + "]"@,
            ),
            None => None,
        }
    }
}

/// Whether `q` holds `word`.
fn holds(q: &[char], word: &str) -> (r: bool)
    ensures
        r == contains(q@, word@),
{
    let w = chars_of(word);
    contains_chars(q, w.as_slice())
}

/// Whether the question asks what or who something is.
pub fn is_lookup_query(query: &str) -> (r: bool)
    ensures
        r == spec_is_lookup_query(query@),
{
    let q = lower_str(query);
    let qs = q.as_slice();
    let d = chars_of("define ");
    holds(qs, "what is") || holds(qs, "what's") || holds(qs, "who is") || holds(
        qs,
        "tell me about",
    ) || holds(qs, "describe ") || starts_with_chars(qs, d.as_slice())
}

/// The `k`-th lookup phrase.
fn lookup_prefix_exec(k: usize) -> (r: &'static str)
    requires
        k < 6,
    ensures
        r@ == lookup_prefix(k as int),
{
    if k == 0 {
        "what is "
    } else if k == 1 {
        "what's "
    } else if k == 2 {
        "who is "
    } else if k == 3 {
        "tell me about "
    } else if k == 4 {
        "define "
    } else {
        "describe "
    }
}

/// A subject trimmed of white space and of `?`, `.`, `!` at both ends, lower-cased.
pub fn normalize_subject(s: &[char]) -> (r: Vec<char>)
    ensures
        r@ == spec_normalize_subject(s@),
{
    let t = trim_chars(s);
    let u = trim_chars_by(t.as_slice(), CharClass::EndMark);
    lower_chars(u.as_slice())
}

/// The subject of the lower-cased question `q`: what follows the first lookup phrase that
/// occurs in it (in the order what is, what's, who is, tell me about, define, describe).
pub fn lookup_subject(q: &[char]) -> (r: Option<Vec<char>>)
    ensures
        r matches Some(v) ==> spec_lookup_subject(q@) == Some(v@),
        r is None ==> spec_lookup_subject(q@) is None,
{
    let mut k: usize = 0;
    while k < 6
        invariant
            k <= 6,
            spec_lookup_subject(q@) == lookup_subject_from(q@, k as int),
        decreases 6 - k,
    {
        let p = chars_of(lookup_prefix_exec(k));
        match find_chars(q, p.as_slice(), 0) {
            Some(pos) => {
                proof {
                    crate::text::lemma_find_from_spec(q@, p@, 0);
                    assert(crate::text::matches_at(q@, p@, pos as int));
                    assert(pos + p@.len() <= q@.len());
                }
                let plen = p.len();
                let qlen = q.len();
                assert(pos + plen <= qlen);
                let end = pos + plen;
                let rest = slice_to_vec(&q[end..qlen]);
                assert(rest@ == q@.subrange(pos + p@.len(), q@.len() as int));
                return Some(normalize_subject(rest.as_slice()));
            },
            None => {},
        }
        k += 1;
    }
    None
}

/// Whether a stop word is `w`.
fn is_stop_word(w: &[char]) -> (r: bool)
    ensures
        r == is_lookup_stop_word(w@),
{
    let stops: [&'static str; 16] = [
        "what",
        "is",
        "the",
        "a",
        "an",
        "about",
        "tell",
        "me",
        "who",
        "define",
        "describe",
        "this",
        "that",
        "project",
        "please",
        "explain",
    ];
    let mut i: usize = 0;
    while i < 16
        invariant
            i <= 16,
            stops@ == seq![
                "what",
                "is",
                "the",
                "a",
                "an",
                "about",
                "tell",
                "me",
                "who",
                "define",
                "describe",
                "this",
                "that",
                "project",
                "please",
                "explain",
            ],
            forall|j: int| 0 <= j < i ==> w@ != (#[trigger] stops@[j])@,
        decreases 16 - i,
    {
        let s = chars_of(stops[i]);
        if chars_eq(w, s.as_slice()) {
            return true;
        }
        i += 1;
    }
    assert(w@ != stops@[0]@);
    assert(w@ != stops@[1]@);
    assert(w@ != stops@[2]@);
    assert(w@ != stops@[3]@);
    assert(w@ != stops@[4]@);
    assert(w@ != stops@[5]@);
    assert(w@ != stops@[6]@);
    assert(w@ != stops@[7]@);
    assert(w@ != stops@[8]@);
    assert(w@ != stops@[9]@);
    assert(w@ != stops@[10]@);
    assert(w@ != stops@[11]@);
    assert(w@ != stops@[12]@);
    assert(w@ != stops@[13]@);
    assert(w@ != stops@[14]@);
    assert(w@ != stops@[15]@);
    false
}

/// The significant terms of the question `q`: each word trimmed of non-alphanumeric
/// characters and lower-cased, kept when longer than two bytes and not a stop word.
pub fn significant_terms(q: &[char]) -> (r: Vec<Vec<char>>)
    ensures
        r@.map_values(|v: Vec<char>| v@) == spec_significant_terms(q@),
{
    let ws = split_whitespace_chars(q);
    let ghost wv = ws@.map_values(|v: Vec<char>| v@);
    let mut out: Vec<Vec<char>> = Vec::new();
    let mut i: usize = 0;
    while i < ws.len()
        invariant
            i <= ws@.len(),
            wv == ws@.map_values(|v: Vec<char>| v@),
            wv == words(q@),
            out@.map_values(|v: Vec<char>| v@) == significant_terms_of(wv.take(i as int)),
        decreases ws@.len() - i,
    {
        let trimmed = trim_chars_by(ws[i].as_slice(), CharClass::NotAlphanumeric);
        let t = lower_chars(trimmed.as_slice());
        assert(wv[i as int] == ws@[i as int]@);
        assert(t@ == term_of(wv[i as int]));
        let long = utf8_len_exec(t.as_slice()) > 2;
        let ghost before = out@.map_values(|v: Vec<char>| v@);
        if long && !is_stop_word(t.as_slice()) {
            out.push(t);
            assert(out@.map_values(|v: Vec<char>| v@) =~= before.push(term_of(wv[i as int])));
        }
        proof {
            let tk = wv.take(i as int + 1);
            assert(tk.drop_last() == wv.take(i as int));
            assert(tk.last() == wv[i as int]);
        }
        i += 1;
    }
    assert(wv.take(wv.len() as int) == wv);
    out
}

/// Whether the memory answers the lookup question (see [`spec_memory_answers_lookup`]).
pub fn memory_answers_lookup(query: &str, memory: &Memory) -> (r: bool)
    ensures
        r == spec_memory_answers_lookup(query@, *memory),
{
    let q = lower_str(query);
    let content = lower_str(memory.content.as_str());
    let title = lower_str(memory.title.as_str());
    let by_subject = match lookup_subject(q.as_slice()) {
        Some(subject) => utf8_len_exec(subject.as_slice()) >= 3 && (contains_chars(
            content.as_slice(),
            subject.as_slice(),
        ) || contains_chars(title.as_slice(), subject.as_slice())),
        None => false,
    };
    if by_subject {
        return true;
    }
    let terms = significant_terms(q.as_slice());
    let ghost tv = terms@.map_values(|v: Vec<char>| v@);
    let mut i: usize = 0;
    while i < terms.len()
        invariant
            i <= terms@.len(),
            tv == terms@.map_values(|v: Vec<char>| v@),
            tv == spec_significant_terms(lowercase(query@)),
            content@ == lowercase(memory.content@),
            title@ == lowercase(memory.title@),
            forall|j: int|
                0 <= j < i ==> !(contains(content@, #[trigger] tv[j]) || contains(title@, tv[j])),
        decreases terms@.len() - i,
    {
        assert(tv[i as int] == terms@[i as int]@);
        if contains_chars(content.as_slice(), terms[i].as_slice()) || contains_chars(
            title.as_slice(),
            terms[i].as_slice(),
        ) {
            assert(contains(content@, tv[i as int]) || contains(title@, tv[i as int]));
            return true;
        }
        i += 1;
    }
    false
}

/// Answers a lookup question straight from memories, without a model: the trimmed content
/// of the first project fact or decision that answers it, followed by ` [Memory N]`.
/// `None` when there are no memories, the question is no lookup, or nothing answers it.
pub fn try_direct_memory_answer(query: &str, memories: &[Memory]) -> (r: Option<String>)
    ensures
        r matches Some(s) ==> spec_direct_memory_answer(query@, memories@) == Some(s@),
        r is None ==> spec_direct_memory_answer(query@, memories@) is None,
{
    if memories.len() == 0 || !is_lookup_query(query) {
        return None;
    }
    let mut i: usize = 0;
    while i < memories.len()
        invariant
            i <= memories@.len(),
            memories@.len() > 0,
            spec_is_lookup_query(query@),
            first_answering_from(query@, memories@, 0) == first_answering_from(
                query@,
                memories@,
                i as int,
            ),
        decreases memories@.len() - i,
    {
        let mem = &memories[i];
        let kind_ok = match mem.memory_type {
            MemoryType::ProjectFact => true,
            MemoryType::Decision => true,
            _ => false,
        };
        if kind_ok && memory_answers_lookup(query, mem) {
            let content = chars_of(mem.content.as_str());
            let t = trim_chars(content.as_slice());
            let mut out = string_from(t.as_slice());
            out.append(" [Memory ");
            let d = string_from(decimal_chars((i + 1) as u64).as_slice());
            out.append(d.as_str());
            out.append("]");
            return Some(out);
        }
        i += 1;
    }
    None
}


/// The events that stream a ready answer at once: the whole text, then the end of the
/// stream counting one token.
pub fn instant_text_events(text: String) -> (r: Vec<crate::model::TokenEvent>)
    ensures
        r@.len() == 2,
        r@[0].token == text,
        !r@[0].finished,
        r@[0].tokens_generated == 0,
        r@[1].token@.len() == 0,
        r@[1].finished,
        r@[1].tokens_generated == 1,
{
    let mut events: Vec<crate::model::TokenEvent> = Vec::new();
    events.push(crate::model::TokenEvent { token: text, finished: false, tokens_generated: 0 });
    events.push(crate::model::TokenEvent { token: String::new(), finished: true, tokens_generated: 1 });
    events
}

} // verus!

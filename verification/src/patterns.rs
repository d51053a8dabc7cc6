use vstd::prelude::*;

use crate::text::{chars_of, string_from};
use crate::offsets::is_boundary;

verus! {

/// Names the byte spans of the successive non-overlapping matches that the `regex` crate
/// reports for a pattern on a text, or `None` where the pattern does not compile.
pub uninterp spec fn regex_spans(pattern: Seq<char>, text: Seq<char>) -> Option<Seq<(usize, usize)>>;

/// Names, for each successive match that the `regex` crate reports, the byte span of every
/// capture group (group 0 first; `None` for a group that did not take part), or `None` where
/// the pattern does not compile.
pub uninterp spec fn regex_group_spans(pattern: Seq<char>, text: Seq<char>) -> Option<
    Seq<Seq<Option<(usize, usize)>>>,
>;

/// Spans that run forward: each starts no later than it ends, and no later than the next starts.
pub open spec fn spans_ordered(v: Seq<(usize, usize)>) -> bool {
    &&& forall|i: int| 0 <= i < v.len() ==> (#[trigger] v[i]).0 <= v[i].1
    &&& forall|i: int, j: int| 0 <= i < j < v.len() ==> (#[trigger] v[i]).1 <= (#[trigger] v[j]).0
}

/// Every span starts and ends at a character boundary of `t`.
pub open spec fn spans_on_boundaries(t: Seq<char>, v: Seq<(usize, usize)>) -> bool {
    forall|i: int| 0 <= i < v.len() ==> is_boundary(t, (#[trigger] v[i]).0 as int) && is_boundary(t, v[i].1 as int)
}

/// `regex::Regex::new` then `Regex::find_iter`. Claimed: `None` exactly where the pattern does
/// not compile, else the start and end byte offsets of each match in order; the matches do not
/// overlap, run forward through the text and lie on its character boundaries (as the crate
/// documents for `Match`).
#[verifier::external_body]
pub(crate) fn find_match_spans(pattern: &str, text: &str) -> (r: Option<Vec<(usize, usize)>>)
    ensures
        match r {
            Some(v) => regex_spans(pattern@, text@) == Some(v@) && spans_ordered(v@) && spans_on_boundaries(
                text@,
                v@,
            ),
            None => regex_spans(pattern@, text@) is None,
        },
{
    regex::Regex::new(pattern).ok().map(|re| re.find_iter(text).map(|m| (m.start(), m.end())).collect())
}

/// Every match has its whole-match group 0, every group span starts no later than it ends,
/// and the whole matches run forward through the text without overlapping.
pub open spec fn captures_ordered(gs: Seq<Seq<Option<(usize, usize)>>>) -> bool {
    &&& forall|i: int, k: int|
        0 <= i < gs.len() && 0 <= k < gs[i].len() && (#[trigger] gs[i][k]) is Some ==> (
        gs[i][k]->0).0 <= (gs[i][k]->0).1
    &&& forall|i: int|
        0 <= i < gs.len() ==> (#[trigger] gs[i]).len() >= 1 && gs[i][0] is Some && (gs[i][0]->0).0
            <= (gs[i][0]->0).1
    &&& forall|i: int, j: int|
        0 <= i < j < gs.len() ==> ((#[trigger] gs[i])[0]->0).1 <= ((#[trigger] gs[j])[0]->0).0
}

/// Every capture group span starts and ends at a character boundary of `t`.
pub open spec fn captures_on_boundaries(t: Seq<char>, gs: Seq<Seq<Option<(usize, usize)>>>) -> bool {
    forall|i: int, k: int|
        0 <= i < gs.len() && 0 <= k < gs[i].len() && (#[trigger] gs[i][k]) is Some ==> is_boundary(
            t,
            (gs[i][k]->0).0 as int,
        ) && is_boundary(t, (gs[i][k]->0).1 as int)
}

/// `regex::Regex::new` then `Regex::captures_iter`. Claimed: `None` exactly where the pattern
/// does not compile, else for each match in order the byte span of each capture group; group
/// 0, the whole match, is always present, every span starts no later than it ends and lies on
/// character boundaries of the text (as the crate documents for `Match`), and the matches are
/// successive and do not overlap.
#[verifier::external_body]
pub(crate) fn find_capture_spans(pattern: &str, text: &str) -> (r: Option<Vec<Vec<Option<(usize, usize)>>>>)
    ensures
        match r {
            Some(v) => regex_group_spans(pattern@, text@) == Some(
                v@.map_values(|g: Vec<Option<(usize, usize)>>| g@),
            ) && captures_ordered(v@.map_values(|g: Vec<Option<(usize, usize)>>| g@))
                && captures_on_boundaries(text@, v@.map_values(|g: Vec<Option<(usize, usize)>>| g@)),
            None => regex_group_spans(pattern@, text@) is None,
        },
{
    regex::Regex::new(pattern).ok().map(
        |re| re.captures_iter(text).map(|c| c.iter().map(|g| g.map(|m| (m.start(), m.end()))).collect()).collect(),
    )
}

/// The number of bytes `c` takes in UTF-8 (as `char::len_utf8`).
pub open spec fn utf8_width(c: char) -> int {
    if (c as u32) < 0x80 {
        1
    } else if (c as u32) < 0x800 {
        2
    } else if (c as u32) < 0x10000 {
        3
    } else {
        4
    }
}

/// Walking `s` from character `i` with `acc` bytes behind, the index of the first character
/// at which at least `b` bytes lie behind (or the length of `s`).
pub open spec fn char_index_from(s: Seq<char>, i: int, acc: int, b: int) -> int
    decreases s.len() - i,
{
    if i < 0 || i >= s.len() || acc >= b {
        if i < 0 { 0 } else if i > s.len() { s.len() as int } else { i }
    } else {
        char_index_from(s, i + 1, acc + utf8_width(s[i]), b)
    }
}

/// The character index in `s` of the byte offset `b`.
pub open spec fn char_index_of_byte(s: Seq<char>, b: int) -> int {
    char_index_from(s, 0, 0, b)
}

pub proof fn lemma_char_index_from_bounds(s: Seq<char>, i: int, acc: int, b: int)
    requires
        0 <= i <= s.len(),
    ensures
        i <= char_index_from(s, i, acc, b) <= s.len(),
    decreases s.len() - i,
{
    if i < s.len() && acc < b {
        lemma_char_index_from_bounds(s, i + 1, acc + utf8_width(s[i]), b);
    }
}

pub proof fn lemma_char_index_mono(s: Seq<char>, i: int, acc: int, b1: int, b2: int)
    requires
        0 <= i <= s.len(),
        b1 <= b2,
    ensures
        char_index_from(s, i, acc, b1) <= char_index_from(s, i, acc, b2),
    decreases s.len() - i,
{
    lemma_char_index_from_bounds(s, i, acc, b1);
    lemma_char_index_from_bounds(s, i, acc, b2);
    if i < s.len() && acc < b1 {
        lemma_char_index_mono(s, i + 1, acc + utf8_width(s[i]), b1, b2);
    }
}

/// The character index in `s` of a byte offset.
pub fn char_index_of_byte_exec(s: &[char], b: usize) -> (r: usize)
    ensures
        r == char_index_of_byte(s@, b as int),
        r <= s@.len(),
{
    let mut i: usize = 0;
    let mut acc: usize = 0;
    proof {
        lemma_char_index_from_bounds(s@, 0, 0, b as int);
    }
    while i < s.len() && acc < b
        invariant
            i <= s@.len(),
            acc <= b,
            char_index_of_byte(s@, b as int) == char_index_from(s@, i as int, acc as int, b as int),
        decreases s@.len() - i,
    {
        let c = s[i];
        let w: usize = if (c as u32) < 0x80 {
            1
        } else if (c as u32) < 0x800 {
            2
        } else if (c as u32) < 0x10000 {
            3
        } else {
            4
        };
        assert(w == utf8_width(c));
        if b - acc <= w {
            // the next step reaches or passes `b`
            proof {
                assert(char_index_from(s@, i + 1, acc + w, b as int) == (i + 1) as int) by {
                    assert(acc + w >= b);
                }
            }
            return i + 1;
        }
        acc = acc + w;
        i += 1;
    }
    i
}

/// The starts, as character indices of `s`, of the byte spans `v`.
pub open spec fn span_starts(s: Seq<char>, v: Seq<(usize, usize)>) -> Seq<int> {
    Seq::new(v.len(), |k: int| char_index_of_byte(s, v[k].0 as int))
}

/// The pieces that cutting `s` at the positions `starts[i..]` leaves, the first piece
/// starting at `last`; empty pieces before a cut are dropped (the cutting that
/// `split_by_regex` performs at match starts).
pub open spec fn cut_at_from(s: Seq<char>, starts: Seq<int>, i: int, last: int) -> Seq<Seq<char>>
    decreases starts.len() - i,
{
    if i < 0 || i >= starts.len() {
        if 0 <= last < s.len() {
            seq![s.subrange(last, s.len() as int)]
        } else {
            seq![]
        }
    } else {
        let st = starts[i];
        let head: Seq<Seq<char>> = if 0 <= last < st && st <= s.len() {
            seq![s.subrange(last, st)]
        } else {
            seq![]
        };
        head + cut_at_from(s, starts, i + 1, st)
    }
}

/// What `split_by_regex` gives for a text and a pattern: `None` where the pattern does not
/// compile or no piece remains, else the text cut at the start of every match.
pub open spec fn spec_split_by_regex(text: Seq<char>, pattern: Seq<char>) -> Option<Seq<Seq<char>>> {
    match regex_spans(pattern, text) {
        None => None,
        Some(v) => {
            let parts = cut_at_from(text, span_starts(text, v), 0, 0);
            if parts.len() == 0 {
                None
            } else {
                Some(parts)
            }
        },
    }
}

/// Splits `text` at the start of every match of `pattern`: the pieces between successive
/// match starts, the first piece before the first match when it is not empty, and the rest
/// after the last match start. `None` where the pattern does not compile or nothing remains.
pub fn split_by_regex(text: &str, pattern: &str) -> (r: Option<Vec<String>>)
    ensures
        match r {
            Some(v) => spec_split_by_regex(text@, pattern@) == Some(
                v@.map_values(|x: String| x@),
            ),
            None => spec_split_by_regex(text@, pattern@) is None,
        },
{
    let spans = match find_match_spans(pattern, text) {
        Some(v) => v,
        None => return None,
    };
    let cs = chars_of(text);
    let s = cs.as_slice();
    let ghost starts = span_starts(s@, spans@);
    let mut parts: Vec<String> = Vec::new();
    let mut last: usize = 0;
    let mut i: usize = 0;
    while i < spans.len()
        invariant
            i <= spans@.len(),
            last <= s@.len(),
            s@ == text@,
            starts == span_starts(s@, spans@),
            parts@.map_values(|x: String| x@) + cut_at_from(s@, starts, i as int, last as int)
                == cut_at_from(s@, starts, 0, 0),
        decreases spans@.len() - i,
    {
        let st = char_index_of_byte_exec(s, spans[i].0);
        assert(st == starts[i as int]);
        let ghost old_parts = parts@;
        if st > last {
            let piece = string_from(&s[last..st]);
            parts.push(piece);
            assert(parts@.map_values(|x: String| x@) == old_parts.map_values(|x: String| x@)
                + seq![piece@]);
        }
        last = st;
        i += 1;
    }
    let ghost old_parts = parts@;
    if last < s.len() {
        let piece = string_from(&s[last..s.len()]);
        parts.push(piece);
        assert(parts@.map_values(|x: String| x@) == old_parts.map_values(|x: String| x@) + seq![
            piece@,
        ]);
    } else {
        assert(parts@.map_values(|x: String| x@) == old_parts.map_values(|x: String| x@) + Seq::<
            Seq<char>,
        >::empty());
    }
    if parts.len() == 0 {
        None
    } else {
        Some(parts)
    }
}

} // verus!

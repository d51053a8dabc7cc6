use vstd::prelude::*;
use vstd::string::*;

use crate::patterns::{spec_split_by_regex, split_by_regex};
use crate::offsets::{
    byte_pos, byte_slice, char_at_byte, is_boundary, lemma_byte_pos_mono, lemma_byte_pos_step,
    lemma_utf8_len_bounds, lemma_utf8_len_concat,
};
use crate::text::{
    append_chars, chars_of, contains, contains_chars, slice_to_vec, split_chars, split_on, string_from,
    utf8_len, utf8_len_exec,
};

verus! {

/// The pattern that finds Markdown headings at line starts.
pub const HEADING_SPLIT_PATTERN: &'static str = "(?m)^#{1,6}\\s+";

/// The pattern that finds white space after a sentence end (a look-behind, which the
/// `regex` crate does not compile).
pub const SENTENCE_SPLIT_PATTERN: &'static str = "(?<=[.!?])\\s+";

/// The merged pieces of `parts[i..]`, `cur` being the piece under construction: parts are
/// joined with single spaces, and a piece is closed when adding the next part and a space
/// would make it longer than `max` bytes.
pub open spec fn merge_from(parts: Seq<Seq<char>>, i: int, cur: Seq<char>, max: int) -> Seq<Seq<char>>
    decreases parts.len() - i,
{
    if i < 0 || i >= parts.len() {
        if cur.len() > 0 {
            seq![cur]
        } else {
            seq![]
        }
    } else {
        let p = parts[i];
        let flush = utf8_len(cur) + utf8_len(p) + 1 > max && cur.len() > 0;
        let kept = if flush {
            Seq::<char>::empty()
        } else {
            cur
        };
        let next = if kept.len() > 0 {
            kept.push(' ') + p
        } else {
            kept + p
        };
        (if flush {
            seq![cur]
        } else {
            Seq::<Seq<char>>::empty()
        }) + merge_from(parts, i + 1, next, max)
    }
}

/// What `merge_to_size` gives.
pub open spec fn spec_merge_to_size(parts: Seq<Seq<char>>, max: int) -> Seq<Seq<char>> {
    merge_from(parts, 0, seq![], max)
}

/// Joins consecutive parts with single spaces into pieces of at most `max_chars` bytes; a
/// part that does not fit with the piece so far starts a new piece.
pub fn merge_to_size(parts: Vec<String>, max_chars: usize) -> (r: Vec<String>)
    ensures
        r@.map_values(|x: String| x@) == spec_merge_to_size(
            parts@.map_values(|x: String| x@),
            max_chars as int,
        ),
{
    let ghost ps = parts@.map_values(|x: String| x@);
    let mut result: Vec<String> = Vec::new();
    let mut current: Vec<char> = Vec::new();
    let mut cur_bytes: u128 = 0;
    let mut i: usize = 0;
    while i < parts.len()
        invariant
            i <= parts@.len(),
            ps == parts@.map_values(|x: String| x@),
            cur_bytes == utf8_len(current@),
            result@.map_values(|x: String| x@) + merge_from(ps, i as int, current@, max_chars as int)
                == spec_merge_to_size(ps, max_chars as int),
        decreases parts@.len() - i,
    {
        let part = chars_of(parts[i].as_str());
        assert(part@ == ps[i as int]);
        let part_bytes = utf8_len_exec(part.as_slice());
        let cl = current.len();
        let pl = part.len();
        proof {
            lemma_utf8_len_bounds(current@);
            lemma_utf8_len_bounds(part@);
            assert(cur_bytes <= 4 * cl && part_bytes <= 4 * pl);
        }
        let ghost old_result = result@;
        let ghost old_cur = current@;
        let flush = current.len() > 0 && cur_bytes + part_bytes + 1 > max_chars as u128;
        assert(flush == (utf8_len(old_cur) + utf8_len(part@) + 1 > max_chars && old_cur.len() > 0));
        if flush {
            result.push(string_from(current.as_slice()));
            assert(result@.map_values(|x: String| x@) == old_result.map_values(|x: String| x@)
                + seq![old_cur]);
            current = Vec::new();
            cur_bytes = 0;
        } else {
            assert(old_result.map_values(|x: String| x@) + Seq::<Seq<char>>::empty()
                == old_result.map_values(|x: String| x@));
        }
        if current.len() > 0 {
            let ghost c0 = current@;
            current.push(' ');
            proof {
                assert(current@.drop_last() =~= c0);
            }
            cur_bytes = cur_bytes + 1;
        }
        let ghost c1 = current@;
        append_chars(&mut current, part.as_slice());
        proof {
            lemma_utf8_len_concat(c1, part@);
        }
        cur_bytes = cur_bytes + part_bytes;
        i += 1;
    }
    let ghost old_result = result@;
    if current.len() > 0 {
        result.push(string_from(current.as_slice()));
        assert(result@.map_values(|x: String| x@) == old_result.map_values(|x: String| x@) + seq![
            current@,
        ]);
    } else {
        assert(old_result.map_values(|x: String| x@) + Seq::<Seq<char>>::empty()
            == old_result.map_values(|x: String| x@));
    }
    result
}

/// Windowing a text of `len` bytes with this size and overlap comes to an end: the text
/// fits in one window, or each window starts past the one before.
pub open spec fn window_halts(len: int, size: int, overlap: int) -> bool {
    len <= size || overlap < size
}

/// The windows of `s` from byte offset `start`: each takes up to `size` bytes, and the next
/// starts `overlap` bytes before the previous one ended.
pub open spec fn windows_from(s: Seq<char>, start: int, size: int, overlap: int) -> Seq<Seq<char>>
    decreases utf8_len(s) - start,
{
    let n = utf8_len(s) as int;
    if start < 0 || start >= n || size < 0 || overlap < 0 {
        seq![]
    } else {
        let end = if start + size <= n {
            start + size
        } else {
            n
        };
        if end == n {
            seq![byte_slice(s, start, end)]
        } else {
            let next = if end >= overlap {
                end - overlap
            } else {
                0
            };
            if next <= start {
                seq![byte_slice(s, start, end)]
            } else {
                seq![byte_slice(s, start, end)] + windows_from(s, next, size, overlap)
            }
        }
    }
}

/// The windows of `s` from byte offset `start` begin and end at character boundaries
/// (slicing elsewhere would panic).
pub open spec fn windows_cut_ok(s: Seq<char>, start: int, size: int, overlap: int) -> bool
    decreases utf8_len(s) - start,
{
    let n = utf8_len(s) as int;
    if start < 0 || start >= n || size < 0 || overlap < 0 {
        true
    } else {
        let end = if start + size <= n {
            start + size
        } else {
            n
        };
        let next = if end >= overlap {
            end - overlap
        } else {
            0
        };
        &&& is_boundary(s, start)
        &&& is_boundary(s, end)
        &&& (end == n || next <= start || windows_cut_ok(s, next, size, overlap))
    }
}

/// Fixed-size windows over `s`, in bytes, with the given overlap, where windowing comes to
/// an end without cutting inside a character; `None` where it would not.
pub fn try_window_chars(s: &[char], size: usize, overlap: usize) -> (r: Option<Vec<Vec<char>>>)
    ensures
        r is Some <==> window_halts(utf8_len(s@) as int, size as int, overlap as int) && windows_cut_ok(
            s@,
            0,
            size as int,
            overlap as int,
        ),
        r matches Some(v) ==> v@.map_values(|x: Vec<char>| x@) == windows_from(s@, 0, size as int, overlap as int),
{
    let mut chunks: Vec<Vec<char>> = Vec::new();
    let n: u128 = utf8_len_exec(s);
    if !(n <= size as u128 || overlap < size) {
        return None;
    }
    let mut start: u128 = 0;
    proof {
        lemma_utf8_len_bounds(s@);
    }
    while start < n
        invariant
            start <= n,
            n == utf8_len(s@),
            n <= 4 * s@.len(),
            window_halts(n as int, size as int, overlap as int),
            start == 0 || overlap < size,
            windows_cut_ok(s@, 0, size as int, overlap as int) == windows_cut_ok(s@, start as int, size as int, overlap as int),
            chunks@.map_values(|x: Vec<char>| x@) + windows_from(
                s@,
                start as int,
                size as int,
                overlap as int,
            ) == windows_from(s@, 0, size as int, overlap as int),
        decreases n - start,
    {
        let end: u128 = if size as u128 <= n - start {
            start + size as u128
        } else {
            n
        };
        let a = char_at_byte(s, start);
        let b = char_at_byte(s, end);
        let (ia, ib) = match (a, b) {
            (Some(x), Some(y)) => (x, y),
            _ => {
                return None;
            },
        };
        proof {
            if ia > ib {
                lemma_byte_pos_mono(s@, ib as int, ia as int);
            }
        }
        let piece = slice_to_vec(&s[ia..ib]);
        assert(piece@ == byte_slice(s@, start as int, end as int));
        let ghost old_chunks = chunks@;
        chunks.push(piece);
        assert(chunks@.map_values(|x: Vec<char>| x@) == old_chunks.map_values(|x: Vec<char>| x@)
            + seq![piece@]);
        if end == n {
            assert(windows_from(s@, start as int, size as int, overlap as int) == seq![piece@]);
            return Some(chunks);
        }
        let next = if end >= overlap as u128 {
            end - overlap as u128
        } else {
            0
        };
        assert(next > start);
        start = next;
    }
    assert(windows_from(s@, start as int, size as int, overlap as int) == Seq::<Seq<char>>::empty());
    assert(chunks@.map_values(|x: Vec<char>| x@) + Seq::<Seq<char>>::empty() == chunks@.map_values(
        |x: Vec<char>| x@,
    ));
    Some(chunks)
}

/// Fixed-size windows over `s`, in bytes, with the given overlap.
pub fn window_chars(s: &[char], size: usize, overlap: usize) -> (r: Vec<Vec<char>>)
    requires
        window_halts(utf8_len(s@) as int, size as int, overlap as int),
        windows_cut_ok(s@, 0, size as int, overlap as int),
    ensures
        r@.map_values(|x: Vec<char>| x@) == windows_from(s@, 0, size as int, overlap as int),
{
    match try_window_chars(s, size, overlap) {
        Some(v) => v,
        None => {
            assert(false);
            Vec::new()
        },
    }
}

/// Fixed-size windows over `text`, `size` bytes each, each starting `overlap` bytes before
/// the previous one ended; the last window ends at the end of the text.
pub fn window_chunk(text: &str, size: usize, overlap: usize) -> (r: Vec<String>)
    requires
        window_halts(utf8_len(text@) as int, size as int, overlap as int),
        windows_cut_ok(text@, 0, size as int, overlap as int),
    ensures
        r@.map_values(|x: String| x@) == windows_from(text@, 0, size as int, overlap as int),
{
    let cs = chars_of(text);
    let ws = window_chars(cs.as_slice(), size, overlap);
    strings_of(&ws)
}

/// Each character sequence as a `String`.
pub fn strings_of(v: &Vec<Vec<char>>) -> (r: Vec<String>)
    ensures
        r@.map_values(|x: String| x@) == v@.map_values(|x: Vec<char>| x@),
{
    let mut out: Vec<String> = Vec::new();
    let mut i: usize = 0;
    while i < v.len()
        invariant
            i <= v@.len(),
            out@.map_values(|x: String| x@) == v@.map_values(|x: Vec<char>| x@).take(i as int),
        decreases v@.len() - i,
    {
        let ghost old_out = out@;
        out.push(string_from(v[i].as_slice()));
        assert(out@.map_values(|x: String| x@) == old_out.map_values(|x: String| x@).push(v@[i as int]@));
        assert(v@.map_values(|x: Vec<char>| x@).take(i + 1) == v@.map_values(|x: Vec<char>| x@).take(i as int).push(v@[i as int]@));
        i += 1;
    }
    assert(v@.map_values(|x: Vec<char>| x@).take(v@.len() as int) == v@.map_values(|x: Vec<char>| x@));
    out
}


/// The paragraph separator, a blank line.
pub open spec fn paragraph_sep() -> Seq<char> {
    seq!['\n', '\n']
}

/// What `split_recursive` gives: a text of at most `max` bytes is kept whole; otherwise it is
/// split at headings, else at blank lines (each piece split again), else at sentence ends
/// (pieces then merged up to the size), else cut into windows overlapping by an eighth of
/// the size.
pub open spec fn split_rec(t: Seq<char>, max: int) -> Seq<Seq<char>>
    decreases t.len(), 1int, 0int,
{
    if utf8_len(t) <= max {
        seq![t]
    } else {
        let hs = spec_split_by_regex(t, HEADING_SPLIT_PATTERN@);
        if hs is Some && hs->0.len() > 1 {
            split_all(hs->0, 0, max, t.len() as int)
        } else if contains(t, paragraph_sep()) && split_on(t, paragraph_sep()).len() > 1 {
            split_all(split_on(t, paragraph_sep()), 0, max, t.len() as int)
        } else {
            let ss = spec_split_by_regex(t, SENTENCE_SPLIT_PATTERN@);
            if ss is Some && ss->0.len() > 1 {
                spec_merge_to_size(ss->0, max)
            } else {
                windows_from(t, 0, max, max / 8)
            }
        }
    }
}

/// The pieces `split_rec` gives for each of `ps[i..]` in turn, each piece being shorter
/// than `n`, the length of the text they came from.
pub open spec fn split_all(ps: Seq<Seq<char>>, i: int, max: int, n: int) -> Seq<Seq<char>>
    decreases n, 0int, ps.len() - i,
{
    if i < 0 || i >= ps.len() || n < 0 {
        seq![]
    } else {
        (if ps[i].len() < n {
            split_rec(ps[i], max)
        } else {
            seq![ps[i]]
        }) + split_all(ps, i + 1, max, n)
    }
}

/// Recursive splitting of `t` comes to an end without cutting inside a character: every
/// text that reaches the window stage can be windowed.
pub open spec fn split_ok(t: Seq<char>, max: int) -> bool
    decreases t.len(), 1int, 0int,
{
    if utf8_len(t) <= max {
        true
    } else {
        let hs = spec_split_by_regex(t, HEADING_SPLIT_PATTERN@);
        if hs is Some && hs->0.len() > 1 {
            all_split_ok(hs->0, 0, max, t.len() as int)
        } else if contains(t, paragraph_sep()) && split_on(t, paragraph_sep()).len() > 1 {
            all_split_ok(split_on(t, paragraph_sep()), 0, max, t.len() as int)
        } else {
            let ss = spec_split_by_regex(t, SENTENCE_SPLIT_PATTERN@);
            if ss is Some && ss->0.len() > 1 {
                true
            } else {
                window_halts(utf8_len(t) as int, max, max / 8) && windows_cut_ok(t, 0, max, max / 8)
            }
        }
    }
}

/// Every piece of `ps[i..]` shorter than `n` splits to an end.
pub open spec fn all_split_ok(ps: Seq<Seq<char>>, i: int, max: int, n: int) -> bool
    decreases n, 0int, ps.len() - i,
{
    if i < 0 || i >= ps.len() || n < 0 {
        true
    } else {
        (ps[i].len() >= n || split_ok(ps[i], max)) && all_split_ok(ps, i + 1, max, n)
    }
}

/// Each `String` as its characters.
pub fn char_vecs_of(v: &Vec<String>) -> (r: Vec<Vec<char>>)
    ensures
        r@.map_values(|x: Vec<char>| x@) == v@.map_values(|x: String| x@),
{
    let mut out: Vec<Vec<char>> = Vec::new();
    let mut i: usize = 0;
    while i < v.len()
        invariant
            i <= v@.len(),
            out@.map_values(|x: Vec<char>| x@) == v@.map_values(|x: String| x@).take(i as int),
        decreases v@.len() - i,
    {
        let ghost old_out = out@;
        out.push(chars_of(v[i].as_str()));
        assert(out@.map_values(|x: Vec<char>| x@) == old_out.map_values(|x: Vec<char>| x@).push(
            v@[i as int]@,
        ));
        assert(v@.map_values(|x: String| x@).take(i + 1) == v@.map_values(|x: String| x@).take(
            i as int,
        ).push(v@[i as int]@));
        i += 1;
    }
    assert(v@.map_values(|x: String| x@).take(v@.len() as int) == v@.map_values(|x: String| x@));
    out
}

fn split_each(parts: &Vec<Vec<char>>, max_chars: usize, n: usize) -> (r: Option<Vec<Vec<char>>>)
    ensures
        r is Some <==> all_split_ok(parts@.map_values(|x: Vec<char>| x@), 0, max_chars as int, n as int),
        r matches Some(v) ==> v@.map_values(|x: Vec<char>| x@) == split_all(
            parts@.map_values(|x: Vec<char>| x@),
            0,
            max_chars as int,
            n as int,
        ),
    decreases n, 0int, 0int,
{
    let ghost ps = parts@.map_values(|x: Vec<char>| x@);
    let mut out: Vec<Vec<char>> = Vec::new();
    let mut i: usize = 0;
    while i < parts.len()
        invariant
            i <= parts@.len(),
            ps == parts@.map_values(|x: Vec<char>| x@),
            all_split_ok(ps, 0, max_chars as int, n as int) == all_split_ok(ps, i as int, max_chars as int, n as int),
            out@.map_values(|x: Vec<char>| x@) + split_all(ps, i as int, max_chars as int, n as int)
                == split_all(ps, 0, max_chars as int, n as int),
        decreases parts@.len() - i,
    {
        assert(all_split_ok(ps, i as int, max_chars as int, n as int) == ((ps[i as int].len() >= n || split_ok(
            ps[i as int],
            max_chars as int,
        )) && all_split_ok(ps, i + 1, max_chars as int, n as int)));
        assert(ps[i as int] == parts@[i as int]@);
        let ghost old_out = out@;
        if parts[i].len() < n {
            match split_rec_checked(parts[i].as_slice(), max_chars) {
                Some(sub) => {
                    extend_vecs(&mut out, sub);
                },
                None => {
                    return None;
                },
            }
        } else {
            out.push(slice_to_vec(parts[i].as_slice()));
            assert(out@.map_values(|x: Vec<char>| x@) == old_out.map_values(|x: Vec<char>| x@)
                + seq![ps[i as int]]);
        }
        i += 1;
    }
    assert(split_all(ps, i as int, max_chars as int, n as int) == Seq::<Seq<char>>::empty());
    assert(out@.map_values(|x: Vec<char>| x@) + Seq::<Seq<char>>::empty() == out@.map_values(
        |x: Vec<char>| x@,
    ));
    Some(out)
}

/// Moves the vectors of `tail` onto the end of `v`.
pub fn extend_vecs(v: &mut Vec<Vec<char>>, tail: Vec<Vec<char>>)
    ensures
        final(v)@.map_values(|x: Vec<char>| x@) == old(v)@.map_values(|x: Vec<char>| x@)
            + tail@.map_values(|x: Vec<char>| x@),
{
    let mut tail = tail;
    let ghost a = v@;
    let ghost b = tail@;
    v.append(&mut tail);
    assert(v@ == a + b);
    assert((a + b).map_values(|x: Vec<char>| x@) =~= a.map_values(|x: Vec<char>| x@) + b.map_values(
        |x: Vec<char>| x@,
    ));
}

/// Splits `t` recursively into pieces of at most `max_chars` bytes where it can; `None`
/// where splitting would not come to an end or would cut inside a character.
fn split_rec_checked(t: &[char], max_chars: usize) -> (r: Option<Vec<Vec<char>>>)
    ensures
        r is Some <==> split_ok(t@, max_chars as int),
        r matches Some(v) ==> v@.map_values(|x: Vec<char>| x@) == split_rec(t@, max_chars as int),
    decreases t@.len(), 1int, 0int,
{
    if utf8_len_exec(t) <= max_chars as u128 {
        let mut out: Vec<Vec<char>> = Vec::new();
        out.push(slice_to_vec(t));
        assert(out@.map_values(|x: Vec<char>| x@) == seq![t@]);
        return Some(out);
    }
    let ts = string_from(t);
    let hs = split_by_regex(ts.as_str(), HEADING_SPLIT_PATTERN);
    if let Some(parts) = hs {
        if parts.len() > 1 {
            let pcs = char_vecs_of(&parts);
            return split_each(&pcs, max_chars, t.len());
        }
    }
    let sep: [char; 2] = ['\n', '\n'];
    assert(sep@ == paragraph_sep());
    if contains_chars(t, sep.as_slice()) {
        let pcs = split_chars(t, sep.as_slice());
        if pcs.len() > 1 {
            return split_each(&pcs, max_chars, t.len());
        }
    }
    let ss = split_by_regex(ts.as_str(), SENTENCE_SPLIT_PATTERN);
    if let Some(parts) = ss {
        if parts.len() > 1 {
            let merged = merge_to_size(parts, max_chars);
            return Some(char_vecs_of(&merged));
        }
    }
    try_window_chars(t, max_chars, max_chars / 8)
}

/// Splits `t` recursively into pieces of at most `max_chars` bytes where it can.
pub fn split_rec_chars(t: &[char], max_chars: usize) -> (r: Vec<Vec<char>>)
    requires
        split_ok(t@, max_chars as int),
    ensures
        r@.map_values(|x: Vec<char>| x@) == split_rec(t@, max_chars as int),
{
    match split_rec_checked(t, max_chars) {
        Some(v) => v,
        None => {
            assert(false);
            Vec::new()
        },
    }
}

/// Splits a text recursively (see [`split_recursive`]) where that comes to an end without
/// cutting inside a character; `None` where it would not (the case in which plain splitting
/// panics or never ends).
pub fn try_split_recursive(text: &str, max_chars: usize) -> (r: Option<Vec<String>>)
    ensures
        r is Some <==> split_ok(text@, max_chars as int),
        r matches Some(v) ==> v@.map_values(|x: String| x@) == split_rec(text@, max_chars as int),
{
    let cs = chars_of(text);
    match split_rec_checked(cs.as_slice(), max_chars) {
        Some(v) => Some(strings_of(&v)),
        None => None,
    }
}

/// Splits a text into pieces of at most `max_chars` bytes where it can: at headings,
/// then at blank lines (splitting each piece again), then at sentence ends, and as a last
/// resort into overlapping windows.
pub fn split_recursive(text: &str, max_chars: usize) -> (r: Vec<String>)
    requires
        split_ok(text@, max_chars as int),
    ensures
        r@.map_values(|x: String| x@) == split_rec(text@, max_chars as int),
{
    let cs = chars_of(text);
    let v = split_rec_chars(cs.as_slice(), max_chars);
    strings_of(&v)
}

} // verus!

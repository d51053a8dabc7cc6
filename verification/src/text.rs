use vstd::prelude::*;
use vstd::string::*;
use vstd::utf8::is_ascii_chars;

verus! {

/// Appends one character to a `String` (std's `String::push`).
#[verifier::external_body]
pub(crate) fn push_char(s: &mut String, c: char)
    ensures
        final(s)@ == old(s)@.push(c),
{
    s.push(c);
}

/// The characters of a string slice, in order.
pub fn chars_of(s: &str) -> (r: Vec<char>)
    ensures
        r@ == s@,
{
    let mut out: Vec<char> = Vec::new();
    for c in it: s.chars()
        invariant
            out@ == it.seq().take(it.index() as int),
    {
        out.push(c);
    }
    out
}

/// Builds a `String` holding exactly the given characters.
pub fn string_from(v: &[char]) -> (r: String)
    ensures
        r@ == v@,
{
    let mut s = String::new();
    let mut i: usize = 0;
    while i < v.len()
        invariant
            i <= v@.len(),
            s@ == v@.take(i as int),
        decreases v@.len() - i,
    {
        push_char(&mut s, v[i]);
        assert(v@.take(i as int + 1) == v@.take(i as int).push(v@[i as int]));
        i += 1;
    }
    assert(v@.take(v@.len() as int) == v@);
    s
}


/// Names what `char::is_alphanumeric` answers for a character.
pub uninterp spec fn is_alnum(c: char) -> bool;

/// `char::is_alphanumeric` (Unicode `Alphabetic` or `Numeric`). Claimed: the result is
/// `is_alnum(c)`, and on ASCII characters it is true exactly for ASCII letters and digits.
#[verifier::external_body]
pub(crate) fn char_is_alphanumeric(c: char) -> (r: bool)
    ensures
        r == is_alnum(c),
        (c as u32) < 128 ==> (r <==> ascii_alnum(c)),
{
    c.is_alphanumeric()
}

/// An ASCII letter or digit.
pub open spec fn ascii_alnum(c: char) -> bool {
    ('a' <= c && c <= 'z') || ('A' <= c && c <= 'Z') || ('0' <= c && c <= '9')
}

/// Unicode `White_Space`, the set that `char::is_whitespace` and `str::split_whitespace` use.
pub open spec fn is_ws(c: char) -> bool {
    ||| c == '\u{09}' || c == '\u{0A}' || c == '\u{0B}' || c == '\u{0C}' || c == '\u{0D}'
    ||| c == ' ' || c == '\u{85}' || c == '\u{A0}' || c == '\u{1680}'
    ||| ('\u{2000}' <= c && c <= '\u{200A}')
    ||| c == '\u{2028}' || c == '\u{2029}' || c == '\u{202F}' || c == '\u{205F}'
    ||| c == '\u{3000}'
}

/// Whether `c` is Unicode white space.
pub fn is_whitespace_char(c: char) -> (r: bool)
    ensures
        r == is_ws(c),
{
    c == '\u{09}' || c == '\u{0A}' || c == '\u{0B}' || c == '\u{0C}' || c == '\u{0D}' || c
        == ' ' || c == '\u{85}' || c == '\u{A0}' || c == '\u{1680}' || ('\u{2000}' <= c && c
        <= '\u{200A}') || c == '\u{2028}' || c == '\u{2029}' || c == '\u{202F}' || c
        == '\u{205F}' || c == '\u{3000}'
}

/// A set of characters that trimming removes.
#[derive(Clone, Copy)]
pub enum CharClass {
    /// Unicode white space (`char::is_whitespace`).
    Whitespace,
    /// Everything that is not alphanumeric (`!char::is_alphanumeric`).
    NotAlphanumeric,
    /// The sentence-ending marks `?`, `.` and `!`.
    EndMark,
    /// The backtick.
    Backtick,
    /// The dot.
    Dot,
    /// The line feed.
    Newline,
}

/// `c` belongs to the class `k`.
pub open spec fn in_class(k: CharClass, c: char) -> bool {
    match k {
        CharClass::Whitespace => is_ws(c),
        CharClass::NotAlphanumeric => !is_alnum(c),
        CharClass::EndMark => c == '?' || c == '.' || c == '!',
        CharClass::Backtick => c == '`',
        CharClass::Dot => c == '.',
        CharClass::Newline => c == '\n',
    }
}

/// Whether `c` belongs to the class `k`.
pub fn in_class_exec(k: CharClass, c: char) -> (r: bool)
    ensures
        r == in_class(k, c),
{
    match k {
        CharClass::Whitespace => is_whitespace_char(c),
        CharClass::NotAlphanumeric => !char_is_alphanumeric(c),
        CharClass::EndMark => c == '?' || c == '.' || c == '!',
        CharClass::Backtick => c == '`',
        CharClass::Dot => c == '.',
        CharClass::Newline => c == '\n',
    }
}

/// `s` with its leading characters of class `k` removed.
pub open spec fn trim_start_by(s: Seq<char>, k: CharClass) -> Seq<char>
    decreases s.len(),
{
    if s.len() > 0 && in_class(k, s[0]) {
        trim_start_by(s.drop_first(), k)
    } else {
        s
    }
}

/// `s` with its trailing characters of class `k` removed.
pub open spec fn trim_end_by(s: Seq<char>, k: CharClass) -> Seq<char>
    decreases s.len(),
{
    if s.len() > 0 && in_class(k, s.last()) {
        trim_end_by(s.drop_last(), k)
    } else {
        s
    }
}

/// `s` with characters of class `k` removed at both ends (as `str::trim_matches`).
pub open spec fn trim_by(s: Seq<char>, k: CharClass) -> Seq<char> {
    trim_end_by(trim_start_by(s, k), k)
}

/// `s` with white space removed at both ends (as `str::trim`).
pub open spec fn trim(s: Seq<char>) -> Seq<char> {
    trim_by(s, CharClass::Whitespace)
}

proof fn lemma_trim_start_skip(s: Seq<char>, k: CharClass, i: int)
    requires
        0 <= i <= s.len(),
        forall|j: int| 0 <= j < i ==> in_class(k, #[trigger] s[j]),
    ensures
        trim_start_by(s, k) == trim_start_by(s.subrange(i, s.len() as int), k),
    decreases i,
{
    if i > 0 {
        assert(s.drop_first() == s.subrange(1, s.len() as int));
        let t = s.drop_first();
        assert forall|j: int| 0 <= j < i - 1 implies in_class(k, #[trigger] t[j]) by {
            assert(t[j] == s[j + 1]);
        }
        lemma_trim_start_skip(t, k, i - 1);
        assert(t.subrange(i - 1, t.len() as int) == s.subrange(i, s.len() as int));
    } else {
        assert(s.subrange(0, s.len() as int) == s);
    }
}

proof fn lemma_trim_end_cut(s: Seq<char>, k: CharClass, j: int)
    requires
        0 <= j <= s.len(),
        forall|m: int| j <= m < s.len() ==> in_class(k, #[trigger] s[m]),
    ensures
        trim_end_by(s, k) == trim_end_by(s.subrange(0, j), k),
    decreases s.len() - j,
{
    if j < s.len() {
        let t = s.drop_last();
        assert forall|m: int| j <= m < t.len() implies in_class(k, #[trigger] t[m]) by {
            assert(t[m] == s[m]);
        }
        lemma_trim_end_cut(t, k, j);
        assert(t.subrange(0, j) == s.subrange(0, j));
    } else {
        assert(s.subrange(0, j) == s);
    }
}

/// The index of the first character of `s` outside the class `k`, or the length.
pub fn trim_start_index(s: &[char], k: CharClass) -> (r: usize)
    ensures
        r <= s@.len(),
        s@.subrange(r as int, s@.len() as int) == trim_start_by(s@, k),
{
    let mut i: usize = 0;
    while i < s.len() && in_class_exec(k, s[i])
        invariant
            i <= s@.len(),
            forall|j: int| 0 <= j < i ==> in_class(k, #[trigger] s@[j]),
        decreases s@.len() - i,
    {
        i += 1;
    }
    proof {
        lemma_trim_start_skip(s@, k, i as int);
        let t = s@.subrange(i as int, s@.len() as int);
        if t.len() > 0 {
            assert(t[0] == s@[i as int]);
        }
        assert(trim_start_by(t, k) == t);
    }
    i
}

/// The bounds `(a, b)` such that `s[a..b]` is `s` with characters of class `k`
/// removed at both ends.
pub fn trim_bounds_by(s: &[char], k: CharClass) -> (r: (usize, usize))
    ensures
        r.0 <= r.1 <= s@.len(),
        s@.subrange(r.0 as int, r.1 as int) == trim_by(s@, k),
{
    let i = trim_start_index(s, k);
    let ghost t = s@.subrange(i as int, s@.len() as int);
    let mut j: usize = s.len();
    while j > i && in_class_exec(k, s[j - 1])
        invariant
            i <= j <= s@.len(),
            forall|m: int| j <= m < s@.len() ==> in_class(k, #[trigger] s@[m]),
        decreases j,
    {
        j -= 1;
    }
    proof {
        let tt = t;
        assert forall|m: int| (j - i) <= m < tt.len() implies in_class(k, #[trigger] tt[m]) by {
            assert(tt[m] == s@[m + i]);
        }
        lemma_trim_end_cut(tt, k, j - i);
        let u = tt.subrange(0, j - i);
        assert(u == s@.subrange(i as int, j as int));
        if u.len() > 0 {
            assert(u.last() == s@[j - 1]);
        }
        assert(trim_end_by(u, k) == u);
    }
    (i, j)
}

/// The bounds `(a, b)` such that `s[a..b]` is `s` trimmed of white space.
pub fn trim_bounds(s: &[char]) -> (r: (usize, usize))
    ensures
        r.0 <= r.1 <= s@.len(),
        s@.subrange(r.0 as int, r.1 as int) == trim(s@),
{
    trim_bounds_by(s, CharClass::Whitespace)
}

/// The characters of `s` with characters of class `k` removed at both ends.
pub fn trim_chars_by(s: &[char], k: CharClass) -> (r: Vec<char>)
    ensures
        r@ == trim_by(s@, k),
{
    let (a, b) = trim_bounds_by(s, k);
    slice_to_vec(&s[a..b])
}

/// The characters of `s` with leading characters of class `k` removed.
pub fn trim_start_chars(s: &[char], k: CharClass) -> (r: Vec<char>)
    ensures
        r@ == trim_start_by(s@, k),
{
    let a = trim_start_index(s, k);
    slice_to_vec(&s[a..s.len()])
}

/// The characters of `s` trimmed of white space at both ends.
pub fn trim_chars(s: &[char]) -> (r: Vec<char>)
    ensures
        r@ == trim(s@),
{
    let (a, b) = trim_bounds(s);
    slice_to_vec(&s[a..b])
}

/// Copies a slice of characters into a new vector.
pub fn slice_to_vec(s: &[char]) -> (r: Vec<char>)
    ensures
        r@ == s@,
{
    let mut out: Vec<char> = Vec::new();
    let mut i: usize = 0;
    while i < s.len()
        invariant
            i <= s@.len(),
            out@ == s@.take(i as int),
        decreases s@.len() - i,
    {
        out.push(s[i]);
        assert(s@.take(i as int + 1) == s@.take(i as int).push(s@[i as int]));
        i += 1;
    }
    assert(s@.take(s@.len() as int) == s@);
    out
}


/// `p` occurs in `s` at position `i`.
pub open spec fn matches_at(s: Seq<char>, p: Seq<char>, i: int) -> bool {
    0 <= i && i + p.len() <= s.len() && s.subrange(i, i + p.len()) == p
}

/// The first position at or after `from` where `p` occurs in `s`.
pub open spec fn find_from(s: Seq<char>, p: Seq<char>, from: int) -> Option<int>
    decreases s.len() + 1 - from,
{
    if from < 0 || from + p.len() > s.len() {
        None
    } else if matches_at(s, p, from) {
        Some(from)
    } else {
        find_from(s, p, from + 1)
    }
}

/// `p` occurs somewhere in `s` (as `str::contains`).
pub open spec fn contains(s: Seq<char>, p: Seq<char>) -> bool {
    exists|i: int| #[trigger] matches_at(s, p, i)
}

pub proof fn lemma_find_from_spec(s: Seq<char>, p: Seq<char>, from: int)
    requires
        0 <= from,
    ensures
        find_from(s, p, from) matches Some(k) ==> from <= k && matches_at(s, p, k) && forall|j: int|
            from <= j < k ==> !matches_at(s, p, j),
        find_from(s, p, from) is None ==> forall|j: int| from <= j ==> !#[trigger] matches_at(s, p, j),
    decreases s.len() + 1 - from,
{
    if from + p.len() > s.len() {
    } else if matches_at(s, p, from) {
    } else {
        lemma_find_from_spec(s, p, from + 1);
    }
}

pub proof fn lemma_contains_find(s: Seq<char>, p: Seq<char>)
    ensures
        contains(s, p) <==> find_from(s, p, 0) is Some,
{
    lemma_find_from_spec(s, p, 0);
    if let Some(k) = find_from(s, p, 0) {
        assert(matches_at(s, p, k));
    }
}

/// Whether `p` occurs in `s` at position `i`.
pub fn matches_at_exec(s: &[char], p: &[char], i: usize) -> (r: bool)
    ensures
        r == matches_at(s@, p@, i as int),
{
    if i > s.len() {
        return false;
    }
    if p.len() > s.len() - i {
        return false;
    }
    let mut k: usize = 0;
    while k < p.len()
        invariant
            i + p@.len() <= s@.len(),
            s@.len() == s.len(),
            k <= p@.len(),
            forall|j: int| 0 <= j < k ==> s@[i + j] == p@[j],
        decreases p@.len() - k,
    {
        if s[i + k] != p[k] {
            assert(s@.subrange(i as int, i + p@.len())[k as int] != p@[k as int]);
            return false;
        }
        k += 1;
    }
    assert(s@.subrange(i as int, i + p@.len()) =~= p@);
    true
}

/// The first position at or after `from` where `p` occurs in `s`.
pub fn find_chars(s: &[char], p: &[char], from: usize) -> (r: Option<usize>)
    ensures
        r matches Some(k) ==> find_from(s@, p@, from as int) == Some(k as int),
        r is None ==> find_from(s@, p@, from as int) is None,
{
    let mut i = from;
    if p.len() > s.len() || from > s.len() {
        return None;
    }
    if p.len() == 0 {
        assert(matches_at(s@, p@, from as int)) by {
            assert(s@.subrange(from as int, from as int) =~= p@);
        }
        return Some(from);
    }
    while p.len() <= s.len() - i
        invariant
            from <= i <= s@.len(),
            1 <= p@.len() <= s@.len(),
            find_from(s@, p@, from as int) == find_from(s@, p@, i as int),
        decreases s@.len() - i,
    {
        if matches_at_exec(s, p, i) {
            return Some(i);
        }
        i += 1;
    }
    None
}

/// Whether `p` occurs in `s` (as `str::contains`).
pub fn contains_chars(s: &[char], p: &[char]) -> (r: bool)
    ensures
        r == contains(s@, p@),
{
    proof {
        lemma_contains_find(s@, p@);
    }
    find_chars(s, p, 0).is_some()
}

/// `s` begins with `p`.
pub open spec fn starts_with(s: Seq<char>, p: Seq<char>) -> bool {
    p.len() <= s.len() && s.take(p.len() as int) == p
}

/// Whether `s` begins with `p`.
pub fn starts_with_chars(s: &[char], p: &[char]) -> (r: bool)
    ensures
        r == starts_with(s@, p@),
{
    let r = matches_at_exec(s, p, 0);
    assert(s@.subrange(0, p@.len() as int) == s@.take(p@.len() as int));
    r
}

/// The pieces of `s[from..]` between occurrences of the non-empty separator `sep`
/// (as `str::split` with a string pattern).
pub open spec fn split_from(s: Seq<char>, sep: Seq<char>, from: int) -> Seq<Seq<char>>
    recommends
        sep.len() > 0,
    decreases s.len() - from,
{
    if sep.len() == 0 || from < 0 || from > s.len() {
        seq![]
    } else {
        match find_from(s, sep, from) {
            None => seq![s.subrange(from, s.len() as int)],
            Some(k) => if k >= from && k + sep.len() <= s.len() {
                seq![s.subrange(from, k)] + split_from(s, sep, k + sep.len())
            } else {
                seq![]
            },
        }
    }
}

/// The pieces of `s` between occurrences of `sep`.
pub open spec fn split_on(s: Seq<char>, sep: Seq<char>) -> Seq<Seq<char>> {
    split_from(s, sep, 0)
}

/// Splits `s` at every occurrence of the non-empty separator `sep`.
pub fn split_chars(s: &[char], sep: &[char]) -> (r: Vec<Vec<char>>)
    requires
        sep@.len() > 0,
    ensures
        r@.map_values(|v: Vec<char>| v@) == split_on(s@, sep@),
{
    let mut parts: Vec<Vec<char>> = Vec::new();
    let mut pos: usize = 0;
    loop
        invariant
            pos <= s@.len(),
            sep@.len() > 0,
            parts@.map_values(|v: Vec<char>| v@) + split_from(s@, sep@, pos as int) == split_on(
                s@,
                sep@,
            ),
        decreases s@.len() - pos,
    {
        proof {
            lemma_find_from_spec(s@, sep@, pos as int);
        }
        match find_chars(s, sep, pos) {
            None => {
                let piece = slice_to_vec(&s[pos..s.len()]);
                let ghost old_parts = parts@;
                parts.push(piece);
                assert(parts@.map_values(|v: Vec<char>| v@) == old_parts.map_values(
                    |v: Vec<char>| v@,
                ) + seq![piece@]);
                return parts;
            },
            Some(k) => {
                let piece = slice_to_vec(&s[pos..k]);
                let ghost old_parts = parts@;
                parts.push(piece);
                assert(parts@.map_values(|v: Vec<char>| v@) == old_parts.map_values(
                    |v: Vec<char>| v@,
                ) + seq![piece@]);
                assert(matches_at(s@, sep@, k as int));
                assert(s@.len() == s.len());
                pos = k + sep.len();
            },
        }
    }
}


/// The first index at or after `i` that is not white space (or the length).
pub open spec fn skip_ws(s: Seq<char>, i: int) -> int
    decreases s.len() - i,
{
    if 0 <= i < s.len() && is_ws(s[i]) {
        skip_ws(s, i + 1)
    } else {
        i
    }
}

/// The first index at or after `i` that is white space (or the length).
pub open spec fn skip_word(s: Seq<char>, i: int) -> int
    decreases s.len() - i,
{
    if 0 <= i < s.len() && !is_ws(s[i]) {
        skip_word(s, i + 1)
    } else {
        i
    }
}

/// The white-space separated words of `s[i..]` (as `str::split_whitespace`).
pub open spec fn words_from(s: Seq<char>, i: int) -> Seq<Seq<char>>
    decreases s.len() - i,
{
    let a = skip_ws(s, i);
    if i < 0 || a < i || a >= s.len() {
        seq![]
    } else {
        let b = skip_word(s, a);
        if b <= a || b > s.len() {
            seq![]
        } else {
            seq![s.subrange(a, b)] + words_from(s, b)
        }
    }
}

/// The white-space separated words of `s`.
pub open spec fn words(s: Seq<char>) -> Seq<Seq<char>> {
    words_from(s, 0)
}

proof fn lemma_skip_ws(s: Seq<char>, i: int)
    requires
        0 <= i <= s.len(),
    ensures
        i <= skip_ws(s, i) <= s.len(),
        skip_ws(s, i) < s.len() ==> !is_ws(s[skip_ws(s, i)]),
    decreases s.len() - i,
{
    if i < s.len() && is_ws(s[i]) {
        lemma_skip_ws(s, i + 1);
    }
}

proof fn lemma_skip_word(s: Seq<char>, i: int)
    requires
        0 <= i <= s.len(),
    ensures
        i <= skip_word(s, i) <= s.len(),
        i < s.len() && !is_ws(s[i]) ==> i < skip_word(s, i),
    decreases s.len() - i,
{
    if i < s.len() && !is_ws(s[i]) {
        lemma_skip_word(s, i + 1);
    }
}

/// The words of `s` separated by white space (as `str::split_whitespace`).
pub fn split_whitespace_chars(s: &[char]) -> (r: Vec<Vec<char>>)
    ensures
        r@.map_values(|v: Vec<char>| v@) == words(s@),
{
    let mut out: Vec<Vec<char>> = Vec::new();
    let mut pos: usize = 0;
    loop
        invariant
            pos <= s@.len(),
            out@.map_values(|v: Vec<char>| v@) + words_from(s@, pos as int) == words(s@),
        decreases s@.len() - pos,
    {
        let ghost p0 = pos as int;
        let mut a = pos;
        while a < s.len() && is_whitespace_char(s[a])
            invariant
                p0 <= a <= s@.len(),
                skip_ws(s@, p0) == skip_ws(s@, a as int),
            decreases s@.len() - a,
        {
            a += 1;
        }
        proof {
            lemma_skip_ws(s@, p0);
        }
        if a >= s.len() {
            assert(words_from(s@, p0) == Seq::<Seq<char>>::empty());
            assert(out@.map_values(|v: Vec<char>| v@) + Seq::<Seq<char>>::empty() == out@.map_values(
                |v: Vec<char>| v@,
            ));
            return out;
        }
        let mut b = a;
        while b < s.len() && !is_whitespace_char(s[b])
            invariant
                a <= b <= s@.len(),
                skip_word(s@, a as int) == skip_word(s@, b as int),
            decreases s@.len() - b,
        {
            b += 1;
        }
        proof {
            lemma_skip_word(s@, a as int);
        }
        let w = slice_to_vec(&s[a..b]);
        let ghost old_out = out@;
        out.push(w);
        assert(out@.map_values(|v: Vec<char>| v@) == old_out.map_values(|v: Vec<char>| v@) + seq![
            w@,
        ]);
        pos = b;
    }
}

/// The parts of `ps` joined with `sep` between each pair (as `[String]::join`).
pub open spec fn join(ps: Seq<Seq<char>>, sep: Seq<char>) -> Seq<char>
    decreases ps.len(),
{
    if ps.len() == 0 {
        seq![]
    } else if ps.len() == 1 {
        ps[0]
    } else {
        join(ps.drop_last(), sep) + sep + ps.last()
    }
}

/// Joins character sequences with a separator between each pair.
pub fn join_chars(ps: &[Vec<char>], sep: &[char]) -> (r: Vec<char>)
    ensures
        r@ == join(ps@.map_values(|v: Vec<char>| v@), sep@),
{
    let ghost views = ps@.map_values(|v: Vec<char>| v@);
    let mut out: Vec<char> = Vec::new();
    let mut i: usize = 0;
    while i < ps.len()
        invariant
            i <= ps@.len(),
            views == ps@.map_values(|v: Vec<char>| v@),
            out@ == join(views.take(i as int), sep@),
        decreases ps@.len() - i,
    {
        if i > 0 {
            append_chars(&mut out, sep);
        }
        append_chars(&mut out, ps[i].as_slice());
        proof {
            let t = views.take(i + 1);
            assert(t.drop_last() == views.take(i as int));
            assert(t.last() == ps@[i as int]@);
            if i == 0 {
                assert(t.len() == 1);
            }
        }
        i += 1;
    }
    assert(views.take(ps@.len() as int) == views);
    out
}

/// Appends the characters of `tail` to `v`.
pub fn append_chars(v: &mut Vec<char>, tail: &[char])
    ensures
        final(v)@ == old(v)@ + tail@,
{
    let ghost start = v@;
    let mut i: usize = 0;
    while i < tail.len()
        invariant
            i <= tail@.len(),
            v@ == start + tail@.take(i as int),
        decreases tail@.len() - i,
    {
        v.push(tail[i]);
        assert(tail@.take(i as int + 1) == tail@.take(i as int).push(tail@[i as int]));
        i += 1;
    }
    assert(tail@.take(tail@.len() as int) == tail@);
}

/// Names what `str::to_lowercase` returns for a string.
pub uninterp spec fn lowercase(s: Seq<char>) -> Seq<char>;

/// ASCII letters lowered, every other character kept.
pub open spec fn ascii_lower(s: Seq<char>) -> Seq<char> {
    s.map_values(|c: char| if 'A' <= c && c <= 'Z' { ((c as u32) + 32) as char } else { c })
}

/// `str::to_lowercase`. Claimed: the result is `lowercase(s)`, and on an all-ASCII string it
/// lowers exactly the ASCII capitals (Unicode lower-case mapping of ASCII).
#[verifier::external_body]
pub(crate) fn str_to_lowercase(s: &str) -> (r: String)
    ensures
        r@ == lowercase(s@),
        is_ascii_chars(s@) ==> r@ == ascii_lower(s@),
{
    s.to_lowercase()
}

/// The characters of `s` in lower case.
pub fn lower_chars(s: &[char]) -> (r: Vec<char>)
    ensures
        r@ == lowercase(s@),
{
    let st = string_from(s);
    let lo = str_to_lowercase(st.as_str());
    chars_of(lo.as_str())
}

/// The decimal digit character for `d`.
pub open spec fn digit_char(d: nat) -> char {
    ((d % 10) + 48) as char
}

/// The decimal representation of `n`, without leading zeros (as `u64::to_string`).
pub open spec fn decimal(n: nat) -> Seq<char>
    decreases n,
{
    if n < 10 {
        seq![digit_char(n)]
    } else {
        decimal(n / 10).push(digit_char(n % 10))
    }
}

/// The decimal representation of `n`.
pub fn decimal_chars(n: u64) -> (r: Vec<char>)
    ensures
        r@ == decimal(n as nat),
    decreases n,
{
    let d = ((n % 10) as u8 + 48u8) as char;
    assert(d == digit_char(n as nat)) by {
        assert(((n % 10) as u8 + 48u8) as char == (((n as nat) % 10) + 48) as char);
    }
    if n < 10 {
        let mut v: Vec<char> = Vec::new();
        v.push(d);
        assert(v@ == seq![d]);
        v
    } else {
        let mut v = decimal_chars(n / 10);
        v.push(d);
        assert(digit_char(n as nat) == digit_char((n as nat) % 10));
        v
    }
}

/// The numeric value of a sequence of ASCII digits.
pub open spec fn digits_value(s: Seq<char>) -> nat
    decreases s.len(),
{
    if s.len() == 0 {
        0
    } else {
        digits_value(s.drop_last()) * 10 + ((s.last() as u32) - 48) as nat
    }
}

/// Every character of `s` is an ASCII digit.
pub open spec fn all_ascii_digits(s: Seq<char>) -> bool {
    forall|i: int| 0 <= i < s.len() ==> '0' <= #[trigger] s[i] && s[i] <= '9'
}

/// What `str::parse::<u32>` gives: an optional `+` followed by one or more ASCII digits whose
/// value fits in 32 bits.
pub open spec fn parse_u32(s: Seq<char>) -> Option<u32> {
    let body = if s.len() > 0 && s[0] == '+' { s.drop_first() } else { s };
    if body.len() > 0 && all_ascii_digits(body) && digits_value(body) <= u32::MAX {
        Some(digits_value(body) as u32)
    } else {
        None
    }
}

/// Parses an unsigned 32-bit decimal number.
pub fn parse_u32_chars(s: &[char]) -> (r: Option<u32>)
    ensures
        r == parse_u32(s@),
{
    let start: usize = if s.len() > 0 && s[0] == '+' { 1 } else { 0 };
    let ghost body = s@.subrange(start as int, s@.len() as int);
    assert(body == (if s@.len() > 0 && s@[0] == '+' { s@.drop_first() } else { s@ }));
    if start >= s.len() {
        return None;
    }
    let mut acc: u64 = 0;
    let mut i = start;
    while i < s.len()
        invariant
            start <= i <= s@.len(),
            body == s@.subrange(start as int, s@.len() as int),
            body == (if s@.len() > 0 && s@[0] == '+' { s@.drop_first() } else { s@ }),
            all_ascii_digits(s@.subrange(start as int, i as int)),
            acc == digits_value(s@.subrange(start as int, i as int)),
            acc <= u32::MAX,
        decreases s@.len() - i,
    {
        let c = s[i];
        let ghost pre = s@.subrange(start as int, i as int);
        let ghost cur = s@.subrange(start as int, i + 1);
        assert(cur.drop_last() == pre);
        assert(cur.last() == c);
        if c < '0' || c > '9' {
            assert(!all_ascii_digits(body)) by {
                assert(body[i - start] == c);
            }
            return None;
        }
        let dv = (c as u32 - 48) as u64;
        let next = acc * 10 + dv;
        if next > 4294967295u64 {
            proof {
                assert(cur == body.take(i - start + 1));
                if all_ascii_digits(body) {
                    lemma_digits_value_prefix_mono(body, i - start + 1);
                }
            }
            return None;
        }
        acc = next;
        i += 1;
    }
    assert(s@.subrange(start as int, s@.len() as int) == body);
    Some(acc as u32)
}

proof fn lemma_digits_value_prefix_mono(s: Seq<char>, k: int)
    requires
        0 <= k <= s.len(),
        all_ascii_digits(s),
    ensures
        digits_value(s.take(k)) <= digits_value(s),
    decreases s.len() - k,
{
    if k == s.len() {
        assert(s.take(k) == s);
    } else {
        let t = s.drop_last();
        assert forall|i: int| 0 <= i < t.len() implies '0' <= #[trigger] t[i] && t[i] <= '9' by {
            assert(t[i] == s[i]);
        }
        lemma_digits_value_prefix_mono(t, k);
        assert(t.take(k) == s.take(k));
    }
}


/// Whether two character sequences are equal.
pub fn chars_eq(a: &[char], b: &[char]) -> (r: bool)
    ensures
        r == (a@ == b@),
{
    if a.len() != b.len() {
        return false;
    }
    let mut i: usize = 0;
    while i < a.len()
        invariant
            i <= a@.len(),
            a@.len() == b@.len(),
            forall|j: int| 0 <= j < i ==> a@[j] == b@[j],
        decreases a@.len() - i,
    {
        if a[i] != b[i] {
            return false;
        }
        i += 1;
    }
    assert(a@ =~= b@);
    true
}


/// The sum over the pieces of their lengths plus one each.
pub open spec fn total_len_plus_one(ps: Seq<Seq<char>>) -> int
    decreases ps.len(),
{
    if ps.len() == 0 {
        0
    } else {
        ps[0].len() + 1 + total_len_plus_one(ps.drop_first())
    }
}

pub proof fn lemma_total_concat(a: Seq<Seq<char>>, b: Seq<Seq<char>>)
    ensures
        total_len_plus_one(a + b) == total_len_plus_one(a) + total_len_plus_one(b),
    decreases a.len(),
{
    if a.len() > 0 {
        assert((a + b).drop_first() == a.drop_first() + b);
        lemma_total_concat(a.drop_first(), b);
    } else {
        assert(a + b == b);
    }
}

/// The pieces of a split fit in what was split: each is no longer than the rest of the
/// text, and together (one extra each) they are no longer than it plus one.
pub proof fn lemma_split_from_sizes(s: Seq<char>, sep: Seq<char>, from: int)
    requires
        0 <= from <= s.len(),
        sep.len() > 0,
    ensures
        split_from(s, sep, from).len() >= 1,
        total_len_plus_one(split_from(s, sep, from)) <= s.len() - from + 1,
        forall|i: int|
            0 <= i < split_from(s, sep, from).len() ==> (#[trigger] split_from(s, sep, from)[i]).len()
                <= s.len() - from,
        split_from(s, sep, from).len() > 1 ==> forall|i: int|
            0 <= i < split_from(s, sep, from).len() ==> (#[trigger] split_from(s, sep, from)[i]).len()
                < s.len() - from,
    decreases s.len() - from,
{
    lemma_find_from_spec(s, sep, from);
    match find_from(s, sep, from) {
        None => {
            let r = split_from(s, sep, from);
            assert(r == seq![s.subrange(from, s.len() as int)]);
            assert(total_len_plus_one(r.drop_first()) == 0);
        },
        Some(k) => {
            let rest = split_from(s, sep, k + sep.len());
            lemma_split_from_sizes(s, sep, k + sep.len());
            let r = split_from(s, sep, from);
            assert(r == seq![s.subrange(from, k)] + rest);
            assert(r.drop_first() == rest);
            assert forall|i: int| 0 <= i < r.len() implies (#[trigger] r[i]).len() < s.len() - from by {
                if i > 0 {
                    assert(r[i] == rest[i - 1]);
                }
            }
        },
    }
}


/// Whether `s` begins with `p` (`str::starts_with`).
pub fn str_starts_with(s: &str, p: &str) -> (r: bool)
    ensures
        r == starts_with(s@, p@),
{
    let a = chars_of(s);
    let b = chars_of(p);
    starts_with_chars(a.as_slice(), b.as_slice())
}

/// The characters of `s` lower-cased (`str::to_lowercase`).
pub fn lower_str(s: &str) -> (r: Vec<char>)
    ensures
        r@ == lowercase(s@),
{
    let lo = str_to_lowercase(s);
    chars_of(lo.as_str())
}

/// The UTF-8 lengths of the pieces `ps[j..]`, summed.
pub open spec fn bytes_from(ps: Seq<Seq<char>>, j: int) -> nat
    decreases ps.len() - j,
{
    if j < 0 || j >= ps.len() {
        0
    } else {
        utf8_len(ps[j]) + bytes_from(ps, j + 1)
    }
}

/// The number of bytes of the UTF-8 encoding of `s` (what `str::len` counts).
pub open spec fn utf8_len(s: Seq<char>) -> nat
    decreases s.len(),
{
    if s.len() == 0 {
        0
    } else {
        utf8_len(s.drop_last()) + crate::patterns::utf8_width(s.last()) as nat
    }
}

/// The UTF-8 length of `s`, in bytes.
pub fn utf8_len_exec(s: &[char]) -> (r: u128)
    ensures
        r == utf8_len(s@),
{
    let mut total: u128 = 0;
    let mut i: usize = 0;
    while i < s.len()
        invariant
            i <= s@.len(),
            total == utf8_len(s@.take(i as int)),
            total <= 4 * i,
        decreases s@.len() - i,
    {
        let c = s[i];
        let w: u128 = if (c as u32) < 0x80 {
            1
        } else if (c as u32) < 0x800 {
            2
        } else if (c as u32) < 0x10000 {
            3
        } else {
            4
        };
        assert(s@.take(i as int + 1).drop_last() == s@.take(i as int));
        total = total + w;
        i += 1;
    }
    assert(s@.take(s@.len() as int) == s@);
    total
}

/// `a` comes before `b` in the order of strings (byte-wise, which for UTF-8 is the order of
/// code points).
pub open spec fn str_lt(a: Seq<char>, b: Seq<char>) -> bool
    decreases a.len(),
{
    if b.len() == 0 {
        false
    } else if a.len() == 0 {
        true
    } else if a[0] != b[0] {
        (a[0] as u32) < (b[0] as u32)
    } else {
        str_lt(a.drop_first(), b.drop_first())
    }
}

/// The order of strings is transitive.
pub proof fn lemma_str_lt_trans(a: Seq<char>, b: Seq<char>, c: Seq<char>)
    requires
        str_lt(a, b),
        str_lt(b, c),
    ensures
        str_lt(a, c),
    decreases a.len(),
{
    if a.len() > 0 && b.len() > 0 && c.len() > 0 && a[0] == b[0] && b[0] == c[0] {
        lemma_str_lt_trans(a.drop_first(), b.drop_first(), c.drop_first());
    }
}

/// Whether `a` comes before `b` in the order of strings.
pub fn str_lt_exec(a: &[char], b: &[char]) -> (r: bool)
    ensures
        r == str_lt(a@, b@),
{
    let mut i: usize = 0;
    assert(a@.skip(0) =~= a@);
    assert(b@.skip(0) =~= b@);
    while i < a.len() && i < b.len()
        invariant
            i <= a@.len(),
            i <= b@.len(),
            str_lt(a@, b@) == str_lt(a@.skip(i as int), b@.skip(i as int)),
        decreases a@.len() - i,
    {
        if a[i] != b[i] {
            return (a[i] as u32) < (b[i] as u32);
        }
        assert(a@.skip(i as int).drop_first() =~= a@.skip(i as int + 1));
        assert(b@.skip(i as int).drop_first() =~= b@.skip(i as int + 1));
        i += 1;
    }
    i < b.len()
}

} // verus!

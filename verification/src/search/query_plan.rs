use vstd::prelude::*;
use vstd::string::*;

use crate::documents::entities::{match_texts, matched_texts};
use crate::patterns::{
    captures_ordered, char_index_of_byte_exec, find_capture_spans, lemma_char_index_mono,
    regex_group_spans,
};
use crate::rag::types::{spec_mode_params, RetrievalMode};
use crate::rag::verify::byte_slice;
use crate::text::{
    chars_eq, chars_of, contains, contains_chars, join, join_chars, lower_chars, lower_str,
    lowercase, slice_to_vec, split_chars, split_on, split_whitespace_chars, string_from, trim,
    trim_by, trim_chars, trim_chars_by, utf8_len, utf8_len_exec, words, CharClass,
};

verus! {

/// The query variants a retrieval searches, the question itself first.
#[derive(Clone, Debug)]
pub struct QueryPlan {
    pub variants: Vec<String>,
}

/// A phrase in double quotes.
pub const QUOTED_PATTERN: &'static str = "\"([^\"]+)\"";

/// The `k`-th pattern of the literal keywords a question may hold: phase, field and error
/// numbers, upper-case acronyms of two to six letters, and numbers of five or more digits.
pub open spec fn keyword_pattern(k: int) -> Seq<char> {
    if k == 0 {
        "(?i)\\bphase\\s+\\d+\\b"@
    } else if k == 1 {
        "\\bfield\\s+\\d+\\b"@
    } else if k == 2 {
        "\\bField\\s+\\d+\\b"@
    } else if k == 3 {
        "\\berror\\s+\\d+\\b"@
    } else if k == 4 {
        "\\bError\\s+\\d+\\b"@
    } else if k == 5 {
        "\\b[A-Z]{2,6}\\b"@
    } else {
        "\\b\\d{5,}\\b"@
    }
}

fn keyword_pattern_exec(k: usize) -> (r: &'static str)
    requires
        k < 7,
    ensures
        r@ == keyword_pattern(k as int),
{
    if k == 0 {
        "(?i)\\bphase\\s+\\d+\\b"
    } else if k == 1 {
        "\\bfield\\s+\\d+\\b"
    } else if k == 2 {
        "\\bField\\s+\\d+\\b"
    } else if k == 3 {
        "\\berror\\s+\\d+\\b"
    } else if k == 4 {
        "\\bError\\s+\\d+\\b"
    } else if k == 5 {
        "\\b[A-Z]{2,6}\\b"
    } else {
        "\\b\\d{5,}\\b"
    }
}

/// The texts the keyword patterns from the `k`-th on match, pattern by pattern.
pub open spec fn pattern_texts_from(q: Seq<char>, k: int) -> Seq<Seq<char>>
    decreases 7 - k,
{
    if k < 0 || k >= 7 {
        Seq::empty()
    } else {
        match_texts(q, keyword_pattern(k)) + pattern_texts_from(q, k + 1)
    }
}

/// The quoted phrases of the matches from the `i`-th on; `None` when a match lacks its
/// phrase group.
pub open spec fn quoted_parts_from(
    text: Seq<char>,
    caps: Seq<Seq<Option<(usize, usize)>>>,
    i: int,
) -> Option<Seq<Seq<char>>>
    decreases caps.len() - i,
{
    if i < 0 || i >= caps.len() {
        Some(Seq::empty())
    } else if caps[i].len() < 2 || caps[i][1] is None {
        None
    } else {
        match quoted_parts_from(text, caps, i + 1) {
            None => None,
            Some(rest) => Some(
                seq![byte_slice(text, (caps[i][1]->0).0 as int, (caps[i][1]->0).1 as int)] + rest,
            ),
        }
    }
}

/// The phrases in double quotes.
pub open spec fn spec_quoted_parts(q: Seq<char>) -> Option<Seq<Seq<char>>> {
    match regex_group_spans(QUOTED_PATTERN@, q) {
        None => Some(Seq::empty()),
        Some(caps) => quoted_parts_from(q, caps, 0),
    }
}

/// The words left out of a keyword query.
pub open spec fn is_keyword_stop_word(w: Seq<char>) -> bool {
    ||| w == "the"@ || w == "a"@ || w == "an"@ || w == "is"@ || w == "are"@ || w == "what"@
    ||| w == "does"@ || w == "how"@ || w == "where"@ || w == "when"@ || w == "this"@
    ||| w == "that"@ || w == "about"@ || w == "say"@ || w == "says"@
}

/// A word reduced to a keyword: non-alphanumeric characters trimmed, lower-cased.
pub open spec fn keyword_of(w: Seq<char>) -> Seq<char> {
    lowercase(trim_by(w, CharClass::NotAlphanumeric))
}

/// The keywords of a list of words: longer than two bytes and not stop words, in order.
pub open spec fn word_keywords(ws: Seq<Seq<char>>) -> Seq<Seq<char>>
    decreases ws.len(),
{
    if ws.len() == 0 {
        Seq::empty()
    } else {
        word_keywords(ws.drop_last()) + (if utf8_len(keyword_of(ws.last())) > 2
            && !is_keyword_stop_word(keyword_of(ws.last())) {
            seq![keyword_of(ws.last())]
        } else {
            Seq::empty()
        })
    }
}

/// The keyword query of a question: its quoted phrases, the texts its keyword patterns
/// match, then its significant words, joined by spaces; `None` when there is nothing (or a
/// quote match lacks its phrase).
pub open spec fn spec_extract_keyword_query(q: Seq<char>) -> Option<Seq<char>> {
    match spec_quoted_parts(q) {
        None => None,
        Some(quoted) => {
            let parts = quoted + pattern_texts_from(q, 0) + word_keywords(words(q));
            if parts.len() == 0 {
                None
            } else {
                Some(join(parts, " "@))
            }
        },
    }
}

/// Whether `w` is a stop word of keyword queries.
fn is_keyword_stop(w: &[char]) -> (r: bool)
    ensures
        r == is_keyword_stop_word(w@),
{
    let stops: [&'static str; 15] = [
        "the",
        "a",
        "an",
        "is",
        "are",
        "what",
        "does",
        "how",
        "where",
        "when",
        "this",
        "that",
        "about",
        "say",
        "says",
    ];
    let mut i: usize = 0;
    while i < 15
        invariant
            i <= 15,
            stops@ == seq![
                "the",
                "a",
                "an",
                "is",
                "are",
                "what",
                "does",
                "how",
                "where",
                "when",
                "this",
                "that",
                "about",
                "say",
                "says",
            ],
            forall|j: int| 0 <= j < i ==> w@ != (#[trigger] stops@[j])@,
        decreases 15 - i,
    {
        let s = chars_of(stops[i]);
        if chars_eq(w, s.as_slice()) {
            return true;
        }
        i += 1;
    }
    assert(w@ != stops@[0]@);
    assert(w@ != stops@[1]@);
    assert(w@ != stops@[2]@);
    assert(w@ != stops@[3]@);
    assert(w@ != stops@[4]@);
    assert(w@ != stops@[5]@);
    assert(w@ != stops@[6]@);
    assert(w@ != stops@[7]@);
    assert(w@ != stops@[8]@);
    assert(w@ != stops@[9]@);
    assert(w@ != stops@[10]@);
    assert(w@ != stops@[11]@);
    assert(w@ != stops@[12]@);
    assert(w@ != stops@[13]@);
    assert(w@ != stops@[14]@);
    false
}

/// Appends the views of `xs` to `out`.
fn extend_parts(out: &mut Vec<Vec<char>>, xs: Vec<Vec<char>>)
    ensures
        final(out)@.map_values(|v: Vec<char>| v@) == old(out)@.map_values(|v: Vec<char>| v@)
            + xs@.map_values(|v: Vec<char>| v@),
{
    let ghost start = out@.map_values(|v: Vec<char>| v@);
    let ghost xv = xs@.map_values(|v: Vec<char>| v@);
    for x in it: xs.into_iter()
        invariant
            it.seq().map_values(|v: Vec<char>| v@) == xv,
            it.index() <= xv.len(),
            out@.map_values(|v: Vec<char>| v@) == start + xv.take(it.index() as int),
    {
        let ghost i = it.index() as int;
        let ghost before = out@.map_values(|v: Vec<char>| v@);
        assert(x@ == xv[i]);
        out.push(x);
        assert(out@.map_values(|v: Vec<char>| v@) =~= before.push(xv[i]));
        assert(xv.take(i + 1) == xv.take(i).push(xv[i]));
    }
    assert(xv.take(xv.len() as int) == xv);
}

/// The phrases in double quotes of a question (see [`spec_quoted_parts`]).
fn quoted_parts(query: &str) -> (r: Option<Vec<Vec<char>>>)
    ensures
        match r {
            Some(v) => spec_quoted_parts(query@) == Some(v@.map_values(|x: Vec<char>| x@)),
            None => spec_quoted_parts(query@) is None,
        },
{
    let caps = match find_capture_spans(QUOTED_PATTERN, query) {
        Some(c) => c,
        None => return Some(Vec::new()),
    };
    let ghost gs = caps@.map_values(|g: Vec<Option<(usize, usize)>>| g@);
    let cs = chars_of(query);
    let s = cs.as_slice();
    let mut out: Vec<Vec<char>> = Vec::new();
    let mut i: usize = 0;
    while i < caps.len()
        invariant
            i <= caps@.len(),
            s@ == query@,
            gs == caps@.map_values(|g: Vec<Option<(usize, usize)>>| g@),
            regex_group_spans(QUOTED_PATTERN@, query@) == Some(gs),
            captures_ordered(gs),
            quoted_parts_from(s@, gs, 0) == match quoted_parts_from(s@, gs, i as int) {
                None => None,
                Some(rest) => Some(out@.map_values(|x: Vec<char>| x@) + rest),
            },
        decreases caps@.len() - i,
    {
        let g = &caps[i];
        assert(g@ == gs[i as int]);
        if g.len() < 2 {
            return None;
        }
        match g[1] {
            None => return None,
            Some(grp) => {
                proof {
                    assert(gs[i as int][1] is Some);
                    lemma_char_index_mono(s@, 0, 0, grp.0 as int, grp.1 as int);
                }
                let a = char_index_of_byte_exec(s, grp.0);
                let b = char_index_of_byte_exec(s, grp.1);
                let t = slice_to_vec(&s[a..b]);
                let ghost before = out@.map_values(|x: Vec<char>| x@);
                out.push(t);
                assert(out@.map_values(|x: Vec<char>| x@) =~= before.push(t@));
                proof {
                    match quoted_parts_from(s@, gs, i as int + 1) {
                        None => {},
                        Some(rest) => {
                            assert(before + (seq![t@] + rest) =~= before.push(t@) + rest);
                        },
                    }
                }
            },
        }
        i += 1;
    }
    assert(out@.map_values(|x: Vec<char>| x@) + Seq::<Seq<char>>::empty() == out@.map_values(
        |x: Vec<char>| x@,
    ));
    Some(out)
}

/// The keyword query of a question (see [`spec_extract_keyword_query`]).
pub fn extract_keyword_query(query: &str) -> (r: Option<String>)
    ensures
        match r {
            Some(s) => spec_extract_keyword_query(query@) == Some(s@),
            None => spec_extract_keyword_query(query@) is None,
        },
{
    let mut parts = match quoted_parts(query) {
        Some(p) => p,
        None => return None,
    };
    let ghost quoted = parts@.map_values(|x: Vec<char>| x@);
    let mut k: usize = 0;
    while k < 7
        invariant
            k <= 7,
            parts@.map_values(|x: Vec<char>| x@) + pattern_texts_from(query@, k as int) == quoted
                + pattern_texts_from(query@, 0),
        decreases 7 - k,
    {
        let m = matched_texts(query, keyword_pattern_exec(k));
        let ghost before = parts@.map_values(|x: Vec<char>| x@);
        extend_parts(&mut parts, m);
        assert(before + pattern_texts_from(query@, k as int) =~= before + match_texts(
            query@,
            keyword_pattern(k as int),
        ) + pattern_texts_from(query@, k as int + 1));
        k += 1;
    }
    assert(parts@.map_values(|x: Vec<char>| x@) + Seq::<Seq<char>>::empty() == parts@.map_values(
        |x: Vec<char>| x@,
    ));
    let qc = chars_of(query);
    let ws = split_whitespace_chars(qc.as_slice());
    let ghost wv = ws@.map_values(|v: Vec<char>| v@);
    let ghost head = parts@.map_values(|x: Vec<char>| x@);
    let mut i: usize = 0;
    while i < ws.len()
        invariant
            i <= ws@.len(),
            wv == ws@.map_values(|v: Vec<char>| v@),
            wv == words(query@),
            parts@.map_values(|x: Vec<char>| x@) == head + word_keywords(wv.take(i as int)),
        decreases ws@.len() - i,
    {
        assert(wv[i as int] == ws@[i as int]@);
        let t = trim_chars_by(ws[i].as_slice(), CharClass::NotAlphanumeric);
        let w = lower_chars(t.as_slice());
        let ghost before = parts@.map_values(|x: Vec<char>| x@);
        if utf8_len_exec(w.as_slice()) > 2 && !is_keyword_stop(w.as_slice()) {
            parts.push(w);
            assert(parts@.map_values(|x: Vec<char>| x@) =~= before.push(keyword_of(wv[i as int])));
        }
        proof {
            let tk = wv.take(i as int + 1);
            assert(tk.drop_last() == wv.take(i as int));
            assert(tk.last() == wv[i as int]);
        }
        i += 1;
    }
    assert(wv.take(wv.len() as int) == wv);
    if parts.len() == 0 {
        return None;
    }
    let sp = chars_of(" ");
    let j = join_chars(parts.as_slice(), sp.as_slice());
    Some(string_from(j.as_slice()))
}

/// The `k`-th topic word that widens a question, and what it adds.
pub open spec fn acronym_expansion(k: int) -> (Seq<char>, Seq<char>) {
    if k == 0 {
        ("compliance"@, "verification assessment traceability control objective shall"@)
    } else if k == 1 {
        ("security"@, "authentication authorization encryption access control"@)
    } else {
        ("error"@, "fault failure exception code"@)
    }
}

fn acronym_expansion_exec(k: usize) -> (r: (&'static str, &'static str))
    requires
        k < 3,
    ensures
        (r.0@, r.1@) == acronym_expansion(k as int),
{
    if k == 0 {
        ("compliance", "verification assessment traceability control objective shall")
    } else if k == 1 {
        ("security", "authentication authorization encryption access control")
    } else {
        ("error", "fault failure exception code")
    }
}

/// The widened question from the `k`-th topic word on: the question followed by the words of
/// the first topic its lower-cased text mentions.
pub open spec fn expand_from(query: Seq<char>, k: int) -> Option<Seq<char>>
    decreases 3 - k,
{
    if k < 0 || k >= 3 {
        None
    } else if contains(lowercase(query), acronym_expansion(k).0) {
        Some(query + " "@ + acronym_expansion(k).1)
    } else {
        expand_from(query, k + 1)
    }
}

/// The question widened with the words of the first topic it mentions (compliance,
/// security, error), if any.
pub fn expand_acronyms(query: &str) -> (r: Option<String>)
    ensures
        match r {
            Some(s) => expand_from(query@, 0) == Some(s@),
            None => expand_from(query@, 0) is None,
        },
{
    let lower = lower_str(query);
    let mut k: usize = 0;
    while k < 3
        invariant
            k <= 3,
            lower@ == lowercase(query@),
            expand_from(query@, 0) == expand_from(query@, k as int),
        decreases 3 - k,
    {
        let (term, expansion) = acronym_expansion_exec(k);
        let tc = chars_of(term);
        if contains_chars(lower.as_slice(), tc.as_slice()) {
            let mut out = String::from_str(query);
            out.append(" ");
            out.append(expansion);
            return Some(out);
        }
        k += 1;
    }
    None
}

/// The parts longer than five bytes once trimmed, trimmed, in order.
pub open spec fn long_parts(ps: Seq<Seq<char>>) -> Seq<Seq<char>>
    decreases ps.len(),
{
    if ps.len() == 0 {
        Seq::empty()
    } else {
        long_parts(ps.drop_last()) + (if utf8_len(trim(ps.last())) > 5 {
            seq![trim(ps.last())]
        } else {
            Seq::empty()
        })
    }
}

/// The sub-questions of a question: its parts around ` and ` (when its lower-cased text
/// holds ` and `) longer than five bytes, trimmed; else, for a question longer than ten
/// bytes, `What is {q}?` and `Where is {q} documented?`.
pub open spec fn spec_decompose_subquestions(q: Seq<char>) -> Seq<Seq<char>> {
    let subs = if contains(lowercase(q), " and "@) {
        long_parts(split_on(q, " and "@))
    } else {
        Seq::empty()
    };
    if subs.len() == 0 && utf8_len(q) > 10 {
        seq!["What is "@ + q + "?"@, "Where is "@ + q + " documented?"@]
    } else {
        subs
    }
}

/// The sub-questions of a question (see [`spec_decompose_subquestions`]).
pub fn decompose_subquestions(query: &str) -> (r: Vec<String>)
    ensures
        r@.map_values(|s: String| s@) == spec_decompose_subquestions(query@),
{
    let lower = lower_str(query);
    let and_sep = chars_of(" and ");
    proof {
        reveal_strlit(" and ");
    }
    let mut subs: Vec<String> = Vec::new();
    let ghost mut target: Seq<Seq<char>> = Seq::empty();
    if contains_chars(lower.as_slice(), and_sep.as_slice()) {
        let qc = chars_of(query);
        let ps = split_chars(qc.as_slice(), and_sep.as_slice());
        let ghost pv = ps@.map_values(|v: Vec<char>| v@);
        let mut i: usize = 0;
        while i < ps.len()
            invariant
                i <= ps@.len(),
                pv == ps@.map_values(|v: Vec<char>| v@),
                subs@.map_values(|s: String| s@) == long_parts(pv.take(i as int)),
            decreases ps@.len() - i,
        {
            assert(pv[i as int] == ps@[i as int]@);
            let p = trim_chars(ps[i].as_slice());
            let ghost before = subs@.map_values(|s: String| s@);
            if utf8_len_exec(p.as_slice()) > 5 {
                subs.push(string_from(p.as_slice()));
                assert(subs@.map_values(|s: String| s@) =~= before.push(trim(pv[i as int])));
            }
            proof {
                let tk = pv.take(i as int + 1);
                assert(tk.drop_last() == pv.take(i as int));
                assert(tk.last() == pv[i as int]);
            }
            i += 1;
        }
        assert(pv.take(pv.len() as int) == pv);
    } else {
        assert(subs@.map_values(|s: String| s@) =~= Seq::<Seq<char>>::empty());
    }
    let qc2 = chars_of(query);
    if subs.len() == 0 && utf8_len_exec(qc2.as_slice()) > 10 {
        let mut a = String::from_str("What is ");
        a.append(query);
        a.append("?");
        let mut b = String::from_str("Where is ");
        b.append(query);
        b.append(" documented?");
        let mut out: Vec<String> = Vec::new();
        out.push(a);
        out.push(b);
        assert(out@.map_values(|s: String| s@) =~= seq![
            "What is "@ + query@ + "?"@,
            "Where is "@ + query@ + " documented?"@,
        ]);
        return out;
    }
    subs
}

/// `vs` with `x` added at the end unless it is there already.
pub open spec fn add_new(vs: Seq<Seq<char>>, x: Seq<char>) -> Seq<Seq<char>> {
    if vs.contains(x) {
        vs
    } else {
        vs.push(x)
    }
}

/// `vs` with each of `xs` added in turn unless it is there already.
pub open spec fn add_all_new(vs: Seq<Seq<char>>, xs: Seq<Seq<char>>) -> Seq<Seq<char>>
    decreases xs.len(),
{
    if xs.len() == 0 {
        vs
    } else {
        add_new(add_all_new(vs, xs.drop_last()), xs.last())
    }
}

/// The query variants of a question for a mode: the question; its keyword query; up to three
/// entity expansions; for modes with three or more variants its widened form; for modes with
/// five or more its sub-questions; each once, at most the mode's number of variants.
pub open spec fn spec_plan_variants(
    query: Seq<char>,
    mode: RetrievalMode,
    expansions: Seq<Seq<char>>,
) -> Seq<Seq<char>> {
    let max = spec_mode_params(mode).4;
    let v0 = seq![query];
    let v1 = match spec_extract_keyword_query(query) {
        Some(k) => add_new(v0, k),
        None => v0,
    };
    let v2 = add_all_new(
        v1,
        if expansions.len() <= 3 {
            expansions
        } else {
            expansions.take(3)
        },
    );
    let v3 = if max >= 3 {
        match expand_from(query, 0) {
            Some(a) => add_new(v2, a),
            None => v2,
        }
    } else {
        v2
    };
    let v4 = if max >= 5 {
        add_all_new(v3, spec_decompose_subquestions(query))
    } else {
        v3
    };
    if v4.len() <= max {
        v4
    } else {
        v4.take(max as int)
    }
}

/// Adds `x` unless a variant equals it already.
fn push_if_new(vs: &mut Vec<String>, x: String)
    ensures
        final(vs)@.map_values(|s: String| s@) == add_new(old(vs)@.map_values(|s: String| s@), x@),
{
    let ghost vv = vs@.map_values(|s: String| s@);
    let xc = chars_of(x.as_str());
    let mut i: usize = 0;
    while i < vs.len()
        invariant
            i <= vs@.len(),
            vv == vs@.map_values(|s: String| s@),
            xc@ == x@,
            forall|j: int| 0 <= j < i ==> vv[j] != x@,
        decreases vs@.len() - i,
    {
        let c = chars_of(vs[i].as_str());
        if chars_eq(c.as_slice(), xc.as_slice()) {
            assert(vv[i as int] == x@);
            assert(vv.contains(x@));
            return;
        }
        i += 1;
    }
    vs.push(x);
    assert(vs@.map_values(|s: String| s@) =~= vv.push(x@));
}

/// Adds each of `xs` in turn unless a variant equals it already.
fn push_all_new(vs: &mut Vec<String>, xs: &[String])
    ensures
        final(vs)@.map_values(|s: String| s@) == add_all_new(
            old(vs)@.map_values(|s: String| s@),
            xs@.map_values(|s: String| s@),
        ),
{
    let ghost start = vs@.map_values(|s: String| s@);
    let ghost xv = xs@.map_values(|s: String| s@);
    let mut i: usize = 0;
    while i < xs.len()
        invariant
            i <= xs@.len(),
            xv == xs@.map_values(|s: String| s@),
            vs@.map_values(|s: String| s@) == add_all_new(start, xv.take(i as int)),
        decreases xs@.len() - i,
    {
        push_if_new(vs, xs[i].clone());
        proof {
            let t = xv.take(i as int + 1);
            assert(t.drop_last() == xv.take(i as int));
            assert(t.last() == xv[i as int]);
        }
        i += 1;
    }
    assert(xv.take(xv.len() as int) == xv);
}

/// The query variants of a question for a mode, given the entity expansions that the
/// document store suggests (see [`spec_plan_variants`]).
pub fn plan_query(query: &str, mode: RetrievalMode, expansions: &[String]) -> (r: QueryPlan)
    ensures
        r.variants@.map_values(|s: String| s@) == spec_plan_variants(
            query@,
            mode,
            expansions@.map_values(|s: String| s@),
        ),
{
    let (_, _, _, _, max_variants, _) = mode.params();
    let mut variants: Vec<String> = Vec::new();
    variants.push(String::from_str(query));
    assert(variants@.map_values(|s: String| s@) =~= seq![query@]);
    match extract_keyword_query(query) {
        Some(k) => push_if_new(&mut variants, k),
        None => {},
    }
    let ghost ev = expansions@.map_values(|s: String| s@);
    if expansions.len() <= 3 {
        push_all_new(&mut variants, expansions);
    } else {
        push_all_new(&mut variants, &expansions[0..3]);
        assert(expansions@.subrange(0, 3).map_values(|s: String| s@) =~= ev.take(3));
    }
    if max_variants >= 3 {
        match expand_acronyms(query) {
            Some(a) => push_if_new(&mut variants, a),
            None => {},
        }
    }
    if max_variants >= 5 {
        let subs = decompose_subquestions(query);
        push_all_new(&mut variants, subs.as_slice());
    }
    let ghost vv = variants@.map_values(|s: String| s@);
    variants.truncate(max_variants);
    proof {
        if vv.len() > max_variants {
            assert(variants@.map_values(|s: String| s@) =~= vv.take(max_variants as int));
        } else {
            assert(variants@.map_values(|s: String| s@) =~= vv);
        }
    }
    QueryPlan { variants }
}

} // verus!

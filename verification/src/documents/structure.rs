use vstd::prelude::*;
use vstd::string::*;

use crate::documents::types::{Document, FileType};
use crate::documents::graph_types::{Section, SectionView};
use crate::ids::{hash_text, short_id_from_hash, spec_hash_text, spec_short_id};
use crate::text::{append_chars, decimal, decimal_chars};
use crate::patterns::{
    captures_on_boundaries, captures_ordered, char_index_of_byte_exec, find_capture_spans, regex_group_spans,
};
use crate::offsets::{
    byte_slice, char_at_byte, is_boundary, lemma_boundary_bounds, lemma_char_index_at, lemma_byte_pos_mono, lemma_byte_slice_len,
    lemma_utf8_len_bounds, lemma_utf8_len_concat,
};
use crate::text::{
    chars_of, contains, contains_chars, find_from, lemma_find_from_spec, slice_to_vec, split_chars, split_from,
    split_on, string_from, trim, trim_chars, join, join_chars, utf8_len, utf8_len_exec,
};

verus! {

/// The pattern of a Markdown heading line: the `#` marks, then the title.
pub const HEADING_LINE_PATTERN: &'static str = "(?m)^(#{1,6})\\s+(.+)$";

/// A section of a document found from its headings.
#[derive(Clone, Debug)]
pub struct SectionNode {
    pub title: String,
    pub level: u32,
    pub start_offset: usize,
    pub end_offset: usize,
    pub page_start: Option<u32>,
    pub page_end: Option<u32>,
    pub body: String,
}

/// The mathematical value of a [`SectionNode`].
pub struct SectionNodeView {
    pub title: Seq<char>,
    pub level: u32,
    pub start_offset: int,
    pub end_offset: int,
    pub page_start: Option<u32>,
    pub page_end: Option<u32>,
    pub body: Seq<char>,
}

impl View for SectionNode {
    type V = SectionNodeView;

    open spec fn view(&self) -> SectionNodeView {
        SectionNodeView {
            title: self.title@,
            level: self.level,
            start_offset: self.start_offset as int,
            end_offset: self.end_offset as int,
            page_start: self.page_start,
            page_end: self.page_end,
            body: self.body@,
        }
    }
}

/// `t[a..b]`, or nothing where the bounds are not in order within `t`.
pub open spec fn slice_or_empty(t: Seq<char>, a: int, b: int) -> Seq<char> {
    if 0 <= a <= b <= t.len() {
        t.subrange(a, b)
    } else {
        seq![]
    }
}

/// The byte span of capture group `g` of a match, `(0, 0)` where it took no part.
pub open spec fn group_span(m: Seq<Option<(usize, usize)>>, g: int) -> (int, int) {
    if 0 <= g < m.len() && m[g] is Some {
        ((m[g]->0).0 as int, (m[g]->0).1 as int)
    } else {
        (0, 0)
    }
}

/// A heading found by the heading pattern: the byte offset where its line starts, its level
/// (the byte length of its `#` marks) and its trimmed title.
pub open spec fn heading_of(t: Seq<char>, m: Seq<Option<(usize, usize)>>) -> (int, u32, Seq<char>) {
    let g0 = group_span(m, 0);
    let g1 = group_span(m, 1);
    let g2 = group_span(m, 2);
    (g0.0, (if g1.1 >= g1.0 { g1.1 - g1.0 } else { 0 }) as u32, trim(byte_slice(t, g2.0, g2.1)))
}

/// The headings of a text, in order.
pub open spec fn headings_of(t: Seq<char>) -> Seq<(int, u32, Seq<char>)> {
    match regex_group_spans(HEADING_LINE_PATTERN@, t) {
        Some(ms) => Seq::new(ms.len(), |i: int| heading_of(t, ms[i])),
        None => seq![],
    }
}

/// The sections of a text cut at its headings, with byte offsets; a text without headings is
/// one section of level 0 titled `fallback_title`.
pub open spec fn sections_from_headings(
    t: Seq<char>,
    hs: Seq<(int, u32, Seq<char>)>,
    fallback_title: Seq<char>,
) -> Seq<SectionNodeView> {
    if hs.len() == 0 {
        seq![
            SectionNodeView {
                title: fallback_title,
                level: 0,
                start_offset: 0,
                end_offset: utf8_len(t) as int,
                page_start: None,
                page_end: None,
                body: t,
            },
        ]
    } else {
        Seq::new(
            hs.len(),
            |i: int|
                {
                    let st = hs[i].0;
                    let en = if i + 1 < hs.len() {
                        hs[i + 1].0
                    } else {
                        utf8_len(t) as int
                    };
                    SectionNodeView {
                        title: hs[i].2,
                        level: hs[i].1,
                        start_offset: st,
                        end_offset: en,
                        page_start: None,
                        page_end: None,
                        body: byte_slice(t, st, en),
                    }
                },
        )
    }
}

/// The title a document's sections fall back to: its title, else its file name.
pub open spec fn doc_fallback_title(d: Document) -> Seq<char> {
    match d.title {
        Some(t) => t@,
        None => d.original_filename@,
    }
}

/// What `build_from_markdown_headings` gives.
pub open spec fn spec_markdown_sections(d: Document, t: Seq<char>) -> Seq<SectionNodeView> {
    sections_from_headings(t, headings_of(t), doc_fallback_title(d))
}

/// The views of section nodes.
pub open spec fn nodes_view(v: Seq<SectionNode>) -> Seq<SectionNodeView> {
    v.map_values(|n: SectionNode| n@)
}

/// Every node's byte range is in order, within `t` and on character boundaries.
pub open spec fn nodes_within(t: Seq<char>, ns: Seq<SectionNodeView>) -> bool {
    forall|k: int|
        0 <= k < ns.len() ==> 0 <= (#[trigger] ns[k]).start_offset <= ns[k].end_offset <= utf8_len(t)
            && is_boundary(t, ns[k].start_offset) && is_boundary(t, ns[k].end_offset)
}

/// The headings start at character boundaries, in order.
pub open spec fn headings_in_order(t: Seq<char>, hs: Seq<(int, u32, Seq<char>)>) -> bool {
    &&& forall|j: int| 0 <= j < hs.len() ==> is_boundary(t, #[trigger] hs[j].0)
    &&& forall|j: int| 0 <= j < hs.len() - 1 ==> (#[trigger] hs[j]).0 <= hs[j + 1].0
}

proof fn lemma_headings_in_order(t: Seq<char>, ms: Seq<Seq<Option<(usize, usize)>>>)
    requires
        regex_group_spans(HEADING_LINE_PATTERN@, t) == Some(ms),
        captures_ordered(ms),
        captures_on_boundaries(t, ms),
    ensures
        headings_in_order(t, headings_of(t)),
{
    let hs = headings_of(t);
    assert forall|j: int| 0 <= j < hs.len() implies is_boundary(t, #[trigger] hs[j].0) by {
        assert(ms[j].len() >= 1 && ms[j][0] is Some);
        assert(hs[j].0 == (ms[j][0]->0).0);
    }
    assert forall|j: int| 0 <= j < hs.len() - 1 implies (#[trigger] hs[j]).0 <= hs[j + 1].0 by {
        assert(ms[j].len() >= 1 && ms[j][0] is Some);
        assert(ms[j + 1].len() >= 1 && ms[j + 1][0] is Some);
        assert((ms[j][0]->0).1 <= (ms[j + 1][0]->0).0);
    }
}

proof fn lemma_markdown_sections_within(d: Document, t: Seq<char>)
    requires
        headings_in_order(t, headings_of(t)),
    ensures
        nodes_within(t, spec_markdown_sections(d, t)),
{
    let hs = headings_of(t);
    let ns = spec_markdown_sections(d, t);
    let n = utf8_len(t) as int;
    lemma_boundary_bounds(t, 0);
    assert forall|k: int| 0 <= k < ns.len() implies 0 <= (#[trigger] ns[k]).start_offset
        <= ns[k].end_offset <= n && is_boundary(t, ns[k].start_offset) && is_boundary(
        t,
        ns[k].end_offset,
    ) by {
        if hs.len() > 0 {
            assert(ns[k].start_offset == hs[k].0);
            lemma_boundary_bounds(t, hs[k].0);
            if k + 1 < hs.len() {
                assert(ns[k].end_offset == hs[k + 1].0);
                lemma_boundary_bounds(t, hs[k + 1].0);
            }
        }
    }
}

fn heading_exec(s: &[char], m: &Vec<Option<(usize, usize)>>) -> (r: (usize, u32, Vec<char>))
    ensures
        (r.0 as int, r.1, r.2@) == heading_of(s@, m@),
{
    let mut g: [(usize, usize); 3] = [(0, 0), (0, 0), (0, 0)];
    let mut k: usize = 0;
    while k < 3
        invariant
            k <= 3,
            forall|j: int| 0 <= j < k ==> (g@[j].0 as int, g@[j].1 as int) == group_span(m@, j),
        decreases 3 - k,
    {
        if k < m.len() {
            if let Some((a, b)) = m[k] {
                g.set(k, (a, b));
            } else {
                g.set(k, (0, 0));
            }
        } else {
            g.set(k, (0, 0));
        }
        k += 1;
    }
    let (a1, b1) = g[1];
    let level = (if b1 >= a1 { b1 - a1 } else { 0 }) as u32;
    let (a2, b2) = g[2];
    let i2 = char_index_of_byte_exec(s, a2);
    let j2 = char_index_of_byte_exec(s, b2);
    let title = if i2 <= j2 {
        trim_chars(&s[i2..j2])
    } else {
        assert(byte_slice(s@, a2 as int, b2 as int) == Seq::<char>::empty());
        trim_chars(&[])
    };
    (g[0].0, level, title)
}

/// The headings the captures of the heading pattern give, in order.
pub open spec fn headings_of_captures(t: Seq<char>, ms: Seq<Seq<Option<(usize, usize)>>>) -> Seq<(int, u32, Seq<char>)> {
    Seq::new(ms.len(), |i: int| heading_of(t, ms[i]))
}

/// The views of headings.
pub open spec fn headings_view(hs: Seq<(usize, u32, Vec<char>)>) -> Seq<(int, u32, Seq<char>)> {
    hs.map_values(|h: (usize, u32, Vec<char>)| (h.0 as int, h.1, h.2@))
}

/// The headings that captures of the heading pattern give (see [`heading_of`]).
pub fn captured_headings(text: &str, caps: &Vec<Vec<Option<(usize, usize)>>>) -> (r: Vec<(usize, u32, Vec<char>)>)
    ensures
        headings_view(r@) == headings_of_captures(text@, caps@.map_values(|g: Vec<Option<(usize, usize)>>| g@)),
{
    let cs = chars_of(text);
    let s = cs.as_slice();
    let ghost ms = caps@.map_values(|g: Vec<Option<(usize, usize)>>| g@);
    let ghost want = headings_of_captures(text@, ms);
    let mut hs: Vec<(usize, u32, Vec<char>)> = Vec::new();
    let mut i: usize = 0;
    while i < caps.len()
        invariant
            i <= caps@.len(),
            s@ == text@,
            ms == caps@.map_values(|g: Vec<Option<(usize, usize)>>| g@),
            want == headings_of_captures(text@, ms),
            headings_view(hs@) == want.take(i as int),
        decreases caps@.len() - i,
    {
        let h = heading_exec(s, &caps[i]);
        assert(ms[i as int] == caps@[i as int]@);
        let ghost before = headings_view(hs@);
        hs.push(h);
        assert(headings_view(hs@) =~= before.push(want[i as int]));
        assert(want.take(i + 1) =~= want.take(i as int).push(want[i as int]));
        i += 1;
    }
    assert(want.take(caps@.len() as int) =~= want);
    hs
}

/// The sections of `text` cut at the given headings, with byte offsets; no heading gives one
/// section titled with the document's title or file name (see [`sections_from_headings`]).
pub fn sections_of_headings(document: &Document, text: &str, hs: &Vec<(usize, u32, Vec<char>)>) -> (r: Vec<SectionNode>)
    requires
        utf8_len(text@) <= usize::MAX,
    ensures
        nodes_view(r@) == sections_from_headings(text@, headings_view(hs@), doc_fallback_title(*document)),
{
    let cs = chars_of(text);
    let s = cs.as_slice();
    let ghost ghs = headings_view(hs@);
    let n = utf8_len_exec(s) as usize;
    let mut nodes: Vec<SectionNode> = Vec::new();
    if hs.len() == 0 {
        let title = match &document.title {
            Some(t) => t.clone(),
            None => document.original_filename.clone(),
        };
        nodes.push(
            SectionNode {
                title,
                level: 0,
                start_offset: 0,
                end_offset: n,
                page_start: None,
                page_end: None,
                body: string_from(s),
            },
        );
        assert(nodes_view(nodes@) =~= sections_from_headings(text@, ghs, doc_fallback_title(*document)));
        return nodes;
    }
    let ghost want = sections_from_headings(text@, ghs, doc_fallback_title(*document));
    let mut i: usize = 0;
    while i < hs.len()
        invariant
            i <= hs@.len(),
            hs@.len() > 0,
            s@ == text@,
            n == utf8_len(s@),
            ghs == headings_view(hs@),
            want == sections_from_headings(text@, ghs, doc_fallback_title(*document)),
            nodes@.len() == i,
            forall|j: int| 0 <= j < i ==> #[trigger] nodes@[j]@ == want[j],
        decreases hs@.len() - i,
    {
        let st = hs[i].0;
        let en = if i + 1 < hs.len() {
            hs[i + 1].0
        } else {
            n
        };
        assert(ghs[i as int].0 == st as int);
        assert(i + 1 < hs@.len() ==> ghs[i + 1].0 == en as int);
        let a = char_index_of_byte_exec(s, st);
        let b = char_index_of_byte_exec(s, en);
        let body = if a <= b {
            string_from(&s[a..b])
        } else {
            string_from(&[])
        };
        let node = SectionNode {
            title: string_from(hs[i].2.as_slice()),
            level: hs[i].1,
            start_offset: st,
            end_offset: en,
            page_start: None,
            page_end: None,
            body,
        };
        proof {
            assert(ghs[i as int] == (hs@[i as int].0 as int, hs@[i as int].1, hs@[i as int].2@));
            assert(node@.title == want[i as int].title);
            assert(node@.body == want[i as int].body);
        }
        assert(node@ == want[i as int]);
        nodes.push(node);
        i += 1;
    }
    assert(nodes_view(nodes@) =~= want);
    nodes
}

/// The sections of `text` cut at its Markdown headings, with byte offsets (a text without
/// headings is one section titled with the document's title or file name).
pub fn build_from_markdown_headings(document: &Document, text: &str) -> (r: Vec<SectionNode>)
    requires
        utf8_len(text@) <= usize::MAX,
    ensures
        nodes_view(r@) == spec_markdown_sections(*document, text@),
        nodes_within(text@, nodes_view(r@)),
{
    let hs = match find_capture_spans(HEADING_LINE_PATTERN, text) {
        Some(ms) => {
            proof {
                lemma_headings_in_order(text@, ms@.map_values(|g: Vec<Option<(usize, usize)>>| g@));
            }
            captured_headings(text, &ms)
        },
        None => Vec::new(),
    };
    assert(headings_view(hs@) =~= headings_of(text@));
    proof {
        lemma_markdown_sections_within(*document, text@);
    }
    sections_of_headings(document, text, &hs)
}

/// The form feed that separates pages in extracted text.
pub open spec fn form_feed() -> Seq<char> {
    seq!['\u{0C}']
}

/// The end of the page that starts at byte `start`: 3000 bytes on, or the end of the text.
pub open spec fn pdf_page_end(t: Seq<char>, start: int) -> int {
    if start + 3000 <= utf8_len(t) {
        start + 3000
    } else {
        utf8_len(t) as int
    }
}

/// Consecutive 3000-byte pages of `t` from byte `start`, numbered from `num`.
pub open spec fn pdf_pages_from(t: Seq<char>, start: int, num: int) -> Seq<(Option<u32>, Seq<char>)>
    decreases utf8_len(t) - start,
{
    if start < 0 || start >= utf8_len(t) {
        seq![]
    } else {
        let end = pdf_page_end(t, start);
        seq![(Some(num as u32), byte_slice(t, start, end))] + pdf_pages_from(t, end, num + 1)
    }
}

/// Every page end from byte `start` on is a character boundary (slicing elsewhere would
/// panic).
pub open spec fn pdf_cuts_ok(t: Seq<char>, start: int) -> bool
    decreases utf8_len(t) - start,
{
    if start < 0 || start >= utf8_len(t) {
        true
    } else {
        is_boundary(t, pdf_page_end(t, start)) && pdf_cuts_ok(t, pdf_page_end(t, start))
    }
}

/// The text can be cut into pages: a PDF text that is split by size has its cuts on
/// character boundaries.
pub open spec fn pdf_split_ok(t: Seq<char>, ft: FileType) -> bool {
    !contains(t, form_feed()) && ft == FileType::Pdf && utf8_len(t) > 4000 ==> pdf_cuts_ok(t, 0)
}

/// Whether every page end of a size-split text lies on a character boundary (see
/// [`pdf_cuts_ok`]).
pub fn pdf_cuts_exec(t: &[char]) -> (r: bool)
    ensures
        r == pdf_cuts_ok(t@, 0),
{
    let n: u128 = utf8_len_exec(t);
    let mut start: u128 = 0;
    while start < n
        invariant
            start <= n,
            n == utf8_len(t@),
            pdf_cuts_ok(t@, 0) == pdf_cuts_ok(t@, start as int),
        decreases n - start,
    {
        let end: u128 = if n - start >= 3000 {
            start + 3000
        } else {
            n
        };
        assert(end as int == pdf_page_end(t@, start as int));
        match char_at_byte(t, end) {
            None => return false,
            Some(_) => {},
        }
        start = end;
    }
    true
}

/// The pages of a text: at form feeds (numbered from 1) when it has any; else, for a PDF
/// longer than 4000 bytes, 3000-byte pages; else the whole text, unnumbered.
pub open spec fn spec_split_pages(t: Seq<char>, ft: FileType) -> Seq<(Option<u32>, Seq<char>)> {
    if contains(t, form_feed()) {
        let ps = split_on(t, form_feed());
        Seq::new(ps.len(), |i: int| (Some((i + 1) as u32), ps[i]))
    } else if ft == FileType::Pdf && utf8_len(t) > 4000 {
        pdf_pages_from(t, 0, 1)
    } else {
        seq![(None, t)]
    }
}

/// The views of pages.
pub open spec fn pages_view(v: Seq<(Option<u32>, Vec<char>)>) -> Seq<(Option<u32>, Seq<char>)> {
    v.map_values(|p: (Option<u32>, Vec<char>)| (p.0, p.1@))
}

/// The texts of pages.
pub open spec fn page_texts(v: Seq<(Option<u32>, Seq<char>)>) -> Seq<Seq<char>> {
    v.map_values(|p: (Option<u32>, Seq<char>)| p.1)
}

/// The page count of a PDF split stays within 32 bits.
pub open spec fn pdf_page_numbers_fit(len: int) -> bool {
    len <= 3000 * 4294967294
}

/// The byte lengths of texts, each counted one longer.
pub open spec fn total_bytes_plus_one(ps: Seq<Seq<char>>) -> nat
    decreases ps.len(),
{
    if ps.len() == 0 {
        0
    } else {
        utf8_len(ps[0]) + 1 + total_bytes_plus_one(ps.drop_first())
    }
}

proof fn lemma_total_bytes_concat(a: Seq<Seq<char>>, b: Seq<Seq<char>>)
    ensures
        total_bytes_plus_one(a + b) == total_bytes_plus_one(a) + total_bytes_plus_one(b),
    decreases a.len(),
{
    if a.len() > 0 {
        assert((a + b).drop_first() == a.drop_first() + b);
        lemma_total_bytes_concat(a.drop_first(), b);
    } else {
        assert(a + b == b);
    }
}

proof fn lemma_total_bytes_one(p: Seq<char>)
    ensures
        total_bytes_plus_one(seq![p]) == utf8_len(p) + 1,
{
    assert(seq![p].drop_first() == Seq::<Seq<char>>::empty());
    assert(total_bytes_plus_one(Seq::<Seq<char>>::empty()) == 0);
    assert(seq![p][0] == p);
}

proof fn lemma_split_bytes(s: Seq<char>, sep: Seq<char>, from: int)
    requires
        0 <= from <= s.len(),
        sep.len() > 0,
    ensures
        total_bytes_plus_one(split_from(s, sep, from)) <= utf8_len(s.subrange(from, s.len() as int)) + 1,
    decreases s.len() - from,
{
    lemma_find_from_spec(s, sep, from);
    match find_from(s, sep, from) {
        None => {
            let r = split_from(s, sep, from);
            assert(r == seq![s.subrange(from, s.len() as int)]);
            lemma_total_bytes_one(s.subrange(from, s.len() as int));
        },
        Some(k) => {
            if k >= from && k + sep.len() <= s.len() {
                let e = k + sep.len();
                lemma_split_bytes(s, sep, e);
                let r = split_from(s, sep, from);
                let rest = split_from(s, sep, e);
                assert(r == seq![s.subrange(from, k)] + rest);
                lemma_total_bytes_concat(seq![s.subrange(from, k)], rest);
                lemma_total_bytes_one(s.subrange(from, k));
                assert(s.subrange(from, s.len() as int) == s.subrange(from, k) + s.subrange(k, e) + s.subrange(
                    e,
                    s.len() as int,
                ));
                lemma_utf8_len_concat(s.subrange(from, k), s.subrange(k, e));
                lemma_utf8_len_concat(s.subrange(from, k) + s.subrange(k, e), s.subrange(e, s.len() as int));
                lemma_utf8_len_bounds(s.subrange(k, e));
            }
        },
    }
}

proof fn lemma_pdf_pages(t: Seq<char>, start: int, num: int)
    requires
        0 <= start <= utf8_len(t),
        is_boundary(t, start),
        pdf_cuts_ok(t, start),
    ensures
        total_bytes_plus_one(page_texts(pdf_pages_from(t, start, num))) <= 2 * (utf8_len(t) - start),
    decreases utf8_len(t) - start,
{
    if start < utf8_len(t) {
        let end = pdf_page_end(t, start);
        lemma_pdf_pages(t, end, num + 1);
        let r = pdf_pages_from(t, start, num);
        let rest = pdf_pages_from(t, end, num + 1);
        assert(r == seq![(Some(num as u32), byte_slice(t, start, end))] + rest);
        assert(page_texts(r) == seq![byte_slice(t, start, end)] + page_texts(rest));
        lemma_total_bytes_concat(seq![byte_slice(t, start, end)], page_texts(rest));
        lemma_total_bytes_one(byte_slice(t, start, end));
        lemma_byte_slice_len(t, start, end);
    } else {
        assert(page_texts(pdf_pages_from(t, start, num)) == Seq::<Seq<char>>::empty());
    }
}

/// The pages of a document's text.
pub fn split_pages(text: &[char], file_type: FileType) -> (r: Vec<(Option<u32>, Vec<char>)>)
    requires
        pdf_page_numbers_fit(utf8_len(text@) as int),
        pdf_split_ok(text@, file_type),
    ensures
        pages_view(r@) == spec_split_pages(text@, file_type),
{
    let ff: [char; 1] = ['\u{0C}'];
    assert(ff@ =~= form_feed());
    let mut out: Vec<(Option<u32>, Vec<char>)> = Vec::new();
    if contains_chars(text, ff.as_slice()) {
        let parts = split_chars(text, ff.as_slice());
        let ghost ps = split_on(text@, form_feed());
        let ghost want = spec_split_pages(text@, file_type);
        let mut i: usize = 0;
        while i < parts.len()
            invariant
                i <= parts@.len(),
                parts@.map_values(|v: Vec<char>| v@) == ps,
                want == Seq::new(ps.len(), |k: int| (Some((k + 1) as u32), ps[k])),
                pages_view(out@) == want.take(i as int),
            decreases parts@.len() - i,
        {
            let ghost old_out = out@;
            let page = slice_to_vec(parts[i].as_slice());
            out.push((Some((i + 1) as u32), page));
            assert(pages_view(out@) == pages_view(old_out).push((Some((i + 1) as u32), ps[i as int])));
            assert(want.take(i + 1) == want.take(i as int).push(want[i as int]));
            i += 1;
        }
        assert(want.take(parts@.len() as int) == want);
        return out;
    }
    let n: u128 = utf8_len_exec(text);
    if file_type == FileType::Pdf && n > 4000 {
        assert(spec_split_pages(text@, file_type) == pdf_pages_from(text@, 0, 1));
        let mut page_num: u32 = 1;
        let mut start: u128 = 0;
        proof {
            lemma_boundary_bounds(text@, 0);
        }
        while start < n
            invariant
                start <= n,
                n == utf8_len(text@),
                pdf_page_numbers_fit(n as int),
                spec_split_pages(text@, file_type) == pdf_pages_from(text@, 0, 1),
                start < n ==> start as int == 3000 * (page_num - 1),
                1 <= page_num,
                is_boundary(text@, start as int),
                pdf_cuts_ok(text@, start as int),
                pages_view(out@) + pdf_pages_from(text@, start as int, page_num as int) == pdf_pages_from(
                    text@,
                    0,
                    1,
                ),
            decreases n - start,
        {
            let end: u128 = if n - start >= 3000 {
                start + 3000
            } else {
                n
            };
            assert(end as int == pdf_page_end(text@, start as int));
            let ia = char_at_byte(text, start);
            let ib = char_at_byte(text, end);
            let (a, b) = match (ia, ib) {
                (Some(x), Some(y)) => (x, y),
                _ => {
                    assert(false);
                    (0, 0)
                },
            };
            proof {
                if a > b {
                    lemma_byte_pos_mono(text@, b as int, a as int);
                }
            }
            let ghost old_out = out@;
            let page = slice_to_vec(&text[a..b]);
            assert(page@ == byte_slice(text@, start as int, end as int));
            out.push((Some(page_num), page));
            assert(pages_view(out@) == pages_view(old_out) + seq![(Some(page_num), page@)]);
            start = end;
            if start < n {
                page_num = page_num + 1;
            } else {
                assert(pdf_pages_from(text@, start as int, page_num + 1) == Seq::<(Option<u32>, Seq<char>)>::empty());
                assert(pages_view(out@) + Seq::<(Option<u32>, Seq<char>)>::empty() == pages_view(out@));
                return out;
            }
        }
        assert(pages_view(out@) + Seq::<(Option<u32>, Seq<char>)>::empty() == pages_view(out@));
        return out;
    }
    out.push((None, slice_to_vec(text)));
    assert(pages_view(out@) =~= seq![(None::<u32>, text@)]);
    out
}


/// Section nodes moved `g` bytes on and placed on page `pn`.
pub open spec fn shift_nodes(ns: Seq<SectionNodeView>, g: int, pn: Option<u32>) -> Seq<SectionNodeView> {
    Seq::new(
        ns.len(),
        |k: int|
            SectionNodeView {
                title: ns[k].title,
                level: ns[k].level,
                start_offset: ns[k].start_offset + g,
                end_offset: ns[k].end_offset + g,
                page_start: pn,
                page_end: pn,
                body: ns[k].body,
            },
    )
}

/// The sections of pages `i..`, the first page starting at byte offset `g`; each page is
/// counted one byte longer than its text.
pub open spec fn pages_sections_from(
    d: Document,
    pages: Seq<(Option<u32>, Seq<char>)>,
    i: int,
    g: int,
) -> Seq<SectionNodeView>
    decreases pages.len() - i,
{
    if i < 0 || i >= pages.len() {
        seq![]
    } else {
        shift_nodes(spec_markdown_sections(d, pages[i].1), g, pages[i].0) + pages_sections_from(
            d,
            pages,
            i + 1,
            g + utf8_len(pages[i].1) + 1,
        )
    }
}

/// What `build_from_pages` gives: the sections of every page, or one section spanning the
/// whole document when there are none.
pub open spec fn spec_build_from_pages(d: Document, pages: Seq<(Option<u32>, Seq<char>)>) -> Seq<SectionNodeView> {
    let ns = pages_sections_from(d, pages, 0, 0);
    if ns.len() > 0 {
        ns
    } else {
        seq![
            SectionNodeView {
                title: match d.title {
                    Some(t) => t@,
                    None => "Document"@,
                },
                level: 0,
                start_offset: 0,
                end_offset: utf8_len(d.extracted_text@) as int,
                page_start: if pages.len() > 0 {
                    pages[0].0
                } else {
                    None
                },
                page_end: if pages.len() > 0 {
                    pages.last().0
                } else {
                    None
                },
                body: d.extracted_text@,
            },
        ]
    }
}

/// The sections of each page, moved to the page's place in the document text.
pub fn build_from_pages(document: &Document, pages: &Vec<(Option<u32>, Vec<char>)>) -> (r: Vec<SectionNode>)
    requires
        total_bytes_plus_one(page_texts(pages_view(pages@))) <= usize::MAX,
        utf8_len(document.extracted_text@) <= usize::MAX,
    ensures
        nodes_view(r@) == spec_build_from_pages(*document, pages_view(pages@)),
{
    let ghost pv = pages_view(pages@);
    let ghost texts = page_texts(pv);
    let mut nodes: Vec<SectionNode> = Vec::new();
    let mut global: usize = 0;
    let mut i: usize = 0;
    assert(texts.take(0) == Seq::<Seq<char>>::empty());
    while i < pages.len()
        invariant
            i <= pages@.len(),
            pv == pages_view(pages@),
            texts == page_texts(pv),
            total_bytes_plus_one(texts) <= usize::MAX,
            global == total_bytes_plus_one(texts.take(i as int)),
            nodes_view(nodes@) + pages_sections_from(*document, pv, i as int, global as int)
                == pages_sections_from(*document, pv, 0, 0),
        decreases pages@.len() - i,
    {
        let page_num = pages[i].0;
        let page_text = string_from(pages[i].1.as_slice());
        assert(pv[i as int] == (page_num, page_text@));
        assert(texts[i as int] == page_text@);
        proof {
            assert(texts.take(i + 1) == texts.take(i as int) + seq![texts[i as int]]);
            lemma_total_bytes_concat(texts.take(i as int), seq![texts[i as int]]);
            lemma_total_bytes_one(texts[i as int]);
            assert(texts == texts.take(i + 1) + texts.skip(i + 1));
            lemma_total_bytes_concat(texts.take(i + 1), texts.skip(i + 1));
        }
        let page_len = utf8_len_exec(pages[i].1.as_slice()) as usize;
        let secs = build_from_markdown_headings(document, page_text.as_str());
        let ghost ns = spec_markdown_sections(*document, page_text@);
        let ghost shifted = shift_nodes(ns, global as int, page_num);
        let ghost before = nodes@;
        let mut k: usize = 0;
        while k < secs.len()
            invariant
                k <= secs@.len(),
                nodes_view(secs@) == ns,
                ns == spec_markdown_sections(*document, page_text@),
                nodes_within(page_text@, ns),
                page_len == utf8_len(page_text@),
                global + page_len + 1 <= usize::MAX,
                shifted == shift_nodes(ns, global as int, page_num),
                nodes_view(nodes@) == nodes_view(before) + shifted.take(k as int),
            decreases secs@.len() - k,
        {
            let sn = &secs[k];
            assert(sn@ == ns[k as int]);
            let node = SectionNode {
                title: sn.title.clone(),
                level: sn.level,
                start_offset: sn.start_offset + global,
                end_offset: sn.end_offset + global,
                page_start: page_num,
                page_end: page_num,
                body: sn.body.clone(),
            };
            let ghost old_nodes = nodes@;
            nodes.push(node);
            assert(nodes_view(nodes@) == nodes_view(old_nodes).push(node@));
            assert(node@ == shifted[k as int]);
            assert(shifted.take(k + 1) == shifted.take(k as int).push(shifted[k as int]));
            k += 1;
        }
        assert(shifted.take(secs@.len() as int) == shifted);
        global = global + page_len + 1;
        i += 1;
    }
    let ghost ns_all = pages_sections_from(*document, pv, 0, 0);
    assert(pages_sections_from(*document, pv, i as int, global as int) == Seq::<SectionNodeView>::empty());
    assert(nodes_view(nodes@) == ns_all);
    if nodes.len() == 0 {
        let title = match &document.title {
            Some(t) => t.clone(),
            None => String::from_str("Document"),
        };
        let page_start = if pages.len() > 0 {
            pages[0].0
        } else {
            None
        };
        let page_end = if pages.len() > 0 {
            pages[pages.len() - 1].0
        } else {
            None
        };
        let dcs = chars_of(document.extracted_text.as_str());
        let n = utf8_len_exec(dcs.as_slice()) as usize;
        nodes.push(
            SectionNode {
                title,
                level: 0,
                start_offset: 0,
                end_offset: n,
                page_start,
                page_end,
                body: document.extracted_text.clone(),
            },
        );
        assert(nodes_view(nodes@) =~= spec_build_from_pages(*document, pv));
    }
    nodes
}


/// What `build_section_tree` gives: the sections of each page when the text has more than
/// one page, else the sections of the whole text.
pub open spec fn spec_section_tree(d: Document) -> Seq<SectionNodeView> {
    let t = d.extracted_text@;
    let ps = spec_split_pages(t, d.file_type);
    if ps.len() > 1 {
        spec_build_from_pages(d, ps)
    } else {
        spec_markdown_sections(d, t)
    }
}

/// A document text that the section builder can lay out: its byte length stays within the
/// machine's address range and its page numbers within 32 bits.
pub open spec fn text_fits(t: Seq<char>) -> bool {
    utf8_len(t) <= isize::MAX && pdf_page_numbers_fit(utf8_len(t) as int)
}

proof fn lemma_pages_total(t: Seq<char>, ft: FileType)
    requires
        utf8_len(t) <= isize::MAX,
        pdf_split_ok(t, ft),
    ensures
        total_bytes_plus_one(page_texts(spec_split_pages(t, ft))) <= usize::MAX,
{
    let ps = spec_split_pages(t, ft);
    if contains(t, form_feed()) {
        let parts = split_on(t, form_feed());
        lemma_split_bytes(t, form_feed(), 0);
        assert(t.subrange(0, t.len() as int) == t);
        assert(page_texts(ps) =~= parts);
    } else if ft == FileType::Pdf && utf8_len(t) > 4000 {
        lemma_boundary_bounds(t, 0);
        lemma_pdf_pages(t, 0, 1);
    } else {
        assert(page_texts(ps) =~= seq![t]);
        lemma_total_bytes_one(t);
    }
}

/// The sections of a document: per page when its text has several pages, else from the
/// Markdown headings of the whole text.
pub fn build_section_tree(document: &Document) -> (r: Vec<SectionNode>)
    requires
        text_fits(document.extracted_text@),
        pdf_split_ok(document.extracted_text@, document.file_type),
    ensures
        nodes_view(r@) == spec_section_tree(*document),
{
    let cs = chars_of(document.extracted_text.as_str());
    let pages = split_pages(cs.as_slice(), document.file_type);
    proof {
        lemma_pages_total(cs@, document.file_type);
    }
    if pages.len() > 1 {
        return build_from_pages(document, &pages);
    }
    build_from_markdown_headings(document, document.extracted_text.as_str())
}

/// The first position at or after `i` of a section starting at `start`, else 0.
pub open spec fn first_with_start(all: Seq<SectionNodeView>, i: int, start: int) -> int
    decreases all.len() - i,
{
    if i < 0 || i >= all.len() {
        0
    } else if all[i].start_offset == start {
        i
    } else {
        first_with_start(all, i + 1, start)
    }
}

proof fn lemma_first_with_start(all: Seq<SectionNodeView>, i: int, start: int)
    requires
        0 <= i,
    ensures
        0 <= first_with_start(all, i, start) <= all.len(),
    decreases all.len() - i,
{
    if i < all.len() && all[i].start_offset != start {
        lemma_first_with_start(all, i + 1, start);
    }
}

/// Walking back from `pos`, the titles of the enclosing sections (each of a lower level than
/// the one after it) put in front of `acc`.
pub open spec fn ancestor_titles(all: Seq<SectionNodeView>, pos: int, level: u32, acc: Seq<Seq<char>>) -> Seq<Seq<char>>
    decreases pos,
{
    if pos > 0 && pos <= all.len() && level > 0 {
        let p = pos - 1;
        if all[p].level < level {
            ancestor_titles(all, p, all[p].level, seq![all[p].title] + acc)
        } else {
            ancestor_titles(all, p, level, acc)
        }
    } else {
        acc
    }
}

/// What `heading_path_for` gives: the titles from the outermost enclosing section down to
/// the section, joined with ` > `.
pub open spec fn spec_heading_path(section: SectionNodeView, all: Seq<SectionNodeView>) -> Seq<char> {
    join(
        ancestor_titles(all, first_with_start(all, 0, section.start_offset), section.level, seq![section.title]),
        " > "@,
    )
}


/// The heading path of a section: the titles of its enclosing sections and its own, from
/// the outermost, joined with ` > `.
pub fn heading_path_for(section: &SectionNode, all: &[SectionNode]) -> (r: String)
    ensures
        r@ == spec_heading_path(section@, nodes_view(all@)),
{
    let ghost av = nodes_view(all@);
    let mut pos: usize = 0;
    while pos < all.len() && all[pos].start_offset != section.start_offset
        invariant
            pos <= all@.len(),
            av == nodes_view(all@),
            first_with_start(av, 0, section@.start_offset) == first_with_start(av, pos as int, section@.start_offset),
        decreases all@.len() - pos,
    {
        assert(av[pos as int] == all@[pos as int]@);
        pos += 1;
    }
    if pos == all.len() {
        pos = 0;
    } else {
        assert(av[pos as int] == all@[pos as int]@);
    }
    assert(pos as int == first_with_start(av, 0, section@.start_offset));
    let mut path: Vec<Vec<char>> = Vec::new();
    path.push(chars_of(section.title.as_str()));
    let ghost target = ancestor_titles(av, pos as int, section.level, seq![section@.title]);
    assert(path@.map_values(|v: Vec<char>| v@) =~= seq![section@.title]);
    let mut level = section.level;
    while pos > 0 && level > 0
        invariant
            pos <= all@.len(),
            av == nodes_view(all@),
            ancestor_titles(av, pos as int, level, path@.map_values(|v: Vec<char>| v@)) == target,
        decreases pos,
    {
        pos -= 1;
        assert(av[pos as int] == all@[pos as int]@);
        if all[pos].level < level {
            let ghost old = path@;
            path.insert(0, chars_of(all[pos].title.as_str()));
            assert(path@.map_values(|v: Vec<char>| v@) =~= seq![av[pos as int].title] + old.map_values(
                |v: Vec<char>| v@,
            ));
            level = all[pos].level;
        }
    }
    let sep: [char; 3] = [' ', '>', ' '];
    proof {
        reveal_strlit(" > ");
    }
    assert(sep@ =~= " > "@);
    let joined = join_chars(path.as_slice(), sep.as_slice());
    string_from(joined.as_slice())
}


/// The stack after closing every open section of this level or deeper.
pub open spec fn pop_levels(stack: Seq<(u32, Seq<char>)>, level: u32) -> Seq<(u32, Seq<char>)>
    decreases stack.len(),
{
    if stack.len() > 0 && stack.last().0 >= level {
        pop_levels(stack.drop_last(), level)
    } else {
        stack
    }
}

/// The stored heading path: the open entries of the stack (their identifiers) and the
/// title, joined with ` > `; just the title when nothing is open.
pub open spec fn stack_heading_path(stack: Seq<(u32, Seq<char>)>, title: Seq<char>) -> Seq<char> {
    if stack.len() == 0 {
        title
    } else {
        join(stack.map_values(|e: (u32, Seq<char>)| e.1), " > "@) + " > "@ + title
    }
}

/// The first eight bytes of a document identifier (all of it when shorter).
pub open spec fn id_prefix(doc_id: Seq<char>) -> Seq<char> {
    if utf8_len(doc_id) <= 8 {
        doc_id
    } else {
        byte_slice(doc_id, 0, 8)
    }
}

/// The first eight bytes of a document identifier can be cut off: the identifier is no
/// longer, or its eighth byte ends a character (cutting elsewhere would panic).
pub open spec fn id_prefix_ok(doc_id: Seq<char>) -> bool {
    utf8_len(doc_id) <= 8 || is_boundary(doc_id, 8)
}

/// Whether the first eight bytes of an identifier can be cut off (see [`id_prefix_ok`]).
pub fn id_prefix_ok_exec(cs: &[char]) -> (r: bool)
    ensures
        r == id_prefix_ok(cs@),
{
    utf8_len_exec(cs) <= 8 || char_at_byte(cs, 8).is_some()
}

/// The first eight bytes of an identifier (see [`id_prefix`]).
pub fn id_prefix_exec(cs: &[char]) -> (r: Vec<char>)
    requires
        id_prefix_ok(cs@),
    ensures
        r@ == id_prefix(cs@),
{
    if utf8_len_exec(cs) <= 8 {
        return slice_to_vec(cs);
    }
    match char_at_byte(cs, 8) {
        Some(i) => {
            proof {
                lemma_byte_pos_mono(cs@, 0, i as int);
                lemma_char_index_at(cs@, 0);
            }
            slice_to_vec(&cs[0..i])
        },
        None => {
            assert(false);
            Vec::new()
        },
    }
}

/// The identifier of a stored section: `{doc prefix}-sec-{short hash of path and start}`.
pub open spec fn spec_section_id(doc_id: Seq<char>, hp: Seq<char>, start: int) -> Seq<char> {
    id_prefix(doc_id) + "-sec-"@ + spec_short_id(spec_hash_text(hp + decimal(start as nat)))
}

/// The stored sections for `nodes[i..]`, `stack` holding the open sections' levels and ids.
pub open spec fn stored_from(
    doc_id: Seq<char>,
    nodes: Seq<SectionNodeView>,
    i: int,
    stack: Seq<(u32, Seq<char>)>,
) -> Seq<SectionView>
    decreases nodes.len() - i,
{
    if i < 0 || i >= nodes.len() {
        seq![]
    } else {
        let n = nodes[i];
        let st = pop_levels(stack, n.level);
        let hp = stack_heading_path(st, n.title);
        let id = spec_section_id(doc_id, hp, n.start_offset);
        seq![
            SectionView {
                id,
                document_id: doc_id,
                parent_section_id: if st.len() > 0 {
                    Some(st.last().1)
                } else {
                    None
                },
                title: n.title,
                level: n.level,
                heading_path: hp,
                start_offset: n.start_offset as usize,
                end_offset: n.end_offset as usize,
                page_start: n.page_start,
                page_end: n.page_end,
                summary: None,
            },
        ] + stored_from(doc_id, nodes, i + 1, st.push((n.level, id)))
    }
}

/// What `sections_to_stored` gives.
pub open spec fn spec_sections_to_stored(doc_id: Seq<char>, nodes: Seq<SectionNodeView>) -> Seq<SectionView> {
    stored_from(doc_id, nodes, 0, seq![])
}

/// The views of sections.
pub open spec fn sections_view(v: Seq<Section>) -> Seq<SectionView> {
    v.map_values(|x: Section| x@)
}

/// The views of a stack of open sections.
pub open spec fn stack_view(v: Seq<(u32, Vec<char>)>) -> Seq<(u32, Seq<char>)> {
    v.map_values(|e: (u32, Vec<char>)| (e.0, e.1@))
}

/// The stored form of section nodes: each gets an identifier, its parent (the nearest
/// enclosing section of a lower level) and a heading path.
pub fn sections_to_stored(document_id: &str, nodes: &[SectionNode]) -> (r: Vec<Section>)
    requires
        nodes@.len() > 0 ==> id_prefix_ok(document_id@),
    ensures
        sections_view(r@) == spec_sections_to_stored(document_id@, nodes_view(nodes@)),
{
    let ghost nv = nodes_view(nodes@);
    let doc_cs = chars_of(document_id);
    if nodes.len() == 0 {
        let empty: Vec<Section> = Vec::new();
        assert(sections_view(empty@) =~= spec_sections_to_stored(document_id@, nv));
        return empty;
    }
    let prefix = id_prefix_exec(doc_cs.as_slice());
    let sec_mark: [char; 5] = ['-', 's', 'e', 'c', '-'];
    let sep: [char; 3] = [' ', '>', ' '];
    proof {
        reveal_strlit("-sec-");
        reveal_strlit(" > ");
    }
    assert(sec_mark@ =~= "-sec-"@);
    assert(sep@ =~= " > "@);
    let mut stack: Vec<(u32, Vec<char>)> = Vec::new();
    let mut out: Vec<Section> = Vec::new();
    let mut i: usize = 0;
    assert(stack_view(stack@) =~= Seq::<(u32, Seq<char>)>::empty());
    assert(sections_view(out@) =~= Seq::<SectionView>::empty());
    while i < nodes.len()
        invariant
            i <= nodes@.len(),
            nv == nodes_view(nodes@),
            prefix@ == id_prefix(document_id@),
            doc_cs@ == document_id@,
            sec_mark@ == "-sec-"@,
            sep@ == " > "@,
            sections_view(out@) + stored_from(document_id@, nv, i as int, stack_view(stack@))
                == spec_sections_to_stored(document_id@, nv),
        decreases nodes@.len() - i,
    {
        let node = &nodes[i];
        assert(nv[i as int] == node@);
        let ghost st0 = stack_view(stack@);
        while stack.len() > 0 && stack[stack.len() - 1].0 >= node.level
            invariant
                pop_levels(stack_view(stack@), node.level) == pop_levels(st0, node.level),
            decreases stack@.len(),
        {
            let ghost before = stack@;
            stack.pop();
            assert(stack_view(stack@) == stack_view(before).drop_last());
        }
        let ghost st = stack_view(stack@);
        assert(pop_levels(st, node.level) == st);
        let title = chars_of(node.title.as_str());
        let mut hp: Vec<char> = Vec::new();
        if stack.len() == 0 {
            append_chars(&mut hp, title.as_slice());
        } else {
            let mut ids: Vec<Vec<char>> = Vec::new();
            let mut k: usize = 0;
            while k < stack.len()
                invariant
                    k <= stack@.len(),
                    ids@.map_values(|v: Vec<char>| v@) == stack_view(stack@).map_values(
                        |e: (u32, Seq<char>)| e.1,
                    ).take(k as int),
                decreases stack@.len() - k,
            {
                let ghost old_ids = ids@;
                ids.push(slice_to_vec(stack[k].1.as_slice()));
                assert(ids@.map_values(|v: Vec<char>| v@) == old_ids.map_values(|v: Vec<char>| v@).push(
                    stack@[k as int].1@,
                ));
                assert(stack_view(stack@).map_values(|e: (u32, Seq<char>)| e.1).take(k + 1)
                    == stack_view(stack@).map_values(|e: (u32, Seq<char>)| e.1).take(k as int).push(
                    stack@[k as int].1@,
                ));
                k += 1;
            }
            assert(stack_view(stack@).map_values(|e: (u32, Seq<char>)| e.1).take(stack@.len() as int)
                == stack_view(stack@).map_values(|e: (u32, Seq<char>)| e.1));
            let joined = join_chars(ids.as_slice(), sep.as_slice());
            append_chars(&mut hp, joined.as_slice());
            append_chars(&mut hp, sep.as_slice());
            append_chars(&mut hp, title.as_slice());
        }
        assert(hp@ == stack_heading_path(st, node@.title));
        let mut key = slice_to_vec(hp.as_slice());
        let digits = decimal_chars(node.start_offset as u64);
        append_chars(&mut key, digits.as_slice());
        let h = hash_text(string_from(key.as_slice()).as_str());
        let short = short_id_from_hash(h.as_str());
        let mut id = slice_to_vec(prefix.as_slice());
        append_chars(&mut id, sec_mark.as_slice());
        let short_cs = chars_of(short.as_str());
        append_chars(&mut id, short_cs.as_slice());
        assert(id@ == spec_section_id(document_id@, hp@, node@.start_offset));
        let parent = if stack.len() > 0 {
            Some(string_from(stack[stack.len() - 1].1.as_slice()))
        } else {
            None
        };
        let section = Section {
            id: string_from(id.as_slice()),
            document_id: string_from(doc_cs.as_slice()),
            parent_section_id: parent,
            title: node.title.clone(),
            level: node.level,
            heading_path: string_from(hp.as_slice()),
            start_offset: node.start_offset,
            end_offset: node.end_offset,
            page_start: node.page_start,
            page_end: node.page_end,
            summary: None,
        };
        let ghost old_out = out@;
        out.push(section);
        assert(sections_view(out@) == sections_view(old_out).push(section@));
        let ghost st_before_push = stack_view(stack@);
        stack.push((node.level, id));
        assert(stack_view(stack@) == st_before_push.push((node@.level, id@)));
        proof {
            let want = stored_from(document_id@, nv, i as int, st0)[0];
            assert(st == pop_levels(st0, node@.level));
            assert(section@.id == want.id);
            assert(section@.document_id == want.document_id);
            assert(st.len() > 0 ==> st.last().1 == stack@[stack@.len() - 2].1@);
            assert(section@.parent_section_id == want.parent_section_id);
            assert(section@.heading_path == want.heading_path);
        }
        assert(section@ == stored_from(document_id@, nv, i as int, st0)[0]);
        assert(stored_from(document_id@, nv, i as int, st0) == seq![section@] + stored_from(
            document_id@,
            nv,
            i + 1,
            stack_view(stack@),
        ));
        i += 1;
    }
    out
}


/// The position of the first section whose range `[start, end)` holds `offset`.
pub open spec fn first_section_at(secs: Seq<SectionView>, offset: int, i: int) -> Option<int>
    decreases secs.len() - i,
{
    if i < 0 || i >= secs.len() {
        None
    } else if secs[i].start_offset <= offset && offset < secs[i].end_offset {
        Some(i)
    } else {
        first_section_at(secs, offset, i + 1)
    }
}

pub proof fn lemma_first_section_at(secs: Seq<SectionView>, offset: int, i: int)
    requires
        0 <= i,
    ensures
        first_section_at(secs, offset, i) matches Some(k) ==> i <= k < secs.len(),
    decreases secs.len() - i,
{
    if i < secs.len() && !(secs[i].start_offset <= offset && offset < secs[i].end_offset) {
        lemma_first_section_at(secs, offset, i + 1);
    }
}

/// The first section whose range holds `offset`.
pub fn find_section_for_offset(sections: &[Section], offset: usize) -> (r: Option<&Section>)
    ensures
        match first_section_at(sections_view(sections@), offset as int, 0) {
            Some(k) => r is Some && r->0@ == sections@[k]@,
            None => r is None,
        },
{
    let ghost sv = sections_view(sections@);
    let mut i: usize = 0;
    while i < sections.len()
        invariant
            i <= sections@.len(),
            sv == sections_view(sections@),
            first_section_at(sv, offset as int, 0) == first_section_at(sv, offset as int, i as int),
        decreases sections@.len() - i,
    {
        assert(sv[i as int] == sections@[i as int]@);
        if offset >= sections[i].start_offset && offset < sections[i].end_offset {
            return Some(&sections[i]);
        }
        i += 1;
    }
    None
}

} // verus!

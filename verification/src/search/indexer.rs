use vstd::prelude::*;
use vstd::string::*;

use crate::chunking::types::{contextual_text, section_label, Chunk};
use crate::documents::graph_types::{DocumentSummary, Section, SummaryLevel};
use crate::error::AshkorixError;
use crate::ids::{hash_text, short_id_from_hash, spec_hash_text, spec_short_id};
use crate::rag::prompt::{prefix_chars, prefix_string};
use crate::text::{chars_of, join, join_chars, slice_to_vec, split_chars, split_on, string_from, trim};

verus! {

/// A line without its trailing carriage return.
pub open spec fn strip_cr(l: Seq<char>) -> Seq<char> {
    if l.len() > 0 && l.last() == '\r' {
        l.drop_last()
    } else {
        l
    }
}

/// The lines of a text (as `str::lines`): split at line feeds, no empty last line after a
/// final line feed, each without a trailing carriage return.
pub open spec fn text_lines(s: Seq<char>) -> Seq<Seq<char>> {
    let parts = split_on(s, "\n"@);
    let kept = if parts.len() > 0 && parts.last().len() == 0 {
        parts.drop_last()
    } else {
        parts
    };
    kept.map_values(|l: Seq<char>| strip_cr(l))
}

/// The first (at most) `n` lines that are not blank, in order.
pub open spec fn first_nonblank(ls: Seq<Seq<char>>, n: nat) -> Seq<Seq<char>>
    decreases ls.len(),
{
    if ls.len() == 0 || n == 0 {
        Seq::empty()
    } else if trim(ls[0]).len() == 0 {
        first_nonblank(ls.drop_first(), n)
    } else {
        seq![ls[0]] + first_nonblank(ls.drop_first(), (n - 1) as nat)
    }
}

/// A summary of a text: its first `lines` non-blank lines joined by spaces, cut to `chars`
/// characters.
pub open spec fn spec_summary_text(s: Seq<char>, lines: nat, chars: nat) -> Seq<char> {
    prefix_chars(join(first_nonblank(text_lines(s), lines), " "@), chars)
}

/// The lines of a text.
fn lines_of(s: &[char]) -> (r: Vec<Vec<char>>)
    ensures
        r@.map_values(|v: Vec<char>| v@) == text_lines(s@),
{
    let nl = chars_of("\n");
    proof {
        reveal_strlit("\n");
    }
    let parts = split_chars(s, nl.as_slice());
    let ghost pv = parts@.map_values(|v: Vec<char>| v@);
    let n = parts.len();
    let keep = if n > 0 && parts[n - 1].len() == 0 {
        n - 1
    } else {
        n
    };
    let ghost kept = if pv.len() > 0 && pv.last().len() == 0 {
        pv.drop_last()
    } else {
        pv
    };
    assert(kept.len() == keep);
    let mut out: Vec<Vec<char>> = Vec::new();
    let mut i: usize = 0;
    while i < keep
        invariant
            i <= keep,
            keep <= parts@.len(),
            pv == parts@.map_values(|v: Vec<char>| v@),
            kept.len() == keep,
            forall|j: int| 0 <= j < keep ==> kept[j] == pv[j],
            out@.map_values(|v: Vec<char>| v@) == kept.map_values(|l: Seq<char>| strip_cr(l)).take(i as int),
        decreases keep - i,
    {
        let p = &parts[i];
        assert(pv[i as int] == p@);
        let l: Vec<char> = if p.len() > 0 && p[p.len() - 1] == '\r' {
            slice_to_vec(&p.as_slice()[0..p.len() - 1])
        } else {
            slice_to_vec(p.as_slice())
        };
        assert(l@ == strip_cr(kept[i as int]));
        let ghost before = out@.map_values(|v: Vec<char>| v@);
        out.push(l);
        assert(out@.map_values(|v: Vec<char>| v@) =~= before.push(strip_cr(kept[i as int])));
        assert(kept.map_values(|l: Seq<char>| strip_cr(l)).take(i as int + 1) =~= kept.map_values(
            |l: Seq<char>| strip_cr(l),
        ).take(i as int).push(strip_cr(kept[i as int])));
        i += 1;
    }
    assert(kept.map_values(|l: Seq<char>| strip_cr(l)).take(keep as int) =~= kept.map_values(
        |l: Seq<char>| strip_cr(l),
    ));
    out
}

/// A summary of a text (see [`spec_summary_text`]).
pub fn summary_text(s: &str, lines: usize, chars: usize) -> (r: String)
    ensures
        r@ == spec_summary_text(s@, lines as nat, chars as nat),
{
    let cs = chars_of(s);
    let ls = lines_of(cs.as_slice());
    let ghost lv = ls@.map_values(|v: Vec<char>| v@);
    let mut picked: Vec<Vec<char>> = Vec::new();
    let mut left: usize = lines;
    let mut i: usize = 0;
    assert(lv.skip(0) =~= lv);
    while i < ls.len() && left > 0
        invariant
            i <= ls@.len(),
            lv == ls@.map_values(|v: Vec<char>| v@),
            picked@.map_values(|v: Vec<char>| v@) + first_nonblank(lv.skip(i as int), left as nat)
                == first_nonblank(lv, lines as nat),
        decreases ls@.len() - i,
    {
        let l = &ls[i];
        assert(lv[i as int] == l@);
        let ghost before = picked@.map_values(|v: Vec<char>| v@);
        assert(lv.skip(i as int).drop_first() =~= lv.skip(i as int + 1));
        assert(lv.skip(i as int)[0] == lv[i as int]);
        if !crate::chunking::hierarchy::is_blank(l.as_slice()) {
            picked.push(slice_to_vec(l.as_slice()));
            assert(picked@.map_values(|v: Vec<char>| v@) =~= before.push(lv[i as int]));
            assert(before + (seq![lv[i as int]] + first_nonblank(lv.skip(i as int + 1), (left - 1) as nat))
                =~= before.push(lv[i as int]) + first_nonblank(lv.skip(i as int + 1), (left - 1) as nat));
            left -= 1;
        }
        i += 1;
    }
    proof {
        if i >= ls.len() {
            assert(lv.skip(i as int).len() == 0);
        }
        assert(picked@.map_values(|v: Vec<char>| v@) + Seq::<Seq<char>>::empty() == picked@.map_values(
            |v: Vec<char>| v@,
        ));
    }
    let sp = chars_of(" ");
    let joined = join_chars(picked.as_slice(), sp.as_slice());
    let js = string_from(joined.as_slice());
    prefix_string(js.as_str(), chars)
}

/// The summary of a whole document: its first five non-blank lines, 400 characters at most,
/// identified by the hash of `doc-` and its id; none when that text is empty.
pub open spec fn spec_document_summary(doc_id: Seq<char>, text: Seq<char>) -> Option<(Seq<char>, Seq<char>)> {
    let t = spec_summary_text(text, 5, 400);
    if t.len() == 0 {
        None
    } else {
        Some(("sum-"@ + spec_short_id(spec_hash_text("doc-"@ + doc_id)), t))
    }
}

/// The summary of a whole document (see [`spec_document_summary`]).
pub fn document_summary(doc_id: &str, text: &str) -> (r: Option<DocumentSummary>)
    ensures
        match spec_document_summary(doc_id@, text@) {
            None => r is None,
            Some((id, t)) => r matches Some(s) && s.id@ == id && s.document_id@ == doc_id@
                && s.section_id is None && s.level == SummaryLevel::Document && s.summary@ == t,
        },
{
    let t = summary_text(text, 5, 400);
    if chars_of(t.as_str()).len() == 0 {
        return None;
    }
    let mut key = String::from_str("doc-");
    key.append(doc_id);
    let mut id = String::from_str("sum-");
    id.append(short_id_from_hash(hash_text(key.as_str()).as_str()).as_str());
    Some(DocumentSummary {
        id,
        document_id: String::from_str(doc_id),
        section_id: None,
        level: SummaryLevel::Document,
        summary: t,
    })
}

/// The text of a section: its range of the document text, empty when the range does not lie
/// in the text.
pub open spec fn section_text(text: Seq<char>, start: int, end: int) -> Seq<char> {
    if 0 <= start <= end <= text.len() {
        text.subrange(start, end)
    } else {
        Seq::empty()
    }
}

/// The summary of a section: the first three non-blank lines of its text, 250 characters at
/// most, identified by the hash of `sec-` and the section id; none when that text is empty.
pub open spec fn spec_section_summary(text: Seq<char>, sec: Section) -> Option<(Seq<char>, Seq<char>)> {
    let t = spec_summary_text(section_text(text, sec.start_offset as int, sec.end_offset as int), 3, 250);
    if t.len() == 0 {
        None
    } else {
        Some(("sum-"@ + spec_short_id(spec_hash_text("sec-"@ + sec.id@)), t))
    }
}

/// The summary of a section of a document (see [`spec_section_summary`]).
pub fn section_summary(doc_id: &str, text: &str, section: &Section) -> (r: Option<DocumentSummary>)
    ensures
        match spec_section_summary(text@, *section) {
            None => r is None,
            Some((id, t)) => r matches Some(s) && s.id@ == id && s.document_id@ == doc_id@
                && crate::documents::graph_types::opt_view(s.section_id) == Some(section.id@)
                && s.level == SummaryLevel::Section && s.summary@ == t,
        },
{
    let cs = chars_of(text);
    let body: Vec<char> = if section.start_offset <= section.end_offset && section.end_offset <= cs.len() {
        slice_to_vec(&cs.as_slice()[section.start_offset..section.end_offset])
    } else {
        Vec::new()
    };
    let bs = string_from(body.as_slice());
    let t = summary_text(bs.as_str(), 3, 250);
    if chars_of(t.as_str()).len() == 0 {
        return None;
    }
    let mut key = String::from_str("sec-");
    key.append(section.id.as_str());
    let mut id = String::from_str("sum-");
    id.append(short_id_from_hash(hash_text(key.as_str()).as_str()).as_str());
    Some(DocumentSummary {
        id,
        document_id: String::from_str(doc_id),
        section_id: Some(section.id.clone()),
        level: SummaryLevel::Section,
        summary: t,
    })
}

/// The text embedded for a chunk: its contextual text, else the one built from the
/// document title.
pub fn embed_text_for_chunk(chunk: &Chunk, doc_title: &str) -> (r: String)
    ensures
        r@ == match chunk.contextual_text {
            Some(c) => c@,
            None => contextual_text(doc_title@, section_label(chunk.heading_path, chunk.section_title), chunk.text@),
        },
{
    match &chunk.contextual_text {
        Some(c) => c.clone(),
        None => chunk.build_contextual_text(doc_title),
    }
}

/// Refuses to build the index without a loaded embedding model or without chunks.
pub fn index_precheck(dimension: usize, chunk_count: usize) -> (r: Result<(), AshkorixError>)
    ensures
        dimension == 0 ==> (r matches Err(AshkorixError::Config(m)) && m@ == "Embedding model is not loaded. In Settings, set embedding model path to a .gguf embedding file (not a folder), save config, then rebuild the index."@),
        dimension != 0 && chunk_count == 0 ==> (r matches Err(AshkorixError::Config(m)) && m@ == "No document chunks to index. Import files on the Documents page first."@),
        dimension != 0 && chunk_count != 0 ==> r is Ok,
{
    if dimension == 0 {
        return Err(AshkorixError::Config(String::from_str("Embedding model is not loaded. In Settings, set embedding model path to a .gguf embedding file (not a folder), save config, then rebuild the index.")));
    }
    if chunk_count == 0 {
        return Err(AshkorixError::Config(String::from_str("No document chunks to index. Import files on the Documents page first.")));
    }
    Ok(())
}

} // verus!

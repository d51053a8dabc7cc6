use vstd::prelude::*;
use vstd::string::*;

use crate::documents::graph_types::{Entity, EntityKind, EntityView};
use crate::documents::structure::slice_or_empty;
use crate::ids::{hash_text, short_id_from_hash, spec_hash_text, spec_short_id};
use crate::patterns::{char_index_of_byte, char_index_of_byte_exec, find_match_spans, regex_spans};
use crate::text::{append_chars, chars_eq, chars_of, slice_to_vec, string_from};

verus! {

/// Upper-case words of two to six letters.
pub const ACRONYM_PATTERN: &'static str = "\\b[A-Z]{2,6}\\b";

/// `field` and a number.
pub const FIELD_LOWER_PATTERN: &'static str = "\\bfield\\s+\\d+\\b";

/// `Field` and a number.
pub const FIELD_UPPER_PATTERN: &'static str = "\\bField\\s+\\d+\\b";

/// `error` and a number.
pub const ERROR_LOWER_PATTERN: &'static str = "\\berror\\s+\\d+\\b";

/// `Error` and a number.
pub const ERROR_UPPER_PATTERN: &'static str = "\\bError\\s+\\d+\\b";

/// Numbers of five or more digits.
pub const PART_NUMBER_PATTERN: &'static str = "\\b\\d{5,}\\b";

/// The entity patterns in the order they are tried, with the kind each finds.
pub open spec fn entity_patterns() -> Seq<(Seq<char>, EntityKind)> {
    seq![
        (ACRONYM_PATTERN@, EntityKind::Acronym),
        (FIELD_LOWER_PATTERN@, EntityKind::FieldId),
        (FIELD_UPPER_PATTERN@, EntityKind::FieldId),
        (ERROR_LOWER_PATTERN@, EntityKind::ErrorCode),
        (ERROR_UPPER_PATTERN@, EntityKind::ErrorCode),
        (PART_NUMBER_PATTERN@, EntityKind::PartNumber),
    ]
}

/// The texts of `t` that byte spans cover, in order.
pub open spec fn span_texts(t: Seq<char>, v: Seq<(usize, usize)>) -> Seq<Seq<char>> {
    Seq::new(
        v.len(),
        |k: int| slice_or_empty(t, char_index_of_byte(t, v[k].0 as int), char_index_of_byte(t, v[k].1 as int)),
    )
}

/// The texts that a pattern matches in `t`, in order.
pub open spec fn match_texts(t: Seq<char>, pattern: Seq<char>) -> Seq<Seq<char>> {
    match regex_spans(pattern, t) {
        Some(v) => span_texts(t, v),
        None => seq![],
    }
}

/// Some entity found so far has the value `v`.
pub open spec fn has_value(acc: Seq<EntityView>, v: Seq<char>) -> bool {
    exists|j: int| 0 <= j < acc.len() && (#[trigger] acc[j]).value == v
}

/// The identifier of an entity: `ent-` and the short hash of document, chunk and value.
pub open spec fn entity_id(doc: Seq<char>, chunk: Seq<char>, v: Seq<char>) -> Seq<char> {
    "ent-"@ + spec_short_id(spec_hash_text(doc + chunk + v))
}

/// `acc` extended with the entities of `vals[i..]` whose values are not yet present.
pub open spec fn add_entities(
    acc: Seq<EntityView>,
    vals: Seq<Seq<char>>,
    i: int,
    kind: EntityKind,
    doc: Seq<char>,
    chunk: Seq<char>,
) -> Seq<EntityView>
    decreases vals.len() - i,
{
    if i < 0 || i >= vals.len() {
        acc
    } else {
        let v = vals[i];
        let next = if has_value(acc, v) {
            acc
        } else {
            acc.push(
                EntityView {
                    id: entity_id(doc, chunk, v),
                    document_id: doc,
                    chunk_id: Some(chunk),
                    kind,
                    value: v,
                },
            )
        };
        add_entities(next, vals, i + 1, kind, doc, chunk)
    }
}

/// The entities found by patterns `p..` added to `acc`.
pub open spec fn entities_from(acc: Seq<EntityView>, t: Seq<char>, p: int, doc: Seq<char>, chunk: Seq<char>) -> Seq<EntityView>
    decreases 6 - p,
{
    if p < 0 || p >= 6 {
        acc
    } else {
        let (pat, kind) = entity_patterns()[p];
        entities_from(add_entities(acc, match_texts(t, pat), 0, kind, doc, chunk), t, p + 1, doc, chunk)
    }
}

/// What `extract_entities_from_text` gives: the distinct matches of the entity patterns,
/// first occurrence kept, in pattern order then text order.
pub open spec fn spec_extract_entities(doc: Seq<char>, chunk: Seq<char>, t: Seq<char>) -> Seq<EntityView> {
    entities_from(seq![], t, 0, doc, chunk)
}

/// The views of entities.
pub open spec fn entities_view(v: Seq<Entity>) -> Seq<EntityView> {
    v.map_values(|e: Entity| e@)
}

/// Adds to `acc` an entity of the given kind for each value not yet held, in order (see
/// [`add_entities`]).
pub fn add_value_entities(
    acc: &mut Vec<Entity>,
    values: &Vec<Vec<char>>,
    kind: EntityKind,
    document_id: &str,
    chunk_id: &str,
)
    ensures
        entities_view(final(acc)@) == add_entities(
            entities_view(old(acc)@),
            values@.map_values(|v: Vec<char>| v@),
            0,
            kind,
            document_id@,
            chunk_id@,
        ),
{
    let ghost vals = values@.map_values(|v: Vec<char>| v@);
    let ghost target = add_entities(entities_view(acc@), vals, 0, kind, document_id@, chunk_id@);
    let doc_cs = chars_of(document_id);
    let chunk_cs = chars_of(chunk_id);
    let mut i: usize = 0;
    while i < values.len()
        invariant
            i <= values@.len(),
            doc_cs@ == document_id@,
            chunk_cs@ == chunk_id@,
            vals == values@.map_values(|v: Vec<char>| v@),
            add_entities(entities_view(acc@), vals, i as int, kind, document_id@, chunk_id@) == target,
        decreases values@.len() - i,
    {
        let value = &values[i];
        assert(value@ == vals[i as int]);
        let ghost av = entities_view(acc@);
        let mut found = false;
        let mut j: usize = 0;
        while j < acc.len()
            invariant
                j <= acc@.len(),
                av == entities_view(acc@),
                found == exists|k: int| 0 <= k < j && (#[trigger] av[k]).value == value@,
            decreases acc@.len() - j,
        {
            let ev = chars_of(acc[j].value.as_str());
            assert(av[j as int] == acc@[j as int]@);
            if chars_eq(ev.as_slice(), value.as_slice()) {
                found = true;
            }
            j += 1;
        }
        assert(found == has_value(av, value@));
        if !found {
            let mut key = slice_to_vec(doc_cs.as_slice());
            append_chars(&mut key, chunk_cs.as_slice());
            append_chars(&mut key, value.as_slice());
            let h = hash_text(string_from(key.as_slice()).as_str());
            let short = short_id_from_hash(h.as_str());
            let mut id = String::from_str("ent-");
            id.append(short.as_str());
            let e = Entity {
                id,
                document_id: string_from(doc_cs.as_slice()),
                chunk_id: Some(string_from(chunk_cs.as_slice())),
                kind,
                value: string_from(value.as_slice()),
            };
            let ghost old = acc@;
            acc.push(e);
            assert(entities_view(acc@) == entities_view(old).push(e@));
        }
        i += 1;
    }
}

fn add_pattern_entities(
    acc: &mut Vec<Entity>,
    text: &str,
    pattern: &str,
    kind: EntityKind,
    document_id: &str,
    chunk_id: &str,
)
    ensures
        entities_view(final(acc)@) == add_entities(
            entities_view(old(acc)@),
            match_texts(text@, pattern@),
            0,
            kind,
            document_id@,
            chunk_id@,
        ),
{
    let values = matched_texts(text, pattern);
    add_value_entities(acc, &values, kind, document_id, chunk_id);
}

/// The entities a chunk's text names: acronyms, field ids, error codes and part numbers,
/// each value once.
pub fn extract_entities_from_text(document_id: &str, chunk_id: &str, text: &str) -> (r: Vec<Entity>)
    ensures
        entities_view(r@) == spec_extract_entities(document_id@, chunk_id@, text@),
{
    let mut acc: Vec<Entity> = Vec::new();
    assert(entities_view(acc@) =~= Seq::<EntityView>::empty());
    add_pattern_entities(&mut acc, text, ACRONYM_PATTERN, EntityKind::Acronym, document_id, chunk_id);
    add_pattern_entities(&mut acc, text, FIELD_LOWER_PATTERN, EntityKind::FieldId, document_id, chunk_id);
    add_pattern_entities(&mut acc, text, FIELD_UPPER_PATTERN, EntityKind::FieldId, document_id, chunk_id);
    add_pattern_entities(&mut acc, text, ERROR_LOWER_PATTERN, EntityKind::ErrorCode, document_id, chunk_id);
    add_pattern_entities(&mut acc, text, ERROR_UPPER_PATTERN, EntityKind::ErrorCode, document_id, chunk_id);
    add_pattern_entities(&mut acc, text, PART_NUMBER_PATTERN, EntityKind::PartNumber, document_id, chunk_id);
    proof {
        reveal_with_fuel(entities_from, 7);
    }
    acc
}


/// The texts of `text` that byte spans cover, in order (see [`span_texts`]).
pub fn texts_of_spans(text: &str, spans: &Vec<(usize, usize)>) -> (r: Vec<Vec<char>>)
    ensures
        r@.map_values(|v: Vec<char>| v@) == span_texts(text@, spans@),
{
    let cs = chars_of(text);
    let ghost vals = span_texts(text@, spans@);
    let mut out: Vec<Vec<char>> = Vec::new();
    let mut i: usize = 0;
    while i < spans.len()
        invariant
            i <= spans@.len(),
            cs@ == text@,
            vals == span_texts(text@, spans@),
            out@.map_values(|v: Vec<char>| v@) == vals.take(i as int),
        decreases spans@.len() - i,
    {
        let a = char_index_of_byte_exec(cs.as_slice(), spans[i].0);
        let b = char_index_of_byte_exec(cs.as_slice(), spans[i].1);
        let value: Vec<char> = if a <= b {
            slice_to_vec(&cs.as_slice()[a..b])
        } else {
            Vec::new()
        };
        assert(value@ == vals[i as int]);
        let ghost before = out@.map_values(|v: Vec<char>| v@);
        out.push(value);
        assert(out@.map_values(|v: Vec<char>| v@) =~= before.push(vals[i as int]));
        assert(vals.take(i as int + 1) == vals.take(i as int).push(vals[i as int]));
        i += 1;
    }
    assert(vals.take(vals.len() as int) == vals);
    out
}

/// The texts that a pattern matches in `text`, in order; none where it does not compile.
pub fn matched_texts(text: &str, pattern: &str) -> (r: Vec<Vec<char>>)
    ensures
        r@.map_values(|v: Vec<char>| v@) == match_texts(text@, pattern@),
{
    match find_match_spans(pattern, text) {
        Some(v) => texts_of_spans(text, &v),
        None => Vec::new(),
    }
}

} // verus!

use vstd::prelude::*;

use crate::documents::types::str_eq;

verus! {

/// Which search found a chunk.
#[derive(Clone, Copy, Debug, PartialEq, Eq, Structural)]
pub enum SourceType {
    Vector,
    Keyword,
    Both,
}

/// The name of a source type.
pub open spec fn spec_source_type_str(t: SourceType) -> Seq<char> {
    match t {
        SourceType::Vector => "vector"@,
        SourceType::Keyword => "keyword"@,
        SourceType::Both => "both"@,
    }
}

impl SourceType {
    /// `vector`, `keyword` or `both`.
    pub fn as_str(&self) -> (r: &'static str)
        ensures
            r@ == spec_source_type_str(*self),
    {
        match self {
            SourceType::Vector => "vector",
            SourceType::Keyword => "keyword",
            SourceType::Both => "both",
        }
    }
}

/// The lists of result ids by their views.
pub open spec fn lists_view(lists: Seq<Vec<String>>) -> Seq<Seq<Seq<char>>> {
    lists.map_values(|v: Vec<String>| v@.map_values(|s: String| s@))
}

/// Some list holds the id.
pub open spec fn listed(ls: Seq<Seq<Seq<char>>>, id: Seq<char>) -> bool {
    exists|l: int| 0 <= l < ls.len() && #[trigger] ls[l].contains(id)
}

/// Some list of the kind holds the id: the lists at even positions hold vector results, those
/// at odd positions keyword results.
pub open spec fn listed_as(ls: Seq<Seq<Seq<char>>>, id: Seq<char>, vector: bool) -> bool {
    exists|l: int| 0 <= l < ls.len() && (l % 2 == 0) == vector && #[trigger] ls[l].contains(id)
}

/// Which search found an id: both kinds of list, only vector lists, or only keyword lists.
pub open spec fn fused_source(ls: Seq<Seq<Seq<char>>>, id: Seq<char>) -> SourceType {
    if listed_as(ls, id, true) && listed_as(ls, id, false) {
        SourceType::Both
    } else if listed_as(ls, id, true) {
        SourceType::Vector
    } else {
        SourceType::Keyword
    }
}

/// The ids of fused results.
pub open spec fn fused_ids(r: Seq<(String, SourceType)>) -> Seq<Seq<char>> {
    r.map_values(|p: (String, SourceType)| p.0@)
}

/// The lists one after another.
pub open spec fn flat_lists(ls: Seq<Seq<Seq<char>>>) -> Seq<Seq<char>>
    decreases ls.len(),
{
    if ls.len() == 0 {
        Seq::empty()
    } else {
        flat_lists(ls.drop_last()) + ls.last()
    }
}

/// The ids of `s`, each once, in the order they first occur.
pub open spec fn first_occurrences(s: Seq<Seq<char>>) -> Seq<Seq<char>>
    decreases s.len(),
{
    if s.len() == 0 {
        Seq::empty()
    } else {
        let d = first_occurrences(s.drop_last());
        if d.contains(s.last()) {
            d
        } else {
            d.push(s.last())
        }
    }
}

fn position_of(ids: &Vec<(String, SourceType)>, id: &String) -> (r: Option<usize>)
    ensures
        match r {
            Some(k) => k < ids@.len() && ids@[k as int].0@ == id@,
            None => !fused_ids(ids@).contains(id@),
        },
{
    let mut k: usize = 0;
    while k < ids.len()
        invariant
            k <= ids@.len(),
            forall|j: int| 0 <= j < k ==> ids@[j].0@ != id@,
        decreases ids@.len() - k,
    {
        if str_eq(ids[k].0.as_str(), id.as_str()) {
            return Some(k);
        }
        k += 1;
    }
    proof {
        if fused_ids(ids@).contains(id@) {
            let j = choose|j: int| 0 <= j < fused_ids(ids@).len() && fused_ids(ids@)[j] == id@;
            assert(ids@[j].0@ == id@);
        }
    }
    None
}

fn list_holds(list: &Vec<String>, id: &String) -> (r: bool)
    ensures
        r == list@.map_values(|s: String| s@).contains(id@),
{
    let ghost v = list@.map_values(|s: String| s@);
    let mut i: usize = 0;
    while i < list.len()
        invariant
            i <= list@.len(),
            v == list@.map_values(|s: String| s@),
            forall|j: int| 0 <= j < i ==> v[j] != id@,
        decreases list@.len() - i,
    {
        if str_eq(list[i].as_str(), id.as_str()) {
            assert(v[i as int] == id@);
            return true;
        }
        i += 1;
    }
    false
}

fn listed_as_exec(lists: &[Vec<String>], id: &String, vector: bool) -> (r: bool)
    ensures
        r == listed_as(lists_view(lists@), id@, vector),
{
    let ghost ls = lists_view(lists@);
    let mut l: usize = 0;
    while l < lists.len()
        invariant
            l <= lists@.len(),
            ls == lists_view(lists@),
            forall|j: int| 0 <= j < l && (j % 2 == 0) == vector ==> !#[trigger] ls[j].contains(id@),
        decreases lists@.len() - l,
    {
        assert(ls[l as int] == lists@[l as int]@.map_values(|s: String| s@));
        if (l % 2 == 0) == vector && list_holds(&lists[l], id) {
            return true;
        }
        l += 1;
    }
    false
}

/// The ids of several ranked result lists, each once in the order they first occur, with the
/// kind of search that found each (the source types of reciprocal rank fusion; the lists at
/// even positions are vector results, those at odd positions keyword results).
pub fn fused_source_types(lists: &[Vec<String>]) -> (r: Vec<(String, SourceType)>)
    ensures
        fused_ids(r@).no_duplicates(),
        fused_ids(r@) == first_occurrences(flat_lists(lists_view(lists@))),
        forall|k: int|
            0 <= k < r@.len() ==> listed(lists_view(lists@), (#[trigger] r@[k]).0@) && r@[k].1
                == fused_source(lists_view(lists@), r@[k].0@),
        forall|id: Seq<char>| listed(lists_view(lists@), id) ==> fused_ids(r@).contains(id),
{
    let ghost ls = lists_view(lists@);
    let mut ids: Vec<(String, SourceType)> = Vec::new();
    let mut l: usize = 0;
    while l < lists.len()
        invariant
            l <= lists@.len(),
            ls == lists_view(lists@),
            fused_ids(ids@).no_duplicates(),
            fused_ids(ids@) == first_occurrences(flat_lists(ls.take(l as int))),
            forall|k: int| 0 <= k < ids@.len() ==> listed(ls, (#[trigger] ids@[k]).0@),
            forall|j: int, id: Seq<char>| 0 <= j < l && #[trigger] ls[j].contains(id) ==> fused_ids(ids@).contains(id),
        decreases lists@.len() - l,
    {
        let list = &lists[l];
        assert(ls[l as int] == list@.map_values(|s: String| s@));
        let mut i: usize = 0;
        assert(flat_lists(ls.take(l as int)) + ls[l as int].take(0) == flat_lists(ls.take(l as int)));
        while i < list.len()
            invariant
                l < lists@.len(),
                i <= list@.len(),
                ls == lists_view(lists@),
                *list == lists@[l as int],
                ls[l as int] == list@.map_values(|s: String| s@),
                fused_ids(ids@).no_duplicates(),
                fused_ids(ids@) == first_occurrences(flat_lists(ls.take(l as int)) + ls[l as int].take(i as int)),
                forall|k: int| 0 <= k < ids@.len() ==> listed(ls, (#[trigger] ids@[k]).0@),
                forall|j: int, id: Seq<char>| 0 <= j < l && #[trigger] ls[j].contains(id) ==> fused_ids(ids@).contains(id),
                forall|q: int| 0 <= q < i ==> fused_ids(ids@).contains(#[trigger] ls[l as int][q]),
            decreases list@.len() - i,
        {
            let id = &list[i];
            assert(ls[l as int][i as int] == id@);
            let ghost pre = flat_lists(ls.take(l as int)) + ls[l as int].take(i as int);
            assert((flat_lists(ls.take(l as int)) + ls[l as int].take(i + 1)).drop_last() == pre);
            assert((flat_lists(ls.take(l as int)) + ls[l as int].take(i + 1)).last() == id@);
            assert(ls[l as int].contains(id@));
            match position_of(&ids, id) {
                Some(k) => {
                    assert(fused_ids(ids@)[k as int] == id@);
                },
                None => {
                    let ghost before = fused_ids(ids@);
                    ids.push((id.clone(), SourceType::Keyword));
                    assert(fused_ids(ids@) =~= before.push(id@));
                    assert(fused_ids(ids@)[before.len() as int] == id@);
                    assert forall|k: int| 0 <= k < ids@.len() implies listed(ls, (#[trigger] ids@[k]).0@) by {
                        if k < before.len() {
                            assert(fused_ids(ids@)[k] == before[k]);
                        }
                    }
                    assert forall|x: Seq<char>| before.contains(x) implies fused_ids(ids@).contains(x) by {
                        let w = choose|w: int| 0 <= w < before.len() && before[w] == x;
                        assert(fused_ids(ids@)[w] == x);
                    }
                    assert(fused_ids(ids@).contains(id@));
                },
            }
            i += 1;
        }
        assert(ls[l as int].take(list@.len() as int) == ls[l as int]);
        assert(ls.take(l + 1).drop_last() == ls.take(l as int));
        assert(ls.take(l + 1).last() == ls[l as int]);
        assert forall|j: int, id: Seq<char>| 0 <= j < l + 1 && #[trigger] ls[j].contains(id) implies fused_ids(ids@).contains(id) by {
            if j == l {
                let q = choose|q: int| 0 <= q < ls[j].len() && ls[j][q] == id;
                assert(fused_ids(ids@).contains(ls[l as int][q]));
            }
        }
        l += 1;
    }
    assert(ls.take(lists@.len() as int) == ls);
    let mut out: Vec<(String, SourceType)> = Vec::new();
    let mut k: usize = 0;
    while k < ids.len()
        invariant
            k <= ids@.len(),
            ls == lists_view(lists@),
            out@.len() == k,
            forall|j: int| 0 <= j < k ==> (#[trigger] out@[j]).0@ == ids@[j].0@,
            forall|j: int| 0 <= j < k ==> (#[trigger] out@[j]).1 == fused_source(ls, ids@[j].0@),
        decreases ids@.len() - k,
    {
        let id = &ids[k].0;
        let v = listed_as_exec(lists, id, true);
        let w = listed_as_exec(lists, id, false);
        let t = if v && w {
            SourceType::Both
        } else if v {
            SourceType::Vector
        } else {
            SourceType::Keyword
        };
        out.push((id.clone(), t));
        k += 1;
    }
    assert(fused_ids(out@) =~= fused_ids(ids@));
    out
}

} // verus!

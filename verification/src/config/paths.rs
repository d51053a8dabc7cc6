use vstd::prelude::*;
use vstd::string::*;

use crate::text::{
    chars_eq, chars_of, find_from, lemma_find_from_spec, matches_at, split_chars, split_from, split_on,
    string_from,
};

verus! {

/// Where the data directory came from.
#[derive(Clone, Copy, Debug, PartialEq, Eq, Structural)]
pub enum DataDirSource {
    Env,
    ExeRelative,
    CurrentDirFallback,
}

/// The name of a data directory source.
pub open spec fn spec_data_dir_source_str(s: DataDirSource) -> Seq<char> {
    match s {
        DataDirSource::Env => "env"@,
        DataDirSource::ExeRelative => "exe-relative"@,
        DataDirSource::CurrentDirFallback => "cwd-fallback"@,
    }
}

impl DataDirSource {
    /// `env`, `exe-relative` or `cwd-fallback`.
    pub fn as_str(self) -> (r: &'static str)
        ensures
            r@ == spec_data_dir_source_str(self),
    {
        match self {
            DataDirSource::Env => "env",
            DataDirSource::ExeRelative => "exe-relative",
            DataDirSource::CurrentDirFallback => "cwd-fallback",
        }
    }
}

/// A relative path appended to a base path (as `Path::join` on Unix): the base itself when
/// the base is empty, else with one `/` between them unless the base already ends with one.
pub open spec fn join_path(base: Seq<char>, rel: Seq<char>) -> Seq<char> {
    if base.len() == 0 {
        rel
    } else if base.last() == '/' {
        base + rel
    } else {
        base + "/"@ + rel
    }
}

/// Appends a relative path to a base path (see [`join_path`]).
pub fn join_path_str(base: &str, rel: &str) -> (r: String)
    ensures
        r@ == join_path(base@, rel@),
{
    let b = chars_of(base);
    if b.len() == 0 {
        return String::from_str(rel);
    }
    let mut out = String::from_str(base);
    if b[b.len() - 1] != '/' {
        out.append("/");
    }
    out.append(rel);
    out
}

/// The data directory and how it was chosen: the `ASHKORIX_DATA_DIR` value when it is set,
/// else `Data` beside the executable when the executable's directory is known, else `Data`
/// in the working directory (`.` when that is unknown).
pub open spec fn spec_data_dir_source(
    env_value: Option<Seq<char>>,
    exe_parent: Option<Seq<char>>,
    cwd: Option<Seq<char>>,
) -> (Seq<char>, DataDirSource) {
    match env_value {
        Some(v) => (v, DataDirSource::Env),
        None => match exe_parent {
            Some(p) => (join_path(p, "Data"@), DataDirSource::ExeRelative),
            None => (
                join_path(
                    match cwd {
                        Some(c) => c,
                        None => "."@,
                    },
                    "Data"@,
                ),
                DataDirSource::CurrentDirFallback,
            ),
        },
    }
}

/// Chooses the data directory from the environment value, the executable's directory and
/// the working directory, as far as each is known (see [`spec_data_dir_source`]).
pub fn data_dir_source(env_value: Option<&str>, exe_parent: Option<&str>, cwd: Option<&str>) -> (r: (
    String,
    DataDirSource,
))
    ensures
        (r.0@, r.1) == spec_data_dir_source(
            match env_value {
                Some(v) => Some(v@),
                None => None,
            },
            match exe_parent {
                Some(v) => Some(v@),
                None => None,
            },
            match cwd {
                Some(v) => Some(v@),
                None => None,
            },
        ),
{
    match env_value {
        Some(v) => (String::from_str(v), DataDirSource::Env),
        None => match exe_parent {
            Some(p) => (join_path_str(p, "Data"), DataDirSource::ExeRelative),
            None => {
                let base: &str = match cwd {
                    Some(c) => c,
                    None => ".",
                };
                (join_path_str(base, "Data"), DataDirSource::CurrentDirFallback)
            },
        },
    }
}


/// The data directory alone (see [`spec_data_dir_source`]).
pub fn resolve_data_dir(env_value: Option<&str>, exe_parent: Option<&str>, cwd: Option<&str>) -> (r: String)
    ensures
        r@ == spec_data_dir_source(
            match env_value {
                Some(v) => Some(v@),
                None => None,
            },
            match exe_parent {
                Some(v) => Some(v@),
                None => None,
            },
            match cwd {
                Some(v) => Some(v@),
                None => None,
            },
        ).0,
{
    data_dir_source(env_value, exe_parent, cwd).0
}

/// Whether the `i`-th piece of a path split at `/` is one of its components: a non-empty
/// piece other than `.`, or `.` as the very first piece of a relative path.
pub open spec fn keeps_piece(piece: Seq<char>, i: int, rooted: bool) -> bool {
    piece.len() > 0 && (piece != "."@ || (i == 0 && !rooted))
}

/// The components among the first `n` pieces.
pub open spec fn kept_pieces(pieces: Seq<Seq<char>>, n: int, rooted: bool) -> Seq<Seq<char>>
    decreases n,
{
    if n <= 0 {
        Seq::empty()
    } else {
        kept_pieces(pieces, n - 1, rooted) + (if keeps_piece(pieces[n - 1], n - 1, rooted) {
            seq![pieces[n - 1]]
        } else {
            Seq::empty()
        })
    }
}

/// A path starts at the root.
pub open spec fn rooted(p: Seq<char>) -> bool {
    p.len() > 0 && p[0] == '/'
}

/// The components of a path, as `Path::components` gives them on Unix: `/` for the root,
/// then the pieces between separators, leaving out empty pieces and `.` other than a leading
/// one.
pub open spec fn path_components(p: Seq<char>) -> Seq<Seq<char>> {
    let pieces = split_on(p, "/"@);
    (if rooted(p) {
        seq!["/"@]
    } else {
        Seq::empty()
    }) + kept_pieces(pieces, pieces.len() as int, rooted(p))
}

/// `p` lies under `base`: the components of `base` begin those of `p`.
pub open spec fn path_starts_with(p: Seq<char>, base: Seq<char>) -> bool {
    path_components(base).is_prefix_of(path_components(p))
}

fn path_components_exec(p: &str) -> (r: Vec<Vec<char>>)
    ensures
        r@.map_values(|v: Vec<char>| v@) == path_components(p@),
{
    let cs = chars_of(p);
    let is_rooted = cs.len() > 0 && cs[0] == '/';
    let sep = chars_of("/");
    proof {
        reveal_strlit("/");
    }
    let pieces = split_chars(cs.as_slice(), sep.as_slice());
    let ghost pv = pieces@.map_values(|v: Vec<char>| v@);
    let mut out: Vec<Vec<char>> = Vec::new();
    if is_rooted {
        out.push(chars_of("/"));
    }
    let ghost head = out@.map_values(|v: Vec<char>| v@);
    assert(head =~= (if rooted(p@) {
        seq!["/"@]
    } else {
        Seq::<Seq<char>>::empty()
    }));
    let dot = chars_of(".");
    let mut i: usize = 0;
    while i < pieces.len()
        invariant
            i <= pieces@.len(),
            pv == pieces@.map_values(|v: Vec<char>| v@),
            pv == split_on(p@, "/"@),
            is_rooted == rooted(p@),
            dot@ == "."@,
            out@.map_values(|v: Vec<char>| v@) == head + kept_pieces(pv, i as int, is_rooted),
        decreases pieces@.len() - i,
    {
        let piece = &pieces[i];
        assert(piece@ == pv[i as int]);
        let is_dot = chars_eq(piece.as_slice(), dot.as_slice());
        let keep = piece.len() > 0 && (!is_dot || (i == 0 && !is_rooted));
        let ghost before = out@.map_values(|v: Vec<char>| v@);
        if keep {
            out.push(crate::text::slice_to_vec(piece.as_slice()));
            assert(out@.map_values(|v: Vec<char>| v@) =~= before.push(pv[i as int]));
        } else {
            assert(out@.map_values(|v: Vec<char>| v@) =~= before);
        }
        assert(kept_pieces(pv, i as int + 1, is_rooted) =~= kept_pieces(pv, i as int, is_rooted) + (
        if keeps_piece(pv[i as int], i as int, is_rooted) {
            seq![pv[i as int]]
        } else {
            Seq::empty()
        }));
        i += 1;
    }
    out
}


proof fn lemma_find_first(s: Seq<char>, p: Seq<char>, from: int, k: int)
    requires
        0 <= from <= k,
        matches_at(s, p, k),
        forall|j: int| from <= j < k ==> !matches_at(s, p, j),
    ensures
        find_from(s, p, from) == Some(k),
    decreases k - from,
{
    if from < k {
        lemma_find_first(s, p, from + 1, k);
    }
}

proof fn lemma_find_none(s: Seq<char>, p: Seq<char>, from: int)
    requires
        0 <= from,
        forall|j: int| from <= j ==> !#[trigger] matches_at(s, p, j),
    ensures
        find_from(s, p, from) is None,
    decreases s.len() + 1 - from,
{
    if from + p.len() <= s.len() {
        lemma_find_none(s, p, from + 1);
    }
}

proof fn lemma_slash_at(s: Seq<char>)
    ensures
        forall|i: int| #[trigger] matches_at(s, "/"@, i) <==> (0 <= i < s.len() && s[i] == '/'),
{
    reveal_strlit("/");
    assert("/"@ =~= seq!['/']);
    assert forall|i: int| #[trigger] matches_at(s, "/"@, i) <==> (0 <= i < s.len() && s[i] == '/') by {
        if 0 <= i < s.len() {
            assert(s.subrange(i, i + 1) =~= seq![s[i]]);
            if s.subrange(i, i + 1) == "/"@ {
                assert(s.subrange(i, i + 1)[0] == s[i]);
            }
        }
    }
}

/// Splitting at `/` a path with one more piece after a final `/` gives one more piece.
proof fn lemma_split_append(x: Seq<char>, y: Seq<char>, from: int)
    requires
        0 <= from <= x.len(),
        forall|i: int| 0 <= i < y.len() ==> y[i] != '/',
    ensures
        split_from(x + "/"@ + y, "/"@, from) == split_from(x, "/"@, from) + seq![y],
    decreases x.len() - from,
{
    reveal_strlit("/");
    let s = x + "/"@ + y;
    assert(s.len() == x.len() + 1 + y.len());
    assert(s[x.len() as int] == '/');
    assert forall|i: int| 0 <= i < x.len() implies s[i] == x[i] by {}
    assert forall|i: int| 0 <= i < y.len() implies s[x.len() + 1 + i] == y[i] by {}
    lemma_slash_at(s);
    lemma_slash_at(x);
    lemma_find_from_spec(x, "/"@, from);
    match find_from(x, "/"@, from) {
        None => {
            assert forall|j: int| from <= j < x.len() implies !matches_at(s, "/"@, j) by {
                assert(!matches_at(x, "/"@, j));
            }
            lemma_find_first(s, "/"@, from, x.len() as int);
            assert forall|j: int| x.len() + 1 <= j implies !#[trigger] matches_at(s, "/"@, j) by {
                if j < s.len() {
                    assert(s[j] == y[j - x.len() - 1]);
                }
            }
            lemma_find_none(s, "/"@, x.len() as int + 1);
            assert(s.subrange(from, x.len() as int) =~= x.subrange(from, x.len() as int));
            assert(s.subrange(x.len() as int + 1, s.len() as int) =~= y);
            assert(split_from(s, "/"@, x.len() as int + 1) == seq![y]);
        },
        Some(k) => {
            assert forall|j: int| from <= j < k implies !matches_at(s, "/"@, j) by {
                assert(!matches_at(x, "/"@, j));
            }
            assert(matches_at(s, "/"@, k));
            lemma_find_first(s, "/"@, from, k);
            lemma_split_append(x, y, k + 1);
            assert(s.subrange(from, k) =~= x.subrange(from, k));
            assert(split_from(s, "/"@, from) =~= seq![x.subrange(from, k)] + split_from(s, "/"@, k + 1));
        },
    }
}

proof fn lemma_kept_prefix(ps: Seq<Seq<char>>, qs: Seq<Seq<char>>, n: int, root: bool)
    requires
        0 <= n <= ps.len(),
        n <= qs.len(),
        forall|i: int| 0 <= i < n ==> ps[i] == qs[i],
    ensures
        kept_pieces(ps, n, root) == kept_pieces(qs, n, root),
    decreases n,
{
    if n > 0 {
        lemma_kept_prefix(ps, qs, n - 1, root);
    }
}

/// The components of a path with `models` appended are the path's and then `models`.
proof fn lemma_join_models_under(d: Seq<char>)
    ensures
        path_starts_with(join_path(d, "models"@), d),
{
    reveal_strlit("/");
    reveal_strlit("models");
    reveal_strlit(".");
    let m = "models"@;
    assert(m.len() == 6 && "."@.len() == 1);
    let j = join_path(d, m);
    assert(forall|i: int| 0 <= i < m.len() ==> m[i] != '/');
    if d.len() == 0 {
        assert(find_from(d, "/"@, 0) is None);
        assert(d.subrange(0, 0) =~= Seq::<char>::empty());
        assert(split_on(d, "/"@) =~= seq![Seq::<char>::empty()]);
        reveal_with_fuel(kept_pieces, 2);
        assert(kept_pieces(seq![Seq::<char>::empty()], 1, false) =~= Seq::<Seq<char>>::empty());
        assert(path_components(d) =~= Seq::<Seq<char>>::empty());
    } else {
        let x = if d.last() == '/' {
            d.drop_last()
        } else {
            d
        };
        assert(j =~= x + "/"@ + m);
        assert(rooted(j) == rooted(d));
        let r = rooted(d);
        lemma_split_append(x, m, 0);
        let px = split_on(x, "/"@);
        let pj = split_on(j, "/"@);
        assert(pj == px + seq![m]);
        let n = px.len() as int;
        assert(keeps_piece(m, n, r));
        lemma_kept_prefix(pj, px, n, r);
        assert(kept_pieces(pj, n + 1, r) == kept_pieces(px, n, r) + seq![m]);
        if d.last() == '/' {
            let e = Seq::<char>::empty();
            assert(d =~= x + "/"@ + e);
            lemma_split_append(x, e, 0);
            let pd = split_on(d, "/"@);
            assert(pd == px + seq![e]);
            lemma_kept_prefix(pd, px, n, r);
            assert(kept_pieces(pd, n + 1, r) =~= kept_pieces(px, n, r));
        }
        let cd = path_components(d);
        let cj = path_components(j);
        assert(cj =~= cd + seq![m]);
        assert(cd =~= cj.subrange(0, cd.len() as int));
    }
}

/// The data and models directories once the data directory is settled: the data directory
/// as given, and the configured models directory when it lies under it, else `models`
/// inside it.
pub open spec fn spec_sync_data_paths(data_dir: Seq<char>, models_dir: Seq<char>) -> (Seq<char>, Seq<char>) {
    (
        data_dir,
        if models_dir.len() == 0 || !path_starts_with(models_dir, data_dir) {
            join_path(data_dir, "models"@)
        } else {
            models_dir
        },
    )
}

/// Settles the data and models directories (see [`spec_sync_data_paths`]).
pub fn sync_data_paths(data_dir: &str, models_dir: &str) -> (r: (String, String))
    ensures
        (r.0@, r.1@) == spec_sync_data_paths(data_dir@, models_dir@),
        spec_sync_data_paths(r.0@, r.1@) == (r.0@, r.1@),
{
    let base = path_components_exec(data_dir);
    let full = path_components_exec(models_dir);
    let ghost bv = base@.map_values(|v: Vec<char>| v@);
    let ghost fv = full@.map_values(|v: Vec<char>| v@);
    let mut under = base.len() <= full.len();
    let mut i: usize = 0;
    while under && i < base.len()
        invariant
            bv == base@.map_values(|v: Vec<char>| v@),
            fv == full@.map_values(|v: Vec<char>| v@),
            i <= base@.len(),
            under ==> base@.len() <= full@.len(),
            under ==> forall|j: int| 0 <= j < i ==> bv[j] == fv[j],
            !under ==> !bv.is_prefix_of(fv),
        decreases base@.len() - i,
    {
        assert(bv[i as int] == base@[i as int]@);
        assert(fv[i as int] == full@[i as int]@);
        if !chars_eq(base[i].as_slice(), full[i].as_slice()) {
            assert(bv.is_prefix_of(fv) ==> fv.subrange(0, bv.len() as int)[i as int] == fv[i as int]);
            under = false;
        }
        i += 1;
    }
    if under {
        assert(bv =~= fv.subrange(0, bv.len() as int));
    }
    let empty = chars_of(models_dir).len() == 0;
    let models = if empty || !under {
        proof {
            lemma_join_models_under(data_dir@);
            reveal_strlit("models");
        }
        join_path_str(data_dir, "models")
    } else {
        String::from_str(models_dir)
    };
    (String::from_str(data_dir), models)
}

} // verus!

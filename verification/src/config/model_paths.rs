use vstd::prelude::*;
use vstd::string::*;

use crate::chunking::util::{path_extension, path_extension_of};
use crate::config::paths::{join_path, join_path_str};
use crate::text::{
    chars_eq, chars_of, contains, contains_chars, lemma_str_lt_trans, lower_str, lowercase, str_lt,
    str_lt_exec,
};

verus! {

/// Which kind of model a path should lead to.
#[derive(Clone, Copy, Debug, PartialEq, Eq, Structural)]
pub enum ModelPathHint {
    Embedding,
    Reranker,
    Any,
}

/// A `.gguf` file found under the models directory.
#[derive(Clone, Debug)]
pub struct ModelFileInfo {
    pub path: String,
    pub filename: String,
    pub size_bytes: u64,
}

/// What the file system holds at a configured path.
#[derive(Clone, Debug)]
pub enum PathProbe {
    /// A file.
    File,
    /// A directory, with the `.gguf` models found under it, ordered by file name.
    Dir(Vec<ModelFileInfo>),
    /// Nothing usable.
    Missing,
}

/// The file-name keywords that mark a model of the hinted kind, in order of preference.
pub open spec fn hint_keywords(h: ModelPathHint) -> Seq<Seq<char>> {
    match h {
        ModelPathHint::Embedding => seq!["embed"@, "nomic"@, "bge"@, "e5"@],
        ModelPathHint::Reranker => seq!["rerank"@, "cross"@, "jina"@],
        ModelPathHint::Any => Seq::empty(),
    }
}

/// The first model whose lower-cased file name holds the keyword.
pub open spec fn first_with_keyword(ms: Seq<ModelFileInfo>, kw: Seq<char>, i: int) -> Option<int>
    decreases ms.len() - i,
{
    if i < 0 || i >= ms.len() {
        None
    } else if contains(lowercase(ms[i].filename@), kw) {
        Some(i)
    } else {
        first_with_keyword(ms, kw, i + 1)
    }
}

/// The model chosen for the keywords from the `k`-th on: the first model matching the first
/// keyword that any model matches.
pub open spec fn pick_from(ms: Seq<ModelFileInfo>, kws: Seq<Seq<char>>, k: int) -> Option<int>
    decreases kws.len() - k,
{
    if k < 0 || k >= kws.len() {
        None
    } else {
        match first_with_keyword(ms, kws[k], 0) {
            Some(i) => Some(i),
            None => pick_from(ms, kws, k + 1),
        }
    }
}

/// The path of the best model for the hint: the first whose lower-cased file name holds the
/// earliest keyword of the hint that any holds, else the first model; none without models.
pub open spec fn spec_pick_best_gguf(ms: Seq<ModelFileInfo>, hint: ModelPathHint) -> Option<Seq<char>> {
    if ms.len() == 0 {
        None
    } else {
        match pick_from(ms, hint_keywords(hint), 0) {
            Some(i) => Some(ms[i].path@),
            None => Some(ms[0].path@),
        }
    }
}

fn hint_keyword_count(hint: ModelPathHint) -> (r: usize)
    ensures
        r == hint_keywords(hint).len(),
{
    match hint {
        ModelPathHint::Embedding => 4,
        ModelPathHint::Reranker => 3,
        ModelPathHint::Any => 0,
    }
}

fn hint_keyword(hint: ModelPathHint, k: usize) -> (r: &'static str)
    requires
        k < hint_keywords(hint).len(),
    ensures
        r@ == hint_keywords(hint)[k as int],
{
    match hint {
        ModelPathHint::Embedding => if k == 0 {
            "embed"
        } else if k == 1 {
            "nomic"
        } else if k == 2 {
            "bge"
        } else {
            "e5"
        },
        ModelPathHint::Reranker => if k == 0 {
            "rerank"
        } else if k == 1 {
            "cross"
        } else {
            "jina"
        },
        ModelPathHint::Any => "",
    }
}

/// The path of the best model for the hint (see [`spec_pick_best_gguf`]).
pub fn pick_best_gguf(models: &[ModelFileInfo], hint: ModelPathHint) -> (r: Option<String>)
    ensures
        match r {
            Some(p) => spec_pick_best_gguf(models@, hint) == Some(p@),
            None => spec_pick_best_gguf(models@, hint) is None,
        },
{
    if models.len() == 0 {
        return None;
    }
    let n = hint_keyword_count(hint);
    let mut k: usize = 0;
    while k < n
        invariant
            k <= n,
            n == hint_keywords(hint).len(),
            models@.len() > 0,
            pick_from(models@, hint_keywords(hint), 0) == pick_from(models@, hint_keywords(hint), k as int),
        decreases n - k,
    {
        let kw = chars_of(hint_keyword(hint, k));
        let mut i: usize = 0;
        while i < models.len()
            invariant
                i <= models@.len(),
                kw@ == hint_keywords(hint)[k as int],
                k < hint_keywords(hint).len(),
                models@.len() > 0,
                pick_from(models@, hint_keywords(hint), 0) == pick_from(models@, hint_keywords(hint), k as int),
                first_with_keyword(models@, kw@, 0) == first_with_keyword(models@, kw@, i as int),
            decreases models@.len() - i,
        {
            let name = lower_str(models[i].filename.as_str());
            if contains_chars(name.as_slice(), kw.as_slice()) {
                return Some(models[i].path.clone());
            }
            i += 1;
        }
        k += 1;
    }
    Some(models[0].path.clone())
}

/// A model found by keyword is one of the models from `i` on.
pub proof fn lemma_first_with_keyword_in_range(ms: Seq<ModelFileInfo>, kw: Seq<char>, i: int)
    ensures
        first_with_keyword(ms, kw, i) matches Some(j) ==> i <= j < ms.len(),
    decreases ms.len() - i,
{
    if 0 <= i < ms.len() {
        lemma_first_with_keyword_in_range(ms, kw, i + 1);
    }
}

/// A model picked by keyword is one of the models.
pub proof fn lemma_pick_from_in_range(ms: Seq<ModelFileInfo>, kws: Seq<Seq<char>>, k: int)
    ensures
        pick_from(ms, kws, k) matches Some(j) ==> 0 <= j < ms.len(),
    decreases kws.len() - k,
{
    if 0 <= k < kws.len() {
        lemma_first_with_keyword_in_range(ms, kws[k], 0);
        lemma_pick_from_in_range(ms, kws, k + 1);
    }
}

/// The models of a listing whose path names a `.gguf` file, in order (the filter of model
/// discovery).
pub open spec fn gguf_only(ms: Seq<ModelFileInfo>) -> Seq<ModelFileInfo>
    decreases ms.len(),
{
    if ms.len() == 0 {
        Seq::empty()
    } else if path_extension(ms.last().path@) == Some("gguf"@) {
        gguf_only(ms.drop_last()).push(ms.last())
    } else {
        gguf_only(ms.drop_last())
    }
}

proof fn lemma_gguf_only(ms: Seq<ModelFileInfo>)
    ensures
        forall|k: int| 0 <= k < gguf_only(ms).len() ==> path_extension((#[trigger] gguf_only(ms)[k]).path@) == Some("gguf"@),
    decreases ms.len(),
{
    if ms.len() > 0 {
        lemma_gguf_only(ms.drop_last());
    }
}

fn copy_model(m: &ModelFileInfo) -> (r: ModelFileInfo)
    ensures
        r == *m,
{
    ModelFileInfo { path: m.path.clone(), filename: m.filename.clone(), size_bytes: m.size_bytes }
}

/// The models of a listing that are `.gguf` files (see [`gguf_only`]).
pub fn gguf_models(models: &[ModelFileInfo]) -> (r: Vec<ModelFileInfo>)
    ensures
        r@ == gguf_only(models@),
{
    let mut out: Vec<ModelFileInfo> = Vec::new();
    let mut i: usize = 0;
    assert(models@.take(0) == Seq::<ModelFileInfo>::empty());
    while i < models.len()
        invariant
            i <= models@.len(),
            out@ == gguf_only(models@.take(i as int)),
        decreases models@.len() - i,
    {
        assert(models@.take(i + 1).drop_last() == models@.take(i as int));
        assert(models@.take(i + 1).last() == models@[i as int]);
        if is_gguf_path(models[i].path.as_str()) {
            out.push(copy_model(&models[i]));
        }
        i += 1;
    }
    assert(models@.take(models@.len() as int) == models@);
    out
}

/// The picked model of a directory is a `.gguf` file.
pub proof fn lemma_dir_pick_is_gguf(ms: Seq<ModelFileInfo>, hint: ModelPathHint)
    ensures
        spec_pick_best_gguf(gguf_only(ms), hint) matches Some(p) ==> path_extension(p) == Some("gguf"@),
{
    lemma_gguf_only(ms);
    let g = gguf_only(ms);
    if g.len() > 0 {
        lemma_pick_from_in_range(g, hint_keywords(hint), 0);
    }
}

/// The model a configured path leads to: a file is taken when its extension is `gguf` in any
/// case; a directory gives its best `.gguf` model for the hint; anything else gives none.
pub open spec fn spec_resolve_gguf_path(path: Seq<char>, probe: PathProbe, hint: ModelPathHint) -> Option<
    Seq<char>,
> {
    match probe {
        PathProbe::File => match path_extension(path) {
            Some(e) => if ascii_lower_eq(e, "gguf"@) {
                Some(path)
            } else {
                None
            },
            None => None,
        },
        PathProbe::Dir(models) => spec_pick_best_gguf(gguf_only(models@), hint),
        PathProbe::Missing => None,
    }
}

/// Two texts are equal up to the case of ASCII letters (`eq_ignore_ascii_case`).
pub open spec fn ascii_lower_eq(a: Seq<char>, b: Seq<char>) -> bool {
    crate::text::ascii_lower(a) == crate::text::ascii_lower(b)
}

/// Whether two texts are equal up to the case of ASCII letters.
pub fn eq_ignore_ascii_case_chars(a: &[char], b: &[char]) -> (r: bool)
    ensures
        r == ascii_lower_eq(a@, b@),
{
    if a.len() != b.len() {
        assert(crate::text::ascii_lower(a@).len() != crate::text::ascii_lower(b@).len());
        return false;
    }
    let mut i: usize = 0;
    while i < a.len()
        invariant
            i <= a@.len(),
            a@.len() == b@.len(),
            forall|j: int| 0 <= j < i ==> crate::text::ascii_lower(a@)[j] == crate::text::ascii_lower(b@)[j],
        decreases a@.len() - i,
    {
        let x = a[i];
        let y = b[i];
        let xl = if 'A' <= x && x <= 'Z' { ((x as u32) + 32) as u8 as char } else { x };
        let yl = if 'A' <= y && y <= 'Z' { ((y as u32) + 32) as u8 as char } else { y };
        assert(xl == crate::text::ascii_lower(a@)[i as int]);
        assert(yl == crate::text::ascii_lower(b@)[i as int]);
        if xl != yl {
            return false;
        }
        i += 1;
    }
    assert(crate::text::ascii_lower(a@) =~= crate::text::ascii_lower(b@));
    true
}

/// The model a configured path leads to, given what the file system holds there (see
/// [`spec_resolve_gguf_path`]).
pub fn resolve_gguf_path(path: &str, probe: &PathProbe, prefer: ModelPathHint) -> (r: Option<String>)
    ensures
        match r {
            Some(p) => spec_resolve_gguf_path(path@, *probe, prefer) == Some(p@),
            None => spec_resolve_gguf_path(path@, *probe, prefer) is None,
        },
{
    match probe {
        PathProbe::File => match path_extension_of(path) {
            Some(e) => {
                let g = chars_of("gguf");
                if eq_ignore_ascii_case_chars(e.as_slice(), g.as_slice()) {
                    Some(String::from_str(path))
                } else {
                    None
                }
            },
            None => None,
        },
        PathProbe::Dir(models) => {
            let g = gguf_models(models.as_slice());
            pick_best_gguf(g.as_slice(), prefer)
        },
        PathProbe::Missing => None,
    }
}

/// A path with what the file system holds there.
#[derive(Clone, Debug)]
pub struct ProbedPath {
    pub path: String,
    pub probe: PathProbe,
}

/// The model a probed path leads to.
pub open spec fn resolves(p: ProbedPath, hint: ModelPathHint) -> Option<Seq<char>> {
    spec_resolve_gguf_path(p.path@, p.probe, hint)
}

/// The first model of two choices.
pub open spec fn or_else(a: Option<Seq<char>>, b: Option<Seq<char>>) -> Option<Seq<char>> {
    match a {
        Some(x) => Some(x),
        None => b,
    }
}

fn probe_resolve(p: &ProbedPath, hint: ModelPathHint) -> (r: Option<String>)
    ensures
        match r {
            Some(s) => resolves(*p, hint) == Some(s@),
            None => resolves(*p, hint) is None,
        },
{
    resolve_gguf_path(p.path.as_str(), &p.probe, hint)
}

/// The embedding model: the configured path's model, else the best embedding model in
/// `models/embeddings`, else in `models`. The probes are of those three places.
pub fn resolve_embedding_model_path(
    configured: Option<&ProbedPath>,
    embeddings_dir: &ProbedPath,
    models_dir: &ProbedPath,
) -> (r: Option<String>)
    ensures
        ({
            let want = or_else(
                match configured {
                    Some(c) => resolves(*c, ModelPathHint::Embedding),
                    None => None,
                },
                or_else(
                    resolves(*embeddings_dir, ModelPathHint::Embedding),
                    resolves(*models_dir, ModelPathHint::Embedding),
                ),
            );
            match r {
                Some(s) => want == Some(s@),
                None => want is None,
            }
        }),
{
    match configured {
        Some(c) => match probe_resolve(c, ModelPathHint::Embedding) {
            Some(r) => return Some(r),
            None => {},
        },
        None => {},
    }
    match probe_resolve(embeddings_dir, ModelPathHint::Embedding) {
        Some(r) => Some(r),
        None => probe_resolve(models_dir, ModelPathHint::Embedding),
    }
}

/// The reranker model: the configured path's model, else the best reranker in
/// `models/rerankers`.
pub fn resolve_reranker_model_path(configured: Option<&ProbedPath>, rerankers_dir: &ProbedPath) -> (r:
    Option<String>)
    ensures
        ({
            let want = or_else(
                match configured {
                    Some(c) => resolves(*c, ModelPathHint::Reranker),
                    None => None,
                },
                resolves(*rerankers_dir, ModelPathHint::Reranker),
            );
            match r {
                Some(s) => want == Some(s@),
                None => want is None,
            }
        }),
{
    match configured {
        Some(c) => match probe_resolve(c, ModelPathHint::Reranker) {
            Some(r) => return Some(r),
            None => {},
        },
        None => {},
    }
    probe_resolve(rerankers_dir, ModelPathHint::Reranker)
}

/// What normalizing a configured model path gives: the model it leads to, else the default
/// model of its kind (the embedding or reranker search; none for any other kind).
pub open spec fn spec_normalize(
    path: Option<ProbedPath>,
    hint: ModelPathHint,
    embeddings_dir: ProbedPath,
    rerankers_dir: ProbedPath,
    models_dir: ProbedPath,
) -> Option<Seq<char>> {
    let own = match path {
        Some(p) => resolves(p, hint),
        None => None,
    };
    let fallback = match hint {
        ModelPathHint::Embedding => or_else(
            resolves(embeddings_dir, ModelPathHint::Embedding),
            resolves(models_dir, ModelPathHint::Embedding),
        ),
        ModelPathHint::Reranker => resolves(rerankers_dir, ModelPathHint::Reranker),
        ModelPathHint::Any => None,
    };
    or_else(own, fallback)
}

/// A configured model path made concrete: the model it leads to, else the default model of
/// its kind (see [`spec_normalize`]).
pub fn normalize_optional_gguf_path(
    path: Option<&ProbedPath>,
    hint: ModelPathHint,
    embeddings_dir: &ProbedPath,
    rerankers_dir: &ProbedPath,
    models_dir: &ProbedPath,
) -> (r: Option<String>)
    ensures
        ({
            let want = spec_normalize(
                match path {
                    Some(p) => Some(*p),
                    None => None,
                },
                hint,
                *embeddings_dir,
                *rerankers_dir,
                *models_dir,
            );
            match r {
                Some(s) => want == Some(s@),
                None => want is None,
            }
        }),
{
    match path {
        Some(p) => match probe_resolve(p, hint) {
            Some(r) => return Some(r),
            None => {},
        },
        None => {},
    }
    match hint {
        ModelPathHint::Embedding => resolve_embedding_model_path(None, embeddings_dir, models_dir),
        ModelPathHint::Reranker => resolve_reranker_model_path(None, rerankers_dir),
        ModelPathHint::Any => None,
    }
}


/// The path names a `.gguf` file: its extension is exactly `gguf`.
pub fn is_gguf_path(path: &str) -> (r: bool)
    ensures
        r == (path_extension(path@) == Some("gguf"@)),
{
    match path_extension_of(path) {
        Some(e) => {
            let g = chars_of("gguf");
            chars_eq(e.as_slice(), g.as_slice())
        },
        None => false,
    }
}

/// Models ordered by file name: no model's name comes before that of a model ahead of it.
pub open spec fn names_ordered(ms: Seq<ModelFileInfo>) -> bool {
    forall|i: int, j: int| 0 <= i < j < ms.len() ==> !str_lt(ms[j].filename@, ms[i].filename@)
}

/// The models of a sequence that have the file name, in their order.
pub open spec fn with_name(s: Seq<ModelFileInfo>, n: Seq<char>) -> Seq<ModelFileInfo>
    decreases s.len(),
{
    if s.len() == 0 {
        Seq::empty()
    } else {
        with_name(s.drop_last(), n) + (if s.last().filename@ == n {
            seq![s.last()]
        } else {
            Seq::empty()
        })
    }
}

proof fn lemma_str_lt_irreflexive(a: Seq<char>)
    ensures
        !str_lt(a, a),
    decreases a.len(),
{
    if a.len() > 0 {
        lemma_str_lt_irreflexive(a.drop_first());
    }
}

proof fn lemma_with_name_concat(a: Seq<ModelFileInfo>, b: Seq<ModelFileInfo>, n: Seq<char>)
    ensures
        with_name(a + b, n) == with_name(a, n) + with_name(b, n),
    decreases b.len(),
{
    if b.len() == 0 {
        assert(a + b =~= a);
        assert(with_name(a, n) + with_name(b, n) =~= with_name(a, n));
    } else {
        lemma_with_name_concat(a, b.drop_last(), n);
        assert((a + b).drop_last() =~= a + b.drop_last());
        assert((a + b).last() == b.last());
        assert(with_name(a + b, n) =~= with_name(a, n) + with_name(b, n));
    }
}

proof fn lemma_with_name_absent(s: Seq<ModelFileInfo>, n: Seq<char>)
    requires
        forall|k: int| 0 <= k < s.len() ==> (#[trigger] s[k]).filename@ != n,
    ensures
        with_name(s, n) == Seq::<ModelFileInfo>::empty(),
    decreases s.len(),
{
    if s.len() > 0 {
        lemma_with_name_absent(s.drop_last(), n);
        assert(s.last() == s[s.len() - 1]);
        assert(with_name(s, n) =~= Seq::<ModelFileInfo>::empty());
    }
}

proof fn lemma_with_name_insert(s: Seq<ModelFileInfo>, p: int, x: ModelFileInfo, n: Seq<char>)
    requires
        0 <= p <= s.len(),
        forall|k: int| p <= k < s.len() ==> (#[trigger] s[k]).filename@ != x.filename@,
    ensures
        with_name(s.insert(p, x), n) == with_name(s, n) + (if x.filename@ == n {
            seq![x]
        } else {
            Seq::empty()
        }),
{
    let a = s.subrange(0, p);
    let b = s.subrange(p, s.len() as int);
    assert(s.insert(p, x) =~= (a + seq![x]) + b);
    assert(s =~= a + b);
    lemma_with_name_concat(a + seq![x], b, n);
    lemma_with_name_concat(a, seq![x], n);
    lemma_with_name_concat(a, b, n);
    assert(seq![x].drop_last() =~= Seq::<ModelFileInfo>::empty());
    assert(seq![x].last() == x);
    reveal_with_fuel(with_name, 2);
    assert(with_name(seq![x], n) =~= (if x.filename@ == n {
        seq![x]
    } else {
        Seq::empty()
    }));
    if x.filename@ == n {
        assert forall|k: int| 0 <= k < b.len() implies (#[trigger] b[k]).filename@ != n by {
            assert(b[k] == s[p + k]);
        }
        lemma_with_name_absent(b, n);
        assert(with_name(s.insert(p, x), n) =~= with_name(s, n) + seq![x]);
    } else {
        assert(with_name(s.insert(p, x), n) =~= with_name(s, n));
    }
}

/// The models ordered by file name, as a stable sort: of the models with the same name,
/// each keeps its place relative to the others.
pub fn order_models_by_name(models: Vec<ModelFileInfo>) -> (r: Vec<ModelFileInfo>)
    ensures
        names_ordered(r@),
        forall|n: Seq<char>| #[trigger] with_name(r@, n) == with_name(models@, n),
{
    let ghost all = models@;
    let count = models.len();
    assert(all.len() == count);
    let mut rest = models;
    let mut out: Vec<ModelFileInfo> = Vec::new();
    let mut i: usize = 0;
    assert(all.skip(0) =~= all);
    while rest.len() > 0
        invariant
            i <= all.len(),
            all.len() <= usize::MAX,
            rest@ == all.skip(i as int),
            names_ordered(out@),
            forall|n: Seq<char>| #[trigger] with_name(out@, n) == with_name(all.take(i as int), n),
        decreases rest@.len(),
    {
        assert(i < all.len());
        let x = rest.remove(0);
        assert(x == all[i as int]);
        assert(rest@ =~= all.skip(i as int + 1));
        let xn = chars_of(x.filename.as_str());
        let mut p: usize = 0;
        while p < out.len() && !str_lt_exec(xn.as_slice(), chars_of(out[p].filename.as_str()).as_slice())
            invariant
                p <= out@.len(),
                xn@ == x.filename@,
                forall|j: int| 0 <= j < p ==> !str_lt(x.filename@, #[trigger] out@[j].filename@),
            decreases out@.len() - p,
        {
            p += 1;
        }
        let ghost before = out@;
        proof {
            assert forall|k: int| p <= k < before.len() implies (#[trigger] before[k]).filename@ != x.filename@ by {
                lemma_str_lt_irreflexive(x.filename@);
                if k > p {
                    if before[k].filename@ == x.filename@ {
                        assert(!str_lt(before[k].filename@, before[p as int].filename@));
                    }
                }
            }
            assert forall|n: Seq<char>| #[trigger] with_name(before.insert(p as int, x), n) == with_name(all.take(i as int + 1), n) by {
                lemma_with_name_insert(before, p as int, x, n);
                assert(all.take(i as int + 1).drop_last() =~= all.take(i as int));
                assert(all.take(i as int + 1).last() == x);
            }
        }
        out.insert(p, x);
        proof {
            assert(out@ == before.insert(p as int, x));
            assert forall|a: int, b: int| 0 <= a < b < out@.len() implies !str_lt(out@[b].filename@, out@[a].filename@) by {
                if b < p {
                    assert(out@[a] == before[a] && out@[b] == before[b]);
                } else if b == p {
                    assert(out@[a] == before[a] && out@[b] == x);
                } else if a < p {
                    assert(out@[a] == before[a] && out@[b] == before[b - 1]);
                    if a + 1 < b {
                        assert(!str_lt(before[b - 1].filename@, before[a].filename@));
                    } else {
                        assert(!str_lt(before[b - 1].filename@, before[a].filename@));
                    }
                } else if a == p {
                    assert(out@[a] == x && out@[b] == before[b - 1]);
                    assert(p < before.len());
                    assert(str_lt(x.filename@, before[p as int].filename@));
                    if str_lt(before[b - 1].filename@, x.filename@) {
                        lemma_str_lt_trans(before[b - 1].filename@, x.filename@, before[p as int].filename@);
                        if b - 1 == p {
                            lemma_str_lt_irreflexive(before[p as int].filename@);
                        }
                    }
                } else {
                    assert(out@[a] == before[a - 1] && out@[b] == before[b - 1]);
                }
            }
        }
        i += 1;
    }
    assert(all.take(i as int) =~= all);
    out
}

} // verus!

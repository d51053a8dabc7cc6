use vstd::prelude::*;
use vstd::string::*;

use crate::text::{utf8_len, utf8_len_exec, CharClass, chars_eq, chars_of, lower_chars, lowercase, slice_to_vec, split_chars, split_on, string_from, trim_start_by, trim_start_chars};

verus! {

/// The token estimate for a text of `n` bytes: a quarter of its length, at least one.
pub open spec fn spec_estimate_tokens(n: nat) -> u32 {
    (if n / 4 >= 1 { n / 4 } else { 1 }) as u32
}

/// A rough token count: one token per four bytes of UTF-8, at least one.
pub fn estimate_tokens(text: &str) -> (r: u32)
    ensures
        r == spec_estimate_tokens(utf8_len(text@)),
{
    let cs = chars_of(text);
    let n = utf8_len_exec(cs.as_slice());
    let q = n / 4;
    let t: u128 = if q >= 1 { q } else { 1 };
    #[verifier::truncate]
    (t as u32)
}

/// The last component of a `/`-separated path that is neither empty nor `.`.
pub open spec fn last_component(parts: Seq<Seq<char>>) -> Option<Seq<char>>
    decreases parts.len(),
{
    if parts.len() == 0 {
        None
    } else if parts.last().len() == 0 || parts.last() == "."@ {
        last_component(parts.drop_last())
    } else {
        Some(parts.last())
    }
}

/// The file name of a path (as `Path::file_name`): its last normal component, none when the
/// path ends in `..` or has no component.
pub open spec fn file_name(path: Seq<char>) -> Option<Seq<char>> {
    match last_component(split_on(path, "/"@)) {
        Some(c) => if c == ".."@ {
            None
        } else {
            Some(c)
        },
        None => None,
    }
}

/// The index of the last `.` in `s`, if any.
pub open spec fn last_dot(s: Seq<char>) -> Option<int>
    decreases s.len(),
{
    if s.len() == 0 {
        None
    } else if s.last() == '.' {
        Some(s.len() - 1)
    } else {
        last_dot(s.drop_last())
    }
}

/// The extension of a path (as `Path::extension`): what follows the last `.` of the file
/// name, none when the file name has no `.` past its first character.
pub open spec fn path_extension(path: Seq<char>) -> Option<Seq<char>> {
    match file_name(path) {
        None => None,
        Some(name) => match last_dot(name) {
            Some(i) => if i > 0 {
                Some(name.subrange(i + 1, name.len() as int))
            } else {
                None
            },
            None => None,
        },
    }
}

/// The lower-cased extension of a file name, empty when it has none.
pub open spec fn spec_file_extension(filename: Seq<char>) -> Seq<char> {
    lowercase(
        match path_extension(filename) {
            Some(e) => e,
            None => seq![],
        },
    )
}

proof fn lemma_last_dot_range(s: Seq<char>)
    ensures
        last_dot(s) matches Some(i) ==> 0 <= i < s.len() && s[i] == '.',
    decreases s.len(),
{
    if s.len() > 0 && s.last() != '.' {
        lemma_last_dot_range(s.drop_last());
    }
}

fn last_dot_exec(s: &[char]) -> (r: Option<usize>)
    ensures
        match r {
            Some(i) => last_dot(s@) == Some(i as int),
            None => last_dot(s@) is None,
        },
{
    let mut j: usize = s.len();
    assert(s@.take(s@.len() as int) == s@);
    while j > 0
        invariant
            j <= s@.len(),
            last_dot(s@) == last_dot(s@.take(j as int)),
        decreases j,
    {
        let ghost t = s@.take(j as int);
        assert(t.last() == s@[j - 1]);
        if s[j - 1] == '.' {
            return Some(j - 1);
        }
        assert(t.drop_last() == s@.take(j - 1));
        j -= 1;
    }
    assert(s@.take(0) == Seq::<char>::empty());
    None
}

fn file_name_exec(path: &[char]) -> (r: Option<Vec<char>>)
    ensures
        match r {
            Some(v) => file_name(path@) == Some(v@),
            None => file_name(path@) is None,
        },
{
    let slash: [char; 1] = ['/'];
    assert(slash@ =~= seq!['/']);
    let parts = split_chars(path, slash.as_slice());
    let ghost views = parts@.map_values(|v: Vec<char>| v@);
    assert(seq!['/'] =~= "/"@) by {
        reveal_strlit("/");
    }
    assert(views == split_on(path@, "/"@));

    let mut j: usize = parts.len();
    assert(views.take(views.len() as int) == views);
    while j > 0
        invariant
            j <= parts@.len(),
            views == parts@.map_values(|v: Vec<char>| v@),
            views == split_on(path@, "/"@),
            last_component(views) == last_component(views.take(j as int)),
        decreases j,
    {
        let ghost t = views.take(j as int);
        assert(t.last() == parts@[j - 1]@);
        let p = &parts[j - 1];
        proof {
            reveal_strlit(".");
            reveal_strlit("..");
        }
        assert("."@ =~= seq!['.']);
        assert(".."@ =~= seq!['.', '.']);
        let is_dot = p.len() == 1 && p[0] == '.';
        assert(is_dot == (p@ == "."@)) by {
            if is_dot {
                assert(p@ =~= seq!['.']);
            }
            if p@ == "."@ {
                assert(p@.len() == 1 && p@[0] == '.');
            }
        }
        if p.len() != 0 && !is_dot {
            let is_dotdot = p.len() == 2 && p[0] == '.' && p[1] == '.';
            assert(is_dotdot == (p@ == ".."@)) by {
                if is_dotdot {
                    assert(p@ =~= seq!['.', '.']);
                }
                if p@ == ".."@ {
                    assert(p@.len() == 2 && p@[0] == '.' && p@[1] == '.');
                }
            }
            if is_dotdot {
                return None;
            }
            return Some(slice_to_vec(p.as_slice()));
        }
        assert(t.drop_last() == views.take(j - 1));
        j -= 1;
    }
    assert(views.take(0) == Seq::<Seq<char>>::empty());
    None
}

/// The extension of a path, if it has one (as `Path::extension`).
pub fn path_extension_of(path: &str) -> (r: Option<Vec<char>>)
    ensures
        match r {
            Some(e) => path_extension(path@) == Some(e@),
            None => path_extension(path@) is None,
        },
{
    let cs = chars_of(path);
    match file_name_exec(cs.as_slice()) {
        None => None,
        Some(name) => match last_dot_exec(name.as_slice()) {
            Some(i) => {
                proof {
                    lemma_last_dot_range(name@);
                }
                let nl = name.len();
                if i > 0 {
                    Some(slice_to_vec(&name.as_slice()[i + 1..nl]))
                } else {
                    None
                }
            },
            None => None,
        },
    }
}

/// The lower-cased extension of a file name (empty when it has none).
pub fn file_extension(filename: &str) -> (r: String)
    ensures
        r@ == spec_file_extension(filename@),
{
    let cs = chars_of(filename);
    let ext: Vec<char> = match file_name_exec(cs.as_slice()) {
        None => Vec::new(),
        Some(name) => match last_dot_exec(name.as_slice()) {
            Some(i) => {
                proof {
                    lemma_last_dot_range(name@);
                }
                let nl = name.len();
                assert(i < nl);
                if i > 0 {
                    slice_to_vec(&name.as_slice()[i + 1..nl])
                } else {
                    Vec::new()
                }
            },
            None => Vec::new(),
        },
    };
    string_from(lower_chars(ext.as_slice()).as_slice())
}

/// The file type `ft` with its leading dots removed and lower-cased.
pub open spec fn normalized_file_type(ft: Seq<char>) -> Seq<char> {
    lowercase(trim_start_by(ft, CharClass::Dot))
}

/// A file name passes a file-type filter: the filter is empty, or one of its entries (leading
/// dots removed, lower-cased) equals the file's lower-cased extension.
pub open spec fn spec_matches_file_types(filename: Seq<char>, file_types: Seq<Seq<char>>) -> bool {
    file_types.len() == 0 || exists|i: int|
        0 <= i < file_types.len() && normalized_file_type(#[trigger] file_types[i])
            == spec_file_extension(filename)
}

/// Whether a file name passes a file-type filter (an empty filter passes every file).
pub fn matches_file_types(filename: &str, file_types: &[String]) -> (r: bool)
    ensures
        r == spec_matches_file_types(filename@, file_types@.map_values(|s: String| s@)),
{
    let ghost fts = file_types@.map_values(|s: String| s@);
    if file_types.len() == 0 {
        return true;
    }
    let ext = file_extension(filename);
    let ext_cs = chars_of(ext.as_str());
    let mut i: usize = 0;
    while i < file_types.len()
        invariant
            i <= file_types@.len(),
            fts == file_types@.map_values(|s: String| s@),
            ext_cs@ == spec_file_extension(filename@),
            forall|j: int| 0 <= j < i ==> normalized_file_type(#[trigger] fts[j]) != ext_cs@,
        decreases file_types@.len() - i,
    {
        let ft = chars_of(file_types[i].as_str());
        let t = trim_start_chars(ft.as_slice(), CharClass::Dot);
        let lo = lower_chars(t.as_slice());
        assert(fts[i as int] == file_types@[i as int]@);
        if chars_eq(lo.as_slice(), ext_cs.as_slice()) {
            return true;
        }
        i += 1;
    }
    false
}

} // verus!

use vstd::prelude::*;

use crate::patterns::{char_index_from, char_index_of_byte, utf8_width};
use crate::text::utf8_len;

verus! {

/// The byte offset of the `i`-th character of `s`: the UTF-8 length of the characters
/// before it.
pub open spec fn byte_pos(s: Seq<char>, i: int) -> int {
    utf8_len(s.take(i)) as int
}

/// `b` is a character boundary of `s` (as `str::is_char_boundary`): the start of some
/// character or the end of the text.
pub open spec fn is_boundary(s: Seq<char>, b: int) -> bool {
    exists|i: int| 0 <= i <= s.len() && #[trigger] byte_pos(s, i) == b
}

/// The characters of `s` between the byte offsets `a` and `b` (what `&s[a..b]` holds when
/// both are boundaries).
pub open spec fn byte_slice(s: Seq<char>, a: int, b: int) -> Seq<char> {
    let i = char_index_of_byte(s, a);
    let j = char_index_of_byte(s, b);
    if i <= j {
        s.subrange(i, j)
    } else {
        Seq::empty()
    }
}

/// Every character takes one to four bytes.
pub proof fn lemma_width_range(c: char)
    ensures
        1 <= utf8_width(c) <= 4,
{
}

/// The UTF-8 length of joined texts is the sum of their lengths.
pub proof fn lemma_utf8_len_concat(a: Seq<char>, b: Seq<char>)
    ensures
        utf8_len(a + b) == utf8_len(a) + utf8_len(b),
    decreases b.len(),
{
    if b.len() == 0 {
        assert(a + b =~= a);
    } else {
        lemma_utf8_len_concat(a, b.drop_last());
        assert((a + b).drop_last() =~= a + b.drop_last());
        assert((a + b).last() == b.last());
    }
}

/// A text has at least as many bytes as characters, and at most four times as many.
pub proof fn lemma_utf8_len_bounds(s: Seq<char>)
    ensures
        s.len() <= utf8_len(s) <= 4 * s.len(),
    decreases s.len(),
{
    if s.len() > 0 {
        lemma_utf8_len_bounds(s.drop_last());
        lemma_width_range(s.last());
    }
}

/// The byte offset of the next character is that of this one and its width.
pub proof fn lemma_byte_pos_step(s: Seq<char>, i: int)
    requires
        0 <= i < s.len(),
    ensures
        byte_pos(s, i + 1) == byte_pos(s, i) + utf8_width(s[i]),
{
    assert(s.take(i + 1).drop_last() =~= s.take(i));
    assert(s.take(i + 1).last() == s[i]);
}

/// Byte offsets grow strictly with the character index; the first is 0 and the last the
/// text's UTF-8 length.
pub proof fn lemma_byte_pos_mono(s: Seq<char>, i: int, j: int)
    requires
        0 <= i <= j <= s.len(),
    ensures
        byte_pos(s, i) <= byte_pos(s, j),
        i < j ==> byte_pos(s, i) < byte_pos(s, j),
        j - i <= byte_pos(s, j) - byte_pos(s, i),
        byte_pos(s, 0) == 0,
        byte_pos(s, s.len() as int) == utf8_len(s),
    decreases j - i,
{
    assert(s.take(0) =~= Seq::<char>::empty());
    assert(s.take(s.len() as int) =~= s);
    if i < j {
        lemma_byte_pos_mono(s, i, j - 1);
        lemma_byte_pos_step(s, j - 1);
        lemma_width_range(s[j - 1]);
    }
}

/// At a character's own byte offset, the character index found is that character's.
pub proof fn lemma_char_index_at(s: Seq<char>, i: int)
    requires
        0 <= i <= s.len(),
    ensures
        char_index_of_byte(s, byte_pos(s, i)) == i,
{
    lemma_char_index_walk(s, 0, i);
    lemma_byte_pos_mono(s, 0, i);
}

proof fn lemma_char_index_walk(s: Seq<char>, j: int, i: int)
    requires
        0 <= j <= i <= s.len(),
    ensures
        char_index_from(s, j, byte_pos(s, j), byte_pos(s, i)) == i,
    decreases i - j,
{
    let b = byte_pos(s, i);
    lemma_byte_pos_mono(s, j, i);
    if j < i {
        lemma_byte_pos_step(s, j);
        lemma_char_index_walk(s, j + 1, i);
    }
}

/// The character index of a boundary is the character starting there.
pub proof fn lemma_boundary_index(s: Seq<char>, b: int) -> (i: int)
    requires
        is_boundary(s, b),
    ensures
        0 <= i <= s.len(),
        byte_pos(s, i) == b,
        char_index_of_byte(s, b) == i,
{
    let i = choose|i: int| 0 <= i <= s.len() && #[trigger] byte_pos(s, i) == b;
    lemma_char_index_at(s, i);
    i
}

/// A boundary lies within the text, and the start and the end of a text are boundaries.
pub proof fn lemma_boundary_bounds(s: Seq<char>, b: int)
    ensures
        is_boundary(s, b) ==> 0 <= b <= utf8_len(s),
        is_boundary(s, 0),
        is_boundary(s, utf8_len(s) as int),
{
    lemma_byte_pos_mono(s, 0, s.len() as int);
    if is_boundary(s, b) {
        let i = lemma_boundary_index(s, b);
        lemma_byte_pos_mono(s, 0, i);
        lemma_byte_pos_mono(s, i, s.len() as int);
    }
}

/// In an ASCII text every character takes one byte.
pub proof fn lemma_ascii_byte_pos(s: Seq<char>, i: int)
    requires
        0 <= i <= s.len(),
        forall|k: int| 0 <= k < s.len() ==> (#[trigger] s[k] as u32) < 0x80,
    ensures
        byte_pos(s, i) == i,
    decreases i,
{
    assert(s.take(0) =~= Seq::<char>::empty());
    if i > 0 {
        lemma_ascii_byte_pos(s, i - 1);
        lemma_byte_pos_step(s, i - 1);
    }
}

/// The character index at a byte offset, where the offset is a character boundary (as
/// `str::is_char_boundary` followed by slicing).
pub fn char_at_byte(s: &[char], b: u128) -> (r: Option<usize>)
    ensures
        match r {
            Some(i) => i <= s@.len() && byte_pos(s@, i as int) == b && char_index_of_byte(s@, b as int) == i,
            None => !is_boundary(s@, b as int),
        },
{
    let mut i: usize = 0;
    let mut acc: u128 = 0;
    proof {
        lemma_byte_pos_mono(s@, 0, 0);
    }
    while i < s.len() && acc < b
        invariant
            i <= s@.len(),
            acc == byte_pos(s@, i as int),
            acc <= 4 * i,
            forall|j: int| 0 <= j < i ==> byte_pos(s@, j) < b,
        decreases s@.len() - i,
    {
        let c = s[i];
        let w: u128 = if (c as u32) < 0x80 {
            1
        } else if (c as u32) < 0x800 {
            2
        } else if (c as u32) < 0x10000 {
            3
        } else {
            4
        };
        proof {
            lemma_byte_pos_step(s@, i as int);
        }
        acc = acc + w;
        i += 1;
    }
    if acc == b {
        proof {
            lemma_char_index_at(s@, i as int);
        }
        Some(i)
    } else {
        proof {
            assert forall|j: int| 0 <= j <= s@.len() implies #[trigger] byte_pos(s@, j) != b by {
                if j < i {
                } else if j == i {
                } else {
                    lemma_byte_pos_mono(s@, i as int, j);
                }
            }
        }
        None
    }
}


/// The UTF-8 length of the characters between two positions is the difference of their
/// byte offsets.
pub proof fn lemma_utf8_len_subrange(s: Seq<char>, i: int, j: int)
    requires
        0 <= i <= j <= s.len(),
    ensures
        utf8_len(s.subrange(i, j)) == byte_pos(s, j) - byte_pos(s, i),
{
    assert(s.take(j) =~= s.take(i) + s.subrange(i, j));
    lemma_utf8_len_concat(s.take(i), s.subrange(i, j));
}

/// Between two boundaries, the characters sliced out take exactly the bytes between them.
pub proof fn lemma_byte_slice_len(s: Seq<char>, a: int, b: int)
    requires
        is_boundary(s, a),
        is_boundary(s, b),
        a <= b,
    ensures
        utf8_len(byte_slice(s, a, b)) == b - a,
{
    let i = lemma_boundary_index(s, a);
    let j = lemma_boundary_index(s, b);
    if i > j {
        lemma_byte_pos_mono(s, j, i);
    }
    lemma_utf8_len_subrange(s, i, j);
}

} // verus!

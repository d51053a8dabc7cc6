use vstd::prelude::*;

use crate::text::{chars_of, string_from};

verus! {

/// Identifier of a chunk.
#[derive(Clone, Debug, PartialEq, Eq)]
pub struct ChunkId(pub String);

/// Identifier of a document.
#[derive(Clone, Debug, PartialEq, Eq)]
pub struct DocumentId(pub String);

/// Identifier of a collection.
#[derive(Clone, Debug, PartialEq, Eq)]
pub struct CollectionId(pub String);

/// The FNV-1a offset basis.
pub const FNV_OFFSET: u64 = 0xcbf2_9ce4_8422_2325;

/// The FNV-1a prime.
pub const FNV_PRIME: u64 = 0x0000_0100_0000_01b3;

/// One FNV-1a step over a character's scalar value.
pub open spec fn fnv_step(h: u64, c: char) -> u64 {
    vstd::wrapping::u64_specs::wrapping_mul(h ^ (c as u32 as u64), FNV_PRIME)
}

/// The 64-bit FNV-1a hash of the scalar values of `s`.
pub open spec fn fnv(s: Seq<char>) -> u64
    decreases s.len(),
{
    if s.len() == 0 {
        FNV_OFFSET
    } else {
        fnv_step(fnv(s.drop_last()), s.last())
    }
}

/// The lower-case hexadecimal digit for `d` (taken modulo 16).
pub open spec fn hex_digit(d: nat) -> char {
    let v = d % 16;
    if v < 10 {
        (v + 48) as char
    } else {
        (v + 87) as char
    }
}

/// The last `n` hexadecimal digits of `h`, most significant first.
pub open spec fn hex_of(h: nat, n: nat) -> Seq<char>
    decreases n,
{
    if n == 0 {
        seq![]
    } else {
        hex_of(h / 16, (n - 1) as nat).push(hex_digit(h % 16))
    }
}

/// The content hash of a text: its FNV-1a hash as 16 hexadecimal digits.
pub open spec fn spec_hash_text(s: Seq<char>) -> Seq<char> {
    hex_of(fnv(s) as nat, 16)
}

/// The short identifier taken from a hash: its first 12 characters.
pub open spec fn spec_short_id(h: Seq<char>) -> Seq<char> {
    if h.len() <= 12 {
        h
    } else {
        h.take(12)
    }
}

fn hex_digits(h: u64, n: u32, out: &mut Vec<char>)
    ensures
        final(out)@ == old(out)@ + hex_of(h as nat, n as nat),
    decreases n,
{
    if n == 0 {
        assert(old(out)@ + hex_of(h as nat, 0) == old(out)@);
        return;
    }
    hex_digits(h / 16, n - 1, out);
    let v = (h % 16) as u8;
    let c = if v < 10 {
        (v + 48) as char
    } else {
        (v + 87) as char
    };
    assert(c == hex_digit(h as nat % 16));
    out.push(c);
    assert(hex_of(h as nat, n as nat) == hex_of((h / 16) as nat, (n - 1) as nat).push(c));
}

/// The FNV-1a hash of a character sequence.
pub fn fnv_chars(s: &[char]) -> (r: u64)
    ensures
        r == fnv(s@),
{
    let mut h: u64 = FNV_OFFSET;
    let mut i: usize = 0;
    while i < s.len()
        invariant
            i <= s@.len(),
            h == fnv(s@.take(i as int)),
        decreases s@.len() - i,
    {
        let c = s[i];
        let x = h ^ (c as u32 as u64);
        h = x.wrapping_mul(FNV_PRIME);
        assert(s@.take(i + 1).drop_last() == s@.take(i as int));
        i += 1;
    }
    assert(s@.take(s@.len() as int) == s@);
    h
}

/// The content hash of a text: 16 lower-case hexadecimal digits of its FNV-1a hash.
pub fn hash_text(text: &str) -> (r: String)
    ensures
        r@ == spec_hash_text(text@),
{
    let cs = chars_of(text);
    let h = fnv_chars(cs.as_slice());
    let mut out: Vec<char> = Vec::new();
    hex_digits(h, 16, &mut out);
    assert(out@ == Seq::<char>::empty() + hex_of(h as nat, 16));
    assert(Seq::<char>::empty() + hex_of(h as nat, 16) == hex_of(h as nat, 16));
    string_from(out.as_slice())
}

/// A short identifier derived from a hash: its first 12 characters.
pub fn short_id_from_hash(hash: &str) -> (r: String)
    ensures
        r@ == spec_short_id(hash@),
{
    let cs = chars_of(hash);
    if cs.len() <= 12 {
        string_from(cs.as_slice())
    } else {
        let r = string_from(&cs.as_slice()[0..12]);
        assert(cs@.subrange(0, 12) == cs@.take(12));
        r
    }
}

} // verus!

use vstd::prelude::*;

verus! {

/// The number of tokens of the sequences of a batch.
pub open spec fn batch_tokens<T>(b: Seq<Vec<T>>) -> nat
    decreases b.len(),
{
    if b.len() == 0 {
        0
    } else {
        batch_tokens(b.drop_last()) + b.last()@.len()
    }
}

/// The sequences of the batches, one batch after the other.
pub open spec fn flatten<T>(bs: Seq<Seq<Vec<T>>>) -> Seq<Vec<T>>
    decreases bs.len(),
{
    if bs.len() == 0 {
        Seq::empty()
    } else {
        flatten(bs.drop_last()) + bs.last()
    }
}

/// Packing the first `n` sequences: the batches closed so far, the batch being filled and its
/// token count. A sequence closes the batch being filled first when that batch is not empty
/// and already holds `max_seqs` sequences or would pass `max_tokens` tokens with it.
pub open spec fn pack_state<T>(seqs: Seq<Vec<T>>, n: int, max_seqs: nat, max_tokens: nat) -> (
    Seq<Seq<Vec<T>>>,
    Seq<Vec<T>>,
    nat,
)
    decreases n,
{
    if n <= 0 {
        (Seq::empty(), Seq::empty(), 0)
    } else {
        let (b, c, t) = pack_state(seqs, n - 1, max_seqs, max_tokens);
        let s = seqs[n - 1];
        if c.len() > 0 && (c.len() >= max_seqs || t + s@.len() > max_tokens) {
            (b.push(c), seq![s], s@.len())
        } else {
            (b, c.push(s), t + s@.len())
        }
    }
}

/// The batches the packing gives: the closed batches and the last one, if it is not empty.
pub open spec fn spec_pack<T>(seqs: Seq<Vec<T>>, max_seqs: nat, max_tokens: nat) -> Seq<
    Seq<Vec<T>>,
> {
    let (b, c, _) = pack_state(seqs, seqs.len() as int, max_seqs, max_tokens);
    if c.len() > 0 {
        b.push(c)
    } else {
        b
    }
}

/// What holds of every batch the packing closes: it is not empty, holds at most `max_seqs`
/// sequences (one where `max_seqs` is 0), and holds at most `max_tokens` tokens unless it is a
/// single sequence.
pub open spec fn batch_ok<T>(b: Seq<Vec<T>>, max_seqs: nat, max_tokens: nat) -> bool {
    &&& b.len() > 0
    &&& b.len() <= (if max_seqs == 0 {
        1
    } else {
        max_seqs
    })
    &&& (b.len() >= 2 ==> batch_tokens(b) <= max_tokens)
}

proof fn lemma_flatten_push<T>(bs: Seq<Seq<Vec<T>>>, c: Seq<Vec<T>>)
    ensures
        flatten(bs.push(c)) == flatten(bs) + c,
{
    assert(bs.push(c).drop_last() == bs);
}

proof fn lemma_batch_tokens_push<T>(b: Seq<Vec<T>>, s: Vec<T>)
    ensures
        batch_tokens(b.push(s)) == batch_tokens(b) + s@.len(),
{
    assert(b.push(s).drop_last() == b);
}

/// The packing keeps every sequence, in order; every closed batch is sound; the batch being
/// filled holds the tokens counted and is sound once not empty.
proof fn lemma_pack_state<T>(seqs: Seq<Vec<T>>, n: int, max_seqs: nat, max_tokens: nat)
    requires
        0 <= n <= seqs.len(),
    ensures
        ({
            let (b, c, t) = pack_state(seqs, n, max_seqs, max_tokens);
            &&& flatten(b) + c == seqs.take(n)
            &&& forall|i: int| 0 <= i < b.len() ==> batch_ok(#[trigger] b[i], max_seqs, max_tokens)
            &&& t == batch_tokens(c)
            &&& (n > 0 ==> batch_ok(c, max_seqs, max_tokens))
            &&& (n == 0 ==> c.len() == 0)
        }),
    decreases n,
{
    if n > 0 {
        lemma_pack_state(seqs, n - 1, max_seqs, max_tokens);
        let (b, c, t) = pack_state(seqs, n - 1, max_seqs, max_tokens);
        let s = seqs[n - 1];
        assert(seqs.take(n) == seqs.take(n - 1).push(s));
        if c.len() > 0 && (c.len() >= max_seqs || t + s@.len() > max_tokens) {
            lemma_flatten_push(b, c);
            assert(flatten(b.push(c)) + seq![s] == (flatten(b) + c).push(s));
            let nb = b.push(c);
            assert forall|i: int| 0 <= i < nb.len() implies batch_ok(
                #[trigger] nb[i],
                max_seqs,
                max_tokens,
            ) by {
                if i < b.len() {
                    assert(nb[i] == b[i]);
                }
            }
            assert(seq![s].drop_last() == Seq::<Vec<T>>::empty());
            assert(seq![s].last() == s);
            assert(batch_tokens(Seq::<Vec<T>>::empty()) == 0);
            assert(batch_tokens(seq![s]) == s@.len());
        } else {
            lemma_batch_tokens_push(c, s);
            assert(flatten(b) + c.push(s) == (flatten(b) + c).push(s));
        }
    }
}

/// Packs token sequences into batches for one encoder call each, in order: a batch is closed
/// before a sequence when it already holds `max_seqs` sequences or the sequence would take it
/// past `max_ubatch_tokens` tokens. The batches hold every sequence once, in order; none is
/// empty; none holds more than `max_seqs` sequences (one when `max_seqs` is 0); and a batch of
/// two or more sequences stays within the token budget.
pub fn pack_token_batches<T>(tokenized: Vec<Vec<T>>, max_seqs: usize, max_ubatch_tokens: usize) -> (r: Vec<
    Vec<Vec<T>>,
>)
    ensures
        r@.map_values(|b: Vec<Vec<T>>| b@) == spec_pack(
            tokenized@,
            max_seqs as nat,
            max_ubatch_tokens as nat,
        ),
        flatten(r@.map_values(|b: Vec<Vec<T>>| b@)) == tokenized@,
        forall|i: int|
            0 <= i < r@.len() ==> batch_ok(
                (#[trigger] r@[i])@,
                max_seqs as nat,
                max_ubatch_tokens as nat,
            ),
{
    let ghost seqs = tokenized@;
    let ghost ms = max_seqs as nat;
    let ghost mt = max_ubatch_tokens as nat;
    let mut batches: Vec<Vec<Vec<T>>> = Vec::new();
    let mut current: Vec<Vec<T>> = Vec::new();
    let mut current_tokens: usize = 0;
    for s in it: tokenized.into_iter()
        invariant
            it.seq() == seqs,
            it.index() <= seqs.len(),
            ({
                let (b, c, t) = pack_state(seqs, it.index() as int, ms, mt);
                &&& batches@.map_values(|x: Vec<Vec<T>>| x@) == b
                &&& current@ == c
                &&& current_tokens == t
            }),
            current@.len() > 0 ==> current_tokens <= max_ubatch_tokens || current@.len() == 1,
            ms == max_seqs as nat,
            mt == max_ubatch_tokens as nat,
    {
        let ghost i = it.index() as int;
        assert(s == seqs[i]);
        proof {
            lemma_pack_state(seqs, i, ms, mt);
        }
        let len = s.len();
        let need_flush = current.len() > 0 && (current.len() >= max_seqs || current_tokens as u128
            + len as u128 > max_ubatch_tokens as u128);
        if need_flush {
            let full = current;
            let ghost before = batches@.map_values(|x: Vec<Vec<T>>| x@);
            batches.push(full);
            assert(batches@.map_values(|x: Vec<Vec<T>>| x@) =~= before.push(full@));
            current = Vec::new();
            current_tokens = 0;
        }
        current.push(s);
        current_tokens = current_tokens + len;
    }
    proof {
        lemma_pack_state(seqs, seqs.len() as int, ms, mt);
        assert(seqs.take(seqs.len() as int) == seqs);
    }
    let ghost (b, c, t) = pack_state(seqs, seqs.len() as int, ms, mt);
    if current.len() > 0 {
        let ghost before = batches@.map_values(|x: Vec<Vec<T>>| x@);
        batches.push(current);
        assert(batches@.map_values(|x: Vec<Vec<T>>| x@) =~= before.push(c));
        proof {
            lemma_flatten_push(b, c);
            assert forall|i: int| 0 <= i < b.push(c).len() implies batch_ok(
                #[trigger] b.push(c)[i],
                ms,
                mt,
            ) by {
                if i < b.len() {
                    assert(b.push(c)[i] == b[i]);
                }
            }
        }
    } else {
        assert(flatten(b) + c == flatten(b));
    }
    proof {
        let bv = batches@.map_values(|x: Vec<Vec<T>>| x@);
        assert forall|i: int| 0 <= i < batches@.len() implies batch_ok(
            (#[trigger] batches@[i])@,
            ms,
            mt,
        ) by {
            assert(bv[i] == batches@[i]@);
        }
    }
    batches
}

} // verus!

use vstd::prelude::*;
use vstd::string::*;

use crate::error::AshkorixError;
use crate::model::TokenEvent;
use crate::text::{chars_of, decimal, decimal_chars, string_from};

verus! {

/// The message when the prompt leaves no room for generation.
pub open spec fn no_room_message(n_ctx: u32, max_tokens: u32) -> Seq<char> {
    "prompt needs room in context (n_ctx="@ + decimal(n_ctx as nat) + ", max_tokens="@ + decimal(
        max_tokens as nat,
    ) + "); increase context_size or lower max_tokens"@
}

/// The most prompt tokens that fit: the context less the tokens to generate and a margin of
/// 16, never below zero.
pub open spec fn max_prompt_tokens(n_ctx: u32, max_tokens: u32) -> int {
    let a = if n_ctx >= max_tokens {
        n_ctx - max_tokens
    } else {
        0
    };
    if a >= 16 {
        a - 16
    } else {
        0
    }
}

/// Where the prompt fed to the model starts: an empty prompt is refused; a prompt longer than
/// fits keeps its last tokens (refused when nothing fits); any other is kept whole.
pub open spec fn spec_prompt_start(n_tokens: usize, n_ctx: u32, max_tokens: u32) -> Result<usize, Seq<char>> {
    let m = max_prompt_tokens(n_ctx, max_tokens);
    if n_tokens == 0 {
        Err("prompt produced zero tokens"@)
    } else if n_tokens > m {
        if m == 0 {
            Err(no_room_message(n_ctx, max_tokens))
        } else {
            Ok((n_tokens - m) as usize)
        }
    } else {
        Ok(0usize)
    }
}

/// The index of the first prompt token to feed the model (see [`spec_prompt_start`]); the
/// error is a model error.
pub fn prompt_start(n_tokens: usize, n_ctx: u32, max_tokens: u32) -> (r: Result<usize, AshkorixError>)
    ensures
        match spec_prompt_start(n_tokens, n_ctx, max_tokens) {
            Ok(s) => r == Ok::<usize, AshkorixError>(s),
            Err(m) => r matches Err(AshkorixError::Model(e)) && e@ == m,
        },
{
    if n_tokens == 0 {
        return Err(AshkorixError::Model(String::from_str("prompt produced zero tokens")));
    }
    let m: u32 = n_ctx.saturating_sub(max_tokens).saturating_sub(16);
    if n_tokens as u64 > m as u64 {
        if m == 0 {
            let mut msg = String::from_str("prompt needs room in context (n_ctx=");
            msg.append(string_from(decimal_chars(n_ctx as u64).as_slice()).as_str());
            msg.append(", max_tokens=");
            msg.append(string_from(decimal_chars(max_tokens as u64).as_slice()).as_str());
            msg.append("); increase context_size or lower max_tokens");
            return Err(AshkorixError::Model(msg));
        }
        Ok(n_tokens - m as usize)
    } else {
        Ok(0)
    }
}

/// The capacity of the token batch: room for the prompt, the generated tokens and 32 more,
/// at most the context, at least 512.
pub fn batch_capacity(n_prompt_tokens: usize, max_tokens: u32, n_ctx: u32) -> (r: usize)
    ensures
        r == ({
            let want = n_prompt_tokens + max_tokens + 32;
            let capped = if want < n_ctx { want } else { n_ctx as int };
            if capped > 512 { capped } else { 512 }
        }),
{
    let want: u128 = n_prompt_tokens as u128 + max_tokens as u128 + 32;
    let capped: u128 = if want < n_ctx as u128 { want } else { n_ctx as u128 };
    if capped > 512 {
        capped as usize
    } else {
        512
    }
}

/// The state of a running generation.
pub struct GenerationLoop {
    pub generated: u32,
    pub full_text: String,
    pub n_cur: i32,
    pub n_ctx: u32,
    pub max_tokens: u32,
    pub stop_sequences: Vec<String>,
}

/// What to do before the next token.
pub enum LoopAction {
    /// Sample the next token.
    Sample,
    /// Stop with an error.
    Stop(AshkorixError),
    /// The token budget is spent.
    Done,
}

/// `s` ends with `p`.
pub open spec fn ends_with(s: Seq<char>, p: Seq<char>) -> bool {
    p.len() <= s.len() && s.subrange(s.len() - p.len(), s.len() as int) == p
}

/// Some stop sequence ends the text.
pub open spec fn hits_stop(text: Seq<char>, stops: Seq<String>) -> bool {
    exists|i: int| 0 <= i < stops.len() && ends_with(text, (#[trigger] stops[i])@)
}

/// The message when the context is full.
pub open spec fn context_full_message(n_ctx: u32) -> Seq<char> {
    "context full (n_ctx="@ + decimal(n_ctx as nat) + "); clear the conversation or increase context_size"@
}

fn ends_with_chars(s: &[char], p: &[char]) -> (r: bool)
    ensures
        r == ends_with(s@, p@),
{
    if p.len() > s.len() {
        return false;
    }
    let slen = s.len();
    let off = slen - p.len();
    let mut i: usize = 0;
    while i < p.len()
        invariant
            i <= p@.len(),
            s@.len() == slen,
            off + p@.len() == s@.len(),
            forall|j: int| 0 <= j < i ==> s@[off + j] == p@[j],
        decreases p@.len() - i,
    {
        if s[off + i] != p[i] {
            assert(s@.subrange(off as int, s@.len() as int)[i as int] != p@[i as int]);
            return false;
        }
        i += 1;
    }
    assert(s@.subrange(off as int, s@.len() as int) =~= p@);
    true
}

impl GenerationLoop {
    /// A generation that starts after `n_prompt_tokens` prompt tokens.
    pub fn new(n_prompt_tokens: usize, n_ctx: u32, max_tokens: u32, stop_sequences: Vec<String>) -> (r: GenerationLoop)
        ensures
            r.generated == 0,
            r.full_text@.len() == 0,
            r.n_cur == n_prompt_tokens as i32,
            r.n_ctx == n_ctx,
            r.max_tokens == max_tokens,
            r.stop_sequences == stop_sequences,
    {
        #[verifier::truncate]
        let n_cur = n_prompt_tokens as i32;
        GenerationLoop { generated: 0, full_text: String::new(), n_cur, n_ctx, max_tokens, stop_sequences }
    }

    /// What to do next: nothing once `max_tokens` tokens are generated; a cancelled
    /// generation stops; a full context stops with a model error; else sample.
    pub fn next_action(&self, cancelled: bool) -> (r: LoopAction)
        ensures
            self.generated >= self.max_tokens ==> r is Done,
            self.generated < self.max_tokens && cancelled ==> (r matches LoopAction::Stop(
                AshkorixError::Cancelled,
            )),
            self.generated < self.max_tokens && !cancelled && self.n_cur as u32 >= self.n_ctx ==> (
            r matches LoopAction::Stop(AshkorixError::Model(m)) && m@ == context_full_message(self.n_ctx)),
            self.generated < self.max_tokens && !cancelled && (self.n_cur as u32) < self.n_ctx ==> r is Sample,
    {
        if self.generated >= self.max_tokens {
            return LoopAction::Done;
        }
        if cancelled {
            return LoopAction::Stop(AshkorixError::Cancelled);
        }
        #[verifier::truncate]
        let pos = self.n_cur as u32;
        if pos >= self.n_ctx {
            let mut msg = String::from_str("context full (n_ctx=");
            msg.append(string_from(decimal_chars(self.n_ctx as u64).as_slice()).as_str());
            msg.append("); clear the conversation or increase context_size");
            return LoopAction::Stop(AshkorixError::Model(msg));
        }
        LoopAction::Sample
    }

    /// Takes a sampled token: an end-of-generation token finishes the stream; any other adds
    /// its text and counts one token, finishing when the text now ends with a stop sequence
    /// and passing the piece on otherwise. Returns the event to send and whether to go on.
    pub fn on_sampled(&mut self, is_eog: bool, piece: String) -> (r: (TokenEvent, bool))
        requires
            old(self).generated < old(self).max_tokens,
        ensures
            is_eog ==> r.0.finished && r.0.token@.len() == 0 && r.0.tokens_generated == old(self).generated
                && !r.1 && final(self).generated == old(self).generated && final(self).full_text@
                == old(self).full_text@ && final(self).n_cur == old(self).n_cur,
            !is_eog ==> final(self).full_text@ == old(self).full_text@ + piece@
                && final(self).generated == old(self).generated + 1
                && r.0.tokens_generated == final(self).generated
                && (if hits_stop(final(self).full_text@, old(self).stop_sequences@) {
                    r.0.finished && r.0.token@.len() == 0 && !r.1 && final(self).n_cur == old(self).n_cur
                } else {
                    !r.0.finished && r.0.token@ == piece@ && r.1 && final(self).n_cur
                        == old(self).n_cur.wrapping_add(1)
                }),
            final(self).n_ctx == old(self).n_ctx,
            final(self).max_tokens == old(self).max_tokens,
            final(self).stop_sequences == old(self).stop_sequences,
    {
        if is_eog {
            return (TokenEvent { token: String::new(), finished: true, tokens_generated: self.generated }, false);
        }
        self.full_text.append(piece.as_str());
        self.generated = self.generated + 1;
        let text = chars_of(self.full_text.as_str());
        let mut hit = false;
        let mut i: usize = 0;
        while i < self.stop_sequences.len()
            invariant
                i <= self.stop_sequences@.len(),
                text@ == self.full_text@,
                hit <==> exists|j: int| 0 <= j < i && ends_with(text@, (#[trigger] self.stop_sequences@[j])@),
            decreases self.stop_sequences@.len() - i,
        {
            let s = chars_of(self.stop_sequences[i].as_str());
            if ends_with_chars(text.as_slice(), s.as_slice()) {
                hit = true;
            }
            i += 1;
        }
        if hit {
            return (TokenEvent { token: String::new(), finished: true, tokens_generated: self.generated }, false);
        }
        self.n_cur = self.n_cur.wrapping_add(1);
        (TokenEvent { token: piece, finished: false, tokens_generated: self.generated }, true)
    }

    /// The closing event once the loop ends: a finished event when the token budget was
    /// spent, none otherwise.
    pub fn finish(&self) -> (r: Option<TokenEvent>)
        ensures
            self.generated >= self.max_tokens ==> (r matches Some(e) && e.finished && e.token@.len() == 0
                && e.tokens_generated == self.generated),
            self.generated < self.max_tokens ==> r is None,
    {
        if self.generated >= self.max_tokens {
            Some(TokenEvent { token: String::new(), finished: true, tokens_generated: self.generated })
        } else {
            None
        }
    }
}

/// A sent event as plain values: its text, whether it finishes the stream, and the tokens
/// generated so far.
pub open spec fn event_view(e: TokenEvent) -> (Seq<char>, bool, u32) {
    (e.token@, e.finished, e.tokens_generated)
}

/// The views of sent events.
pub open spec fn events_view(v: Seq<TokenEvent>) -> Seq<(Seq<char>, bool, u32)> {
    v.map_values(|e: TokenEvent| event_view(e))
}

/// The finished event with no text after `g` tokens.
pub open spec fn finished_event(g: u32) -> (Seq<char>, bool, u32) {
    (Seq::empty(), true, g)
}

/// The events a generation sends from the state (`g` tokens generated, text `text`, next
/// position `n_cur`), taking the samples from the `k`-th on; `None` where it fails because
/// the context is full. Once `max` tokens are generated it sends the closing finished event.
/// Otherwise a full context fails; with no sample left it sends nothing more; an
/// end-of-generation sample finishes; any other sample adds its text and counts a token, and
/// then, where the text ends with a stop sequence, finishes (followed by the closing event
/// when the budget is now spent), else passes the piece on and goes on.
pub open spec fn spec_run(
    g: u32,
    text: Seq<char>,
    n_cur: i32,
    n_ctx: u32,
    max: u32,
    stops: Seq<String>,
    samples: Seq<(bool, String)>,
    k: int,
) -> Option<Seq<(Seq<char>, bool, u32)>>
    decreases samples.len() - k,
{
    if g >= max {
        Some(seq![finished_event(g)])
    } else if n_cur as u32 >= n_ctx {
        None
    } else if k < 0 || k >= samples.len() {
        Some(Seq::empty())
    } else if samples[k].0 {
        Some(seq![finished_event(g)])
    } else {
        let t2 = text + samples[k].1@;
        let g2 = (g + 1) as u32;
        if hits_stop(t2, stops) {
            Some(
                if g2 >= max {
                    seq![finished_event(g2), finished_event(g2)]
                } else {
                    seq![finished_event(g2)]
                },
            )
        } else {
            match spec_run(g2, t2, n_cur.wrapping_add(1), n_ctx, max, stops, samples, k + 1) {
                Some(rest) => Some(seq![(samples[k].1@, false, g2)] + rest),
                None => None,
            }
        }
    }
}

/// Events already sent, then what the rest of the run sends.
pub open spec fn then_events(
    pre: Seq<(Seq<char>, bool, u32)>,
    rest: Option<Seq<(Seq<char>, bool, u32)>>,
) -> Option<Seq<(Seq<char>, bool, u32)>> {
    match rest {
        Some(x) => Some(pre + x),
        None => None,
    }
}

/// Runs a generation over the tokens the model samples, given in order as whether each
/// ends the generation and its text, nothing cancelling it (see [`spec_run`]): it succeeds
/// with the events sent unless the context fills up before the run ends, in which case it
/// fails with the context-full error.
pub fn run_steps(gl: &mut GenerationLoop, samples: &Vec<(bool, String)>) -> (r: Result<Vec<TokenEvent>, AshkorixError>)
    ensures
        match spec_run(
            old(gl).generated,
            old(gl).full_text@,
            old(gl).n_cur,
            old(gl).n_ctx,
            old(gl).max_tokens,
            old(gl).stop_sequences@,
            samples@,
            0,
        ) {
            Some(evs) => r matches Ok(x) && events_view(x@) == evs,
            None => r matches Err(AshkorixError::Model(m)) && m@ == context_full_message(old(gl).n_ctx),
        },
{
    let ghost want = spec_run(
        gl.generated,
        gl.full_text@,
        gl.n_cur,
        gl.n_ctx,
        gl.max_tokens,
        gl.stop_sequences@,
        samples@,
        0,
    );
    let ghost n_ctx = gl.n_ctx;
    let ghost max = gl.max_tokens;
    let ghost stops = gl.stop_sequences@;
    let mut evs: Vec<TokenEvent> = Vec::new();
    let mut k: usize = 0;
    assert(then_events(events_view(evs@), want) == want) by {
        assert(events_view(evs@) =~= Seq::<(Seq<char>, bool, u32)>::empty());
        match want {
            Some(x) => {
                assert(Seq::<(Seq<char>, bool, u32)>::empty() + x =~= x);
            },
            None => {},
        }
    }
    loop
        invariant
            k <= samples@.len(),
            gl.n_ctx == n_ctx,
            gl.max_tokens == max,
            gl.stop_sequences@ == stops,
            n_ctx == old(gl).n_ctx,
            want == spec_run(
                old(gl).generated,
                old(gl).full_text@,
                old(gl).n_cur,
                old(gl).n_ctx,
                old(gl).max_tokens,
                old(gl).stop_sequences@,
                samples@,
                0,
            ),
            want == then_events(
                events_view(evs@),
                spec_run(gl.generated, gl.full_text@, gl.n_cur, n_ctx, max, stops, samples@, k as int),
            ),
        decreases samples@.len() - k,
    {
        let ghost pre = events_view(evs@);
        match gl.next_action(false) {
            LoopAction::Done => {
                let fin = gl.finish();
                match fin {
                    Some(e) => {
                        evs.push(e);
                        assert(events_view(evs@) =~= pre.push(event_view(e)));
                        assert(event_view(e) == finished_event(gl.generated));
                        assert(pre + seq![finished_event(gl.generated)] =~= pre.push(event_view(e)));
                    },
                    None => {
                        assert(false);
                    },
                }
                return Ok(evs);
            },
            LoopAction::Stop(e) => {
                return Err(e);
            },
            LoopAction::Sample => {
                if k >= samples.len() {
                    assert(pre + Seq::<(Seq<char>, bool, u32)>::empty() =~= pre);
                    return Ok(evs);
                }
                let eog = samples[k].0;
                let piece = samples[k].1.clone();
                let ghost g0 = gl.generated;
                let ghost t0 = gl.full_text@;
                let (ev, go) = gl.on_sampled(eog, piece);
                let ghost evv = event_view(ev);
                evs.push(ev);
                assert(events_view(evs@) =~= pre.push(evv));
                if eog {
                    assert(evv == finished_event(g0));
                    assert(pre + seq![finished_event(g0)] =~= pre.push(evv));
                    return Ok(evs);
                }
                if !go {
                    assert(hits_stop(t0 + samples@[k as int].1@, stops));
                    assert(evv == finished_event(gl.generated));
                    let fin = gl.finish();
                    match fin {
                        Some(e) => {
                            let ghost pre2 = events_view(evs@);
                            evs.push(e);
                            assert(events_view(evs@) =~= pre2.push(event_view(e)));
                            assert(event_view(e) == finished_event(gl.generated));
                            assert(pre2 =~= pre.push(evv));
                            assert(pre + seq![finished_event(gl.generated), finished_event(gl.generated)]
                                =~= events_view(evs@));
                        },
                        None => {
                            assert(pre + seq![finished_event(gl.generated)] =~= events_view(evs@));
                        },
                    }
                    return Ok(evs);
                }
                assert(!hits_stop(t0 + samples@[k as int].1@, stops));
                assert(evv == (samples@[k as int].1@, false, gl.generated));
                proof {
                    let rest = spec_run(gl.generated, gl.full_text@, gl.n_cur, n_ctx, max, stops, samples@, k + 1);
                    match rest {
                        Some(x) => {
                            assert(pre + (seq![evv] + x) =~= pre.push(evv) + x);
                        },
                        None => {},
                    }
                }
                k += 1;
            },
        }
    }
}

} // verus!

use vstd::prelude::*;

use crate::cite::types::Citation;
use crate::model::{ChatMessage, TokenEvent};
use crate::rag::answer::{spec_has_memory_citations, verify_response, RagVerification};
use crate::cite::service::{citations_view, source_marker_numbers};
use crate::memory::types::Memory;
use crate::rag::types::{claims_view, RankedChunk};
use crate::rag::verify::spec_verify;
use crate::rag::types::UnsupportedClaim;

verus! {

/// A streamed piece of an answer as the interface receives it, with the citations and
/// verdicts on the final piece.
#[derive(Clone, Debug)]
pub struct TokenPayload {
    pub token: String,
    pub finished: bool,
    pub tokens_generated: u32,
    pub citations: Option<Vec<Citation>>,
    pub uncited_warning: Option<bool>,
    pub unsupported_claims: Option<Vec<UnsupportedClaim>>,
}

/// The progress of importing one file.
#[derive(Clone, Debug)]
pub struct ImportProgressPayload {
    pub filename: String,
    pub status: String,
    pub message: String,
}

/// A conversation as exported.
#[derive(Clone, Debug)]
pub struct ConversationExport {
    pub messages: Vec<ChatMessage>,
    pub exported_at: String,
}


/// The payload that relays one generated piece, with no verdicts; the relay stops after a
/// finished piece.
pub fn token_payload(event: TokenEvent) -> (r: (TokenPayload, bool))
    ensures
        r.0.token == event.token,
        r.0.finished == event.finished,
        r.0.tokens_generated == event.tokens_generated,
        r.0.citations is None,
        r.0.uncited_warning is None,
        r.0.unsupported_claims is None,
        r.1 == event.finished,
{
    let stop = event.finished;
    (
        TokenPayload {
            token: event.token,
            finished: event.finished,
            tokens_generated: event.tokens_generated,
            citations: None,
            uncited_warning: None,
            unsupported_claims: None,
        },
        stop,
    )
}

/// The payload that ends a stream that failed: `[error: ...]` around the error's text,
/// finished, with no tokens counted and no verdicts.
pub fn error_payload(message: &str) -> (r: TokenPayload)
    ensures
        r.token@ == "[error: "@ + message@ + "]"@,
        r.finished,
        r.tokens_generated == 0,
        r.citations is None,
        r.uncited_warning is None,
        r.unsupported_claims is None,
{
    let mut token = String::from_str("[error: ");
    token.append(message);
    token.append("]");
    TokenPayload {
        token,
        finished: true,
        tokens_generated: 0,
        citations: None,
        uncited_warning: None,
        unsupported_claims: None,
    }
}

/// The last payload of an answer: empty and finished, with the citations that resolved,
/// whether the answer cites nothing, and the unsupported claims when there are any.
pub fn closing_payload(verification: RagVerification) -> (r: TokenPayload)
    ensures
        r.token@.len() == 0,
        r.finished,
        r.tokens_generated == 0,
        r.citations == Some(verification.resolved_citations),
        r.uncited_warning == Some(verification.uncited_warning),
        verification.unsupported_claims@.len() == 0 ==> r.unsupported_claims is None,
        verification.unsupported_claims@.len() > 0 ==> r.unsupported_claims == Some(
            verification.unsupported_claims,
        ),
{
    let claims = if verification.unsupported_claims.len() == 0 {
        None
    } else {
        Some(verification.unsupported_claims)
    };
    TokenPayload {
        token: String::new(),
        finished: true,
        tokens_generated: 0,
        citations: Some(verification.resolved_citations),
        uncited_warning: Some(verification.uncited_warning),
        unsupported_claims: claims,
    }
}

/// The number of stream items relayed from the `i`-th on: up to and including the first
/// failed or finished one, else all of them.
pub open spec fn relay_count_from(items: Seq<Result<TokenEvent, String>>, i: int) -> int
    decreases items.len() - i,
{
    if i < 0 || i >= items.len() {
        0
    } else {
        match items[i] {
            Ok(ev) => if ev.finished {
                1
            } else {
                1 + relay_count_from(items, i + 1)
            },
            Err(_) => 1,
        }
    }
}

/// The answer text relayed: the pieces of the relayed items that did not fail, in order.
pub open spec fn relay_text(items: Seq<Result<TokenEvent, String>>, n: int) -> Seq<char>
    decreases n,
{
    if n <= 0 || n > items.len() {
        Seq::empty()
    } else {
        relay_text(items, n - 1) + match items[n - 1] {
            Ok(ev) => ev.token@,
            Err(_) => Seq::empty(),
        }
    }
}

proof fn lemma_relay_count(items: Seq<Result<TokenEvent, String>>, i: int)
    requires
        0 <= i <= items.len(),
    ensures
        0 <= relay_count_from(items, i) <= items.len() - i,
        i < items.len() ==> relay_count_from(items, i) >= 1,
    decreases items.len() - i,
{
    if i < items.len() {
        lemma_relay_count(items, i + 1);
    }
}

/// Relays an answer's stream: one payload per item up to and including the first that
/// failed (its error as `[error: ...]`, finished) or finished, each piece as it came; then the
/// closing payload with the verdicts on the text relayed (see [`verify_response`]).
pub fn relay_stream(
    items: Vec<Result<TokenEvent, String>>,
    citations: &[Citation],
    chunks: &[RankedChunk],
    memories: &[Memory],
) -> (r: Vec<TokenPayload>)
    ensures
        ({
            let n = relay_count_from(items@, 0);
            let text = relay_text(items@, n);
            &&& r@.len() == n + 1
            &&& forall|i: int|
                0 <= i < n ==> match items@[i] {
                    Ok(ev) => (#[trigger] r@[i]).token == ev.token && r@[i].finished == ev.finished
                        && r@[i].tokens_generated == ev.tokens_generated && r@[i].citations is None,
                    Err(m) => r@[i].token@ == "[error: "@ + m@ + "]"@ && r@[i].finished && r@[i].tokens_generated
                        == 0 && r@[i].citations is None,
                }
            &&& forall|i: int| 0 <= i < n - 1 ==> ((#[trigger] items@[i]) matches Ok(ev) && !ev.finished)
            &&& r@[n].token@.len() == 0 && r@[n].finished && r@[n].tokens_generated == 0
            &&& r@[n].citations matches Some(cs) && citations_view(cs@) == citations_view(citations@).filter(
                |c: (u32, Seq<char>, Seq<char>, Option<u32>, Option<Seq<char>>, Seq<char>, u64, Seq<char>)|
                    source_marker_numbers(text).contains(c.0),
            )
            &&& r@[n].uncited_warning == Some(
                (citations@.len() > 0 || memories@.len() > 0) && citations_view(citations@).filter(
                    |c: (u32, Seq<char>, Seq<char>, Option<u32>, Option<Seq<char>>, Seq<char>, u64, Seq<char>)|
                        source_marker_numbers(text).contains(c.0),
                ).len() == 0 && !spec_has_memory_citations(text),
            )
            &&& (spec_verify(text, citations@, chunks@, memories@).len() == 0 ==> r@[n].unsupported_claims is None)
            &&& (r@[n].unsupported_claims matches Some(u) ==> claims_view(u@) == spec_verify(
                text,
                citations@,
                chunks@,
                memories@,
            ))
        }),
{
    let ghost its = items@;
    let mut out: Vec<TokenPayload> = Vec::new();
    let mut text = String::new();
    let mut items = items;
    let mut i: usize = 0;
    let mut done = false;
    proof {
        lemma_relay_count(its, 0);
    }
    while i < items.len() && !done
        invariant
            items@ == its,
            i <= its.len(),
            out@.len() == i,
            text@ == relay_text(its, i as int),
            done ==> relay_count_from(its, 0) == i,
            !done ==> relay_count_from(its, 0) == i + relay_count_from(its, i as int),
            forall|k: int|
                0 <= k < i ==> match its[k] {
                    Ok(ev) => (#[trigger] out@[k]).token == ev.token && out@[k].finished == ev.finished
                        && out@[k].tokens_generated == ev.tokens_generated && out@[k].citations is None,
                    Err(m) => out@[k].token@ == "[error: "@ + m@ + "]"@ && out@[k].finished
                        && out@[k].tokens_generated == 0 && out@[k].citations is None,
                },
            forall|k: int| 0 <= k < i - 1 ==> ((#[trigger] its[k]) matches Ok(ev) && !ev.finished),
            !done ==> forall|k: int| 0 <= k < i ==> ((#[trigger] its[k]) matches Ok(ev) && !ev.finished),
        decreases its.len() - i,
    {
        proof {
            lemma_relay_count(its, i + 1);
        }
        let ghost before = out@;
        match &items[i] {
            Ok(ev) => {
                text.append(ev.token.as_str());
                let (p, stop) = token_payload(TokenEvent {
                    token: ev.token.clone(),
                    finished: ev.finished,
                    tokens_generated: ev.tokens_generated,
                });
                out.push(p);
                if stop {
                    done = true;
                }
            },
            Err(m) => {
                let p = error_payload(m.as_str());
                out.push(p);
                done = true;
            },
        }
        assert forall|k: int| 0 <= k < i implies #[trigger] out@[k] == before[k] by {}
        i += 1;
    }
    proof {
        if !done {
            assert(relay_count_from(its, i as int) == 0);
        }
    }
    let n = i;
    let v = verify_response(text.as_str(), citations, chunks, memories);
    out.push(closing_payload(v));
    assert forall|k: int| 0 <= k < n implies #[trigger] out@[k] == out@.take(n as int)[k] by {}
    out
}

} // verus!

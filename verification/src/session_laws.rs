//! What holds of every generation session, whatever is reported of it.

use crate::protocol::{FinishReason, GenerateView, TokenView};
use crate::session::{fed, opened, run, SessionView, SignalView};
use vstd::prelude::*;

verus! {

/// All the events of a session: those sent as it starts, then those sent at
/// each signal.
pub open spec fn stream(request: GenerateView, dim: usize, signals: Seq<SignalView>) -> Seq<
    TokenView,
> {
    opened(request, dim).1 + run(opened(request, dim).0, signals).1
}

/// The session as it stands after all the signals.
pub open spec fn outcome(request: GenerateView, dim: usize, signals: Seq<SignalView>) -> SessionView {
    run(opened(request, dim).0, signals).0
}

/// The texts of the `Piece` signals, in order.
pub open spec fn pieces(signals: Seq<SignalView>) -> Seq<Seq<char>>
    decreases signals.len(),
{
    if signals.len() == 0 {
        Seq::empty()
    } else {
        match signals.last() {
            SignalView::Piece(text) => pieces(signals.drop_last()).push(text),
            _ => pieces(signals.drop_last()),
        }
    }
}

/// The runtime only reads the prompt and samples tokens: it neither fails
/// nor is cancelled, and sends no embedding.
pub open spec fn only_text(signals: Seq<SignalView>) -> bool {
    forall|i: int|
        0 <= i < signals.len() ==> (#[trigger] signals[i]) is Piece || signals[i] is Prompt
}

/// The content events for a run of texts.
pub open spec fn contents(texts: Seq<Seq<char>>) -> Seq<TokenView> {
    Seq::new(texts.len(), |i: int| TokenView::Content(texts[i]))
}

/// A step keeps a session well formed, leaves the request's part of it
/// alone, and never reopens it.
pub proof fn lemma_fed_keeps(s: SessionView, signal: SignalView)
    requires
        s.wf(),
    ensures
        fed(s, signal).0.wf(),
        fed(s, signal).0.max_tokens == s.max_tokens,
        fed(s, signal).0.stop == s.stop,
        fed(s, signal).0.embed == s.embed,
        fed(s, signal).0.dim == s.dim,
        !s.open ==> fed(s, signal) == (s, Seq::<TokenView>::empty()),
{
}

/// A run keeps a session well formed, leaves the request's part of it alone,
/// and a closed session stays as it is and sends nothing.
pub proof fn lemma_run_keeps(s: SessionView, signals: Seq<SignalView>)
    requires
        s.wf(),
    ensures
        run(s, signals).0.wf(),
        run(s, signals).0.max_tokens == s.max_tokens,
        run(s, signals).0.stop == s.stop,
        run(s, signals).0.embed == s.embed,
        run(s, signals).0.dim == s.dim,
        !s.open ==> run(s, signals) == (s, Seq::<TokenView>::empty()),
    decreases signals.len(),
{
    if signals.len() > 0 {
        lemma_run_keeps(s, signals.drop_last());
    }
}

/// The shape of what an open session sends over a run: content events only,
/// one for each token counted, and then, if and only if the session has
/// closed, one terminal event.
pub open spec fn shaped(before: SessionView, after: SessionView, sent: Seq<TokenView>) -> bool {
    let n = after.produced - before.produced;
    &&& n >= 0
    &&& forall|i: int| 0 <= i < n && i < sent.len() ==> (#[trigger] sent[i]) is Content
    &&& if after.open {
        sent.len() == n
    } else {
        sent.len() == n + 1 && sent.last().is_terminal()
    }
}

/// Every run of an open session has the shape above.
pub proof fn lemma_run_shape(s: SessionView, signals: Seq<SignalView>)
    requires
        s.wf(),
        s.open,
    ensures
        shaped(s, run(s, signals).0, run(s, signals).1),
    decreases signals.len(),
{
    if signals.len() > 0 {
        lemma_run_shape(s, signals.drop_last());
        lemma_run_keeps(s, signals.drop_last());
    }
}

/// The events of a session, from its start: content events only, at most as
/// many as the token limit, and then, if and only if the session has closed,
/// exactly one terminal event, which is the last event.
pub proof fn lemma_stream_shape(request: GenerateView, dim: usize, signals: Seq<SignalView>)
    ensures
        ({
            let sent = stream(request, dim, signals);
            let end = outcome(request, dim, signals);
            &&& end.produced <= request.max_tokens
            &&& forall|i: int| 0 <= i < end.produced && i < sent.len() ==> (#[trigger] sent[i]) is Content
            &&& end.open ==> sent.len() == end.produced
            &&& !end.open ==> sent.len() == end.produced + 1 && sent.last().is_terminal()
        }),
{
    let (start, first) = opened(request, dim);
    lemma_run_keeps(start, signals);
    if start.open {
        lemma_run_shape(start, signals);
    }
}

/// While fewer texts were sampled than the limit allows, a text session
/// without stop texts is open and has sent each text as content; from then
/// on it is closed, and has sent the first texts up to the limit and `Stop`
/// for the length.
proof fn lemma_run_text(s: SessionView, signals: Seq<SignalView>)
    requires
        s.wf(),
        s.open,
        !s.embed,
        s.stop.len() == 0,
        s.produced == 0,
        only_text(signals),
    ensures
        ({
            let (end, sent) = run(s, signals);
            let texts = pieces(signals);
            let k = s.max_tokens as int;
            if texts.len() < k {
                end.open && end.produced == texts.len() && sent == contents(texts)
            } else {
                &&& !end.open
                &&& end.produced == k
                &&& sent == contents(texts.take(k)).push(
                    TokenView::Stop(FinishReason::Length, end.counter()),
                )
            }
        }),
    decreases signals.len(),
{
    if signals.len() > 0 {
        let front = signals.drop_last();
        lemma_run_text(s, front);
        lemma_run_keeps(s, front);
    }
}

/// A text request with a token limit of `k` and no stop text, served by a
/// runtime that samples at least `k` tokens and neither fails nor is
/// cancelled, is answered by exactly `k` content events, which carry the
/// first `k` sampled texts in order, and then exactly one `Stop`, for the
/// length, whose counter shows `k` completion tokens.
pub proof fn lemma_limit_ends_stream(request: GenerateView, dim: usize, signals: Seq<SignalView>)
    requires
        !request.embed,
        request.stop.len() == 0,
        only_text(signals),
        pieces(signals).len() >= request.max_tokens,
    ensures
        ({
            let sent = stream(request, dim, signals);
            let k = request.max_tokens as int;
            &&& sent.len() == k + 1
            &&& forall|i: int|
                0 <= i < k ==> #[trigger] sent[i] == TokenView::Content(pieces(signals)[i])
            &&& sent[k] matches TokenView::Stop(reason, counter)
            &&& reason == FinishReason::Length
            &&& counter.completion_tokens == k
        }),
{
    let (start, first) = opened(request, dim);
    let k = request.max_tokens as int;
    if k == 0 {
        lemma_run_keeps(start, signals);
    } else {
        lemma_run_text(start, signals);
    }
}

/// The signals of a prompt pass: any number of prompt reports.
pub open spec fn only_prompt(signals: Seq<SignalView>) -> bool {
    forall|i: int| 0 <= i < signals.len() ==> (#[trigger] signals[i]) is Prompt
}

/// An embedding session, whatever is reported of it, sends no content event
/// and at most one event in all; and where that event is an embedding, its
/// length is the embedding dimension of the model.
pub proof fn lemma_embedding_stream(request: GenerateView, dim: usize, signals: Seq<SignalView>)
    requires
        request.embed,
    ensures
        ({
            let sent = stream(request, dim, signals);
            let end = outcome(request, dim, signals);
            &&& sent.len() <= 1
            &&& end.open <==> sent.len() == 0
            &&& forall|i: int| 0 <= i < sent.len() ==> !((#[trigger] sent[i]) is Content)
            &&& forall|i: int|
                0 <= i < sent.len() ==> (#[trigger] sent[i] matches TokenView::Embed(vector)
                    ==> vector.len() == dim)
        }),
    decreases signals.len(),
{
    let (start, first) = opened(request, dim);
    if signals.len() > 0 {
        let front = signals.drop_last();
        lemma_embedding_stream(request, dim, front);
        lemma_run_keeps(start, front);
    }
}

/// An embedding request whose prompt pass ends with an embedding of the
/// model's dimension is answered by exactly one event, that embedding;
/// whatever is reported afterwards changes nothing.
pub proof fn lemma_embedding_delivered(
    request: GenerateView,
    dim: usize,
    prompt: Seq<SignalView>,
    vector: Seq<u32>,
    rest: Seq<SignalView>,
)
    requires
        request.embed,
        only_prompt(prompt),
        vector.len() == dim,
    ensures
        stream(request, dim, prompt.push(SignalView::Embedding(vector)) + rest) == seq![
            TokenView::Embed(vector),
        ],
{
    let (start, first) = opened(request, dim);
    lemma_prompt_pass(start, prompt);
    let upto = prompt.push(SignalView::Embedding(vector));
    assert(upto.drop_last() == prompt);
    let (mid, sent) = run(start, upto);
    lemma_run_append(start, upto, rest);
    lemma_run_keeps(start, prompt);
    lemma_run_keeps(mid, rest);
}

/// Prompt reports leave an open session open and send nothing.
proof fn lemma_prompt_pass(s: SessionView, prompt: Seq<SignalView>)
    requires
        s.open,
        only_prompt(prompt),
    ensures
        run(s, prompt).0.open,
        run(s, prompt).0.embed == s.embed,
        run(s, prompt).0.dim == s.dim,
        run(s, prompt).1 == Seq::<TokenView>::empty(),
    decreases prompt.len(),
{
    if prompt.len() > 0 {
        lemma_prompt_pass(s, prompt.drop_last());
    }
}

/// Running two runs of signals one after the other is running them joined.
pub proof fn lemma_run_append(s: SessionView, a: Seq<SignalView>, b: Seq<SignalView>)
    ensures
        run(s, a + b).0 == run(run(s, a).0, b).0,
        run(s, a + b).1 == run(s, a).1 + run(run(s, a).0, b).1,
    decreases b.len(),
{
    if b.len() > 0 {
        assert((a + b).drop_last() == a + b.drop_last());
        lemma_run_append(s, a, b.drop_last());
    }
}

} // verus!

//! A generation session: the ordered stream of events that answers one
//! generation request.
//!
//! The model runtime reports what it computes for a session as signals; the
//! session turns each signal into the events to send. It counts the content
//! events against the token limit, watches the output for stop texts, and
//! ends with exactly one terminal event: `Stop`, `Embed` or `Error`. After
//! that it is closed and every further signal is ignored.

use crate::lists::{chars_of, views};
use crate::protocol::{
    ErrorKind, FinishReason, GenerateRequest, GenerateView, Token, TokenCounter, TokenView,
};
use vstd::prelude::*;

verus! {

/// What is reported of a session.
#[derive(Debug, PartialEq, Eq)]
pub enum Signal {
    /// The prompt was read; it has that many tokens.
    Prompt(usize),
    /// The next token was sampled; this is its text.
    Piece(String),
    /// The embedding of the prompt was computed, each component by its bits.
    Embedding(Vec<u32>),
    /// The model runtime failed.
    Fault,
    /// The session is cancelled: the model is being replaced or released,
    /// or nobody receives the events any more.
    Cancel,
}

/// What a `Signal` stands for.
pub enum SignalView {
    Prompt(usize),
    Piece(Seq<char>),
    Embedding(Seq<u32>),
    Fault,
    Cancel,
}

impl View for Signal {
    type V = SignalView;

    open spec fn view(&self) -> SignalView {
        match self {
            Signal::Prompt(tokens) => SignalView::Prompt(*tokens),
            Signal::Piece(text) => SignalView::Piece(text@),
            Signal::Embedding(vector) => SignalView::Embedding(vector@),
            Signal::Fault => SignalView::Fault,
            Signal::Cancel => SignalView::Cancel,
        }
    }
}

/// The state of a session.
pub struct SessionView {
    /// The largest number of content events.
    pub max_tokens: usize,
    /// The stop texts.
    pub stop: Seq<Seq<char>>,
    /// Whether an embedding is asked for in place of text.
    pub embed: bool,
    /// The embedding dimension of the model that the session runs against.
    pub dim: usize,
    /// The number of prompt tokens, once reported.
    pub prompt_tokens: usize,
    /// The number of content events sent.
    pub produced: usize,
    /// The text sent so far.
    pub text: Seq<char>,
    /// Whether no terminal event was sent yet.
    pub open: bool,
}

impl SessionView {
    /// A session never exceeds its token limit, and an open text session
    /// has not reached it.
    pub open spec fn wf(self) -> bool {
        &&& self.produced <= self.max_tokens
        &&& self.open && !self.embed ==> self.produced < self.max_tokens
    }

    /// The usage figures: prompt tokens, content events, and their sum,
    /// which stops at the largest number that fits.
    pub open spec fn counter(self) -> TokenCounter {
        TokenCounter {
            prompt_tokens: self.prompt_tokens,
            completion_tokens: self.produced,
            total_tokens: if self.prompt_tokens + self.produced > usize::MAX {
                usize::MAX
            } else {
                (self.prompt_tokens + self.produced) as usize
            },
        }
    }

    /// The same session, closed.
    pub open spec fn closed(self) -> SessionView {
        SessionView { open: false, ..self }
    }
}

/// Whether `needle` occurs in `text`.
pub open spec fn occurs(text: Seq<char>, needle: Seq<char>) -> bool {
    exists|at: int| occurs_at(text, needle, at)
}

/// Whether `needle` occurs in `text` at `at`.
pub open spec fn occurs_at(text: Seq<char>, needle: Seq<char>, at: int) -> bool {
    &&& 0 <= at
    &&& at + needle.len() <= text.len()
    &&& text.subrange(at, at + needle.len()) == needle
}

/// Whether a non-empty stop text occurs in `text`. An empty stop text stops
/// nothing.
pub open spec fn stop_hit(text: Seq<char>, stop: Seq<Seq<char>>) -> bool {
    exists|j: int| 0 <= j < stop.len() && (#[trigger] stop[j]).len() > 0 && occurs(text, stop[j])
}

/// A session as it starts, and the events sent at once: a text session with
/// a token limit of zero ends at once with `Stop` for the length; any other
/// session is open and has sent nothing.
pub open spec fn opened(request: GenerateView, dim: usize) -> (SessionView, Seq<TokenView>) {
    let start = SessionView {
        max_tokens: request.max_tokens,
        stop: request.stop,
        embed: request.embed,
        dim,
        prompt_tokens: 0,
        produced: 0,
        text: Seq::empty(),
        open: true,
    };
    if !request.embed && request.max_tokens == 0 {
        (start.closed(), seq![TokenView::Stop(FinishReason::Length, start.counter())])
    } else {
        (start, Seq::empty())
    }
}

/// What a session becomes at a signal, and the events it sends.
///
/// - A closed session ignores every signal.
/// - `Prompt` records the number of prompt tokens.
/// - `Piece` sends the text as `Content`; where a stop text now occurs in
///   the output it then sends `Stop` for the stop text, else where the token
///   limit is reached, `Stop` for the length. An embedding session did not
///   ask for text and ends with `Error`.
/// - `Embedding` ends an embedding session with `Embed`, provided that the
///   vector has the model's embedding dimension; in every other case the
///   session ends with `Error`.
/// - `Fault` ends the session with `Error`.
/// - `Cancel` ends the session with `Stop` for the interruption.
pub open spec fn fed(s: SessionView, signal: SignalView) -> (SessionView, Seq<TokenView>) {
    if !s.open {
        (s, Seq::empty())
    } else {
        match signal {
            SignalView::Prompt(tokens) => (SessionView { prompt_tokens: tokens, ..s }, Seq::empty()),
            SignalView::Piece(piece) => {
                if s.embed {
                    (s.closed(), seq![TokenView::Error(ErrorKind::Runtime)])
                } else {
                    let t = SessionView {
                        produced: (s.produced + 1) as usize,
                        text: s.text + piece,
                        ..s
                    };
                    if stop_hit(t.text, t.stop) {
                        (
                            t.closed(),
                            seq![
                                TokenView::Content(piece),
                                TokenView::Stop(FinishReason::Stop, t.counter()),
                            ],
                        )
                    } else if t.produced >= t.max_tokens {
                        (
                            t.closed(),
                            seq![
                                TokenView::Content(piece),
                                TokenView::Stop(FinishReason::Length, t.counter()),
                            ],
                        )
                    } else {
                        (t, seq![TokenView::Content(piece)])
                    }
                }
            },
            SignalView::Embedding(vector) => {
                if s.embed && vector.len() == s.dim {
                    (s.closed(), seq![TokenView::Embed(vector)])
                } else {
                    (s.closed(), seq![TokenView::Error(ErrorKind::Runtime)])
                }
            },
            SignalView::Fault => (s.closed(), seq![TokenView::Error(ErrorKind::Runtime)]),
            SignalView::Cancel => (
                s.closed(),
                seq![TokenView::Stop(FinishReason::Interrupted, s.counter())],
            ),
        }
    }
}

/// A session after a run of signals, and all the events sent on the way.
pub open spec fn run(s: SessionView, signals: Seq<SignalView>) -> (SessionView, Seq<TokenView>)
    decreases signals.len(),
{
    if signals.len() == 0 {
        (s, Seq::empty())
    } else {
        let (mid, sent) = run(s, signals.drop_last());
        let (end, more) = fed(mid, signals.last());
        (end, sent + more)
    }
}

/// Whether `needle` stands in `text` at `at`.
fn stands_at(text: &Vec<char>, needle: &Vec<char>, at: usize) -> (r: bool)
    requires
        at + needle.len() <= text.len(),
    ensures
        r == occurs_at(text@, needle@, at as int),
{
    let mut i: usize = 0;
    while i < needle.len()
        invariant
            i <= needle.len(),
            at + needle.len() <= text.len(),
            forall|j: int| 0 <= j < i ==> text@[at + j] == needle@[j],
        decreases needle.len() - i,
    {
        if text[at + i] != needle[i] {
            return false;
        }
        i += 1;
    }
    assert(text@.subrange(at as int, at + needle.len()) =~= needle@);
    true
}

/// Whether the non-empty `needle` occurs in `text`.
fn has(text: &Vec<char>, needle: &Vec<char>) -> (r: bool)
    requires
        needle.len() > 0,
    ensures
        r == occurs(text@, needle@),
{
    if needle.len() > text.len() {
        return false;
    }
    let last = text.len() - needle.len();
    let mut at: usize = 0;
    while at <= last
        invariant
            at <= last + 1,
            last == text.len() - needle.len(),
            needle.len() > 0,
            forall|k: int| 0 <= k < at ==> !occurs_at(text@, needle@, k),
        decreases last + 1 - at,
    {
        if stands_at(text, needle, at) {
            return true;
        }
        at += 1;
    }
    false
}

/// Whether a non-empty stop text occurs in `text`.
fn hit(text: &Vec<char>, stop: &Vec<Vec<char>>) -> (r: bool)
    ensures
        r == stop_hit(text@, views(stop@)),
{
    let mut j: usize = 0;
    while j < stop.len()
        invariant
            j <= stop.len(),
            forall|k: int|
                0 <= k < j ==> !((#[trigger] views(stop@)[k]).len() > 0 && occurs(
                    text@,
                    views(stop@)[k],
                )),
        decreases stop.len() - j,
    {
        if stop[j].len() > 0 && has(text, &stop[j]) {
            assert(views(stop@)[j as int] == stop@[j as int]@);
            return true;
        }
        j += 1;
    }
    false
}

/// A generation session.
pub struct Session {
    max_tokens: usize,
    stop: Vec<Vec<char>>,
    embed: bool,
    dim: usize,
    prompt_tokens: usize,
    produced: usize,
    text: Vec<char>,
    open: bool,
}

impl View for Session {
    type V = SessionView;

    closed spec fn view(&self) -> SessionView {
        SessionView {
            max_tokens: self.max_tokens,
            stop: views(self.stop@),
            embed: self.embed,
            dim: self.dim,
            prompt_tokens: self.prompt_tokens,
            produced: self.produced,
            text: self.text@,
            open: self.open,
        }
    }
}

impl Session {
    /// Starts the session of `request` against a model whose embedding
    /// dimension is `dim`, and hands back the events to send at once.
    pub fn open(request: &GenerateRequest, dim: usize) -> (out: (Session, Vec<Token>))
        ensures
            out.0@ == opened(request@, dim).0,
            views(out.1@) == opened(request@, dim).1,
            out.0@.wf(),
    {
        let mut stop: Vec<Vec<char>> = Vec::new();
        let mut i: usize = 0;
        while i < request.stop.len()
            invariant
                i <= request.stop.len(),
                views(stop@) == views(request.stop@).take(i as int),
            decreases request.stop.len() - i,
        {
            let ghost before = views(stop@);
            stop.push(chars_of(request.stop[i].as_str()));
            assert(views(stop@) == before.push(request.stop@[i as int]@));
            i += 1;
        }
        assert(views(request.stop@).take(request.stop.len() as int) == views(request.stop@));
        let mut session = Session {
            max_tokens: request.max_tokens,
            stop,
            embed: request.embed,
            dim,
            prompt_tokens: 0,
            produced: 0,
            text: Vec::new(),
            open: true,
        };
        let mut sent: Vec<Token> = Vec::new();
        if !request.embed && request.max_tokens == 0 {
            session.open = false;
            sent.push(Token::Stop(FinishReason::Length, session.counter()));
        }
        (session, sent)
    }

    /// Whether the session still awaits its terminal event.
    pub fn is_open(&self) -> (r: bool)
        ensures
            r == self@.open,
    {
        self.open
    }

    /// The usage figures so far.
    pub fn counter(&self) -> (out: TokenCounter)
        ensures
            out == self@.counter(),
    {
        let total = if self.prompt_tokens > usize::MAX - self.produced {
            usize::MAX
        } else {
            self.prompt_tokens + self.produced
        };
        TokenCounter {
            prompt_tokens: self.prompt_tokens,
            completion_tokens: self.produced,
            total_tokens: total,
        }
    }

    /// Takes a signal and hands back the events to send, in order.
    pub fn feed(&mut self, signal: Signal) -> (sent: Vec<Token>)
        requires
            old(self)@.wf(),
        ensures
            final(self)@ == fed(old(self)@, signal@).0,
            views(sent@) == fed(old(self)@, signal@).1,
            final(self)@.wf(),
    {
        let mut sent: Vec<Token> = Vec::new();
        if !self.open {
            return sent;
        }
        match signal {
            Signal::Prompt(tokens) => {
                self.prompt_tokens = tokens;
            },
            Signal::Piece(piece) => {
                if self.embed {
                    self.open = false;
                    sent.push(Token::Error(ErrorKind::Runtime));
                } else {
                    let mut chars = chars_of(piece.as_str());
                    self.text.append(&mut chars);
                    self.produced = self.produced + 1;
                    sent.push(Token::Content(piece));
                    if hit(&self.text, &self.stop) {
                        self.open = false;
                        sent.push(Token::Stop(FinishReason::Stop, self.counter()));
                    } else if self.produced >= self.max_tokens {
                        self.open = false;
                        sent.push(Token::Stop(FinishReason::Length, self.counter()));
                    }
                }
            },
            Signal::Embedding(vector) => {
                self.open = false;
                if self.embed && vector.len() == self.dim {
                    sent.push(Token::Embed(vector));
                } else {
                    sent.push(Token::Error(ErrorKind::Runtime));
                }
            },
            Signal::Fault => {
                self.open = false;
                sent.push(Token::Error(ErrorKind::Runtime));
            },
            Signal::Cancel => {
                let counter = self.counter();
                self.open = false;
                sent.push(Token::Stop(FinishReason::Interrupted, counter));
            },
        }
        sent
    }
}

} // verus!

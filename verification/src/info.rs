//! The runtime status service: how a status query is read, with a cached
//! snapshot to fall back on, and how a subscriber is kept up to date
//! without ever building up a backlog.
//!
//! A query is a `QueryInfo` command; what comes of it is an `Answer`.
//! Sending the command and waiting for the answer, up to a deadline, is the
//! caller's part; what to make of the answer is decided here.

use crate::api::model::Liveness;
use crate::protocol::{ChannelId, Command, CommandView, RuntimeInfo, RuntimeInfoView};
use vstd::prelude::*;

verus! {

/// What came of one status query.
#[derive(Debug, PartialEq, Eq)]
pub enum Answer {
    /// The worker sent a snapshot.
    Snapshot(RuntimeInfo),
    /// The reply channel closed without a snapshot: the worker holds no
    /// model, or is gone.
    Closed,
    /// The deadline passed before anything came.
    TimedOut,
}

/// What an `Answer` stands for.
pub enum AnswerView {
    Snapshot(RuntimeInfoView),
    Closed,
    TimedOut,
}

impl View for Answer {
    type V = AnswerView;

    open spec fn view(&self) -> AnswerView {
        match self {
            Answer::Snapshot(info) => AnswerView::Snapshot(info@),
            Answer::Closed => AnswerView::Closed,
            Answer::TimedOut => AnswerView::TimedOut,
        }
    }
}

/// Why a status query gave no snapshot.
#[derive(Debug, Clone, Copy, PartialEq, Eq, Structural)]
pub enum InfoError {
    /// The deadline passed.
    Timeout,
    /// The reply channel closed.
    ChannelClosed,
}

/// Reads the answer to one status query: the snapshot, or why there is
/// none. Used to probe whether the worker still holds a model.
pub fn try_request_info(answer: Answer) -> (out: Result<RuntimeInfo, InfoError>)
    ensures
        match answer {
            Answer::Snapshot(info) => out == Ok::<RuntimeInfo, InfoError>(info),
            Answer::Closed => out == Err::<RuntimeInfo, InfoError>(InfoError::ChannelClosed),
            Answer::TimedOut => out == Err::<RuntimeInfo, InfoError>(InfoError::Timeout),
        },
{
    match answer {
        Answer::Snapshot(info) => Ok(info),
        Answer::Closed => Err(InfoError::ChannelClosed),
        Answer::TimedOut => Err(InfoError::Timeout),
    }
}

/// What an answer says of the worker's hold on a model: a snapshot shows
/// one, a closed channel shows none, and a deadline that passed shows
/// nothing new, so the model counts as still held.
pub fn liveness(answer: &Answer) -> (out: Liveness)
    ensures
        out == match answer@ {
            AnswerView::Closed => Liveness::Absent,
            _ => Liveness::Present,
        },
{
    match answer {
        Answer::Closed => Liveness::Absent,
        _ => Liveness::Present,
    }
}

/// What a caller learns of the runtime status.
#[derive(Debug, PartialEq, Eq)]
pub enum Reading {
    /// The status as the worker just reported it.
    Fresh(RuntimeInfo),
    /// The last status that was reported, because the worker did not answer
    /// in time.
    Stale(RuntimeInfo),
    /// No model is loaded.
    Absent,
    /// The worker did not answer in time and nothing was reported before.
    Unknown,
}

/// What a `Reading` stands for.
pub enum ReadingView {
    Fresh(RuntimeInfoView),
    Stale(RuntimeInfoView),
    Absent,
    Unknown,
}

impl View for Reading {
    type V = ReadingView;

    open spec fn view(&self) -> ReadingView {
        match self {
            Reading::Fresh(info) => ReadingView::Fresh(info@),
            Reading::Stale(info) => ReadingView::Stale(info@),
            Reading::Absent => ReadingView::Absent,
            Reading::Unknown => ReadingView::Unknown,
        }
    }
}

/// What the cache holds after an answer, and what the caller is told.
///
/// - A snapshot is cached and reported as fresh.
/// - A closed channel empties the cache: what was cached describes a model
///   that is no longer held.
/// - A deadline that passed leaves the cache alone; the caller gets what is
///   cached, marked stale, or learns that nothing is known.
pub open spec fn read(cached: Option<RuntimeInfoView>, answer: AnswerView) -> (
    Option<RuntimeInfoView>,
    ReadingView,
) {
    match answer {
        AnswerView::Snapshot(info) => (Some(info), ReadingView::Fresh(info)),
        AnswerView::Closed => (None, ReadingView::Absent),
        AnswerView::TimedOut => match cached {
            Some(info) => (cached, ReadingView::Stale(info)),
            None => (cached, ReadingView::Unknown),
        },
    }
}

/// The last snapshot that a status query brought.
pub struct InfoCache {
    last: Option<RuntimeInfo>,
}

impl View for InfoCache {
    type V = Option<RuntimeInfoView>;

    closed spec fn view(&self) -> Option<RuntimeInfoView> {
        match self.last {
            Some(info) => Some(info@),
            None => None,
        }
    }
}

impl InfoCache {
    /// An empty cache.
    pub fn new() -> (out: InfoCache)
        ensures
            out@ is None,
    {
        InfoCache { last: None }
    }

    /// Reads the answer to a status query that had a deadline. The caller
    /// always gets a reading, whatever the worker did.
    pub fn request_info(&mut self, answer: Answer) -> (out: Reading)
        ensures
            final(self)@ == read(old(self)@, answer@).0,
            out@ == read(old(self)@, answer@).1,
    {
        match answer {
            Answer::Snapshot(info) => {
                self.last = Some(info.clone());
                Reading::Fresh(info)
            },
            Answer::Closed => {
                self.last = None;
                Reading::Absent
            },
            Answer::TimedOut => match &self.last {
                Some(info) => Reading::Stale(info.clone()),
                None => Reading::Unknown,
            },
        }
    }
}

/// What happens to a status subscription.
#[derive(Debug, PartialEq, Eq)]
pub enum StreamEvent {
    /// The interval has passed.
    Tick,
    /// The status query that was under way was answered.
    Answered(Answer),
    /// The subscriber can take a snapshot.
    Ready,
    /// The subscriber is gone.
    Gone,
}

/// What a `StreamEvent` stands for.
pub enum StreamEventView {
    Tick,
    Answered(AnswerView),
    Ready,
    Gone,
}

impl View for StreamEvent {
    type V = StreamEventView;

    open spec fn view(&self) -> StreamEventView {
        match self {
            StreamEvent::Tick => StreamEventView::Tick,
            StreamEvent::Answered(answer) => StreamEventView::Answered(answer@),
            StreamEvent::Ready => StreamEventView::Ready,
            StreamEvent::Gone => StreamEventView::Gone,
        }
    }
}

/// What a status subscription asks to be done.
#[derive(Debug, PartialEq, Eq)]
pub enum StreamAction {
    /// Nothing.
    Wait,
    /// Send this status query to the worker.
    Query(Command),
    /// Hand this snapshot to the subscriber.
    Push(RuntimeInfo),
    /// Stop: the subscription is over.
    End,
}

/// What a `StreamAction` stands for.
pub enum StreamActionView {
    Wait,
    Query(CommandView),
    Push(RuntimeInfoView),
    End,
}

impl View for StreamAction {
    type V = StreamActionView;

    open spec fn view(&self) -> StreamActionView {
        match self {
            StreamAction::Wait => StreamActionView::Wait,
            StreamAction::Query(command) => StreamActionView::Query(command@),
            StreamAction::Push(info) => StreamActionView::Push(info@),
            StreamAction::End => StreamActionView::End,
        }
    }
}

/// The state of a status subscription.
pub struct InfoStreamView {
    /// The channel on which the worker answers.
    pub reply: ChannelId,
    /// The newest snapshot that the subscriber has not taken yet.
    pub latest: Option<RuntimeInfoView>,
    /// Whether a status query is under way.
    pub asking: bool,
    /// Whether the subscriber is still there.
    pub open: bool,
}

/// What a subscription becomes at an event, and what it asks to be done.
///
/// - Once the subscriber is gone, every event ends the subscription.
/// - At a tick a status query is sent, unless one is still under way: the
///   worker is never asked twice at once.
/// - A snapshot that is answered takes the place of the one that waits for
///   the subscriber, if any: a slow subscriber gets the newest status and
///   never a backlog. Any other answer changes nothing but that no query is
///   under way any more.
/// - A subscriber that is ready gets the snapshot that waits, if any.
pub open spec fn streamed(s: InfoStreamView, event: StreamEventView) -> (
    InfoStreamView,
    StreamActionView,
) {
    if !s.open {
        (s, StreamActionView::End)
    } else {
        match event {
            StreamEventView::Tick => if s.asking {
                (s, StreamActionView::Wait)
            } else {
                (
                    InfoStreamView { asking: true, ..s },
                    StreamActionView::Query(CommandView::QueryInfo { reply: s.reply }),
                )
            },
            StreamEventView::Answered(AnswerView::Snapshot(info)) => (
                InfoStreamView { latest: Some(info), asking: false, ..s },
                StreamActionView::Wait,
            ),
            StreamEventView::Answered(_) => (
                InfoStreamView { asking: false, ..s },
                StreamActionView::Wait,
            ),
            StreamEventView::Ready => match s.latest {
                Some(info) => (InfoStreamView { latest: None, ..s }, StreamActionView::Push(info)),
                None => (s, StreamActionView::Wait),
            },
            StreamEventView::Gone => (
                InfoStreamView { latest: None, open: false, ..s },
                StreamActionView::End,
            ),
        }
    }
}

/// A status subscription.
pub struct InfoStream {
    reply: ChannelId,
    latest: Option<RuntimeInfo>,
    asking: bool,
    open: bool,
}

impl View for InfoStream {
    type V = InfoStreamView;

    closed spec fn view(&self) -> InfoStreamView {
        InfoStreamView {
            reply: self.reply,
            latest: match self.latest {
                Some(info) => Some(info@),
                None => None,
            },
            asking: self.asking,
            open: self.open,
        }
    }
}

impl InfoStream {
    /// A subscription whose status queries are answered on `reply`.
    pub fn new(reply: ChannelId) -> (out: InfoStream)
        ensures
            out@ == (InfoStreamView { reply, latest: None, asking: false, open: true }),
    {
        InfoStream { reply, latest: None, asking: false, open: true }
    }

    /// Takes an event of the subscription and says what to do.
    pub fn request_info_stream(&mut self, event: StreamEvent) -> (out: StreamAction)
        ensures
            final(self)@ == streamed(old(self)@, event@).0,
            out@ == streamed(old(self)@, event@).1,
    {
        if !self.open {
            return StreamAction::End;
        }
        match event {
            StreamEvent::Tick => {
                if self.asking {
                    StreamAction::Wait
                } else {
                    self.asking = true;
                    StreamAction::Query(Command::QueryInfo { reply: self.reply })
                }
            },
            StreamEvent::Answered(answer) => {
                self.asking = false;
                match answer {
                    Answer::Snapshot(info) => {
                        self.latest = Some(info);
                    },
                    _ => {},
                }
                StreamAction::Wait
            },
            StreamEvent::Ready => {
                let mut latest: Option<RuntimeInfo> = None;
                core::mem::swap(&mut self.latest, &mut latest);
                match latest {
                    Some(info) => StreamAction::Push(info),
                    None => StreamAction::Wait,
                }
            },
            StreamEvent::Gone => {
                self.latest = None;
                self.open = false;
                StreamAction::End
            },
        }
    }
}

/// Of two snapshots that are answered before the subscriber is ready, the
/// subscriber gets the second and nothing else: the first is dropped, and
/// when the subscriber is ready again, nothing waits.
pub proof fn lemma_stream_keeps_newest(
    s: InfoStreamView,
    older: RuntimeInfoView,
    newer: RuntimeInfoView,
)
    requires
        s.open,
    ensures
        ({
            let a = streamed(s, StreamEventView::Answered(AnswerView::Snapshot(older))).0;
            let b = streamed(a, StreamEventView::Answered(AnswerView::Snapshot(newer))).0;
            let (c, first) = streamed(b, StreamEventView::Ready);
            let (d, second) = streamed(c, StreamEventView::Ready);
            &&& first == StreamActionView::Push(newer)
            &&& second == StreamActionView::Wait
            &&& d.latest is None
        }),
{
}

/// While a status query is under way, a tick sends no other.
pub proof fn lemma_stream_asks_once(s: InfoStreamView)
    requires
        s.open,
        !s.asking,
    ensures
        ({
            let (a, first) = streamed(s, StreamEventView::Tick);
            let (b, second) = streamed(a, StreamEventView::Tick);
            &&& first == StreamActionView::Query(CommandView::QueryInfo { reply: s.reply })
            &&& second == StreamActionView::Wait
            &&& b == a
        }),
{
}

/// Once the subscriber is gone, every event ends the subscription, and no
/// query is sent and no snapshot kept.
pub proof fn lemma_stream_ends(s: InfoStreamView, event: StreamEventView)
    requires
        s.open,
    ensures
        ({
            let gone = streamed(s, StreamEventView::Gone).0;
            &&& gone.latest is None
            &&& streamed(gone, event) == (gone, StreamActionView::End)
        }),
{
}

} // verus!

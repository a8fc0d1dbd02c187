//! The model worker: the one owner of the loaded model, which takes the
//! commands one at a time in the order in which they arrive.
//!
//! The worker decides; the model runtime computes. For each command the
//! worker hands back the actions to perform, in order. An action that loads,
//! releases or writes something is performed to completion by the runtime,
//! which then reports the outcome; until then the worker is busy and admits
//! no further command. Sessions go on while the worker waits for commands:
//! what the runtime computes for them reaches the worker as signals.
//!
//! A command that replaces or releases the model never takes the model away
//! from a running session. Under the `Cancel` policy the worker first ends
//! every active session with `Stop` for the interruption; under the `Drain`
//! policy it first waits until every active session has ended by itself.
//! Either way the model is touched, and the command answered, only after the
//! terminal event of every session.

use crate::lists::{lemma_views_push, views};
use crate::protocol::{
    ChannelId, Command, CommandView, ErrorKind, FinishReason, GenerateRequest, GenerateView,
    InitState, InitStateView, ModelInfo, ReloadRequest, ReloadView, ReplyTo, RuntimeInfo,
    RuntimeInfoView, SaveRequest, SaveView, State, StateId, StateView, Token, TokenView,
};
use crate::session::{fed, opened, Session, SessionView, Signal, SignalView};
use crate::worker_laws::lemma_place;
use vstd::prelude::*;

verus! {

/// What the worker does with the active sessions when the model is to be
/// replaced or released.
#[derive(Debug, Clone, Copy, PartialEq, Eq, Structural)]
pub enum Policy {
    /// End them at once, each with `Stop` for the interruption.
    Cancel,
    /// Wait until each has ended by itself.
    Drain,
}

/// What the runtime reports when it has performed an action.
#[derive(Debug, Clone, Copy, PartialEq, Eq, Structural)]
pub enum Outcome {
    /// The action failed.
    Failed,
    /// A model was loaded; this is its metadata.
    Loaded(ModelInfo),
    /// A state was loaded, or the model was written.
    Done,
}

/// An operation that was admitted and is not yet completed.
#[derive(Debug, PartialEq, Eq)]
#[allow(inconsistent_fields)]
pub enum Pending {
    Reload { request: ReloadRequest, reply: ReplyTo },
    Unload,
    StateLoad { request: State, reply: ReplyTo },
    Save { reply: ChannelId },
}

/// What a `Pending` stands for.
#[allow(inconsistent_fields)]
pub enum PendingView {
    Reload { request: ReloadView, reply: ReplyTo },
    Unload,
    StateLoad { request: StateView, reply: ReplyTo },
    Save { reply: ChannelId },
}

impl View for Pending {
    type V = PendingView;

    open spec fn view(&self) -> PendingView {
        match self {
            Pending::Reload { request, reply } => PendingView::Reload {
                request: request@,
                reply: *reply,
            },
            Pending::Unload => PendingView::Unload,
            Pending::StateLoad { request, reply } => PendingView::StateLoad {
                request: request@,
                reply: *reply,
            },
            Pending::Save { reply } => PendingView::Save { reply: *reply },
        }
    }
}

/// What the worker is doing.
#[derive(Debug, PartialEq, Eq)]
pub enum Phase {
    /// It awaits the next command.
    Ready,
    /// It awaits the end of the active sessions, to replace or release the
    /// model then.
    Draining(Pending),
    /// It awaits the outcome of an action.
    Busy(Pending),
}

/// What a `Phase` stands for.
pub enum PhaseView {
    Ready,
    Draining(PendingView),
    Busy(PendingView),
}

impl View for Phase {
    type V = PhaseView;

    open spec fn view(&self) -> PhaseView {
        match self {
            Phase::Ready => PhaseView::Ready,
            Phase::Draining(pending) => PhaseView::Draining(pending@),
            Phase::Busy(pending) => PhaseView::Busy(pending@),
        }
    }
}

/// What the worker asks to be done.
#[derive(Debug, PartialEq, Eq)]
#[allow(inconsistent_fields)]
pub enum Action {
    /// Send an event to the consumer of a session.
    Emit { session: ChannelId, token: Token },
    /// Close the channel of a session and stop computing for it.
    Close { session: ChannelId },
    /// Start computing for a session.
    Start { session: ChannelId, request: GenerateRequest, tokenizer: u64 },
    /// Load a model, with its adapters and initial states; report `Loaded`
    /// with its metadata, or `Failed`.
    Load { request: ReloadRequest },
    /// Release the model.
    Release,
    /// Load an initial state under the given id; report `Done` or `Failed`.
    LoadState { id: StateId, request: State },
    /// Write the model as a prefab; report `Done` or `Failed`.
    Save { request: SaveRequest },
    /// Answer a command: whether it succeeded.
    Reply { channel: ChannelId, ok: bool },
    /// Answer a status query: the snapshot, or nothing where no model is
    /// loaded.
    Info { channel: ChannelId, info: Option<RuntimeInfo> },
}

/// What an `Action` stands for.
#[allow(inconsistent_fields)]
pub enum ActionView {
    Emit { session: ChannelId, token: TokenView },
    Close { session: ChannelId },
    Start { session: ChannelId, request: GenerateView, tokenizer: u64 },
    Load { request: ReloadView },
    Release,
    LoadState { id: StateId, request: StateView },
    Save { request: SaveView },
    Reply { channel: ChannelId, ok: bool },
    Info { channel: ChannelId, info: Option<RuntimeInfoView> },
}

impl View for Action {
    type V = ActionView;

    open spec fn view(&self) -> ActionView {
        match self {
            Action::Emit { session, token } => ActionView::Emit { session: *session, token: token@ },
            Action::Close { session } => ActionView::Close { session: *session },
            Action::Start { session, request, tokenizer } => ActionView::Start {
                session: *session,
                request: request@,
                tokenizer: *tokenizer,
            },
            Action::Load { request } => ActionView::Load { request: request@ },
            Action::Release => ActionView::Release,
            Action::LoadState { id, request } => ActionView::LoadState { id: *id, request: request@ },
            Action::Save { request } => ActionView::Save { request: request@ },
            Action::Reply { channel, ok } => ActionView::Reply { channel: *channel, ok: *ok },
            Action::Info { channel, info } => ActionView::Info {
                channel: *channel,
                info: match info {
                    Some(info) => Some(info@),
                    None => None,
                },
            },
        }
    }
}

/// An active session and the channel of its events.
pub struct ActiveView {
    pub channel: ChannelId,
    pub session: SessionView,
}

/// The state of the worker.
pub struct WorkerView {
    pub policy: Policy,
    /// The status of the loaded model, if one is loaded.
    pub loaded: Option<RuntimeInfoView>,
    /// The active sessions, in the order in which they started.
    pub sessions: Seq<ActiveView>,
    pub phase: PhaseView,
    /// How many loads have succeeded.
    pub loads: u64,
}

impl WorkerView {
    /// What always holds of a worker:
    /// - every active session is open, and there is none without a model;
    /// - the initial states are numbered in registration order, so that no
    ///   two carry the same id;
    /// - the worker drains only under the `Drain` policy, only while a
    ///   session is active, and only to replace or release the model;
    /// - while a model is being loaded no session is active;
    /// - a state is loaded and a model is written only while one is loaded.
    pub open spec fn wf(self) -> bool {
        &&& forall|i: int|
            0 <= i < self.sessions.len() ==> (#[trigger] self.sessions[i]).session.open
                && self.sessions[i].session.wf()
        &&& self.sessions.len() > 0 ==> self.loaded is Some
        &&& self.loaded matches Some(info) ==> forall|i: int|
            0 <= i < info.states.len() ==> (#[trigger] info.states[i]).id == StateId(i as u64)
        &&& match self.phase {
            PhaseView::Ready => true,
            PhaseView::Draining(pending) => {
                &&& self.policy == Policy::Drain
                &&& self.sessions.len() > 0
                &&& (pending is Reload || pending is Unload)
            },
            PhaseView::Busy(pending) => match pending {
                PendingView::Reload { .. } => self.sessions.len() == 0,
                PendingView::Unload => false,
                _ => self.loaded is Some,
            },
        }
    }

    /// Whether the worker admits a command.
    pub open spec fn ready(self) -> bool {
        self.phase is Ready
    }
}

/// A worker as it starts: nothing loaded, no session, ready.
pub open spec fn started(policy: Policy) -> WorkerView {
    WorkerView { policy, loaded: None, sessions: Seq::empty(), phase: PhaseView::Ready, loads: 0 }
}

/// The action that answers a command, where somebody waits for the answer.
pub open spec fn answer(reply: ReplyTo, ok: bool) -> Seq<ActionView> {
    match reply {
        ReplyTo::Nobody => Seq::empty(),
        ReplyTo::Channel(channel) => seq![ActionView::Reply { channel, ok }],
    }
}

/// The actions that send the events of a session.
pub open spec fn emits(channel: ChannelId, sent: Seq<TokenView>) -> Seq<ActionView> {
    Seq::new(sent.len(), |i: int| ActionView::Emit { session: channel, token: sent[i] })
}

/// The actions that cancel open sessions, in starting order: each gets
/// `Stop` for the interruption, with its counter, and is closed.
pub open spec fn cancellations(sessions: Seq<ActiveView>) -> Seq<ActionView>
    decreases sessions.len(),
{
    if sessions.len() == 0 {
        Seq::empty()
    } else {
        let last = sessions.last();
        cancellations(sessions.drop_last()).push(
            ActionView::Emit {
                session: last.channel,
                token: TokenView::Stop(FinishReason::Interrupted, last.session.counter()),
            },
        ).push(ActionView::Close { session: last.channel })
    }
}

/// The registry that a load brings: the initial states of the request,
/// numbered from zero in the order of the request.
pub open spec fn registry(states: Seq<StateView>) -> Seq<InitStateView> {
    Seq::new(
        states.len(),
        |i: int| InitStateView { id: StateId(i as u64), name: states[i].name, path: states[i].path },
    )
}

/// The count of loads after one more, which stops at the largest number
/// that fits.
pub open spec fn one_more(loads: u64) -> u64 {
    if loads < u64::MAX {
        (loads + 1) as u64
    } else {
        loads
    }
}

/// The worker sets about replacing or releasing the model, with no session
/// left: a load is handed to the runtime, and the worker is busy until the
/// outcome is reported; a release is handed over, if there is anything to
/// release, and takes effect at once.
pub open spec fn begun(w: WorkerView, pending: PendingView) -> (WorkerView, Seq<ActionView>) {
    match pending {
        PendingView::Reload { request, reply } => (
            WorkerView { phase: PhaseView::Busy(pending), ..w },
            seq![ActionView::Load { request }],
        ),
        _ => (
            WorkerView { loaded: None, phase: PhaseView::Ready, ..w },
            if w.loaded is Some {
                seq![ActionView::Release]
            } else {
                Seq::empty()
            },
        ),
    }
}

/// The worker admits a command that replaces or releases the model. With no
/// active session it sets about it at once. Else, under `Cancel`, it cancels
/// every session first; under `Drain`, it waits.
pub open spec fn displaced(w: WorkerView, pending: PendingView) -> (WorkerView, Seq<ActionView>) {
    if w.sessions.len() == 0 {
        begun(w, pending)
    } else {
        match w.policy {
            Policy::Cancel => {
                let (next, actions) = begun(WorkerView { sessions: Seq::empty(), ..w }, pending);
                (next, cancellations(w.sessions) + actions)
            },
            Policy::Drain => (WorkerView { phase: PhaseView::Draining(pending), ..w }, Seq::empty()),
        }
    }
}

/// What a ready worker becomes at a command, and what it asks to be done.
///
/// - `QueryInfo` is answered at once with the status, or with nothing where
///   no model is loaded.
/// - `Generate` without a model is answered with `Error`. Else the session
///   starts against the loaded model; one that ends as it starts is answered
///   and closed at once, any other becomes active and is handed to the
///   runtime.
/// - `Reload` and `Unload` displace the model, see `displaced`.
/// - `StateLoad` and `Save` without a model are answered with failure. Else
///   they are handed to the runtime, the state under the next free id.
pub open spec fn handled(w: WorkerView, command: CommandView) -> (WorkerView, Seq<ActionView>) {
    match command {
        CommandView::QueryInfo { reply } => (w, seq![ActionView::Info { channel: reply, info: w.loaded }]),
        CommandView::Generate { request, tokenizer, output } => match w.loaded {
            None => (
                w,
                seq![
                    ActionView::Emit { session: output, token: TokenView::Error(ErrorKind::NoModel) },
                    ActionView::Close { session: output },
                ],
            ),
            Some(info) => {
                let (session, sent) = opened(request, info.model.num_emb);
                if session.open {
                    (
                        WorkerView {
                            sessions: w.sessions.push(ActiveView { channel: output, session }),
                            ..w
                        },
                        seq![ActionView::Start { session: output, request, tokenizer }],
                    )
                } else {
                    (w, emits(output, sent).push(ActionView::Close { session: output }))
                }
            },
        },
        CommandView::Reload { request, reply } => displaced(
            w,
            PendingView::Reload { request, reply },
        ),
        CommandView::Unload => displaced(w, PendingView::Unload),
        CommandView::StateLoad { request, reply } => match w.loaded {
            None => (w, answer(reply, false)),
            Some(info) => (
                WorkerView {
                    phase: PhaseView::Busy(PendingView::StateLoad { request, reply }),
                    ..w
                },
                seq![ActionView::LoadState { id: StateId(info.states.len() as u64), request }],
            ),
        },
        CommandView::Save { request, reply } => match w.loaded {
            None => (w, seq![ActionView::Reply { channel: reply, ok: false }]),
            Some(info) => (
                WorkerView { phase: PhaseView::Busy(PendingView::Save { reply }), ..w },
                seq![ActionView::Save { request }],
            ),
        },
    }
}

/// What a worker becomes when the runtime reports an outcome, and what it
/// asks to be done. A worker that is not busy ignores the report. A busy
/// worker becomes ready and answers the command.
///
/// - A load that succeeded installs the request, the metadata and the
///   registry of the request's initial states. A load that failed leaves
///   what was loaded before as it was.
/// - A state load that succeeded registers the state under the next id.
/// - A save changes nothing.
pub open spec fn completed(w: WorkerView, outcome: Outcome) -> (WorkerView, Seq<ActionView>) {
    match w.phase {
        PhaseView::Busy(PendingView::Reload { request, reply }) => match outcome {
            Outcome::Loaded(model) => (
                WorkerView {
                    loaded: Some(
                        RuntimeInfoView {
                            reload: request,
                            model,
                            states: registry(request.state),
                            tokenizer: one_more(w.loads),
                        },
                    ),
                    phase: PhaseView::Ready,
                    loads: one_more(w.loads),
                    ..w
                },
                answer(reply, true),
            ),
            _ => (WorkerView { phase: PhaseView::Ready, ..w }, answer(reply, false)),
        },
        PhaseView::Busy(PendingView::StateLoad { request, reply }) => match (outcome, w.loaded) {
            (Outcome::Done, Some(info)) => (
                WorkerView {
                    loaded: Some(
                        RuntimeInfoView {
                            states: info.states.push(
                                InitStateView {
                                    id: StateId(info.states.len() as u64),
                                    name: request.name,
                                    path: request.path,
                                },
                            ),
                            ..info
                        },
                    ),
                    phase: PhaseView::Ready,
                    ..w
                },
                answer(reply, true),
            ),
            _ => (WorkerView { phase: PhaseView::Ready, ..w }, answer(reply, false)),
        },
        PhaseView::Busy(PendingView::Save { reply }) => (
            WorkerView { phase: PhaseView::Ready, ..w },
            seq![ActionView::Reply { channel: reply, ok: outcome == Outcome::Done }],
        ),
        _ => (w, Seq::empty()),
    }
}

/// The answer to an operation that was admitted and will not be completed:
/// failure, for whoever waits for it.
pub open spec fn given_up(pending: PendingView) -> Seq<ActionView> {
    match pending {
        PendingView::Reload { request, reply } => answer(reply, false),
        PendingView::Unload => Seq::empty(),
        PendingView::StateLoad { request, reply } => answer(reply, false),
        PendingView::Save { reply } => seq![ActionView::Reply { channel: reply, ok: false }],
    }
}

/// The answer to what a phase holds, when it is given up.
pub open spec fn given_up_phase(phase: PhaseView) -> Seq<ActionView> {
    match phase {
        PhaseView::Ready => Seq::empty(),
        PhaseView::Draining(pending) => given_up(pending),
        PhaseView::Busy(pending) => given_up(pending),
    }
}

/// What a worker becomes when it gives up, and what it asks to be done:
/// every active session is cancelled, the operation that it drains for or
/// is busy with is answered with failure, and the model is released. The
/// worker is left as it started, but for the count of loads.
pub open spec fn abandoned(w: WorkerView) -> (WorkerView, Seq<ActionView>) {
    (
        WorkerView { loaded: None, sessions: Seq::empty(), phase: PhaseView::Ready, ..w },
        cancellations(w.sessions) + given_up_phase(w.phase) + if w.loaded is Some {
            seq![ActionView::Release]
        } else {
            Seq::empty()
        },
    )
}

/// The place of the first active session on a channel, or `-1`.
pub open spec fn place(sessions: Seq<ActiveView>, channel: ChannelId) -> int
    decreases sessions.len(),
{
    if sessions.len() == 0 {
        -1
    } else {
        let before = place(sessions.drop_last(), channel);
        if before >= 0 {
            before
        } else if sessions.last().channel == channel {
            sessions.len() - 1
        } else {
            -1
        }
    }
}

/// What a worker becomes when something is reported of a session, and what
/// it asks to be done. A report for a channel without an active session is
/// ignored. Else the session takes the signal and its events are sent; a
/// session that has ended is closed and is active no more. When the last
/// session ends while the worker drains, the worker sets about what it was
/// draining for.
pub open spec fn signalled(w: WorkerView, channel: ChannelId, signal: SignalView) -> (
    WorkerView,
    Seq<ActionView>,
) {
    let at = place(w.sessions, channel);
    if at < 0 {
        (w, Seq::empty())
    } else {
        let (session, sent) = fed(w.sessions[at].session, signal);
        if session.open {
            (
                WorkerView { sessions: w.sessions.update(at, ActiveView { channel, session }), ..w },
                emits(channel, sent),
            )
        } else {
            let rest = WorkerView { sessions: w.sessions.remove(at), ..w };
            let actions = emits(channel, sent).push(ActionView::Close { session: channel });
            match w.phase {
                PhaseView::Draining(pending) if rest.sessions.len() == 0 => {
                    let (next, more) = begun(WorkerView { phase: PhaseView::Ready, ..rest }, pending);
                    (next, actions + more)
                },
                _ => (rest, actions),
            }
        }
    }
}

/// An active session and the channel of its events.
pub struct Active {
    channel: ChannelId,
    session: Session,
}

impl View for Active {
    type V = ActiveView;

    closed spec fn view(&self) -> ActiveView {
        ActiveView { channel: self.channel, session: self.session@ }
    }
}

/// The model worker.
pub struct Worker {
    policy: Policy,
    loaded: Option<RuntimeInfo>,
    sessions: Vec<Active>,
    phase: Phase,
    loads: u64,
}

impl View for Worker {
    type V = WorkerView;

    closed spec fn view(&self) -> WorkerView {
        WorkerView {
            policy: self.policy,
            loaded: match self.loaded {
                Some(info) => Some(info@),
                None => None,
            },
            sessions: views(self.sessions@),
            phase: self.phase@,
            loads: self.loads,
        }
    }
}

/// Appends the action that answers a command, where somebody waits for it.
pub(crate) fn push_answer(actions: &mut Vec<Action>, reply: ReplyTo, ok: bool)
    ensures
        views(final(actions)@) == views(old(actions)@) + answer(reply, ok),
{
    match reply {
        ReplyTo::Nobody => {},
        ReplyTo::Channel(channel) => {
            actions.push(Action::Reply { channel, ok });
        },
    }
}

/// Appends the actions that send the events of a session, and moves the
/// events into them.
fn push_emits(actions: &mut Vec<Action>, channel: ChannelId, sent: Vec<Token>)
    ensures
        views(final(actions)@) == views(old(actions)@) + emits(channel, views(sent@)),
{
    broadcast use vstd::std_specs::vec::axiom_spec_into_iter;

    let ghost all = views(sent@);
    let ghost start = views(actions@);
    for token in it: sent.into_iter()
        invariant
            it.seq() == sent@,
            all == views(sent@),
            views(actions@) == start + emits(channel, all.take(it.index())),
    {
        let ghost before = actions@;
        actions.push(Action::Emit { session: channel, token });
        proof {
            lemma_views_push(before, actions@.last());
        }
    }
}

impl Worker {
    /// A worker with nothing loaded.
    pub fn new(policy: Policy) -> (out: Worker)
        ensures
            out@ == started(policy),
            out@.wf(),
    {
        let out = Worker { policy, loaded: None, sessions: Vec::new(), phase: Phase::Ready, loads: 0 };
        proof {
            assert(out@.sessions =~= Seq::<ActiveView>::empty());
        }
        out
    }

    /// Whether the worker admits a command.
    pub fn is_ready(&self) -> (r: bool)
        ensures
            r == self@.ready(),
    {
        match &self.phase {
            Phase::Ready => true,
            _ => false,
        }
    }

    /// The status of the loaded model, if one is loaded. The registry of a
    /// well-formed worker is a mapping from ids to states.
    pub fn info(&self) -> (out: Option<RuntimeInfo>)
        ensures
            out is Some <==> self@.loaded is Some,
            out matches Some(info) ==> Some(info@) == self@.loaded,
            out matches Some(info) ==> self@.wf() ==> info@.is_mapping(),
    {
        match &self.loaded {
            Some(info) => {
                proof {
                    let states = info@.states;
                    assert(states.len() == info.states.len());
                    assert(info.states.len() <= usize::MAX <= u64::MAX);
                    if self@.wf() {
                        assert forall|i: int, j: int| 0 <= i < j < states.len() implies (
                        #[trigger] states[i]).id != (#[trigger] states[j]).id by {
                            assert(states[i].id == StateId(i as u64));
                            assert(states[j].id == StateId(j as u64));
                        }
                    }
                }
                Some(info.clone())
            },
            None => None,
        }
    }

    /// How many sessions are active.
    pub fn active(&self) -> (n: usize)
        ensures
            n == self@.sessions.len(),
    {
        self.sessions.len()
    }

    /// Cancels every active session, and appends the actions that tell so.
    fn cancel_all(&mut self, actions: &mut Vec<Action>)
        ensures
            final(self)@ == (WorkerView { sessions: Seq::empty(), ..old(self)@ }),
            views(final(actions)@) == views(old(actions)@) + cancellations(old(self)@.sessions),
    {
        let ghost all = self@.sessions;
        let ghost start = views(actions@);
        let mut sessions: Vec<Active> = Vec::new();
        core::mem::swap(&mut self.sessions, &mut sessions);
        assert(self@.sessions =~= Seq::<ActiveView>::empty());
        let mut i: usize = 0;
        while i < sessions.len()
            invariant
                i <= sessions.len(),
                views(sessions@) == all,
                views(actions@) == start + cancellations(all.take(i as int)),
            decreases sessions.len() - i,
        {
            let active = &sessions[i];
            let channel = active.channel;
            let counter = active.session.counter();
            let ghost a0 = actions@;
            actions.push(
                Action::Emit { session: channel, token: Token::Stop(FinishReason::Interrupted, counter) },
            );
            let ghost a1 = actions@;
            actions.push(Action::Close { session: channel });
            proof {
                lemma_views_push(a0, a1.last());
                lemma_views_push(a1, actions@.last());
                let now = all.take(i + 1);
                assert(now.drop_last() == all.take(i as int));
            }
            i += 1;
        }
        assert(all.take(all.len() as int) == all);
    }

    /// Sets about replacing or releasing the model, with no session left.
    fn begin(&mut self, pending: Pending, actions: &mut Vec<Action>)
        requires
            pending@ is Reload || pending@ is Unload,
        ensures
            final(self)@ == begun(old(self)@, pending@).0,
            views(final(actions)@) == views(old(actions)@) + begun(old(self)@, pending@).1,
    {
        match pending {
            Pending::Reload { request, reply } => {
                actions.push(Action::Load { request: request.clone() });
                self.phase = Phase::Busy(Pending::Reload { request, reply });
            },
            _ => {
                if self.loaded.is_some() {
                    actions.push(Action::Release);
                }
                self.loaded = None;
                self.phase = Phase::Ready;
            },
        }
    }

    /// Admits a command that replaces or releases the model.
    fn displace(&mut self, pending: Pending, actions: &mut Vec<Action>)
        requires
            old(self)@.wf(),
            old(actions)@.len() == 0,
            pending@ is Reload || pending@ is Unload,
        ensures
            final(self)@ == displaced(old(self)@, pending@).0,
            views(final(actions)@) == displaced(old(self)@, pending@).1,
    {
        if self.sessions.len() == 0 {
            self.begin(pending, actions);
            assert(views(old(actions)@) + begun(old(self)@, pending@).1 =~= begun(
                old(self)@,
                pending@,
            ).1);
        } else {
            match self.policy {
                Policy::Cancel => {
                    self.cancel_all(actions);
                    let ghost mid = self@;
                    self.begin(pending, actions);
                    assert(views(old(actions)@) + cancellations(old(self)@.sessions) + begun(
                        mid,
                        pending@,
                    ).1 =~= cancellations(old(self)@.sessions) + begun(mid, pending@).1);
                },
                Policy::Drain => {
                    self.phase = Phase::Draining(pending);
                },
            }
        }
    }

    /// Takes the next command. A worker that is not ready admits none: it
    /// hands the command back and stays as it is. A ready worker hands back
    /// the actions to perform, in order.
    pub fn handle(&mut self, command: Command) -> (out: Result<Vec<Action>, Command>)
        requires
            old(self)@.wf(),
        ensures
            final(self)@.wf(),
            out is Ok <==> old(self)@.ready(),
            out matches Ok(actions) ==> {
                &&& final(self)@ == handled(old(self)@, command@).0
                &&& views(actions@) == handled(old(self)@, command@).1
            },
            out matches Err(back) ==> back == command && final(self)@ == old(self)@,
    {
        if !self.is_ready() {
            return Err(command);
        }
        let mut actions: Vec<Action> = Vec::new();
        match command {
            Command::QueryInfo { reply } => {
                actions.push(Action::Info { channel: reply, info: self.info() });
            },
            Command::Generate { request, tokenizer, output } => {
                let dim = match &self.loaded {
                    Some(info) => Some(info.model.num_emb),
                    None => None,
                };
                match dim {
                    None => {
                        actions.push(
                            Action::Emit { session: output, token: Token::Error(ErrorKind::NoModel) },
                        );
                        actions.push(Action::Close { session: output });
                    },
                    Some(dim) => {
                        let (session, sent) = Session::open(&request, dim);
                        if session.is_open() {
                            let ghost before = self.sessions@;
                            self.sessions.push(Active { channel: output, session });
                            actions.push(Action::Start { session: output, request, tokenizer });
                            proof {
                                lemma_views_push(before, self.sessions@.last());
                            }
                        } else {
                            push_emits(&mut actions, output, sent);
                            actions.push(Action::Close { session: output });
                        }
                    },
                }
            },
            Command::Reload { request, reply } => {
                self.displace(Pending::Reload { request, reply }, &mut actions);
            },
            Command::Unload => {
                self.displace(Pending::Unload, &mut actions);
            },
            Command::StateLoad { request, reply } => {
                let next = match &self.loaded {
                    Some(info) => Some(info.states.len()),
                    None => None,
                };
                match next {
                    None => {
                        push_answer(&mut actions, reply, false);
                    },
                    Some(next) => {
                        actions.push(
                            Action::LoadState { id: StateId(next as u64), request: request.clone() },
                        );
                        self.phase = Phase::Busy(Pending::StateLoad { request, reply });
                    },
                }
            },
            Command::Save { request, reply } => {
                if self.loaded.is_some() {
                    actions.push(Action::Save { request });
                    self.phase = Phase::Busy(Pending::Save { reply });
                } else {
                    actions.push(Action::Reply { channel: reply, ok: false });
                }
            },
        }
        Ok(actions)
    }

    /// Takes the outcome of the action that the worker is busy with, and
    /// hands back the actions to perform, in order. A worker that is not
    /// busy ignores the outcome.
    pub fn complete(&mut self, outcome: Outcome) -> (actions: Vec<Action>)
        requires
            old(self)@.wf(),
        ensures
            final(self)@.wf(),
            final(self)@ == completed(old(self)@, outcome).0,
            views(actions@) == completed(old(self)@, outcome).1,
    {
        let mut actions: Vec<Action> = Vec::new();
        let mut phase = Phase::Ready;
        core::mem::swap(&mut self.phase, &mut phase);
        match phase {
            Phase::Busy(Pending::Reload { request, reply }) => {
                match outcome {
                    Outcome::Loaded(model) => {
                        let loads = if self.loads < u64::MAX {
                            self.loads + 1
                        } else {
                            self.loads
                        };
                        let mut states: Vec<InitState> = Vec::new();
                        let mut i: usize = 0;
                        while i < request.state.len()
                            invariant
                                i <= request.state.len(),
                                views(states@) == registry(request@.state).take(i as int),
                            decreases request.state.len() - i,
                        {
                            let ghost before = states@;
                            let item = &request.state[i];
                            states.push(
                                InitState {
                                    id: StateId(i as u64),
                                    name: item.name.clone(),
                                    path: item.path.clone(),
                                },
                            );
                            proof {
                                lemma_views_push(before, states@.last());
                            }
                            i += 1;
                        }
                        assert(registry(request@.state).take(request.state.len() as int)
                            == registry(request@.state));
                        self.loaded = Some(RuntimeInfo { reload: request, model, states, tokenizer: loads });
                        self.loads = loads;
                        push_answer(&mut actions, reply, true);
                    },
                    _ => {
                        push_answer(&mut actions, reply, false);
                    },
                }
            },
            Phase::Busy(Pending::StateLoad { request, reply }) => {
                let mut loaded: Option<RuntimeInfo> = None;
                core::mem::swap(&mut self.loaded, &mut loaded);
                match (outcome, loaded) {
                    (Outcome::Done, Some(info)) => {
                        let RuntimeInfo { reload, model, states, tokenizer } = info;
                        let mut states = states;
                        let ghost before = states@;
                        let id = StateId(states.len() as u64);
                        states.push(InitState { id, name: request.name, path: request.path });
                        proof {
                            lemma_views_push(before, states@.last());
                        }
                        self.loaded = Some(RuntimeInfo { reload, model, states, tokenizer });
                        push_answer(&mut actions, reply, true);
                    },
                    (_, loaded) => {
                        self.loaded = loaded;
                        push_answer(&mut actions, reply, false);
                    },
                }
            },
            Phase::Busy(Pending::Save { reply }) => {
                let ok = match outcome {
                    Outcome::Done => true,
                    _ => false,
                };
                actions.push(Action::Reply { channel: reply, ok });
            },
            other => {
                self.phase = other;
            },
        }
        actions
    }

    /// Gives up: cancels every session, answers what was admitted and not
    /// completed with failure, and releases the model.
    pub fn abandon(&mut self) -> (actions: Vec<Action>)
        requires
            old(self)@.wf(),
        ensures
            final(self)@.wf(),
            final(self)@ == abandoned(old(self)@).0,
            views(actions@) == abandoned(old(self)@).1,
    {
        let mut actions: Vec<Action> = Vec::new();
        self.cancel_all(&mut actions);
        let mut phase = Phase::Ready;
        core::mem::swap(&mut self.phase, &mut phase);
        match phase {
            Phase::Ready => {},
            Phase::Draining(pending) | Phase::Busy(pending) => match pending {
                Pending::Reload { reply, .. } => {
                    push_answer(&mut actions, reply, false);
                },
                Pending::Unload => {},
                Pending::StateLoad { reply, .. } => {
                    push_answer(&mut actions, reply, false);
                },
                Pending::Save { reply } => {
                    actions.push(Action::Reply { channel: reply, ok: false });
                },
            },
        }
        if self.loaded.is_some() {
            actions.push(Action::Release);
        }
        self.loaded = None;
        actions
    }

    /// The place of the first active session on a channel.
    fn find(&self, channel: ChannelId) -> (at: Option<usize>)
        ensures
            match at {
                Some(at) => at == place(self@.sessions, channel),
                None => place(self@.sessions, channel) < 0,
            },
    {
        let mut i: usize = 0;
        while i < self.sessions.len()
            invariant
                i <= self.sessions.len(),
                forall|j: int| 0 <= j < i ==> (#[trigger] self@.sessions[j]).channel != channel,
            decreases self.sessions.len() - i,
        {
            if self.sessions[i].channel.0 == channel.0 {
                proof {
                    lemma_place(self@.sessions, channel);
                    assert(self@.sessions[i as int].channel == channel);
                }
                return Some(i);
            }
            i += 1;
        }
        proof {
            lemma_place(self@.sessions, channel);
        }
        None
    }

    /// Takes what is reported of the session on a channel, and hands back
    /// the actions to perform, in order.
    pub fn signal(&mut self, channel: ChannelId, signal: Signal) -> (actions: Vec<Action>)
        requires
            old(self)@.wf(),
        ensures
            final(self)@.wf(),
            final(self)@ == signalled(old(self)@, channel, signal@).0,
            views(actions@) == signalled(old(self)@, channel, signal@).1,
    {
        proof {
            lemma_place(self@.sessions, channel);
        }
        let mut actions: Vec<Action> = Vec::new();
        let at = match self.find(channel) {
            Some(at) => at,
            None => {
                return actions;
            },
        };
        let ghost all = self@.sessions;
        let mut active = self.sessions.remove(at);
        assert(views(self.sessions@) =~= all.remove(at as int));
        let sent = active.session.feed(signal);
        push_emits(&mut actions, channel, sent);
        if active.session.is_open() {
            self.sessions.insert(at, active);
            assert(views(self.sessions@) =~= all.update(
                at as int,
                ActiveView { channel, session: fed(all[at as int].session, signal@).0 },
            ));
        } else {
            actions.push(Action::Close { session: channel });
            if self.sessions.len() == 0 {
                let mut phase = Phase::Ready;
                core::mem::swap(&mut self.phase, &mut phase);
                match phase {
                    Phase::Draining(pending) => {
                        self.begin(pending, &mut actions);
                    },
                    other => {
                        self.phase = other;
                    },
                }
            }
        }
        actions
    }
}

} // verus!

//! What holds of the model worker in every state and at every step.

use crate::protocol::{
    ChannelId, CommandView, FinishReason, ModelInfo, ReloadView, ReplyTo, RuntimeInfoView,
    SaveView, TokenView,
};
use crate::session::{fed, SignalView};
use crate::worker::{
    abandoned, answer, cancellations, completed, emits, handled, place, registry, signalled,
    started, ActionView, ActiveView, Outcome, PendingView, PhaseView, Policy, WorkerView,
};
use vstd::prelude::*;

verus! {

/// A worker starts well formed and ready.
pub proof fn lemma_started_wf(policy: Policy)
    ensures
        started(policy).wf(),
        started(policy).ready(),
{
}

/// Every command keeps a ready worker well formed.
pub proof fn lemma_handled_wf(w: WorkerView, command: CommandView)
    requires
        w.wf(),
        w.ready(),
    ensures
        handled(w, command).0.wf(),
{
}

/// Every outcome keeps a worker well formed, and leaves it ready.
pub proof fn lemma_completed_wf(w: WorkerView, outcome: Outcome)
    requires
        w.wf(),
    ensures
        completed(w, outcome).0.wf(),
        w.phase is Busy ==> completed(w, outcome).0.ready(),
{
}

/// The place of a channel among the sessions is that of the first session on
/// that channel.
pub proof fn lemma_place(sessions: Seq<ActiveView>, channel: ChannelId)
    ensures
        ({
            let at = place(sessions, channel);
            &&& -1 <= at < sessions.len()
            &&& at >= 0 ==> sessions[at].channel == channel
            &&& forall|i: int|
                0 <= i < sessions.len() && (at < 0 || i < at) ==> (#[trigger] sessions[i]).channel
                    != channel
        }),
    decreases sessions.len(),
{
    if sessions.len() > 0 {
        lemma_place(sessions.drop_last(), channel);
        assert forall|i: int|
            0 <= i < sessions.len() && (place(sessions, channel) < 0 || i < place(
                sessions,
                channel,
            )) implies (#[trigger] sessions[i]).channel != channel by {
            if i < sessions.len() - 1 {
                assert(sessions.drop_last()[i] == sessions[i]);
            }
        }
    }
}

/// Every report of a session keeps a worker well formed.
pub proof fn lemma_signalled_wf(w: WorkerView, channel: ChannelId, signal: SignalView)
    requires
        w.wf(),
    ensures
        signalled(w, channel, signal).0.wf(),
{
    lemma_place(w.sessions, channel);
    let at = place(w.sessions, channel);
}

/// One round of loading: the request, who waits for the answer, and what
/// the runtime reports of the load.
pub struct Round {
    pub request: ReloadView,
    pub reply: ReplyTo,
    pub outcome: Outcome,
}

/// A worker after rounds of loading, one after the other: each request is
/// admitted, and then its outcome is reported.
pub open spec fn reloaded(w: WorkerView, rounds: Seq<Round>) -> WorkerView
    decreases rounds.len(),
{
    if rounds.len() == 0 {
        w
    } else {
        let last = rounds.last();
        let before = reloaded(w, rounds.drop_last());
        completed(
            handled(before, CommandView::Reload { request: last.request, reply: last.reply }).0,
            last.outcome,
        ).0
    }
}

/// The place of the last round whose load succeeded, or `-1`.
pub open spec fn last_loaded(rounds: Seq<Round>) -> int
    decreases rounds.len(),
{
    if rounds.len() == 0 {
        -1
    } else if rounds.last().outcome is Loaded {
        rounds.len() - 1
    } else {
        last_loaded(rounds.drop_last())
    }
}

/// A load is performed only when no session is active, and while it is
/// performed nothing else is admitted; when it succeeds, the status shows
/// exactly its request and the metadata that the runtime reported, and the
/// registry of the request's initial states; when it fails, the status is
/// what it was. The command is answered accordingly, once.
pub proof fn lemma_reload_round(
    w: WorkerView,
    request: ReloadView,
    reply: ReplyTo,
    outcome: Outcome,
)
    requires
        w.wf(),
        w.ready(),
        w.sessions.len() == 0,
    ensures
        ({
            let (busy, asked) = handled(w, CommandView::Reload { request, reply });
            let (end, told) = completed(busy, outcome);
            &&& asked == seq![ActionView::Load { request }]
            &&& !busy.ready()
            &&& busy.loaded == w.loaded
            &&& end.ready()
            &&& end.wf()
            &&& end.sessions.len() == 0
            &&& match outcome {
                Outcome::Loaded(model) => {
                    &&& told == answer(reply, true)
                    &&& end.loaded matches Some(info)
                    &&& info.reload == request
                    &&& info.model == model
                    &&& info.states == registry(request.state)
                },
                _ => told == answer(reply, false) && end.loaded == w.loaded,
            }
        }),
{
}

/// After any number of rounds of loading, the status shows exactly the
/// request and the metadata of the last load that succeeded, whatever was
/// asked for before or failed after; where none succeeded, the status is
/// what it was before the first.
pub proof fn lemma_reloads_in_order(w: WorkerView, rounds: Seq<Round>)
    requires
        w.wf(),
        w.ready(),
        w.sessions.len() == 0,
    ensures
        ({
            let end = reloaded(w, rounds);
            let at = last_loaded(rounds);
            &&& end.wf()
            &&& end.ready()
            &&& end.sessions.len() == 0
            &&& -1 <= at < rounds.len()
            &&& at < 0 ==> end.loaded == w.loaded
            &&& at >= 0 ==> {
                &&& end.loaded matches Some(info)
                &&& rounds[at].outcome matches Outcome::Loaded(model)
                &&& info.reload == rounds[at].request
                &&& info.model == model
                &&& info.states == registry(rounds[at].request.state)
            }
        }),
    decreases rounds.len(),
{
    if rounds.len() > 0 {
        lemma_reloads_in_order(w, rounds.drop_last());
    }
}

/// Whether a run of actions touches the model or answers a command.
pub open spec fn is_quiet(actions: Seq<ActionView>) -> bool {
    forall|i: int|
        0 <= i < actions.len() ==> !((#[trigger] actions[i]) is Load || actions[i] is Release
            || actions[i] is Reply)
}

/// Cancelling sessions neither touches the model nor answers a command.
pub proof fn lemma_cancellations_quiet(sessions: Seq<ActiveView>)
    ensures
        is_quiet(cancellations(sessions)),
        cancellations(sessions).len() == 2 * sessions.len(),
        forall|i: int|
            0 <= i < sessions.len() ==> {
                &&& #[trigger] cancellations(sessions)[2 * i] == (ActionView::Emit {
                    session: sessions[i].channel,
                    token: TokenView::Stop(FinishReason::Interrupted, sessions[i].session.counter()),
                })
                &&& cancellations(sessions)[2 * i + 1] == (ActionView::Close {
                    session: sessions[i].channel,
                })
            },
    decreases sessions.len(),
{
    if sessions.len() > 0 {
        lemma_cancellations_quiet(sessions.drop_last());
    }
}

/// Under the `Cancel` policy a command to load ends every active session
/// before the model is touched: the worker asks, for each session in
/// starting order, to send `Stop` for the interruption and to close it, and
/// only then to load. The command is answered later still, when the outcome
/// of the load is reported, and by then no session is active.
pub proof fn lemma_cancel_then_load(w: WorkerView, request: ReloadView, reply: ReplyTo)
    requires
        w.wf(),
        w.ready(),
        w.policy == Policy::Cancel,
    ensures
        ({
            let (busy, asked) = handled(w, CommandView::Reload { request, reply });
            &&& asked == cancellations(w.sessions).push(ActionView::Load { request })
            &&& is_quiet(cancellations(w.sessions))
            &&& busy.sessions.len() == 0
            &&& busy.phase == PhaseView::Busy(PendingView::Reload { request, reply })
        }),
{
    lemma_cancellations_quiet(w.sessions);
}

/// Under the `Drain` policy a command to load that finds active sessions
/// asks for nothing yet: the worker waits, and admits no other command.
pub proof fn lemma_drain_waits(w: WorkerView, request: ReloadView, reply: ReplyTo)
    requires
        w.wf(),
        w.ready(),
        w.policy == Policy::Drain,
        w.sessions.len() > 0,
    ensures
        ({
            let (waiting, asked) = handled(w, CommandView::Reload { request, reply });
            &&& asked.len() == 0
            &&& !waiting.ready()
            &&& waiting.sessions == w.sessions
            &&& waiting.loaded == w.loaded
            &&& waiting.phase == PhaseView::Draining(PendingView::Reload { request, reply })
        }),
{
}

/// While a worker drains, what is reported of the sessions touches the model
/// only when the last active session ends, and then only after the events
/// of that session, its terminal event among them, and its closing: until
/// then the model is not touched and the command is not answered; at that
/// point the worker asks to load, and awaits the outcome with no session
/// active.
pub proof fn lemma_drain_then_load(
    w: WorkerView,
    request: ReloadView,
    reply: ReplyTo,
    channel: ChannelId,
    signal: SignalView,
)
    requires
        w.wf(),
        w.phase == PhaseView::Draining(PendingView::Reload { request, reply }),
    ensures
        ({
            let (next, asked) = signalled(w, channel, signal);
            let at = place(w.sessions, channel);
            if next.sessions.len() > 0 {
                next.phase == w.phase && is_quiet(asked) && next.loaded == w.loaded
            } else {
                let sent = fed(w.sessions[at].session, signal).1;
                &&& at == 0
                &&& w.sessions.len() == 1
                &&& sent.len() > 0
                &&& sent.last().is_terminal()
                &&& asked == emits(channel, sent).push(ActionView::Close { session: channel }).push(
                    ActionView::Load { request },
                )
                &&& next.phase == PhaseView::Busy(PendingView::Reload { request, reply })
                &&& next.loaded == w.loaded
            }
        }),
{
    lemma_place(w.sessions, channel);
    let at = place(w.sessions, channel);
}

/// While a model is being loaded, no session is active: whoever is
/// answered that a load is done knows that every session that ran before
/// has had its terminal event.
pub proof fn lemma_load_excludes_sessions(w: WorkerView)
    requires
        w.wf(),
        w.phase matches PhaseView::Busy(PendingView::Reload { .. }),
    ensures
        w.sessions.len() == 0,
{
}

/// Releasing the model a second time changes nothing and asks for nothing:
/// after the first release no model is loaded, the worker is ready, and a
/// status query is answered with nothing, before and after the second.
pub proof fn lemma_unload_twice(w: WorkerView, reply: ChannelId)
    requires
        w.wf(),
        w.ready(),
        w.sessions.len() == 0 || w.policy == Policy::Cancel,
    ensures
        ({
            let once = handled(w, CommandView::Unload).0;
            let (twice, asked) = handled(once, CommandView::Unload);
            &&& once.ready()
            &&& once.loaded is None
            &&& once.sessions.len() == 0
            &&& twice == once
            &&& asked.len() == 0
            &&& handled(once, CommandView::QueryInfo { reply }).1 == seq![
                ActionView::Info { channel: reply, info: None },
            ]
        }),
{
}

/// Writing the model changes nothing of the status, and a load that follows
/// it installs the path it is given and the metadata that the runtime reads
/// back. So where the runtime reads back from a prefab the metadata of the
/// model that it wrote there, loading what was saved restores a model with
/// equal metadata.
pub proof fn lemma_save_then_reload(
    w: WorkerView,
    saved: RuntimeInfoView,
    path: Seq<char>,
    save_reply: ChannelId,
    request: ReloadView,
    reply: ReplyTo,
    read_back: ModelInfo,
)
    requires
        w.wf(),
        w.ready(),
        w.sessions.len() == 0,
        w.loaded == Some(saved),
        request.model_path == path,
    ensures
        ({
            let save = CommandView::Save { request: SaveView { path }, reply: save_reply };
            let (writing, asked) = handled(w, save);
            let (written, told) = completed(writing, Outcome::Done);
            let load = CommandView::Reload { request, reply };
            let (loading, asked_next) = handled(written, load);
            let (end, told_next) = completed(loading, Outcome::Loaded(read_back));
            &&& asked == seq![ActionView::Save { request: SaveView { path } }]
            &&& told == seq![ActionView::Reply { channel: save_reply, ok: true }]
            &&& written.loaded == Some(saved)
            &&& written.ready()
            &&& asked_next == seq![ActionView::Load { request }]
            &&& told_next == answer(reply, true)
            &&& end.loaded matches Some(info)
            &&& info.reload.model_path == path
            &&& info.model == read_back
            &&& read_back == saved.model ==> info.model == saved.model
        }),
{
}

/// The registry of a loaded model is a mapping: its initial states carry
/// distinct ids, so that an id names one state and no other. This holds of
/// every registry that a machine can hold, with no more states than there
/// are ids.
pub proof fn lemma_registry_is_mapping(w: WorkerView)
    requires
        w.wf(),
        w.loaded matches Some(info) ==> info.states.len() <= u64::MAX,
    ensures
        w.loaded matches Some(info) ==> info.is_mapping(),
{
}

/// What is reported of one session leaves every session on another channel
/// as it is: it stays active, in the same state, whatever the first session
/// does and whether or not it ends.
pub proof fn lemma_sessions_do_not_interfere(
    w: WorkerView,
    channel: ChannelId,
    signal: SignalView,
    other: ChannelId,
)
    requires
        w.wf(),
        channel != other,
        place(w.sessions, other) >= 0,
    ensures
        ({
            let next = signalled(w, channel, signal).0;
            &&& place(next.sessions, other) >= 0
            &&& next.sessions[place(next.sessions, other)] == w.sessions[place(w.sessions, other)]
            &&& next.loaded == w.loaded
        }),
{
    lemma_place(w.sessions, channel);
    lemma_place(w.sessions, other);
    let at = place(w.sessions, channel);
    let j = place(w.sessions, other);
    let next = signalled(w, channel, signal).0;
    lemma_place(next.sessions, other);
    if at >= 0 {
        let session = fed(w.sessions[at].session, signal).0;
        if session.open {
            assert(next.sessions[j] == w.sessions[j]);
        } else {
            let rest = w.sessions.remove(at);
            let moved = if j < at {
                j
            } else {
                j - 1
            };
            assert(rest[moved] == w.sessions[j]);
        }
    }
}

/// A worker that gives up leaves nobody waiting: each active session gets
/// `Stop` for the interruption and is closed, in starting order, before
/// anything else is asked for; and the worker is left well formed, ready,
/// with no model and no session.
pub proof fn lemma_abandoned_settles(w: WorkerView, i: int)
    requires
        w.wf(),
        0 <= i < w.sessions.len(),
    ensures
        ({
            let (end, asked) = abandoned(w);
            &&& end.wf()
            &&& end.ready()
            &&& end.loaded is None
            &&& end.sessions.len() == 0
            &&& asked.len() >= 2 * w.sessions.len()
            &&& asked[2 * i] == (ActionView::Emit {
                session: w.sessions[i].channel,
                token: TokenView::Stop(FinishReason::Interrupted, w.sessions[i].session.counter()),
            })
            &&& asked[2 * i + 1] == (ActionView::Close { session: w.sessions[i].channel })
        }),
{
    lemma_cancellations_quiet(w.sessions);
}

/// A state load or a save is answered exactly once. Without a model it is
/// answered with failure as it is admitted, and the worker stays ready.
/// With a model it is handed to the runtime and nothing is answered yet;
/// the answer comes with the outcome, and says whether the runtime was done.
pub proof fn lemma_answered_once(w: WorkerView, command: CommandView, outcome: Outcome)
    requires
        w.wf(),
        w.ready(),
        command is StateLoad || command is Save,
    ensures
        ({
            let (next, asked) = handled(w, command);
            let (end, told) = completed(next, outcome);
            let reply = match command {
                CommandView::StateLoad { request, reply } => reply,
                CommandView::Save { request, reply } => ReplyTo::Channel(reply),
                _ => ReplyTo::Nobody,
            };
            if w.loaded is None {
                asked == answer(reply, false) && next == w && told.len() == 0
            } else {
                &&& asked.len() == 1
                &&& asked[0] is LoadState || asked[0] is Save
                &&& !next.ready()
                &&& told == answer(reply, outcome == Outcome::Done)
                &&& end.ready()
                &&& end.sessions == w.sessions
            }
        }),
{
}

} // verus!

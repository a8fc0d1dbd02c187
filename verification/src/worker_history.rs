//! What holds of the model worker over every history: whatever arrives, in
//! whatever order, each session that is started gets exactly one terminal
//! event, no more and, once it is active no longer, no less.

use crate::protocol::{ChannelId, CommandView, FinishReason, ReplyTo, TokenView};
use crate::session::{fed, opened, SessionView, SignalView};
use crate::worker::{
    abandoned, answer, cancellations, completed, emits, given_up_phase, handled, place,
    signalled, started, ActionView, ActiveView, Outcome, PendingView, PhaseView, Policy,
    WorkerView,
};
use crate::worker_laws::{lemma_place, lemma_signalled_wf};
use vstd::prelude::*;

verus! {

/// Something that happens to a worker.
pub enum Step {
    /// A command is offered. A worker that is not ready hands it back, and
    /// nothing happens.
    Command(CommandView),
    /// The runtime reports an outcome.
    Outcome(Outcome),
    /// Something is reported of the session on a channel.
    Signal(ChannelId, SignalView),
    /// The worker gives up.
    Abandon,
}

/// What a worker becomes at a step, and what it asks to be done.
pub open spec fn stepped(w: WorkerView, step: Step) -> (WorkerView, Seq<ActionView>) {
    match step {
        Step::Command(command) => if w.ready() {
            handled(w, command)
        } else {
            (w, Seq::empty())
        },
        Step::Outcome(outcome) => completed(w, outcome),
        Step::Signal(channel, signal) => signalled(w, channel, signal),
        Step::Abandon => abandoned(w),
    }
}

/// What a worker becomes over a history, and everything it asks to be done
/// on the way, in order.
pub open spec fn ran(w: WorkerView, steps: Seq<Step>) -> (WorkerView, Seq<ActionView>)
    decreases steps.len(),
{
    if steps.len() == 0 {
        (w, Seq::empty())
    } else {
        let (mid, asked) = ran(w, steps.drop_last());
        let (end, more) = stepped(mid, steps.last());
        (end, asked + more)
    }
}

/// Whether a step starts a session on a channel: a command to generate,
/// with that channel for its events, offered to a worker that is ready.
pub open spec fn starts(w: WorkerView, step: Step, channel: ChannelId) -> bool {
    &&& w.ready()
    &&& step matches Step::Command(CommandView::Generate { request, tokenizer, output })
    &&& output == channel
}

/// How many sessions a history starts on a channel.
pub open spec fn count_started(w: WorkerView, steps: Seq<Step>, channel: ChannelId) -> nat
    decreases steps.len(),
{
    if steps.len() == 0 {
        0
    } else {
        let before = count_started(w, steps.drop_last(), channel);
        if starts(ran(w, steps.drop_last()).0, steps.last(), channel) {
            before + 1
        } else {
            before
        }
    }
}

/// Whether an action sends a terminal event on a channel.
pub open spec fn ends(action: ActionView, channel: ChannelId) -> bool {
    action matches ActionView::Emit { session, token } && session == channel && token.is_terminal()
}

/// How many terminal events a run of actions sends on a channel.
pub open spec fn count_ended(actions: Seq<ActionView>, channel: ChannelId) -> nat
    decreases actions.len(),
{
    if actions.len() == 0 {
        0
    } else if ends(actions.last(), channel) {
        count_ended(actions.drop_last(), channel) + 1
    } else {
        count_ended(actions.drop_last(), channel)
    }
}

/// How many sessions are active on a channel.
pub open spec fn count_active(sessions: Seq<ActiveView>, channel: ChannelId) -> nat
    decreases sessions.len(),
{
    if sessions.len() == 0 {
        0
    } else if sessions.last().channel == channel {
        count_active(sessions.drop_last(), channel) + 1
    } else {
        count_active(sessions.drop_last(), channel)
    }
}

/// The terminal events of two runs of actions add up.
pub proof fn lemma_count_ended_add(a: Seq<ActionView>, b: Seq<ActionView>, channel: ChannelId)
    ensures
        count_ended(a + b, channel) == count_ended(a, channel) + count_ended(b, channel),
    decreases b.len(),
{
    if b.len() > 0 {
        assert((a + b).drop_last() =~= a + b.drop_last());
        lemma_count_ended_add(a, b.drop_last(), channel);
    }
}

/// One more action adds its terminal event, if it sends one.
pub proof fn lemma_count_ended_push(actions: Seq<ActionView>, action: ActionView, channel: ChannelId)
    ensures
        count_ended(actions.push(action), channel) == count_ended(actions, channel) + if ends(
            action,
            channel,
        ) {
            1nat
        } else {
            0nat
        },
{
    assert(actions.push(action).drop_last() =~= actions);
}

/// One more event adds one if it is terminal.
proof fn lemma_count_terminal_push(sent: Seq<TokenView>, token: TokenView)
    ensures
        count_terminal(sent.push(token)) == count_terminal(sent) + if token.is_terminal() {
            1nat
        } else {
            0nat
        },
{
    assert(sent.push(token).drop_last() =~= sent);
}

/// Cancelling sessions sends one terminal event for each.
proof fn lemma_cancellations_end_all(sessions: Seq<ActiveView>, channel: ChannelId)
    ensures
        count_ended(cancellations(sessions), channel) == count_active(sessions, channel),
    decreases sessions.len(),
{
    if sessions.len() > 0 {
        lemma_cancellations_end_all(sessions.drop_last(), channel);
        let front = cancellations(sessions.drop_last());
        let last = sessions.last();
        let stop = ActionView::Emit {
            session: last.channel,
            token: TokenView::Stop(FinishReason::Interrupted, last.session.counter()),
        };
        lemma_count_ended_push(front, stop, channel);
        lemma_count_ended_push(front.push(stop), ActionView::Close { session: last.channel }, channel);
    }
}

/// The sessions on a channel, with one session taken out.
proof fn lemma_count_active_remove(sessions: Seq<ActiveView>, at: int, channel: ChannelId)
    requires
        0 <= at < sessions.len(),
    ensures
        count_active(sessions, channel) == count_active(sessions.remove(at), channel) + if sessions[at].channel
            == channel {
            1nat
        } else {
            0nat
        },
    decreases sessions.len(),
{
    if at < sessions.len() - 1 {
        assert(sessions.remove(at).drop_last() =~= sessions.drop_last().remove(at));
        lemma_count_active_remove(sessions.drop_last(), at, channel);
    }
}

/// The sessions on a channel do not change when a session is replaced by
/// one on the same channel.
proof fn lemma_count_active_update(
    sessions: Seq<ActiveView>,
    at: int,
    session: ActiveView,
    channel: ChannelId,
)
    requires
        0 <= at < sessions.len(),
        session.channel == sessions[at].channel,
    ensures
        count_active(sessions.update(at, session), channel) == count_active(sessions, channel),
    decreases sessions.len(),
{
    if at == sessions.len() - 1 {
        assert(sessions.update(at, session).drop_last() =~= sessions.drop_last());
    } else {
        assert(sessions.update(at, session).drop_last() =~= sessions.drop_last().update(
            at,
            session,
        ));
        lemma_count_active_update(sessions.drop_last(), at, session, channel);
    }
}

/// How many of the events of a session are terminal.
pub open spec fn count_terminal(sent: Seq<TokenView>) -> nat
    decreases sent.len(),
{
    if sent.len() == 0 {
        0
    } else if sent.last().is_terminal() {
        count_terminal(sent.drop_last()) + 1
    } else {
        count_terminal(sent.drop_last())
    }
}

/// Sending the events of a session sends its terminal events on its
/// channel, and none on any other.
proof fn lemma_emits_end(on: ChannelId, sent: Seq<TokenView>, channel: ChannelId)
    ensures
        count_ended(emits(on, sent), channel) == if on == channel {
            count_terminal(sent)
        } else {
            0
        },
    decreases sent.len(),
{
    if sent.len() > 0 {
        lemma_emits_end(on, sent.drop_last(), channel);
        assert(emits(on, sent).drop_last() =~= emits(on, sent.drop_last()));
    }
}

/// An open session sends one terminal event at the step at which it
/// closes, and none at any other.
proof fn lemma_fed_ends_once(s: SessionView, signal: SignalView)
    requires
        s.open,
    ensures
        count_terminal(fed(s, signal).1) == if fed(s, signal).0.open {
            0nat
        } else {
            1nat
        },
{
    let sent = fed(s, signal).1;
    let none = Seq::<TokenView>::empty();
    if sent.len() == 1 {
        lemma_count_terminal_push(none, sent[0]);
    } else if sent.len() == 2 {
        lemma_count_terminal_push(none, sent[0]);
        lemma_count_terminal_push(none.push(sent[0]), sent[1]);
        assert(sent =~= none.push(sent[0]).push(sent[1]));
    }
}

/// At every step the books balance: the terminal events sent on a channel
/// and the sessions still active on it add up to the sessions that were
/// active on it before and the one that was started, if one was.
pub proof fn lemma_step_balance(w: WorkerView, step: Step, channel: ChannelId)
    requires
        w.wf(),
    ensures
        ({
            let (next, asked) = stepped(w, step);
            &&& next.wf()
            &&& count_ended(asked, channel) + count_active(next.sessions, channel) == count_active(
                w.sessions,
                channel,
            ) + if starts(w, step, channel) {
                1nat
            } else {
                0nat
            }
        }),
{
    let (next, asked) = stepped(w, step);
    match step {
        Step::Command(command) => {
            if w.ready() {
                lemma_command_balance(w, command, channel);
            }
        },
        Step::Outcome(outcome) => {
            lemma_no_emit_no_end(asked, channel);
        },
        Step::Signal(on, signal) => {
            lemma_signalled_wf(w, on, signal);
            lemma_signal_balance(w, on, signal, channel);
        },
        Step::Abandon => {
            lemma_cancellations_end_all(w.sessions, channel);
            let rest = asked.skip(cancellations(w.sessions).len() as int);
            assert(asked =~= cancellations(w.sessions) + rest);
            lemma_count_ended_add(cancellations(w.sessions), rest, channel);
            lemma_no_emit_no_end(rest, channel);
        },
    }
}

/// Actions that send no event send no terminal event.
proof fn lemma_no_emit_no_end(actions: Seq<ActionView>, channel: ChannelId)
    requires
        forall|i: int| 0 <= i < actions.len() ==> !((#[trigger] actions[i]) is Emit),
    ensures
        count_ended(actions, channel) == 0,
    decreases actions.len(),
{
    if actions.len() > 0 {
        lemma_no_emit_no_end(actions.drop_last(), channel);
    }
}

/// The books balance at every command that a ready worker takes.
proof fn lemma_command_balance(w: WorkerView, command: CommandView, channel: ChannelId)
    requires
        w.wf(),
        w.ready(),
    ensures
        ({
            let (next, asked) = handled(w, command);
            count_ended(asked, channel) + count_active(next.sessions, channel) == count_active(
                w.sessions,
                channel,
            ) + if command matches CommandView::Generate { request, tokenizer, output } && output
                == channel {
                1nat
            } else {
                0nat
            }
        }),
{
    let (next, asked) = handled(w, command);
    match command {
        CommandView::Generate { request, tokenizer, output } => {
            match w.loaded {
                None => {
                    let none = Seq::<ActionView>::empty();
                    lemma_count_ended_push(none, asked[0], channel);
                    lemma_count_ended_push(none.push(asked[0]), asked[1], channel);
                    assert(asked =~= none.push(asked[0]).push(asked[1]));
                },
                Some(info) => {
                    let (session, sent) = opened(request, info.model.num_emb);
                    if session.open {
                        lemma_no_emit_no_end(asked, channel);
                        assert(next.sessions.drop_last() =~= w.sessions);
                    } else {
                        let sending = emits(output, sent);
                        lemma_emits_end(output, sent, channel);
                        lemma_count_ended_push(sending, ActionView::Close { session: output }, channel);
                        lemma_count_terminal_push(Seq::empty(), sent[0]);
                    }
                },
            }
        },
        CommandView::Reload { .. } | CommandView::Unload => {
            if w.sessions.len() > 0 && w.policy == Policy::Cancel {
                lemma_cancellations_end_all(w.sessions, channel);
                let rest = asked.skip(cancellations(w.sessions).len() as int);
                assert(asked =~= cancellations(w.sessions) + rest);
                lemma_count_ended_add(cancellations(w.sessions), rest, channel);
                lemma_no_emit_no_end(rest, channel);
            } else {
                lemma_no_emit_no_end(asked, channel);
            }
        },
        _ => {
            lemma_no_emit_no_end(asked, channel);
        },
    }
}

/// The books balance at everything that is reported of a session.
proof fn lemma_signal_balance(w: WorkerView, on: ChannelId, signal: SignalView, channel: ChannelId)
    requires
        w.wf(),
    ensures
        ({
            let (next, asked) = signalled(w, on, signal);
            count_ended(asked, channel) + count_active(next.sessions, channel) == count_active(
                w.sessions,
                channel,
            )
        }),
{
    lemma_place(w.sessions, on);
    let at = place(w.sessions, on);
    let (next, asked) = signalled(w, on, signal);
    if at >= 0 {
        let (session, sent) = fed(w.sessions[at].session, signal);
        lemma_fed_ends_once(w.sessions[at].session, signal);
        lemma_emits_end(on, sent, channel);
        if session.open {
            lemma_count_active_update(w.sessions, at, ActiveView { channel: on, session }, channel);
        } else {
            lemma_count_active_remove(w.sessions, at, channel);
            let sending = emits(on, sent);
            let rest = asked.skip(sending.len() as int);
            assert(asked =~= sending + rest);
            lemma_count_ended_add(sending, rest, channel);
            lemma_no_emit_no_end(rest, channel);
        }
    }
}

/// Over every history the books balance: the terminal events sent on a
/// channel and the sessions still active on it add up to the sessions that
/// were active on it at first and those that were started since.
pub proof fn lemma_history_balance(w: WorkerView, steps: Seq<Step>, channel: ChannelId)
    requires
        w.wf(),
    ensures
        ({
            let (end, asked) = ran(w, steps);
            &&& end.wf()
            &&& count_ended(asked, channel) + count_active(end.sessions, channel) == count_active(
                w.sessions,
                channel,
            ) + count_started(w, steps, channel)
        }),
    decreases steps.len(),
{
    if steps.len() > 0 {
        lemma_history_balance(w, steps.drop_last(), channel);
        let (mid, asked) = ran(w, steps.drop_last());
        lemma_step_balance(mid, steps.last(), channel);
        lemma_count_ended_add(asked, stepped(mid, steps.last()).1, channel);
    }
}

/// Every session gets exactly one terminal event. Over every history of a
/// worker, from its start: never more terminal events are sent on a channel
/// than sessions were started on it, and once no session is active on the
/// channel, exactly as many. In particular a session on a channel of its
/// own has got one terminal event, and only one, as soon as it is active no
/// longer, however it ended: by reaching its limit, by a stop text, by an
/// embedding, by an error, or by being cancelled.
pub proof fn lemma_every_session_ends_once(policy: Policy, steps: Seq<Step>, channel: ChannelId)
    ensures
        ({
            let (end, asked) = ran(started(policy), steps);
            let n = count_started(started(policy), steps, channel);
            &&& count_ended(asked, channel) <= n
            &&& count_active(end.sessions, channel) == 0 ==> count_ended(asked, channel) == n
        }),
{
    lemma_history_balance(started(policy), steps, channel);
}

/// The channel on which a command expects the worker to answer, if any.
/// The events of a session are accounted for above, not here.
pub open spec fn reply_channel(command: CommandView) -> Option<ChannelId> {
    match command {
        CommandView::Reload { request, reply: ReplyTo::Channel(channel) } => Some(channel),
        CommandView::StateLoad { request, reply: ReplyTo::Channel(channel) } => Some(channel),
        CommandView::Save { request, reply } => Some(reply),
        CommandView::QueryInfo { reply } => Some(reply),
        _ => None,
    }
}

/// Whether a step asks for an answer on a channel: a command that expects
/// one there, offered to a worker that is ready.
pub open spec fn asks(w: WorkerView, step: Step, channel: ChannelId) -> bool {
    &&& w.ready()
    &&& step matches Step::Command(command)
    &&& reply_channel(command) == Some(channel)
}

/// How many answers a history asks for on a channel.
pub open spec fn count_asked(w: WorkerView, steps: Seq<Step>, channel: ChannelId) -> nat
    decreases steps.len(),
{
    if steps.len() == 0 {
        0
    } else {
        let before = count_asked(w, steps.drop_last(), channel);
        if asks(ran(w, steps.drop_last()).0, steps.last(), channel) {
            before + 1
        } else {
            before
        }
    }
}

/// Whether an action answers on a channel.
pub open spec fn answers(action: ActionView, channel: ChannelId) -> bool {
    match action {
        ActionView::Reply { channel: to, ok } => to == channel,
        ActionView::Info { channel: to, info } => to == channel,
        _ => false,
    }
}

/// How many answers a run of actions gives on a channel.
pub open spec fn count_answered(actions: Seq<ActionView>, channel: ChannelId) -> nat
    decreases actions.len(),
{
    if actions.len() == 0 {
        0
    } else if answers(actions.last(), channel) {
        count_answered(actions.drop_last(), channel) + 1
    } else {
        count_answered(actions.drop_last(), channel)
    }
}

/// The channel on which an operation that was admitted is to be answered,
/// if any.
pub open spec fn pending_channel(pending: PendingView) -> Option<ChannelId> {
    match pending {
        PendingView::Reload { request, reply: ReplyTo::Channel(channel) } => Some(channel),
        PendingView::StateLoad { request, reply: ReplyTo::Channel(channel) } => Some(channel),
        PendingView::Save { reply } => Some(reply),
        _ => None,
    }
}

/// How many answers a worker owes on a channel: one, where it drains for
/// or is busy with an operation that is to be answered there.
pub open spec fn owed(w: WorkerView, channel: ChannelId) -> nat {
    match w.phase {
        PhaseView::Ready => 0,
        PhaseView::Draining(pending) => if pending_channel(pending) == Some(channel) {
            1
        } else {
            0
        },
        PhaseView::Busy(pending) => if pending_channel(pending) == Some(channel) {
            1
        } else {
            0
        },
    }
}

/// The answers of two runs of actions add up.
pub proof fn lemma_count_answered_add(a: Seq<ActionView>, b: Seq<ActionView>, channel: ChannelId)
    ensures
        count_answered(a + b, channel) == count_answered(a, channel) + count_answered(b, channel),
    decreases b.len(),
{
    if b.len() > 0 {
        assert((a + b).drop_last() =~= a + b.drop_last());
        lemma_count_answered_add(a, b.drop_last(), channel);
    }
}

/// One more action adds its answer, if it gives one.
pub proof fn lemma_count_answered_push(actions: Seq<ActionView>, action: ActionView, channel: ChannelId)
    ensures
        count_answered(actions.push(action), channel) == count_answered(actions, channel)
            + if answers(action, channel) {
            1nat
        } else {
            0nat
        },
{
    assert(actions.push(action).drop_last() =~= actions);
}

/// Actions that neither reply nor report give no answer.
proof fn lemma_quiet_answers_nothing(actions: Seq<ActionView>, channel: ChannelId)
    requires
        forall|i: int|
            0 <= i < actions.len() ==> !((#[trigger] actions[i]) is Reply || actions[i] is Info),
    ensures
        count_answered(actions, channel) == 0,
    decreases actions.len(),
{
    if actions.len() > 0 {
        lemma_quiet_answers_nothing(actions.drop_last(), channel);
    }
}

/// The answer to a command, where somebody waits for it, is one answer on
/// the channel of that somebody.
proof fn lemma_answer_counts(reply: ReplyTo, ok: bool, channel: ChannelId)
    ensures
        count_answered(answer(reply, ok), channel) == if reply == ReplyTo::Channel(channel) {
            1nat
        } else {
            0nat
        },
{
    match reply {
        ReplyTo::Nobody => {},
        ReplyTo::Channel(to) => {
            let none = Seq::<ActionView>::empty();
            lemma_count_answered_push(none, ActionView::Reply { channel: to, ok }, channel);
        },
    }
}

/// Cancelling sessions answers nothing.
proof fn lemma_cancellations_answer_nothing(sessions: Seq<ActiveView>, channel: ChannelId)
    ensures
        count_answered(cancellations(sessions), channel) == 0,
    decreases sessions.len(),
{
    if sessions.len() > 0 {
        lemma_cancellations_answer_nothing(sessions.drop_last(), channel);
        let front = cancellations(sessions.drop_last());
        let last = sessions.last();
        let stop = ActionView::Emit {
            session: last.channel,
            token: TokenView::Stop(FinishReason::Interrupted, last.session.counter()),
        };
        lemma_count_answered_push(front, stop, channel);
        lemma_count_answered_push(
            front.push(stop),
            ActionView::Close { session: last.channel },
            channel,
        );
    }
}

/// At every step the answers balance: those given on a channel and the one
/// still owed there add up to the one that was owed before and the one that
/// was asked for, if one was.
pub proof fn lemma_step_answers(w: WorkerView, step: Step, channel: ChannelId)
    requires
        w.wf(),
    ensures
        ({
            let (next, asked) = stepped(w, step);
            count_answered(asked, channel) + owed(next, channel) == owed(w, channel) + if asks(
                w,
                step,
                channel,
            ) {
                1nat
            } else {
                0nat
            }
        }),
{
    let (next, asked) = stepped(w, step);
    let none = Seq::<ActionView>::empty();
    match step {
        Step::Command(command) => {
            if w.ready() {
                match command {
                    CommandView::QueryInfo { reply } => {
                        lemma_count_answered_push(none, asked[0], channel);
                    },
                    CommandView::Generate { request, tokenizer, output } => {
                        match w.loaded {
                            None => {
                                lemma_quiet_answers_nothing(asked, channel);
                            },
                            Some(info) => {
                                lemma_quiet_answers_nothing(asked, channel);
                            },
                        }
                    },
                    CommandView::Reload { .. } | CommandView::Unload => {
                        if w.sessions.len() > 0 && w.policy == Policy::Cancel {
                            lemma_cancellations_answer_nothing(w.sessions, channel);
                            let rest = asked.skip(cancellations(w.sessions).len() as int);
                            assert(asked =~= cancellations(w.sessions) + rest);
                            lemma_count_answered_add(cancellations(w.sessions), rest, channel);
                            lemma_quiet_answers_nothing(rest, channel);
                        } else {
                            lemma_quiet_answers_nothing(asked, channel);
                        }
                    },
                    CommandView::StateLoad { request, reply } => {
                        if w.loaded is None {
                            lemma_answer_counts(reply, false, channel);
                        } else {
                            lemma_quiet_answers_nothing(asked, channel);
                        }
                    },
                    CommandView::Save { request, reply } => {
                        if w.loaded is None {
                            lemma_count_answered_push(none, asked[0], channel);
                        } else {
                            lemma_quiet_answers_nothing(asked, channel);
                        }
                    },
                }
            }
        },
        Step::Outcome(outcome) => {
            match w.phase {
                PhaseView::Busy(PendingView::Reload { request, reply }) => {
                    lemma_answer_counts(reply, true, channel);
                    lemma_answer_counts(reply, false, channel);
                },
                PhaseView::Busy(PendingView::StateLoad { request, reply }) => {
                    lemma_answer_counts(reply, true, channel);
                    lemma_answer_counts(reply, false, channel);
                },
                PhaseView::Busy(PendingView::Save { reply }) => {
                    lemma_count_answered_push(none, asked[0], channel);
                },
                _ => {},
            }
        },
        Step::Signal(on, signal) => {
            lemma_quiet_answers_nothing(asked, channel);
        },
        Step::Abandon => {
            lemma_cancellations_answer_nothing(w.sessions, channel);
            let cancelled = cancellations(w.sessions);
            let given = given_up_phase(w.phase);
            let release = if w.loaded is Some {
                seq![ActionView::Release]
            } else {
                none
            };
            lemma_count_answered_add(cancelled, given, channel);
            lemma_count_answered_add(cancelled + given, release, channel);
            lemma_quiet_answers_nothing(release, channel);
            match w.phase {
                PhaseView::Ready => {},
                PhaseView::Draining(pending) | PhaseView::Busy(pending) => {
                    match pending {
                        PendingView::Reload { request, reply } => {
                            lemma_answer_counts(reply, false, channel);
                        },
                        PendingView::StateLoad { request, reply } => {
                            lemma_answer_counts(reply, false, channel);
                        },
                        PendingView::Save { reply } => {
                            lemma_count_answered_push(none, given[0], channel);
                        },
                        PendingView::Unload => {},
                    }
                },
            }
        },
    }
}

/// The events of a session, and its closing, are no answers.
proof fn lemma_emits_quiet_all(on: ChannelId, sent: Seq<TokenView>)
    ensures
        forall|i: int|
            0 <= i < emits(on, sent).len() ==> (#[trigger] emits(on, sent)[i]) is Emit,
{
}

/// Over every history the answers balance: those given on a channel and
/// the one still owed there add up to the one that was owed at first and
/// those that were asked for since.
pub proof fn lemma_history_answers(w: WorkerView, steps: Seq<Step>, channel: ChannelId)
    requires
        w.wf(),
    ensures
        ({
            let (end, asked) = ran(w, steps);
            count_answered(asked, channel) + owed(end, channel) == owed(w, channel) + count_asked(
                w,
                steps,
                channel,
            )
        }),
    decreases steps.len(),
{
    if steps.len() > 0 {
        lemma_history_answers(w, steps.drop_last(), channel);
        lemma_history_balance(w, steps.drop_last(), channel);
        let (mid, asked) = ran(w, steps.drop_last());
        lemma_step_answers(mid, steps.last(), channel);
        lemma_count_answered_add(asked, stepped(mid, steps.last()).1, channel);
    }
}

/// Every command that expects an answer gets exactly one. Over every
/// history of a worker, from its start: never more answers are given on a
/// channel than were asked for there, and whenever the worker is ready,
/// exactly as many; at any other time at most one is outstanding, that to
/// the operation under way. So a command whose channel is its own has been
/// answered once, and only once, by the time the worker is ready again,
/// whether the operation succeeded, failed or was given up.
pub proof fn lemma_every_command_answered_once(policy: Policy, steps: Seq<Step>, channel: ChannelId)
    ensures
        ({
            let (end, asked) = ran(started(policy), steps);
            let n = count_asked(started(policy), steps, channel);
            &&& count_answered(asked, channel) <= n
            &&& n <= count_answered(asked, channel) + 1
            &&& end.ready() ==> count_answered(asked, channel) == n
        }),
{
    lemma_history_answers(started(policy), steps, channel);
}

} // verus!

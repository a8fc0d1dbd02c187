//! What holds of the dispatcher over every history: no command is lost and
//! none is answered twice, whether it is served, waits, or is refused at
//! the shutdown.

use crate::dispatch::{
    finished, notified, pumped, refusals, refused, shut, submitted, DispatcherView,
};
use crate::protocol::{ChannelId, CommandView};
use crate::session::SignalView;
use crate::worker::{abandoned, completed, handled, signalled, started, ActionView, Outcome, Policy};
use crate::worker_history::{
    count_active, count_answered, count_ended, lemma_count_answered_add,
    lemma_count_answered_push, lemma_count_ended_add, lemma_count_ended_push, lemma_step_answers,
    lemma_step_balance, owed, reply_channel, Step,
};
use vstd::prelude::*;

verus! {

/// Something that arrives at a dispatcher.
pub enum Arrival {
    /// A command.
    Submit(CommandView),
    /// The outcome of what the worker is busy with.
    Outcome(Outcome),
    /// A report of the session on a channel.
    Signal(ChannelId, SignalView),
    /// The order to shut down.
    Shutdown,
}

/// What a dispatcher becomes at an arrival, and what it asks to be done.
pub open spec fn arrived(d: DispatcherView, arrival: Arrival) -> (DispatcherView, Seq<ActionView>) {
    match arrival {
        Arrival::Submit(command) => submitted(d, command),
        Arrival::Outcome(outcome) => finished(d, outcome),
        Arrival::Signal(channel, signal) => notified(d, channel, signal),
        Arrival::Shutdown => shut(d),
    }
}

/// What a dispatcher becomes over a history, and everything it asks to be
/// done on the way, in order.
pub open spec fn received(d: DispatcherView, arrivals: Seq<Arrival>) -> (
    DispatcherView,
    Seq<ActionView>,
)
    decreases arrivals.len(),
{
    if arrivals.len() == 0 {
        (d, Seq::empty())
    } else {
        let (mid, asked) = received(d, arrivals.drop_last());
        let (end, more) = arrived(mid, arrivals.last());
        (end, asked + more)
    }
}

/// A dispatcher as it starts.
pub open spec fn fresh(policy: Policy) -> DispatcherView {
    DispatcherView { worker: started(policy), backlog: Seq::empty(), stopped: false }
}

/// Whether a command expects an answer on a channel.
pub open spec fn wants(command: CommandView, channel: ChannelId) -> bool {
    reply_channel(command) == Some(channel)
}

/// Whether a command starts a session on a channel.
pub open spec fn generates(command: CommandView, channel: ChannelId) -> bool {
    command matches CommandView::Generate { request, tokenizer, output } && output == channel
}

/// How many of the commands expect an answer on a channel.
pub open spec fn count_wanting(commands: Seq<CommandView>, channel: ChannelId) -> nat
    decreases commands.len(),
{
    if commands.len() == 0 {
        0
    } else if wants(commands.last(), channel) {
        count_wanting(commands.drop_last(), channel) + 1
    } else {
        count_wanting(commands.drop_last(), channel)
    }
}

/// How many of the commands start a session on a channel.
pub open spec fn count_generating(commands: Seq<CommandView>, channel: ChannelId) -> nat
    decreases commands.len(),
{
    if commands.len() == 0 {
        0
    } else if generates(commands.last(), channel) {
        count_generating(commands.drop_last(), channel) + 1
    } else {
        count_generating(commands.drop_last(), channel)
    }
}

/// The commands that a history submits, in order.
pub open spec fn submissions(arrivals: Seq<Arrival>) -> Seq<CommandView>
    decreases arrivals.len(),
{
    if arrivals.len() == 0 {
        Seq::empty()
    } else {
        match arrivals.last() {
            Arrival::Submit(command) => submissions(arrivals.drop_last()).push(command),
            _ => submissions(arrivals.drop_last()),
        }
    }
}

/// The answers that are given or still to come on a channel: those among
/// the actions, the one that the worker owes, and one for each command that
/// waits.
pub open spec fn answers_due(d: DispatcherView, asked: Seq<ActionView>, channel: ChannelId) -> nat {
    count_answered(asked, channel) + owed(d.worker, channel) + count_wanting(d.backlog, channel)
}

/// The terminal events that are sent or still to come on a channel: those
/// among the actions, and one for each session that is active or waits to
/// be started.
pub open spec fn ends_due(d: DispatcherView, asked: Seq<ActionView>, channel: ChannelId) -> nat {
    count_ended(asked, channel) + count_active(d.worker.sessions, channel) + count_generating(
        d.backlog,
        channel,
    )
}

/// The first of the commands counts as the last does.
proof fn lemma_count_first(commands: Seq<CommandView>, channel: ChannelId)
    requires
        commands.len() > 0,
    ensures
        count_wanting(commands, channel) == count_wanting(commands.drop_first(), channel) + if wants(
            commands.first(),
            channel,
        ) {
            1nat
        } else {
            0nat
        },
        count_generating(commands, channel) == count_generating(commands.drop_first(), channel)
            + if generates(commands.first(), channel) {
            1nat
        } else {
            0nat
        },
    decreases commands.len(),
{
    if commands.len() == 1 {
        assert(commands.drop_last() =~= commands.drop_first());
    } else {
        lemma_count_first(commands.drop_last(), channel);
        assert(commands.drop_last().drop_first() =~= commands.drop_first().drop_last());
    }
}

/// Taking commands from the queue changes nothing in what is due: what
/// leaves the queue is answered, owed, started or ended.
proof fn lemma_pumped_due(d: DispatcherView, channel: ChannelId)
    requires
        d.worker.wf(),
    ensures
        ({
            let (end, asked) = pumped(d);
            let none = Seq::<ActionView>::empty();
            &&& end.worker.wf()
            &&& end.stopped == d.stopped
            &&& end.backlog.len() > 0 ==> !end.worker.ready()
            &&& answers_due(end, asked, channel) == answers_due(d, none, channel)
            &&& ends_due(end, asked, channel) == ends_due(d, none, channel)
        }),
    decreases d.backlog.len(),
{
    if d.worker.ready() && d.backlog.len() > 0 {
        let first = d.backlog.first();
        let (worker, actions) = handled(d.worker, first);
        let next = DispatcherView { worker, backlog: d.backlog.drop_first(), ..d };
        lemma_step_answers(d.worker, Step::Command(first), channel);
        lemma_step_balance(d.worker, Step::Command(first), channel);
        lemma_count_first(d.backlog, channel);
        lemma_pumped_due(next, channel);
        let more = pumped(next).1;
        lemma_count_answered_add(actions, more, channel);
        lemma_count_ended_add(actions, more, channel);
    }
}

/// A refusal answers the command that is refused, once, or sends the
/// terminal event of its session, once.
proof fn lemma_refused_due(command: CommandView, channel: ChannelId)
    ensures
        count_answered(refused(command), channel) == if wants(command, channel) {
            1nat
        } else {
            0nat
        },
        count_ended(refused(command), channel) == if generates(command, channel) {
            1nat
        } else {
            0nat
        },
{
    let actions = refused(command);
    let none = Seq::<ActionView>::empty();
    if actions.len() == 1 {
        lemma_count_answered_push(none, actions[0], channel);
        lemma_count_ended_push(none, actions[0], channel);
    } else if actions.len() == 2 {
        lemma_count_answered_push(none, actions[0], channel);
        lemma_count_ended_push(none, actions[0], channel);
        lemma_count_answered_push(none.push(actions[0]), actions[1], channel);
        lemma_count_ended_push(none.push(actions[0]), actions[1], channel);
        assert(actions =~= none.push(actions[0]).push(actions[1]));
    }
}

/// Refusals answer every command that is refused, once.
proof fn lemma_refusals_due(commands: Seq<CommandView>, channel: ChannelId)
    ensures
        count_answered(refusals(commands), channel) == count_wanting(commands, channel),
        count_ended(refusals(commands), channel) == count_generating(commands, channel),
    decreases commands.len(),
{
    if commands.len() > 0 {
        lemma_refusals_due(commands.drop_last(), channel);
        lemma_refused_due(commands.last(), channel);
        lemma_count_answered_add(
            refusals(commands.drop_last()),
            refused(commands.last()),
            channel,
        );
        lemma_count_ended_add(refusals(commands.drop_last()), refused(commands.last()), channel);
    }
}

/// At every arrival what is due grows by what the arrival asks for, and by
/// nothing else: a command adds the answer it expects or the terminal event
/// of the session it starts; an outcome, a report and the shutdown add
/// nothing and take nothing away.
pub proof fn lemma_arrival_due(d: DispatcherView, arrival: Arrival, channel: ChannelId)
    requires
        d.wf(),
    ensures
        ({
            let (end, asked) = arrived(d, arrival);
            let none = Seq::<ActionView>::empty();
            &&& end.wf()
            &&& answers_due(end, asked, channel) == answers_due(d, none, channel)
                + if arrival matches Arrival::Submit(command) && wants(command, channel) {
                1nat
            } else {
                0nat
            }
            &&& ends_due(end, asked, channel) == ends_due(d, none, channel)
                + if arrival matches Arrival::Submit(command) && generates(command, channel) {
                1nat
            } else {
                0nat
            }
        }),
{
    match arrival {
        Arrival::Submit(command) => {
            if d.stopped {
                lemma_refused_due(command, channel);
            } else {
                let queued = DispatcherView { backlog: d.backlog.push(command), ..d };
                assert(queued.backlog.drop_last() =~= d.backlog);
                lemma_pumped_due(queued, channel);
            }
        },
        Arrival::Outcome(outcome) => {
            let (worker, actions) = completed(d.worker, outcome);
            lemma_step_answers(d.worker, Step::Outcome(outcome), channel);
            lemma_step_balance(d.worker, Step::Outcome(outcome), channel);
            let next = DispatcherView { worker, ..d };
            lemma_pumped_due(next, channel);
            lemma_count_answered_add(actions, pumped(next).1, channel);
            lemma_count_ended_add(actions, pumped(next).1, channel);
        },
        Arrival::Signal(on, signal) => {
            let (worker, actions) = signalled(d.worker, on, signal);
            lemma_step_answers(d.worker, Step::Signal(on, signal), channel);
            lemma_step_balance(d.worker, Step::Signal(on, signal), channel);
            let next = DispatcherView { worker, ..d };
            lemma_pumped_due(next, channel);
            lemma_count_answered_add(actions, pumped(next).1, channel);
            lemma_count_ended_add(actions, pumped(next).1, channel);
        },
        Arrival::Shutdown => {
            let (worker, actions) = abandoned(d.worker);
            lemma_step_answers(d.worker, Step::Abandon, channel);
            lemma_step_balance(d.worker, Step::Abandon, channel);
            lemma_refusals_due(d.backlog, channel);
            lemma_count_answered_add(actions, refusals(d.backlog), channel);
            lemma_count_ended_add(actions, refusals(d.backlog), channel);
        },
    }
}

/// Over every history what is due is what was asked for.
pub proof fn lemma_history_due(d: DispatcherView, arrivals: Seq<Arrival>, channel: ChannelId)
    requires
        d.wf(),
    ensures
        ({
            let (end, asked) = received(d, arrivals);
            let none = Seq::<ActionView>::empty();
            &&& end.wf()
            &&& answers_due(end, asked, channel) == answers_due(d, none, channel) + count_wanting(
                submissions(arrivals),
                channel,
            )
            &&& ends_due(end, asked, channel) == ends_due(d, none, channel) + count_generating(
                submissions(arrivals),
                channel,
            )
        }),
    decreases arrivals.len(),
{
    if arrivals.len() > 0 {
        lemma_history_due(d, arrivals.drop_last(), channel);
        let (mid, asked) = received(d, arrivals.drop_last());
        let more = arrived(mid, arrivals.last()).1;
        lemma_arrival_due(mid, arrivals.last(), channel);
        lemma_count_answered_add(asked, more, channel);
        lemma_count_ended_add(asked, more, channel);
        if let Arrival::Submit(command) = arrivals.last() {
            let before = submissions(arrivals.drop_last());
            assert(before.push(command).drop_last() =~= before);
        }
    }
}

/// No command is lost and none is answered twice. Over every history of a
/// dispatcher, from its start, and on every channel: the answers given,
/// the one that the worker owes and those of the commands that wait add up
/// to the answers that the submitted commands expect; and the terminal
/// events sent, the sessions active and those that wait to be started add
/// up to the sessions that the submitted commands ask for. So never more is
/// given than was asked for, and once the dispatcher has shut down, or is
/// ready with no session active, all of it.
pub proof fn lemma_no_command_is_lost(policy: Policy, arrivals: Seq<Arrival>, channel: ChannelId)
    ensures
        ({
            let (end, asked) = received(fresh(policy), arrivals);
            let wanted = count_wanting(submissions(arrivals), channel);
            let sessions = count_generating(submissions(arrivals), channel);
            &&& answers_due(end, asked, channel) == wanted
            &&& ends_due(end, asked, channel) == sessions
            &&& count_answered(asked, channel) <= wanted
            &&& count_ended(asked, channel) <= sessions
            &&& end.worker.ready() ==> count_answered(asked, channel) == wanted
            &&& end.worker.ready() && end.worker.sessions.len() == 0 ==> count_ended(asked, channel)
                == sessions
            &&& end.stopped ==> count_answered(asked, channel) == wanted && count_ended(
                asked,
                channel,
            ) == sessions
        }),
{
    let d = fresh(policy);
    lemma_history_due(d, arrivals, channel);
}

} // verus!

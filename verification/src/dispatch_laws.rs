//! What holds of the command queue: arrival order is serving order.

use crate::dispatch::{
    finished, notified, pumped, refusals, refused, shut, submitted, DispatcherView,
};
use crate::protocol::{ChannelId, CommandView, ModelInfo, ReloadView, ReplyTo};
use crate::session::SignalView;
use crate::worker::{
    abandoned, answer, completed, handled, registry, ActionView, Outcome, WorkerView,
};
use vstd::prelude::*;

verus! {

/// What a worker becomes when it takes a run of commands one after the
/// other, and the actions it asks for, in order.
pub open spec fn served(w: WorkerView, commands: Seq<CommandView>) -> (WorkerView, Seq<ActionView>)
    decreases commands.len(),
{
    if commands.len() == 0 {
        (w, Seq::empty())
    } else {
        let (next, actions) = handled(w, commands.first());
        let (end, more) = served(next, commands.drop_first());
        (end, actions + more)
    }
}

/// How many of the waiting commands the worker takes before it is busy or
/// the queue is empty.
pub open spec fn taken(d: DispatcherView) -> nat
    decreases d.backlog.len(),
{
    if d.worker.ready() && d.backlog.len() > 0 {
        1 + taken(
            DispatcherView {
                worker: handled(d.worker, d.backlog.first()).0,
                backlog: d.backlog.drop_first(),
                ..d
            },
        )
    } else {
        0
    }
}

/// The worker takes the oldest commands, in arrival order, and leaves the
/// others waiting in arrival order: none is lost, none is served twice, none
/// overtakes another. It stops only when it is busy or nothing waits.
pub proof fn lemma_pumped_in_order(d: DispatcherView)
    requires
        d.worker.wf(),
        !d.stopped,
    ensures
        ({
            let k = taken(d) as int;
            let (end, actions) = pumped(d);
            &&& k <= d.backlog.len()
            &&& end.backlog == d.backlog.skip(k)
            &&& (end.worker, actions) == served(d.worker, d.backlog.take(k))
            &&& !end.stopped
            &&& end.wf()
        }),
    decreases d.backlog.len(),
{
    if d.worker.ready() && d.backlog.len() > 0 {
        let (worker, actions) = handled(d.worker, d.backlog.first());
        let next = DispatcherView { worker, backlog: d.backlog.drop_first(), ..d };
        lemma_pumped_in_order(next);
        let k = taken(d) as int;
        assert(d.backlog.take(k).drop_first() =~= next.backlog.take(k - 1));
    }
}

/// A command that arrives while the worker is not ready joins the end of
/// the queue; nothing else changes and nothing is asked for.
pub proof fn lemma_submit_waits(d: DispatcherView, command: CommandView)
    requires
        !d.stopped,
        !d.worker.ready(),
    ensures
        submitted(d, command) == (
            DispatcherView { backlog: d.backlog.push(command), ..d },
            Seq::<ActionView>::empty(),
        ),
{
}

/// A command that arrives while the worker is ready and nothing waits is
/// taken at once.
pub proof fn lemma_submit_served(d: DispatcherView, command: CommandView)
    requires
        d.wf(),
        !d.stopped,
        d.worker.ready(),
    ensures
        submitted(d, command).0.worker == handled(d.worker, command).0,
        submitted(d, command).1 == handled(d.worker, command).1,
        submitted(d, command).0.backlog.len() == 0,
        !submitted(d, command).0.stopped,
{
    let queued = DispatcherView { backlog: d.backlog.push(command), ..d };
    let (worker, actions) = handled(d.worker, command);
    let next = DispatcherView { worker, backlog: queued.backlog.drop_first(), ..d };
    assert(pumped(next) == (next, Seq::<ActionView>::empty()));
}

/// Two commands to load that arrive one right after the other are served
/// one after the other. The second waits while the first is performed; the
/// status after the first shows the first request and its metadata, and
/// only then is the second performed; the status after the second shows the
/// second request and its metadata. Nothing of one is mixed into the other.
pub proof fn lemma_queued_reloads(
    d: DispatcherView,
    first: ReloadView,
    first_reply: ReplyTo,
    first_model: ModelInfo,
    second: ReloadView,
    second_reply: ReplyTo,
    second_model: ModelInfo,
)
    requires
        d.wf(),
        !d.stopped,
        d.worker.ready(),
        d.worker.sessions.len() == 0,
    ensures
        ({
            let one = CommandView::Reload { request: first, reply: first_reply };
            let two = CommandView::Reload { request: second, reply: second_reply };
            let (a, asked_a) = submitted(d, one);
            let (b, asked_b) = submitted(a, two);
            let (c, asked_c) = finished(b, Outcome::Loaded(first_model));
            let (e, asked_e) = finished(c, Outcome::Loaded(second_model));
            &&& asked_a == seq![ActionView::Load { request: first }]
            &&& asked_b.len() == 0
            &&& b.backlog == seq![two]
            &&& b.worker.loaded == d.worker.loaded
            &&& asked_c == answer(first_reply, true).push(ActionView::Load { request: second })
            &&& c.backlog.len() == 0
            &&& c.worker.loaded matches Some(info) && info.reload == first && info.model
                == first_model
            &&& asked_e == answer(second_reply, true)
            &&& e.worker.ready()
            &&& e.worker.loaded matches Some(info) && info.reload == second && info.model
                == second_model && info.states == registry(second.state)
        }),
{
    let one = CommandView::Reload { request: first, reply: first_reply };
    let two = CommandView::Reload { request: second, reply: second_reply };
    lemma_submit_served(d, one);
    let (a, asked_a) = submitted(d, one);
    let (b, asked_b) = submitted(a, two);
    let (worker, told) = completed(b.worker, Outcome::Loaded(first_model));
    let mid = DispatcherView { worker, ..b };
    let (busy, asked) = handled(worker, two);
    let rest = DispatcherView { worker: busy, backlog: mid.backlog.drop_first(), ..mid };
    assert(pumped(rest) == (rest, Seq::<ActionView>::empty()));
}

/// The channel on which a command expects to be answered, if any.
pub open spec fn expects(command: CommandView) -> Option<ChannelId> {
    match command {
        CommandView::Reload { request, reply: ReplyTo::Channel(channel) } => Some(channel),
        CommandView::StateLoad { request, reply: ReplyTo::Channel(channel) } => Some(channel),
        CommandView::Save { request, reply } => Some(reply),
        CommandView::QueryInfo { reply } => Some(reply),
        CommandView::Generate { request, tokenizer, output } => Some(output),
        _ => None,
    }
}

/// Whether an action ends the wait on a channel: an answer, a status report,
/// or the closing of a session's channel.
pub open spec fn settles(action: ActionView, channel: ChannelId) -> bool {
    match action {
        ActionView::Reply { channel: to, ok } => to == channel,
        ActionView::Info { channel: to, info } => to == channel,
        ActionView::Close { session } => session == channel,
        _ => false,
    }
}

/// A refusal ends the wait of the command that is refused.
pub proof fn lemma_refused_settles(command: CommandView)
    ensures
        expects(command) matches Some(channel) ==> exists|k: int|
            0 <= k < refused(command).len() && settles(#[trigger] refused(command)[k], channel),
{
    match command {
        CommandView::Generate { request, tokenizer, output } => {},
        CommandView::Reload { request, reply: ReplyTo::Channel(channel) } => {
            assert(settles(refused(command)[0], channel));
        },
        CommandView::StateLoad { request, reply: ReplyTo::Channel(channel) } => {},
        CommandView::Save { request, reply } => {},
        CommandView::QueryInfo { reply } => {},
        _ => {},
    }
}

/// The refusals of a run of commands end the wait of each of them.
pub proof fn lemma_refusals_settle(commands: Seq<CommandView>, i: int)
    requires
        0 <= i < commands.len(),
    ensures
        expects(commands[i]) matches Some(channel) ==> exists|k: int|
            0 <= k < refusals(commands).len() && settles(#[trigger] refusals(commands)[k], channel),
    decreases commands.len(),
{
    if let Some(channel) = expects(commands[i]) {
        let front = refusals(commands.drop_last());
        if i == commands.len() - 1 {
            lemma_refused_settles(commands.last());
            let k = choose|k: int|
                0 <= k < refused(commands.last()).len() && settles(
                    #[trigger] refused(commands.last())[k],
                    channel,
                );
            assert(refusals(commands)[front.len() + k] == refused(commands.last())[k]);
        } else {
            lemma_refusals_settle(commands.drop_last(), i);
            let k = choose|k: int| 0 <= k < front.len() && settles(#[trigger] front[k], channel);
            assert(refusals(commands)[k] == front[k]);
        }
    }
}

/// When the dispatcher shuts down, nobody is left waiting: the wait of
/// every command in the queue is ended by one of the actions that the
/// shutdown asks for.
pub proof fn lemma_shutdown_settles_queue(d: DispatcherView, i: int)
    requires
        0 <= i < d.backlog.len(),
    ensures
        expects(d.backlog[i]) matches Some(channel) ==> exists|k: int|
            0 <= k < shut(d).1.len() && settles(#[trigger] shut(d).1[k], channel),
{
    if let Some(channel) = expects(d.backlog[i]) {
        lemma_refusals_settle(d.backlog, i);
        let given = abandoned(d.worker).1;
        let k = choose|k: int|
            0 <= k < refusals(d.backlog).len() && settles(
                #[trigger] refusals(d.backlog)[k],
                channel,
            );
        assert(shut(d).1[given.len() + k] == refusals(d.backlog)[k]);
    }
}

/// After the shutdown the dispatcher is at rest for good: nothing is loaded,
/// no session is active and nothing waits; a command that arrives is
/// refused at once and changes nothing, and outcomes and reports of
/// sessions are ignored.
pub proof fn lemma_shutdown_is_final(
    d: DispatcherView,
    command: CommandView,
    outcome: Outcome,
    channel: ChannelId,
    signal: SignalView,
)
    requires
        d.wf(),
    ensures
        ({
            let end = shut(d).0;
            &&& end.wf()
            &&& end.stopped
            &&& end.backlog.len() == 0
            &&& end.worker.loaded is None
            &&& end.worker.sessions.len() == 0
            &&& submitted(end, command) == (end, refused(command))
            &&& finished(end, outcome) == (end, Seq::<ActionView>::empty())
            &&& notified(end, channel, signal) == (end, Seq::<ActionView>::empty())
            &&& shut(end).0 == end
        }),
{
}

} // verus!

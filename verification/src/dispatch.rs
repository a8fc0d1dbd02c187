//! The command queue in front of the model worker.
//!
//! Commands may arrive at any time and from anywhere; the worker admits one
//! only when it is ready. The dispatcher keeps what has arrived and was not
//! yet admitted, in arrival order, and hands the worker the oldest command
//! whenever the worker is ready. No command is lost, none overtakes another.
//!
//! When the worker cannot go on, the dispatcher shuts down: everything that
//! waits is answered with a refusal, and so is every command that arrives
//! later. Nobody is left waiting for an answer that will not come.

use crate::lists::{lemma_views_push, views};
use crate::protocol::{
    ChannelId, Command, CommandView, ErrorKind, RuntimeInfo, Token, TokenView,
};
use crate::session::{Signal, SignalView};
use crate::worker::{
    abandoned, answer, completed, handled, push_answer, signalled, started, Action, ActionView,
    Outcome, Policy, Worker, WorkerView,
};
use std::collections::VecDeque;
use vstd::prelude::*;

verus! {

/// The state of a dispatcher: the worker, and the commands that wait.
pub struct DispatcherView {
    pub worker: WorkerView,
    /// The commands that have arrived and were not yet admitted, oldest
    /// first.
    pub backlog: Seq<CommandView>,
    /// Whether the dispatcher has shut down.
    pub stopped: bool,
}

impl DispatcherView {
    /// The worker is well formed, and no command waits while it is ready.
    /// Once shut down, nothing waits, nothing is loaded and no session is
    /// active.
    pub open spec fn wf(self) -> bool {
        &&& self.worker.wf()
        &&& self.backlog.len() > 0 ==> !self.worker.ready()
        &&& self.stopped ==> {
            &&& self.backlog.len() == 0
            &&& self.worker.ready()
            &&& self.worker.loaded is None
            &&& self.worker.sessions.len() == 0
        }
    }
}

/// The worker takes the waiting commands, oldest first, for as long as it
/// is ready; the actions of each follow those of the one before.
pub open spec fn pumped(d: DispatcherView) -> (DispatcherView, Seq<ActionView>)
    decreases d.backlog.len(),
{
    if d.worker.ready() && d.backlog.len() > 0 {
        let (worker, actions) = handled(d.worker, d.backlog.first());
        let (end, more) = pumped(
            DispatcherView { worker, backlog: d.backlog.drop_first(), ..d },
        );
        (end, actions + more)
    } else {
        (d, Seq::empty())
    }
}

/// The answer to a command that will not be served: failure for a load,
/// a state load or a save, nothing for a status query, `Error` and the
/// closing of its channel for a session. A release asks for no answer.
pub open spec fn refused(command: CommandView) -> Seq<ActionView> {
    match command {
        CommandView::Reload { request, reply } => answer(reply, false),
        CommandView::Unload => Seq::empty(),
        CommandView::Generate { request, tokenizer, output } => seq![
            ActionView::Emit { session: output, token: TokenView::Error(ErrorKind::Closed) },
            ActionView::Close { session: output },
        ],
        CommandView::StateLoad { request, reply } => answer(reply, false),
        CommandView::Save { request, reply } => seq![ActionView::Reply { channel: reply, ok: false }],
        CommandView::QueryInfo { reply } => seq![ActionView::Info { channel: reply, info: None }],
    }
}

/// The answers to commands that will not be served, in the order of the
/// commands.
pub open spec fn refusals(commands: Seq<CommandView>) -> Seq<ActionView>
    decreases commands.len(),
{
    if commands.len() == 0 {
        Seq::empty()
    } else {
        refusals(commands.drop_last()) + refused(commands.last())
    }
}

/// A command arrives: it joins the end of the queue, and the worker takes
/// what it can. After the shutdown it is refused at once.
pub open spec fn submitted(d: DispatcherView, command: CommandView) -> (
    DispatcherView,
    Seq<ActionView>,
) {
    if d.stopped {
        (d, refused(command))
    } else {
        pumped(DispatcherView { backlog: d.backlog.push(command), ..d })
    }
}

/// The dispatcher shuts down: the worker gives up, and every command that
/// waits is refused, oldest first.
pub open spec fn shut(d: DispatcherView) -> (DispatcherView, Seq<ActionView>) {
    let (worker, actions) = abandoned(d.worker);
    (
        DispatcherView { worker, backlog: Seq::empty(), stopped: true },
        actions + refusals(d.backlog),
    )
}

/// An outcome is reported: the worker completes what it was busy with, and
/// then takes what it can of the queue.
pub open spec fn finished(d: DispatcherView, outcome: Outcome) -> (DispatcherView, Seq<ActionView>) {
    let (worker, actions) = completed(d.worker, outcome);
    let (end, more) = pumped(DispatcherView { worker, ..d });
    (end, actions + more)
}

/// Something is reported of a session: the worker deals with it, and then
/// takes what it can of the queue.
pub open spec fn notified(d: DispatcherView, channel: ChannelId, signal: SignalView) -> (
    DispatcherView,
    Seq<ActionView>,
) {
    let (worker, actions) = signalled(d.worker, channel, signal);
    let (end, more) = pumped(DispatcherView { worker, ..d });
    (end, actions + more)
}

/// The worker with its queue.
pub struct Dispatcher {
    worker: Worker,
    backlog: VecDeque<Command>,
    stopped: bool,
}

impl View for Dispatcher {
    type V = DispatcherView;

    closed spec fn view(&self) -> DispatcherView {
        DispatcherView {
            worker: self.worker@,
            backlog: views(self.backlog@),
            stopped: self.stopped,
        }
    }
}

/// Appends the answer to a command that will not be served.
fn refuse(command: Command, actions: &mut Vec<Action>)
    ensures
        views(final(actions)@) == views(old(actions)@) + refused(command@),
{
    match command {
        Command::Reload { reply, .. } => {
            push_answer(actions, reply, false);
        },
        Command::Unload => {},
        Command::Generate { output, .. } => {
            actions.push(Action::Emit { session: output, token: Token::Error(ErrorKind::Closed) });
            actions.push(Action::Close { session: output });
        },
        Command::StateLoad { reply, .. } => {
            push_answer(actions, reply, false);
        },
        Command::Save { reply, .. } => {
            actions.push(Action::Reply { channel: reply, ok: false });
        },
        Command::QueryInfo { reply } => {
            actions.push(Action::Info { channel: reply, info: None });
        },
    }
}

impl Dispatcher {
    /// A dispatcher with a fresh worker and nothing waiting.
    pub fn new(policy: Policy) -> (out: Dispatcher)
        ensures
            out@ == (DispatcherView {
                worker: started(policy),
                backlog: Seq::empty(),
                stopped: false,
            }),
            out@.wf(),
    {
        let out = Dispatcher {
            worker: Worker::new(policy),
            backlog: VecDeque::new(),
            stopped: false,
        };
        assert(out@.backlog =~= Seq::<CommandView>::empty());
        out
    }

    /// Whether the dispatcher has shut down.
    pub fn is_stopped(&self) -> (r: bool)
        ensures
            r == self@.stopped,
    {
        self.stopped
    }

    /// How many commands wait.
    pub fn waiting(&self) -> (n: usize)
        ensures
            n == self@.backlog.len(),
    {
        self.backlog.len()
    }

    /// Whether the worker would admit a command at once.
    pub fn is_ready(&self) -> (r: bool)
        ensures
            r == self@.worker.ready(),
    {
        self.worker.is_ready()
    }

    /// The status of the loaded model, if one is loaded.
    pub fn info(&self) -> (out: Option<RuntimeInfo>)
        ensures
            out is Some <==> self@.worker.loaded is Some,
            out matches Some(info) ==> Some(info@) == self@.worker.loaded,
            out matches Some(info) ==> self@.worker.wf() ==> info@.is_mapping(),
    {
        self.worker.info()
    }

    /// Lets the worker take what it can of the queue.
    fn pump(&mut self, actions: &mut Vec<Action>)
        requires
            old(self)@.worker.wf(),
            old(self)@.stopped ==> old(self)@.wf(),
        ensures
            final(self)@ == pumped(old(self)@).0,
            views(final(actions)@) == views(old(actions)@) + pumped(old(self)@).1,
            final(self)@.wf(),
    {
        while self.worker.is_ready() && self.backlog.len() > 0
            invariant
                self@.worker.wf(),
                self@.stopped ==> self@.wf(),
                pumped(old(self)@).0 == pumped(self@).0,
                views(old(actions)@) + pumped(old(self)@).1 == views(actions@) + pumped(self@).1,
            decreases self.backlog.len(),
        {
            let ghost before = self@;
            let ghost done = actions@;
            let command = self.backlog.pop_front().unwrap();
            assert(views(self.backlog@) =~= before.backlog.drop_first());
            match self.worker.handle(command) {
                Ok(more) => {
                    let mut more = more;
                    let ghost added = more@;
                    actions.append(&mut more);
                    proof {
                        assert(views(done) + (views(added) + pumped(self@).1) =~= (views(done)
                            + views(added)) + pumped(self@).1);
                    }
                },
                Err(_) => {},
            }
        }
    }

    /// Takes a command that has arrived, and hands back the actions to
    /// perform, in order.
    pub fn submit(&mut self, command: Command) -> (actions: Vec<Action>)
        requires
            old(self)@.wf(),
        ensures
            final(self)@ == submitted(old(self)@, command@).0,
            views(actions@) == submitted(old(self)@, command@).1,
            final(self)@.wf(),
    {
        let mut actions: Vec<Action> = Vec::new();
        if self.stopped {
            refuse(command, &mut actions);
            return actions;
        }
        let ghost before = self.backlog@;
        self.backlog.push_back(command);
        proof {
            lemma_views_push(before, command);
            assert(Seq::<ActionView>::empty() + submitted(old(self)@, command@).1 =~= submitted(
                old(self)@,
                command@,
            ).1);
        }
        self.pump(&mut actions);
        actions
    }

    /// Shuts down, and hands back the actions to perform, in order: the
    /// worker gives up, and every command that waits is refused.
    pub fn shutdown(&mut self) -> (actions: Vec<Action>)
        requires
            old(self)@.wf(),
        ensures
            final(self)@ == shut(old(self)@).0,
            views(actions@) == shut(old(self)@).1,
            final(self)@.wf(),
    {
        let mut actions = self.worker.abandon();
        let ghost given = views(actions@);
        let ghost waiting = views(self.backlog@);
        let ghost mut served: int = 0;
        while self.backlog.len() > 0
            invariant
                0 <= served <= waiting.len(),
                views(self.backlog@) == waiting.skip(served),
                views(actions@) == given + refusals(waiting.take(served)),
                self.worker@ == abandoned(old(self)@.worker).0,
                self.worker@.wf(),
            decreases self.backlog.len(),
        {
            let ghost before = self.backlog@;
            let command = self.backlog.pop_front().unwrap();
            refuse(command, &mut actions);
            proof {
                assert(command@ == views(before)[0]);
                assert(views(self.backlog@) =~= views(before).skip(1));
                let now = waiting.take(served + 1);
                assert(now.drop_last() =~= waiting.take(served));
                served = served + 1;
            }
        }
        assert(waiting.take(waiting.len() as int) =~= waiting);
        assert(views(self.backlog@) =~= Seq::<CommandView>::empty());
        self.stopped = true;
        actions
    }

    /// Takes the outcome of the action that the worker is busy with, and
    /// hands back the actions to perform, in order.
    pub fn complete(&mut self, outcome: Outcome) -> (actions: Vec<Action>)
        requires
            old(self)@.wf(),
        ensures
            final(self)@ == finished(old(self)@, outcome).0,
            views(actions@) == finished(old(self)@, outcome).1,
            final(self)@.wf(),
    {
        let mut actions = self.worker.complete(outcome);
        self.pump(&mut actions);
        actions
    }

    /// Takes what is reported of the session on a channel, and hands back
    /// the actions to perform, in order.
    pub fn signal(&mut self, channel: ChannelId, signal: Signal) -> (actions: Vec<Action>)
        requires
            old(self)@.wf(),
        ensures
            final(self)@ == notified(old(self)@, channel, signal@).0,
            views(actions@) == notified(old(self)@, channel, signal@).1,
            final(self)@.wf(),
    {
        let mut actions = self.worker.signal(channel, signal);
        self.pump(&mut actions);
        actions
    }
}

} // verus!

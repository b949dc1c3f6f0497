//! The dispatcher: a state machine that takes deliveries from the watcher and
//! decides, one delivery at a time, whether the command has to run.
//!
//! The dispatcher runs nothing itself. Its caller delivers what the watcher
//! produced, asks for the next action, performs it, and reports back when a
//! command has finished. While a command runs, deliveries are kept in the
//! order of their arrival and none is acted upon.

use vstd::prelude::*;
use std::collections::VecDeque;
use crate::command::{CommandSpec, CommandView};
use crate::event::{
    first_match,
    first_matching_path,
    Delivery,
    DeliveryView,
    FsEventView,
};
use crate::matcher::PathMatcher;
use crate::outcome::ExitOutcome;

verus! {

/// Whether a command is being executed.
#[derive(Clone, Copy, Debug, PartialEq, Eq, Structural)]
pub enum DispatchState {
    /// No command runs; the next delivery can be processed.
    Idle,
    /// A command runs; deliveries wait.
    Running,
}

/// What the caller has to do next.
#[derive(Clone, Debug, PartialEq, Eq)]
pub enum Action {
    /// Run the command in the root; `path` is the path that matched.
    Run { path: String },
    /// The delivery called for nothing.
    Ignore,
    /// The watcher reported an error: tell the user, then go on.
    Report { message: String },
    /// The watcher is gone: leave the loop.
    Stop,
    /// Nothing is waiting: deliver what the watcher produces next.
    AwaitEvent,
    /// A command runs: report its end before asking again.
    AwaitCommand,
}

/// An action as the contracts see it.
pub enum ActionView {
    Run { path: Seq<char> },
    Ignore,
    Report { message: Seq<char> },
    Stop,
    AwaitEvent,
    AwaitCommand,
}

impl View for Action {
    type V = ActionView;

    open spec fn view(&self) -> ActionView {
        match self {
            Action::Run { path } => ActionView::Run { path: path@ },
            Action::Ignore => ActionView::Ignore,
            Action::Report { message } => ActionView::Report { message: message@ },
            Action::Stop => ActionView::Stop,
            Action::AwaitEvent => ActionView::AwaitEvent,
            Action::AwaitCommand => ActionView::AwaitCommand,
        }
    }
}

/// Whether an event triggers the command: its kind is looked at and one of
/// its paths matches.
pub open spec fn event_triggers(root: Seq<char>, glob: Seq<char>, event: FsEventView) -> bool {
    event.kind.actionable() && first_match(root, glob, event.paths) is Some
}

/// Whether a delivery triggers the command.
pub open spec fn triggers(root: Seq<char>, glob: Seq<char>, delivery: DeliveryView) -> bool {
    delivery matches DeliveryView::Event(event) && event_triggers(root, glob, event)
}

/// What one delivery calls for. An event whose kind is looked at triggers a
/// run for the first of its paths that matches, and the paths after that one
/// play no part; any other event calls for nothing. An error of the watcher
/// is reported, and its end stops the loop.
pub open spec fn verdict(root: Seq<char>, glob: Seq<char>, delivery: DeliveryView) -> ActionView {
    match delivery {
        DeliveryView::Event(event) => {
            if event_triggers(root, glob, event) {
                ActionView::Run { path: event.paths[first_match(root, glob, event.paths).unwrap()] }
            } else {
                ActionView::Ignore
            }
        },
        DeliveryView::Fault(message) => ActionView::Report { message },
        DeliveryView::Closed => ActionView::Stop,
    }
}

/// The deliveries of a queue as the contracts see them, oldest first.
pub open spec fn delivery_views(queue: Seq<Delivery>) -> Seq<DeliveryView> {
    Seq::new(queue.len(), |i: int| queue[i]@)
}

/// The dispatcher as the contracts see it: what it was set up with, its
/// state, and the deliveries that wait, oldest first.
pub struct DispatcherView {
    pub root: Seq<char>,
    pub glob: Seq<char>,
    pub command: CommandView,
    pub state: DispatchState,
    pub inbox: Seq<DeliveryView>,
}

impl DispatcherView {
    /// A delivery arrives: it joins the end of the queue, in either state.
    pub open spec fn deliver(self, delivery: DeliveryView) -> DispatcherView {
        DispatcherView { inbox: self.inbox.push(delivery), ..self }
    }

    /// The next action is asked for. While a command runs, and while nothing
    /// waits, nothing changes. Otherwise the oldest delivery leaves the queue
    /// and its verdict is the action; a run makes the state `Running`.
    pub open spec fn step(self) -> (DispatcherView, ActionView) {
        if self.state == DispatchState::Running {
            (self, ActionView::AwaitCommand)
        } else if self.inbox.len() == 0 {
            (self, ActionView::AwaitEvent)
        } else {
            let action = verdict(self.root, self.glob, self.inbox[0]);
            let state = if action is Run {
                DispatchState::Running
            } else {
                DispatchState::Idle
            };
            (DispatcherView { state, inbox: self.inbox.drop_first(), ..self }, action)
        }
    }

    /// The command has finished, however it ended: the state is `Idle`.
    pub open spec fn complete(self) -> DispatcherView {
        DispatcherView { state: DispatchState::Idle, ..self }
    }

    /// The actions that follow when the queue is worked off with nothing new
    /// arriving: a command that runs is waited for, then the next action is
    /// asked for, until nothing waits.
    pub open spec fn drain(self) -> Seq<ActionView>
        decreases self.inbox.len(),
    {
        if self.inbox.len() == 0 {
            Seq::empty()
        } else {
            let (next, action) = self.complete().step();
            seq![action] + next.drain()
        }
    }
}

/// The orchestrator's state: the root, the matcher and the command it was
/// set up with, whether a command runs, and the deliveries that wait.
#[derive(Debug)]
pub struct Dispatcher {
    root: String,
    matcher: PathMatcher,
    command: CommandSpec,
    state: DispatchState,
    inbox: VecDeque<Delivery>,
}

impl View for Dispatcher {
    type V = DispatcherView;

    closed spec fn view(&self) -> DispatcherView {
        DispatcherView {
            root: self.root@,
            glob: self.matcher.glob(),
            command: self.command@,
            state: self.state,
            inbox: delivery_views(self.inbox@),
        }
    }
}

impl Dispatcher {
    /// A dispatcher for a root, a matcher and a command: idle, with nothing
    /// waiting.
    pub fn new(root: String, matcher: PathMatcher, command: CommandSpec) -> (made: Dispatcher)
        ensures
            made@ == (DispatcherView {
                root: root@,
                glob: matcher.glob(),
                command: command@,
                state: DispatchState::Idle,
                inbox: Seq::empty(),
            }),
    {
        let made = Dispatcher {
            root,
            matcher,
            command,
            state: DispatchState::Idle,
            inbox: VecDeque::new(),
        };
        assert(delivery_views(made.inbox@) =~= Seq::empty());
        made
    }

    /// The project root, in which the command runs.
    pub fn root(&self) -> (root: &str)
        ensures
            root@ == self@.root,
    {
        self.root.as_str()
    }

    /// The matcher that paths are tested with.
    pub fn matcher(&self) -> (matcher: &PathMatcher)
        ensures
            matcher.glob() == self@.glob,
    {
        &self.matcher
    }

    /// The command that a match triggers.
    pub fn command(&self) -> (command: &CommandSpec)
        ensures
            command@ == self@.command,
    {
        &self.command
    }

    /// Whether a command runs.
    pub fn state(&self) -> (state: DispatchState)
        ensures
            state == self@.state,
    {
        self.state
    }

    /// How many deliveries wait.
    pub fn pending(&self) -> (count: usize)
        ensures
            count == self@.inbox.len(),
    {
        self.inbox.len()
    }

    /// Takes a delivery from the watcher. It joins the end of the queue,
    /// whether a command runs or not; nothing is dropped and nothing
    /// overtakes.
    pub fn deliver(&mut self, delivery: Delivery)
        ensures
            final(self)@ == old(self)@.deliver(delivery@),
    {
        self.inbox.push_back(delivery);
        assert(delivery_views(self.inbox@) =~= delivery_views(old(self).inbox@).push(delivery@));
    }

    /// Says what to do next, and takes the oldest delivery from the queue
    /// where it acts on one.
    pub fn step(&mut self) -> (action: Action)
        ensures
            (final(self)@, action@) == old(self)@.step(),
    {
        if self.state == DispatchState::Running {
            return Action::AwaitCommand;
        }
        let ghost before = delivery_views(self.inbox@);
        let action = match self.inbox.pop_front() {
            None => {
                return Action::AwaitEvent;
            },
            Some(Delivery::Event(event)) => {
                assert(before[0] == DeliveryView::Event(event@));
                if event.kind.is_actionable() {
                    match first_matching_path(self.root.as_str(), &self.matcher, event.paths.as_slice()) {
                        Some(at) => {
                            self.state = DispatchState::Running;
                            let path = event.paths[at].clone();
                            assert(path@ == event@.paths[at as int]);
                            Action::Run { path }
                        },
                        None => Action::Ignore,
                    }
                } else {
                    Action::Ignore
                }
            },
            Some(Delivery::Fault(message)) => {
                assert(before[0] == DeliveryView::Fault(message@));
                Action::Report { message }
            },
            Some(Delivery::Closed) => {
                assert(before[0] == DeliveryView::Closed);
                Action::Stop
            },
        };
        assert(delivery_views(self.inbox@) =~= before.drop_first());
        action
    }

    /// Takes note that the command has finished. Whatever the outcome, a
    /// failure and a command that could not be started included, the
    /// dispatcher is idle again and goes on with what waits.
    pub fn command_finished(&mut self, outcome: ExitOutcome)
        ensures
            final(self)@ == old(self)@.complete(),
    {
        let _ = outcome;
        self.state = DispatchState::Idle;
    }
}

/// How many of the actions are runs of the command.
pub open spec fn run_count(actions: Seq<ActionView>) -> nat
    decreases actions.len(),
{
    if actions.len() == 0 {
        0
    } else {
        run_count(actions.drop_last()) + if actions.last() is Run {
            1nat
        } else {
            0nat
        }
    }
}

/// A delivery leads to a run exactly where it triggers the command.
pub proof fn lemma_run_iff_triggers(root: Seq<char>, glob: Seq<char>, delivery: DeliveryView)
    ensures
        verdict(root, glob, delivery) is Run == triggers(root, glob, delivery),
{
}

/// Working off the queue gives one action for each delivery that waits, in
/// the order of the deliveries: the verdict on that delivery. No delivery is
/// lost and none is taken out of turn, whatever the state was at the start.
pub proof fn lemma_drain_follows_queue(dispatcher: DispatcherView)
    ensures
        dispatcher.drain().len() == dispatcher.inbox.len(),
        forall|i: int|
            0 <= i < dispatcher.inbox.len() ==> #[trigger] dispatcher.drain()[i] == verdict(
                dispatcher.root,
                dispatcher.glob,
                dispatcher.inbox[i],
            ),
    decreases dispatcher.inbox.len(),
{
    if dispatcher.inbox.len() > 0 {
        let (next, action) = dispatcher.complete().step();
        lemma_drain_follows_queue(next);
        assert forall|i: int| 0 <= i < dispatcher.inbox.len() implies #[trigger] dispatcher.drain()[i]
            == verdict(dispatcher.root, dispatcher.glob, dispatcher.inbox[i]) by {
            if i > 0 {
                assert(dispatcher.drain()[i] == next.drain()[i - 1]);
                assert(next.inbox[i - 1] == dispatcher.inbox[i]);
            }
        }
    }
}

/// Actions of which exactly the one at `k` is a run hold one run.
pub proof fn lemma_one_run(actions: Seq<ActionView>, k: int)
    requires
        0 <= k < actions.len(),
        forall|j: int| 0 <= j < actions.len() ==> (#[trigger] actions[j] is Run) == (j == k),
    ensures
        run_count(actions) == 1,
    decreases actions.len(),
{
    let rest = actions.drop_last();
    if k == actions.len() - 1 {
        lemma_no_run(rest);
    } else {
        lemma_one_run(rest, k);
    }
}

/// Actions of which none is a run hold no run.
pub proof fn lemma_no_run(actions: Seq<ActionView>)
    requires
        forall|j: int| 0 <= j < actions.len() ==> !(#[trigger] actions[j] is Run),
    ensures
        run_count(actions) == 0,
    decreases actions.len(),
{
    if actions.len() > 0 {
        lemma_no_run(actions.drop_last());
    }
}

/// Of the deliveries that wait, let the one at `k` be the only one that
/// triggers the command. Then working off the queue runs the command exactly
/// once: at `k`, after the deliveries before it were each answered without a
/// run, and for the first matching path of that event.
pub proof fn lemma_single_trigger_runs_once(dispatcher: DispatcherView, k: int)
    requires
        0 <= k < dispatcher.inbox.len(),
        forall|j: int|
            0 <= j < dispatcher.inbox.len() ==> triggers(
                dispatcher.root,
                dispatcher.glob,
                #[trigger] dispatcher.inbox[j],
            ) == (j == k),
    ensures
        dispatcher.drain().len() == dispatcher.inbox.len(),
        run_count(dispatcher.drain()) == 1,
        forall|j: int| 0 <= j < dispatcher.inbox.len() && j != k ==> !(dispatcher.drain()[j] is Run),
        dispatcher.drain()[k] == verdict(dispatcher.root, dispatcher.glob, dispatcher.inbox[k]),
        dispatcher.drain()[k] is Run,
{
    lemma_drain_follows_queue(dispatcher);
    let actions = dispatcher.drain();
    assert forall|j: int| 0 <= j < actions.len() implies (#[trigger] actions[j] is Run) == (j
        == k) by {
        lemma_run_iff_triggers(dispatcher.root, dispatcher.glob, dispatcher.inbox[j]);
    }
    lemma_one_run(actions, k);
}

/// Two deliveries that arrive while a command runs are not acted upon: the
/// dispatcher still waits for the command. Both stay in the queue behind what
/// waited before, in the order of their arrival, and once the command has
/// finished the queue is worked off as before, followed by the verdict on the
/// first and then on the second.
pub proof fn lemma_deliveries_wait_in_order(
    dispatcher: DispatcherView,
    first: DeliveryView,
    second: DeliveryView,
)
    requires
        dispatcher.state == DispatchState::Running,
    ensures
        ({
            let busy = dispatcher.deliver(first).deliver(second);
            &&& busy.state == DispatchState::Running
            &&& busy.step() == (busy, ActionView::AwaitCommand)
            &&& busy.complete().state == DispatchState::Idle
            &&& busy.complete().inbox == dispatcher.inbox + seq![first, second]
            &&& busy.complete().drain() == dispatcher.drain() + seq![
                verdict(dispatcher.root, dispatcher.glob, first),
                verdict(dispatcher.root, dispatcher.glob, second),
            ]
        }),
{
    let busy = dispatcher.deliver(first).deliver(second);
    let idle = busy.complete();
    assert(idle.inbox =~= dispatcher.inbox + seq![first, second]);
    lemma_drain_follows_queue(idle);
    lemma_drain_follows_queue(dispatcher);
    let tail = seq![
        verdict(dispatcher.root, dispatcher.glob, first),
        verdict(dispatcher.root, dispatcher.glob, second),
    ];
    assert(idle.drain() =~= dispatcher.drain() + tail);
}

} // verus!

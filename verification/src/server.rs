//! The server as a whole: one acceptor and the tasks it has started.
//!
//! Nothing here runs. The program around the library owns the acceptor and
//! the tasks and decides in which order they get their turn. This module
//! says what every such order amounts to, and states what the server relies
//! on: connections do not affect each other, and none of them affects the
//! acceptor.

use vstd::prelude::*;
use crate::acceptor::{AcceptorState, Directive};
use crate::connection::{EventView, TaskState};

verus! {

/// One thing that happens to the server.
pub enum Step {
    /// An attempt to accept ended; `connected` tells whether it produced a
    /// connection.
    Accept { connected: bool },
    /// The connection task `id` is told what came of its action.
    Task { id: nat, event: EventView },
}

/// The server as a mathematical value.
pub struct ServerState {
    /// The frames that every task replays.
    pub frames: Seq<Seq<u8>>,
    /// Size of each task's request buffer.
    pub capacity: nat,
    /// The accept loop.
    pub acceptor: AcceptorState,
    /// The tasks started so far, in the order of their connections. A task
    /// that has ended keeps its place.
    pub tasks: Seq<TaskState>,
}

impl ServerState {
    /// A server that has just started to listen.
    pub open spec fn initial(frames: Seq<Seq<u8>>, capacity: nat) -> ServerState {
        ServerState { frames, capacity, acceptor: AcceptorState::initial(), tasks: Seq::empty() }
    }

    /// The server after `step`. An accepted connection gets a fresh task. An
    /// event for a task that was never started changes nothing.
    pub open spec fn step(self, step: Step) -> ServerState {
        match step {
            Step::Accept { connected } => ServerState {
                acceptor: self.acceptor.after_accept(connected),
                tasks: if self.acceptor.directive(connected) == Directive::Spawn {
                    self.tasks.push(TaskState::initial(self.frames, self.capacity))
                } else {
                    self.tasks
                },
                ..self
            },
            Step::Task { id, event } => if id < self.tasks.len() {
                ServerState {
                    tasks: self.tasks.update(id as int, self.tasks[id as int].next(event)),
                    ..self
                }
            } else {
                self
            },
        }
    }

    /// The server after `steps`, in order.
    pub open spec fn run(self, steps: Seq<Step>) -> ServerState
        decreases steps.len(),
    {
        if steps.len() == 0 {
            self
        } else {
            self.run(steps.drop_last()).step(steps.last())
        }
    }
}

/// `step` is an event for the task `id`.
pub open spec fn concerns(step: Step, id: nat) -> bool {
    match step {
        Step::Task { id: target, event } => target == id,
        Step::Accept { connected } => false,
    }
}

/// `steps` without the events for the task `id`.
pub open spec fn without(steps: Seq<Step>, id: nat) -> Seq<Step>
    decreases steps.len(),
{
    if steps.len() == 0 {
        steps
    } else if concerns(steps.last(), id) {
        without(steps.drop_last(), id)
    } else {
        without(steps.drop_last(), id).push(steps.last())
    }
}

/// The results of the attempts to accept among `steps`, in order.
pub open spec fn attempts(steps: Seq<Step>) -> Seq<bool>
    decreases steps.len(),
{
    if steps.len() == 0 {
        Seq::empty()
    } else {
        match steps.last() {
            Step::Accept { connected } => attempts(steps.drop_last()).push(connected),
            Step::Task { id, event } => attempts(steps.drop_last()),
        }
    }
}

/// Connections are independent. Take everything that happened to one
/// connection out of a run, its failure included, and every other
/// connection stands exactly where it stood, as do the acceptor and the
/// number of connections accepted.
pub proof fn lemma_connections_are_independent(
    start: ServerState,
    steps: Seq<Step>,
    id: nat,
    other: nat,
)
    requires
        other != id,
        other < start.run(steps).tasks.len(),
    ensures
        start.run(without(steps, id)).tasks.len() == start.run(steps).tasks.len(),
        start.run(without(steps, id)).tasks[other as int] == start.run(steps).tasks[other as int],
        start.run(without(steps, id)).acceptor == start.run(steps).acceptor,
{
    lemma_run_apart_from(start, steps, id);
}

/// A run and the same run without the events of one task agree on all but
/// that task.
proof fn lemma_run_apart_from(start: ServerState, steps: Seq<Step>, id: nat)
    ensures
        start.run(without(steps, id)).tasks.len() == start.run(steps).tasks.len(),
        start.run(without(steps, id)).acceptor == start.run(steps).acceptor,
        start.run(without(steps, id)).frames == start.run(steps).frames,
        start.run(without(steps, id)).capacity == start.run(steps).capacity,
        forall|other: int|
            0 <= other < start.run(steps).tasks.len() && other != id ==> start.run(
                without(steps, id),
            ).tasks[other] == start.run(steps).tasks[other],
    decreases steps.len(),
{
    if steps.len() > 0 {
        let earlier = steps.drop_last();
        let last = steps.last();
        lemma_run_apart_from(start, earlier, id);
        if !concerns(last, id) {
            let kept = without(earlier, id);
            assert(kept.push(last).drop_last() =~= kept);
        }
    }
}

/// No connection affects the acceptor. After any run the acceptor stands
/// where the attempts to accept alone have brought it, whatever the tasks
/// met with in between.
pub proof fn lemma_acceptor_ignores_tasks(start: ServerState, steps: Seq<Step>)
    ensures
        start.run(steps).acceptor == start.acceptor.after_accepts(attempts(steps)),
    decreases steps.len(),
{
    if steps.len() > 0 {
        let earlier = steps.drop_last();
        lemma_acceptor_ignores_tasks(start, earlier);
        match steps.last() {
            Step::Accept { connected } => {
                let before = attempts(earlier);
                assert(before.push(connected).drop_last() =~= before);
            },
            Step::Task { id, event } => {},
        }
    }
}

/// A connection that fails does not keep the next one from being served:
/// as long as no accept has failed, the next connection is accepted and
/// gets a fresh task.
pub proof fn lemma_next_connection_is_served(start: ServerState, steps: Seq<Step>)
    requires
        start.acceptor.listening,
        forall|k: int| 0 <= k < steps.len() ==> steps[k] != (Step::Accept { connected: false }),
    ensures
        start.run(steps).acceptor.listening,
        start.run(steps).step(Step::Accept { connected: true }).tasks == start.run(
            steps,
        ).tasks.push(TaskState::initial(start.frames, start.capacity)),
    decreases steps.len(),
{
    if steps.len() > 0 {
        let earlier = steps.drop_last();
        assert forall|k: int| 0 <= k < earlier.len() implies earlier[k] != (Step::Accept {
            connected: false,
        }) by {
            assert(earlier[k] == steps[k]);
        }
        lemma_next_connection_is_served(start, earlier);
        lemma_run_keeps_settings(start, earlier);
    }
}

/// A run changes neither the frames nor the buffer size.
proof fn lemma_run_keeps_settings(start: ServerState, steps: Seq<Step>)
    ensures
        start.run(steps).frames == start.frames,
        start.run(steps).capacity == start.capacity,
    decreases steps.len(),
{
    if steps.len() > 0 {
        lemma_run_keeps_settings(start, steps.drop_last());
    }
}

} // verus!

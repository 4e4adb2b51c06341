//! Why a value arrives: as long as a neighbour owes an acknowledgment, a
//! retry of the value is registered, and each time it fires the value is
//! sent to that neighbour again.

use crate::convergence::{carries, lemma_actions_only_send};
use crate::correlation::{lemma_fan_out_keeps_requests, lemma_tick_keeps_requests};
use crate::message::{MessageBodyView, MessageView, MsgId, NodeMessage};
use crate::pending::unacked_of;
use crate::scheduler::{Action, Task, cancelled, due, due_at, fired, later, not_doing, rearmed};
use crate::state::{NodeView, retries};
use vstd::prelude::*;

verus! {

impl NodeView {
    /// How many message ids running `actions` takes: one for each neighbour
    /// that owes an acknowledgment of each value retried.
    pub open spec fn ids_needed(self, actions: Seq<Action>) -> nat
        decreases actions.len(),
    {
        if actions.len() == 0 {
            0
        } else {
            self.ids_needed(actions.drop_last()) + match actions.last() {
                Action::RetryBroadcast { value } => unacked_of(self.pending, value).len(),
            }
        }
    }

    /// Whether `after` has put a message that carries `value` to `neighbor`
    /// in the outbox behind what this state has there.
    pub open spec fn reaches(
        self,
        after: NodeView,
        value: NodeMessage,
        neighbor: Seq<char>,
    ) -> bool {
        exists|k: int|
            self.outbox.len() <= k < after.outbox.len() && carries(
                #[trigger] after.outbox[k],
                value,
                neighbor,
            )
    }
}

/// A retry that stays registered when the retries of another value are taken
/// out.
proof fn lemma_cancel_keeps_other_retries(
    tasks: Seq<Task>,
    cancelled_value: NodeMessage,
    value: NodeMessage,
)
    requires
        retries(tasks, value),
        value != cancelled_value,
    ensures
        retries(cancelled(tasks, Action::RetryBroadcast { value: cancelled_value }), value),
{
    let keep = not_doing(Action::RetryBroadcast { value: cancelled_value });
    let kept = tasks.filter(keep);
    let i: int = choose|i: int|
        0 <= i < tasks.len() && (#[trigger] tasks[i]).action == (Action::RetryBroadcast { value });
    tasks.lemma_filter_contains(keep, i);
    let j: int = choose|j: int| 0 <= j < kept.len() && kept[j] == tasks[i];
    assert(kept[j].action == (Action::RetryBroadcast { value }));
}

/// A node that has just been named is coherent.
pub proof fn lemma_fresh_is_coherent(node_id: Seq<char>)
    ensures
        NodeView::fresh(node_id).coherent(),
{
}

/// A retry stays registered when a task is registered behind the others.
proof fn lemma_push_keeps_retries(tasks: Seq<Task>, task: Task, value: NodeMessage)
    requires
        retries(tasks, value),
    ensures
        retries(tasks.push(task), value),
{
    let i: int = choose|i: int|
        0 <= i < tasks.len() && (#[trigger] tasks[i]).action == (Action::RetryBroadcast { value });
    assert(tasks.push(task)[i].action == (Action::RetryBroadcast { value }));
}

/// An acknowledgment leaves a coherent node coherent: the record of the
/// value shrinks or goes, and the retry goes with it and no other.
pub proof fn lemma_acknowledgment_keeps_coherent(
    state: NodeView,
    value: NodeMessage,
    neighbor: Seq<char>,
)
    requires
        state.coherent(),
    ensures
        state.acknowledged(value, neighbor).coherent(),
{
    let after = state.acknowledged(value, neighbor);
    assert forall|other: NodeMessage| #[trigger] after.pending.contains_key(other) implies {
        &&& after.messages.contains(other)
        &&& after.pending[other].len() > 0
        &&& retries(after.tasks, other)
    } by {
        if after.tasks != state.tasks {
            lemma_cancel_keeps_other_retries(state.tasks, value, other);
        }
    }
}

/// A reply leaves a coherent node coherent, whatever request it quotes.
pub proof fn lemma_reply_keeps_coherent(state: NodeView, id: MsgId, reply: MessageBodyView)
    requires
        state.coherent(),
    ensures
        state.resolved(id, reply).coherent(),
{
    if state.resolves(id, reply) {
        let taken = NodeView { callbacks: state.callbacks.remove(id), ..state };
        lemma_acknowledgment_keeps_coherent(
            taken,
            state.callbacks[id]->value,
            state.callbacks[id]->neighbor,
        );
    }
}

/// A broadcast request leaves a coherent node coherent: a new value that is
/// sent on gets its record and its retry together.
pub proof fn lemma_broadcast_keeps_coherent(
    state: NodeView,
    sender: Seq<char>,
    msg_id: MsgId,
    value: NodeMessage,
)
    requires
        state.coherent(),
    ensures
        state.broadcast_handled(sender, msg_id, value).coherent(),
{
    let after = state.broadcast_handled(sender, msg_id, value);
    let targets = state.targets(sender);
    let answered = state.sent(sender, MessageBodyView::BroadcastOk { in_reply_to: msg_id });
    if !state.messages.contains(value) && targets.len() <= state.ids_left() {
        lemma_fan_out_keeps_requests(answered.learned(value), value, targets);
    }
    assert forall|other: NodeMessage| #[trigger] after.pending.contains_key(other) implies {
        &&& after.messages.contains(other)
        &&& after.pending[other].len() > 0
        &&& retries(after.tasks, other)
    } by {
        if state.pending.contains_key(other) {
            if after.tasks != state.tasks {
                lemma_push_keeps_retries(
                    state.tasks,
                    after.tasks[state.tasks.len() as int],
                    other,
                );
            }
        } else {
            assert(after.tasks[state.tasks.len() as int].action == (Action::RetryBroadcast {
                value: other,
            }));
        }
    }
}

/// Registering a task leaves a coherent node coherent.
pub proof fn lemma_registration_keeps_coherent(state: NodeView, task: Task)
    requires
        state.coherent(),
    ensures
        (NodeView { tasks: state.tasks.push(task), ..state }).coherent(),
{
    assert forall|value: NodeMessage| #[trigger] state.pending.contains_key(value) implies retries(
        state.tasks.push(task),
        value,
    ) by {
        lemma_push_keeps_retries(state.tasks, task, value);
    }
}

/// Every message leaves a coherent node coherent.
pub proof fn lemma_dispatch_keeps_coherent(state: NodeView, message: MessageView, after: NodeView)
    requires
        state.coherent(),
        state.dispatched(message, after),
    ensures
        after.coherent(),
{
    match message.body.in_reply_to() {
        Some(id) => {
            lemma_reply_keeps_coherent(state, id, message.body);
        },
        None => {
            if let MessageBodyView::Broadcast { msg_id, message: value } = message.body {
                lemma_broadcast_keeps_coherent(state, message.src, msg_id, value);
            }
        },
    }
}

/// Every tick leaves a coherent node coherent.
pub proof fn lemma_tick_keeps_coherent(state: NodeView, now: u64)
    requires
        state.coherent(),
    ensures
        state.ticked(now).coherent(),
{
    let time = later(state.clock, now);
    let polled = NodeView { clock: time, tasks: rearmed(state.tasks, time), ..state };
    lemma_tick_keeps_requests(state, now);
    lemma_actions_only_send(polled, fired(state.tasks, time));
    assert forall|value: NodeMessage| #[trigger] state.pending.contains_key(value) implies retries(
        polled.tasks,
        value,
    ) by {
        let i: int = choose|i: int|
            0 <= i < state.tasks.len() && (#[trigger] state.tasks[i]).action == (
            Action::RetryBroadcast { value });
        assert(polled.tasks[i].action == state.tasks[i].action);
    }
}

/// A task that is due fires: its action is among those the poll hands out.
pub proof fn lemma_due_task_fires(tasks: Seq<Task>, i: int, now: u64)
    requires
        0 <= i < tasks.len(),
        due(tasks[i], now),
    ensures
        fired(tasks, now).contains(tasks[i].action),
{
    let chosen = tasks.filter(due_at(now));
    tasks.lemma_filter_contains(due_at(now), i);
    let j: int = choose|j: int| 0 <= j < chosen.len() && chosen[j] == tasks[i];
    assert(fired(tasks, now)[j] == tasks[i].action);
}

/// A retry sends the value to every neighbour that owes an acknowledgment,
/// each under an id of its own, provided the node has the ids.
pub proof fn lemma_retry_reaches_unacked(state: NodeView, value: NodeMessage, neighbor: Seq<char>)
    requires
        unacked_of(state.pending, value).contains(neighbor),
        unacked_of(state.pending, value).len() <= state.ids_left(),
    ensures
        state.reaches(state.retried(value), value, neighbor),
{
    let targets = unacked_of(state.pending, value);
    let i: int = choose|i: int| 0 <= i < targets.len() && targets[i] == neighbor;
    assert(carries(state.retried(value).outbox[state.outbox.len() + i], value, neighbor));
}

/// Running retries, with ids enough for all of them, sends each retried
/// value to every neighbour that owes an acknowledgment of it.
pub proof fn lemma_actions_reach_unacked(
    state: NodeView,
    actions: Seq<Action>,
    value: NodeMessage,
    neighbor: Seq<char>,
)
    requires
        actions.contains(Action::RetryBroadcast { value }),
        unacked_of(state.pending, value).contains(neighbor),
        state.ids_needed(actions) <= state.ids_left(),
    ensures
        state.reaches(state.ran(actions), value, neighbor),
{
    lemma_actions_take_ids(state, actions);
    let at: int = choose|at: int|
        0 <= at < actions.len() && actions[at] == (Action::RetryBroadcast { value });
    lemma_actions_reach_unacked_from(state, actions, at, value, neighbor);
}

/// Running retries, with ids enough for all of them, takes the ids counted
/// and leaves what was in the outbox where it was.
proof fn lemma_actions_take_ids(state: NodeView, actions: Seq<Action>)
    requires
        state.ids_needed(actions) <= state.ids_left(),
    ensures
        state.ran(actions).next_message_id == state.next_message_id + state.ids_needed(actions),
        state.ran(actions).pending == state.pending,
        state.outbox.is_prefix_of(state.ran(actions).outbox),
    decreases actions.len(),
{
    if actions.len() > 0 {
        lemma_actions_take_ids(state, actions.drop_last());
    }
}

/// The retry at place `at` among `actions` sends its value to the
/// neighbours that owe an acknowledgment, and what it sent stays in the
/// outbox while the rest run.
proof fn lemma_actions_reach_unacked_from(
    state: NodeView,
    actions: Seq<Action>,
    at: int,
    value: NodeMessage,
    neighbor: Seq<char>,
)
    requires
        0 <= at < actions.len(),
        actions[at] == (Action::RetryBroadcast { value }),
        unacked_of(state.pending, value).contains(neighbor),
        state.ids_needed(actions) <= state.ids_left(),
    ensures
        state.reaches(state.ran(actions), value, neighbor),
    decreases actions.len(),
{
    let before = state.ran(actions.drop_last());
    let after = state.ran(actions);
    lemma_actions_take_ids(state, actions.drop_last());
    lemma_actions_take_ids(state, actions);
    if at == actions.len() - 1 {
        lemma_retry_reaches_unacked(before, value, neighbor);
    } else {
        lemma_actions_reach_unacked_from(state, actions.drop_last(), at, value, neighbor);
        let k: int = choose|k: int|
            state.outbox.len() <= k < before.outbox.len() && carries(
                #[trigger] before.outbox[k],
                value,
                neighbor,
            );
        assert(after.outbox[k] == before.outbox[k]);
    }
}

/// At-least-once delivery: a tick at which the retry of a value is due
/// sends the value again to every neighbour that owes an acknowledgment of
/// it, provided the node has ids for all that the tick retries.
pub proof fn lemma_due_retry_reaches_unacked(
    state: NodeView,
    now: u64,
    at: int,
    value: NodeMessage,
    neighbor: Seq<char>,
)
    requires
        0 <= at < state.tasks.len(),
        state.tasks[at].action == (Action::RetryBroadcast { value }),
        due(state.tasks[at], later(state.clock, now)),
        unacked_of(state.pending, value).contains(neighbor),
        state.ids_needed(fired(state.tasks, later(state.clock, now))) <= state.ids_left(),
    ensures
        state.reaches(state.ticked(now), value, neighbor),
{
    let time = later(state.clock, now);
    let polled = NodeView { clock: time, tasks: rearmed(state.tasks, time), ..state };
    let actions = fired(state.tasks, time);
    lemma_due_task_fires(state.tasks, at, time);
    lemma_same_pending_needs_same_ids(state, polled, actions);
    lemma_actions_reach_unacked(polled, actions, value, neighbor);
}

/// Two states with the same pending records need the same ids.
proof fn lemma_same_pending_needs_same_ids(left: NodeView, right: NodeView, actions: Seq<Action>)
    requires
        left.pending == right.pending,
    ensures
        left.ids_needed(actions) == right.ids_needed(actions),
    decreases actions.len(),
{
    if actions.len() > 0 {
        lemma_same_pending_needs_same_ids(left, right, actions.drop_last());
    }
}

} // verus!

//! Why gossip ends: a value is spread once, and a neighbour that has
//! acknowledged it is left alone.

use crate::message::{MessageBodyView, MessageView, MsgId, NodeMessage};
use crate::message_set::lemma_add_idempotent;
use crate::pending::{lemma_without_excludes, unacked_of};
use crate::scheduler::{Action, fired, later, rearmed};
use crate::state::{ContinuationView, NodeView};
use vstd::prelude::*;

verus! {

/// Whether `message` carries `value` to `neighbor` as a broadcast request.
pub open spec fn carries(message: MessageView, value: NodeMessage, neighbor: Seq<char>) -> bool {
    &&& message.dest == neighbor
    &&& message.body matches MessageBodyView::Broadcast { message: carried, .. }
    &&& carried == value
}

impl NodeView {
    /// Whether this node is done with `value` and `neighbor`: it has the
    /// value, and the neighbour owes no acknowledgment of it.
    pub open spec fn settled(self, value: NodeMessage, neighbor: Seq<char>) -> bool {
        self.messages.contains(value) && !unacked_of(self.pending, value).contains(neighbor)
    }

    /// Whether the outbox of `after` is the outbox of this state with more
    /// messages behind it, none of which carries `value` to `neighbor`.
    pub open spec fn spares(
        self,
        after: NodeView,
        value: NodeMessage,
        neighbor: Seq<char>,
    ) -> bool {
        &&& self.outbox.is_prefix_of(after.outbox)
        &&& forall|i: int|
            self.outbox.len() <= i < after.outbox.len() ==> !carries(
                #[trigger] after.outbox[i],
                value,
                neighbor,
            )
    }

    /// Whether the outbox of `after` is the outbox of this state with more
    /// messages behind it, none of which is a broadcast request.
    pub open spec fn adds_no_broadcast(self, after: NodeView) -> bool {
        &&& self.outbox.is_prefix_of(after.outbox)
        &&& forall|i: int|
            self.outbox.len() <= i < after.outbox.len() ==> (#[trigger] after.outbox[i]).body
                !is Broadcast
    }
}

/// An add request is idempotent: the same element added twice, by whomever
/// and under whatever ids, leaves the set of values that adding it once
/// leaves.
pub proof fn lemma_add_request_idempotent(
    state: NodeView,
    sender: Seq<char>,
    msg_id: MsgId,
    again_sender: Seq<char>,
    again_msg_id: MsgId,
    element: NodeMessage,
)
    ensures
        state.learned(element).learned(element) == state.learned(element),
        state.add_handled(sender, msg_id, element).add_handled(
            again_sender,
            again_msg_id,
            element,
        ).messages == state.add_handled(sender, msg_id, element).messages,
{
    lemma_add_idempotent(state.messages, element);
}

/// The set of values only grows: no message takes a value out.
pub proof fn lemma_dispatch_keeps_values(state: NodeView, message: MessageView, after: NodeView)
    requires
        state.dispatched(message, after),
    ensures
        state.messages.subset_of(after.messages),
{
}

/// Periodic actions only send and log: they leave the values, the pending
/// records, the topology, the tasks and the clock as they are.
pub proof fn lemma_actions_only_send(state: NodeView, actions: Seq<Action>)
    ensures
        state.ran(actions).messages == state.messages,
        state.ran(actions).pending == state.pending,
        state.ran(actions).topology == state.topology,
        state.ran(actions).tasks == state.tasks,
        state.ran(actions).clock == state.clock,
        state.ran(actions).node_id == state.node_id,
    decreases actions.len(),
{
    if actions.len() > 0 {
        lemma_actions_only_send(state, actions.drop_last());
    }
}

/// Nor does a tick take a value out: it leaves the set of values as it is.
pub proof fn lemma_tick_keeps_values(state: NodeView, now: u64)
    ensures
        state.ticked(now).messages == state.messages,
{
    let time = later(state.clock, now);
    let polled = NodeView { clock: time, tasks: rearmed(state.tasks, time), ..state };
    lemma_actions_only_send(polled, fired(state.tasks, time));
}

/// A value that comes again ends there: the node answers with
/// `broadcast_ok` and does nothing else. In particular it sends no
/// broadcast.
pub proof fn lemma_known_value_is_only_answered(
    state: NodeView,
    sender: Seq<char>,
    msg_id: MsgId,
    value: NodeMessage,
)
    requires
        state.messages.contains(value),
    ensures
        state.broadcast_handled(sender, msg_id, value) == state.sent(
            sender,
            MessageBodyView::BroadcastOk { in_reply_to: msg_id },
        ),
        state.adds_no_broadcast(state.broadcast_handled(sender, msg_id, value)),
{
}

/// Whatever a broadcast request finds, the node has the value afterwards, so
/// that the same value delivered again, by whomever, is only answered.
pub proof fn lemma_redelivery_is_only_answered(
    state: NodeView,
    sender: Seq<char>,
    msg_id: MsgId,
    again_sender: Seq<char>,
    again_msg_id: MsgId,
    value: NodeMessage,
)
    ensures
        ({
            let once = state.broadcast_handled(sender, msg_id, value);
            &&& once.messages.contains(value)
            &&& once.broadcast_handled(again_sender, again_msg_id, value) == once.sent(
                again_sender,
                MessageBodyView::BroadcastOk { in_reply_to: again_msg_id },
            )
        }),
{
}

/// An acknowledgment settles the pair: once `neighbor` has acknowledged a
/// value the node has, the neighbour owes nothing for it.
pub proof fn lemma_acknowledgment_settles(state: NodeView, value: NodeMessage, neighbor: Seq<char>)
    requires
        state.messages.contains(value),
    ensures
        state.acknowledged(value, neighbor).settled(value, neighbor),
{
    if state.pending.contains_key(value) {
        lemma_without_excludes(state.pending[value], neighbor);
    }
}

/// A `broadcast_ok` that answers a request of the fan-out settles the pair
/// the request stood for: once it has been dispatched, the neighbour owes
/// nothing for the value.
pub proof fn lemma_broadcast_ok_settles(
    state: NodeView,
    message: MessageView,
    after: NodeView,
    value: NodeMessage,
    neighbor: Seq<char>,
)
    requires
        state.messages.contains(value),
        message.body matches MessageBodyView::BroadcastOk { in_reply_to }
            && state.callbacks.contains_key(in_reply_to) && state.callbacks[in_reply_to] == (
        ContinuationView::BroadcastAck { value, neighbor }),
        state.dispatched(message, after),
    ensures
        after.settled(value, neighbor),
{
    lemma_acknowledgment_settles(state, value, neighbor);
}

/// A retry sends a value only to the neighbours that owe an acknowledgment
/// of it: a settled pair stays settled and gets nothing.
pub proof fn lemma_retry_spares_settled(
    state: NodeView,
    retried: NodeMessage,
    value: NodeMessage,
    neighbor: Seq<char>,
)
    requires
        state.settled(value, neighbor),
    ensures
        state.retried(retried).settled(value, neighbor),
        state.spares(state.retried(retried), value, neighbor),
{
    let after = state.retried(retried);
    let targets = unacked_of(state.pending, retried);
    assert forall|i: int| state.outbox.len() <= i < after.outbox.len() implies !carries(
        #[trigger] after.outbox[i],
        value,
        neighbor,
    ) by {
        assert(after.outbox[i].dest == targets[i - state.outbox.len()]);
    }
}

/// Running periodic actions spares a settled pair.
pub proof fn lemma_actions_spare_settled(
    state: NodeView,
    actions: Seq<Action>,
    value: NodeMessage,
    neighbor: Seq<char>,
)
    requires
        state.settled(value, neighbor),
    ensures
        state.ran(actions).settled(value, neighbor),
        state.spares(state.ran(actions), value, neighbor),
    decreases actions.len(),
{
    if actions.len() > 0 {
        let before = state.ran(actions.drop_last());
        lemma_actions_spare_settled(state, actions.drop_last(), value, neighbor);
        match actions.last() {
            Action::RetryBroadcast { value: retried } => {
                lemma_retry_spares_settled(before, retried, value, neighbor);
            },
        }
    }
}

/// Retry convergence: once a neighbour has acknowledged a value, no tick of
/// the clock sends it the value again, however many retries are due.
pub proof fn lemma_tick_spares_settled(
    state: NodeView,
    now: u64,
    value: NodeMessage,
    neighbor: Seq<char>,
)
    requires
        state.settled(value, neighbor),
    ensures
        state.ticked(now).settled(value, neighbor),
        state.spares(state.ticked(now), value, neighbor),
{
    let time = later(state.clock, now);
    let polled = NodeView { clock: time, tasks: rearmed(state.tasks, time), ..state };
    lemma_actions_spare_settled(polled, fired(state.tasks, time), value, neighbor);
}

/// Retry convergence, from the acknowledgment on: when a neighbour that
/// owes an acknowledgment of a value answers the request that carried the
/// value to it, the pair is settled, and the next tick, whenever it comes,
/// sends the neighbour nothing of the value.
pub proof fn lemma_acknowledged_pair_stops_retrying(
    state: NodeView,
    message: MessageView,
    after: NodeView,
    now: u64,
    value: NodeMessage,
    neighbor: Seq<char>,
)
    requires
        state.coherent(),
        unacked_of(state.pending, value).contains(neighbor),
        message.body matches MessageBodyView::BroadcastOk { in_reply_to }
            && state.callbacks.contains_key(in_reply_to) && state.callbacks[in_reply_to] == (
        ContinuationView::BroadcastAck { value, neighbor }),
        state.dispatched(message, after),
    ensures
        after.settled(value, neighbor),
        after.ticked(now).settled(value, neighbor),
        after.spares(after.ticked(now), value, neighbor),
{
    lemma_broadcast_ok_settles(state, message, after, value, neighbor);
    lemma_tick_spares_settled(after, now, value, neighbor);
}

/// No message undoes an acknowledgment: whatever is dispatched, a settled
/// pair stays settled and the neighbour is not sent the value again.
pub proof fn lemma_dispatch_spares_settled(
    state: NodeView,
    message: MessageView,
    after: NodeView,
    value: NodeMessage,
    neighbor: Seq<char>,
)
    requires
        state.settled(value, neighbor),
        state.dispatched(message, after),
    ensures
        after.settled(value, neighbor),
        state.spares(after, value, neighbor),
{
    if let Some(id) = message.body.in_reply_to() {
        if let ContinuationView::BroadcastAck { value: acked, neighbor: by } = state.callbacks[id] {
            if state.pending.contains_key(acked) {
                lemma_without_excludes(state.pending[acked], by);
            }
        }
    }
}

} // verus!

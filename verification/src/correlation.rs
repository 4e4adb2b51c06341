//! Why a reply finds only its own request: ids are never shared among
//! outstanding requests, and a continuation leaves the table when it runs.

use crate::message::{MessageBodyView, MessageView, MsgId, NodeMessage};
use crate::pending::unacked_of;
use crate::scheduler::{Action, fired, later, rearmed};
use crate::state::{ContinuationView, NodeView, UNSOLICITED_REPLY};
use vstd::prelude::*;

verus! {

/// A node that has just been named awaits no reply.
pub proof fn lemma_fresh_is_well_formed(node_id: Seq<char>)
    ensures
        NodeView::fresh(node_id).well_formed(),
{
}

/// A fan-out files its continuations under ids that were not issued
/// before, so it displaces no outstanding request, and every id that awaits
/// a reply afterwards has been issued.
pub proof fn lemma_fan_out_keeps_requests(
    state: NodeView,
    value: NodeMessage,
    targets: Seq<Seq<char>>,
)
    requires
        state.well_formed(),
        targets.len() <= state.ids_left(),
    ensures
        state.fanned_out(value, targets).well_formed(),
        forall|id: MsgId| #[trigger]
            state.callbacks.contains_key(id) ==> {
                &&& state.fanned_out(value, targets).callbacks.contains_key(id)
                &&& state.fanned_out(value, targets).callbacks[id] == state.callbacks[id]
            },
        forall|id: MsgId| #[trigger]
            state.fanned_out(value, targets).callbacks.contains_key(id) ==> {
                ||| state.callbacks.contains_key(id)
                ||| state.next_message_id <= id
            },
{
}

/// Whether `after` still awaits every reply that `before` awaited, other
/// than the reply to `except`, each with the continuation it had.
pub open spec fn keeps_requests(before: NodeView, after: NodeView, except: Option<MsgId>) -> bool {
    forall|id: MsgId| #[trigger]
        before.callbacks.contains_key(id) && except != Some(id) ==> {
            &&& after.callbacks.contains_key(id)
            &&& after.callbacks[id] == before.callbacks[id]
        }
}

/// Running periodic actions keeps the node well formed and displaces no
/// outstanding request.
pub proof fn lemma_actions_keep_requests(state: NodeView, actions: Seq<Action>)
    requires
        state.well_formed(),
    ensures
        state.ran(actions).well_formed(),
        state.next_message_id <= state.ran(actions).next_message_id,
        keeps_requests(state, state.ran(actions), None),
    decreases actions.len(),
{
    if actions.len() > 0 {
        let before = state.ran(actions.drop_last());
        lemma_actions_keep_requests(state, actions.drop_last());
        match actions.last() {
            Action::RetryBroadcast { value } => {
                let targets = unacked_of(before.pending, value);
                if targets.len() <= before.ids_left() {
                    lemma_fan_out_keeps_requests(before, value, targets);
                }
            },
        }
    }
}

/// A tick keeps the node well formed and displaces no outstanding request:
/// a continuation waits for its reply however often the clock ticks.
pub proof fn lemma_tick_keeps_requests(state: NodeView, now: u64)
    requires
        state.well_formed(),
    ensures
        state.ticked(now).well_formed(),
        state.next_message_id <= state.ticked(now).next_message_id,
        keeps_requests(state, state.ticked(now), None),
{
    let time = later(state.clock, now);
    let polled = NodeView { clock: time, tasks: rearmed(state.tasks, time), ..state };
    lemma_actions_keep_requests(polled, fired(state.tasks, time));
    assert forall|id: MsgId| #[trigger] state.callbacks.contains_key(id) implies {
        &&& state.ticked(now).callbacks.contains_key(id)
        &&& state.ticked(now).callbacks[id] == state.callbacks[id]
    } by {
        assert(polled.callbacks.contains_key(id));
    }
}

/// A message keeps the node well formed, never takes back an id or changes
/// the node's name, and touches no continuation but the one filed under the
/// id it quotes: a continuation runs only for a reply whose `in_reply_to` is
/// the id of its request.
pub proof fn lemma_dispatch_keeps_other_requests(
    state: NodeView,
    message: MessageView,
    after: NodeView,
)
    requires
        state.well_formed(),
        state.dispatched(message, after),
    ensures
        after.well_formed(),
        state.next_message_id <= after.next_message_id,
        after.node_id == state.node_id,
        keeps_requests(state, after, message.body.in_reply_to()),
{
    if let MessageBodyView::Broadcast { msg_id, message: value } = message.body {
        let targets = state.targets(message.src);
        let reply = MessageBodyView::BroadcastOk { in_reply_to: msg_id };
        let answered = state.sent(message.src, reply);
        if !state.messages.contains(value) && targets.len() <= state.ids_left() {
            lemma_fan_out_keeps_requests(answered.learned(value), value, targets);
        }
    }
}

/// A continuation runs at most once: the reply that runs it takes it out of
/// the table.
pub proof fn lemma_reply_takes_continuation(state: NodeView, id: MsgId, reply: MessageBodyView)
    ensures
        !state.replied(id, reply).callbacks.contains_key(id),
        state.resolves(id, reply) ==> !state.resolved(id, reply).resolves(id, reply),
{
}

/// A continuation runs only for a reply that quotes the id of its request:
/// a reply that quotes another id, held against the request, is logged and
/// dropped, and the request goes on waiting.
pub proof fn lemma_only_its_reply_runs_a_continuation(
    state: NodeView,
    id: MsgId,
    reply: MessageBodyView,
)
    requires
        reply.in_reply_to() != Some(id),
    ensures
        state.resolved(id, reply) == state.logged(UNSOLICITED_REPLY@),
        state.resolved(id, reply).callbacks == state.callbacks,
{
}

/// A reply that comes a second time finds nothing: it is logged and
/// dropped, and changes nothing else.
pub proof fn lemma_second_reply_is_dropped(
    state: NodeView,
    message: MessageView,
    first: NodeView,
    second: NodeView,
)
    requires
        message.body.in_reply_to() is Some,
        state.dispatched(message, first),
        first.dispatched(message, second),
    ensures
        second == first.logged(UNSOLICITED_REPLY@),
{
    lemma_reply_takes_continuation(state, message.body.in_reply_to()->0, message.body);
}

/// A reply that no request awaits is logged and dropped, and changes nothing
/// else.
pub proof fn lemma_unsolicited_reply_is_dropped(
    state: NodeView,
    message: MessageView,
    after: NodeView,
)
    requires
        message.body.in_reply_to() matches Some(id) && !state.callbacks.contains_key(id),
        state.dispatched(message, after),
    ensures
        after == state.logged(UNSOLICITED_REPLY@),
{
}

/// The requests of one fan-out carry ids of their own: the i-th goes to the
/// i-th target under the i-th id from the next one on, and its reply settles
/// the value with that target.
pub proof fn lemma_fan_out_correlates(
    state: NodeView,
    value: NodeMessage,
    targets: Seq<Seq<char>>,
    i: int,
)
    requires
        targets.len() <= state.ids_left(),
        0 <= i < targets.len(),
    ensures
        ({
            let after = state.fanned_out(value, targets);
            let id = (state.next_message_id + i) as MsgId;
            &&& after.outbox.len() == state.outbox.len() + targets.len()
            &&& after.outbox[state.outbox.len() + i] == (MessageView {
                src: state.node_id,
                dest: targets[i],
                body: MessageBodyView::Broadcast { msg_id: id, message: value },
            })
            &&& after.callbacks.contains_key(id)
            &&& after.callbacks[id] == (ContinuationView::BroadcastAck {
                value,
                neighbor: targets[i],
            })
        }),
{
}

} // verus!

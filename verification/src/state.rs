//! The node as contracts see it: its state, and what each message and each
//! tick of the clock makes of it.

use crate::message::{MessageBodyView, MessageView, MsgId, NodeMessage};
use crate::message_set::lists;
use crate::pending::{unacked_of, without};
use crate::scheduler::{Action, Task, cancelled, fired, later, rearmed};
use crate::topology::neighbors_of;
use vstd::prelude::*;

verus! {

/// A continuation as contracts see it.
pub enum ContinuationView {
    /// The request carried `value` to `neighbor`: the reply settles that pair.
    BroadcastAck { value: NodeMessage, neighbor: Seq<char> },
}

/// How long a value waits for acknowledgments before it is sent again, in
/// milliseconds.
pub const RETRY_INTERVAL: u64 = 1000;

/// The log line for a request that no handler takes.
pub const NO_HANDLER: &'static str = "Received message with no known handler";

/// The log line for a reply that no request awaits.
pub const UNSOLICITED_REPLY: &'static str = "Received reply that no request awaits";

/// The log line for a reply of another kind than its request expects.
pub const UNEXPECTED_REPLY: &'static str = "Received reply of a kind the request does not expect";

/// The log line for a retry that found no message id left.
pub const IDS_EXHAUSTED: &'static str = "No message id left to send a broadcast again";

/// Whether a retry of `value` is among `tasks`.
pub open spec fn retries(tasks: Seq<Task>, value: NodeMessage) -> bool {
    exists|i: int|
        0 <= i < tasks.len() && (#[trigger] tasks[i]).action == (Action::RetryBroadcast { value })
}

/// The node as contracts see it.
#[verifier::ext_equal]
pub struct NodeView {
    /// The node's own name.
    pub node_id: Seq<char>,
    /// The id the next request will carry. Every id below it has been
    /// issued, none at or above it.
    pub next_message_id: MsgId,
    /// The values the node has learned.
    pub messages: Set<NodeMessage>,
    /// The neighbours of each node, once a topology message has come.
    pub topology: Option<Map<Seq<char>, Seq<Seq<char>>>>,
    /// The requests that await a reply.
    pub callbacks: Map<MsgId, ContinuationView>,
    /// For each value being spread, the neighbours that owe an
    /// acknowledgment.
    pub pending: Map<NodeMessage, Seq<Seq<char>>>,
    /// The latest time a tick has seen.
    pub clock: u64,
    /// The periodic tasks, oldest first.
    pub tasks: Seq<Task>,
    /// The messages waiting to be written out, oldest first.
    pub outbox: Seq<MessageView>,
    /// The log lines waiting to be written out, oldest first.
    pub diagnostics: Seq<Seq<char>>,
}

impl NodeView {
    /// The state of a node that has just been given its name.
    pub open spec fn fresh(node_id: Seq<char>) -> NodeView {
        NodeView {
            node_id,
            next_message_id: 0,
            messages: Set::empty(),
            topology: None,
            callbacks: Map::empty(),
            pending: Map::empty(),
            clock: 0,
            tasks: Seq::empty(),
            outbox: Seq::empty(),
            diagnostics: Seq::empty(),
        }
    }

    /// Only issued ids await a reply.
    pub open spec fn well_formed(self) -> bool {
        forall|id: MsgId| self.callbacks.contains_key(id) ==> id < self.next_message_id
    }

    /// Whether the records of the node hang together: only issued ids await
    /// a reply, and every value that some neighbour owes an acknowledgment
    /// of is a value the node has, owed by at least one neighbour, with a
    /// retry registered.
    pub open spec fn coherent(self) -> bool {
        &&& self.well_formed()
        &&& forall|value: NodeMessage| #[trigger]
            self.pending.contains_key(value) ==> {
                &&& self.messages.contains(value)
                &&& self.pending[value].len() > 0
                &&& retries(self.tasks, value)
            }
    }

    /// How many ids the node can still issue.
    pub open spec fn ids_left(self) -> int {
        u64::MAX - self.next_message_id
    }

    /// Whether `id` can go with a new request: the node has issued it, and
    /// no request under it awaits a reply.
    pub open spec fn is_fresh(self, id: MsgId) -> bool {
        id < self.next_message_id && !self.callbacks.contains_key(id)
    }

    /// The state after a message from this node to `dest` has been put in
    /// the outbox.
    pub open spec fn sent(self, dest: Seq<char>, body: MessageBodyView) -> NodeView {
        NodeView {
            outbox: self.outbox.push(MessageView { src: self.node_id, dest, body }),
            ..self
        }
    }

    /// The state after a line has been put in the log.
    pub open spec fn logged(self, text: Seq<char>) -> NodeView {
        NodeView { diagnostics: self.diagnostics.push(text), ..self }
    }

    /// The state after one id has been issued.
    pub open spec fn issued(self) -> NodeView {
        NodeView { next_message_id: (self.next_message_id + 1) as MsgId, ..self }
    }

    /// The state after `value` has been learned.
    pub open spec fn learned(self, value: NodeMessage) -> NodeView {
        NodeView { messages: self.messages.insert(value), ..self }
    }

    /// The neighbours the topology gives this node; none before a topology
    /// has come, and none where it does not name the node.
    pub open spec fn neighbors(self) -> Seq<Seq<char>> {
        match self.topology {
            Some(topology) => neighbors_of(topology, self.node_id),
            None => Seq::empty(),
        }
    }

    /// The state after `continuation` has been filed under `id`.
    pub open spec fn awaiting(self, id: MsgId, continuation: ContinuationView) -> NodeView {
        NodeView { callbacks: self.callbacks.insert(id, continuation), ..self }
    }

    /// The state after `value` has been sent to each of `targets` in turn:
    /// the i-th request carries the i-th id from the next one on, and its
    /// reply will settle `value` with the i-th target.
    pub open spec fn fanned_out(self, value: NodeMessage, targets: Seq<Seq<char>>) -> NodeView {
        let first = self.next_message_id;
        NodeView {
            next_message_id: (first + targets.len()) as MsgId,
            callbacks: Map::new(
                |id: MsgId| self.callbacks.contains_key(id) || first <= id < first + targets.len(),
                |id: MsgId|
                    if first <= id < first + targets.len() {
                        ContinuationView::BroadcastAck { value, neighbor: targets[id - first] }
                    } else {
                        self.callbacks[id]
                    },
            ),
            outbox: self.outbox + Seq::new(
                targets.len(),
                |i: int|
                    MessageView {
                        src: self.node_id,
                        dest: targets[i],
                        body: MessageBodyView::Broadcast {
                            msg_id: (first + i) as MsgId,
                            message: value,
                        },
                    },
            ),
            ..self
        }
    }

    /// The state after an echo request has been answered.
    pub open spec fn echo_handled(
        self,
        sender: Seq<char>,
        msg_id: MsgId,
        echo: Seq<char>,
    ) -> NodeView {
        self.sent(sender, MessageBodyView::EchoOk { echo, in_reply_to: msg_id })
    }

    /// The state after a topology request has been taken and answered: the
    /// new topology stands in place of the old one.
    pub open spec fn topology_handled(
        self,
        sender: Seq<char>,
        msg_id: MsgId,
        topology: Map<Seq<char>, Seq<Seq<char>>>,
    ) -> NodeView {
        NodeView { topology: Some(topology), ..self }.sent(
            sender,
            MessageBodyView::TopologyOk { in_reply_to: msg_id },
        )
    }

    /// The state after an add request has been taken and answered.
    pub open spec fn add_handled(
        self,
        sender: Seq<char>,
        msg_id: MsgId,
        element: NodeMessage,
    ) -> NodeView {
        self.learned(element).sent(sender, MessageBodyView::AddOk { in_reply_to: msg_id })
    }

    /// Whether `after` is the state once a read request has been answered:
    /// the reply lists the learned values, each once, in some order.
    pub open spec fn read_handled(self, sender: Seq<char>, msg_id: MsgId, after: NodeView) -> bool {
        exists|list: Seq<NodeMessage>|
            lists(list, self.messages) && after == #[trigger] self.sent(
                sender,
                MessageBodyView::ReadOk { in_reply_to: msg_id, messages: list },
            )
    }

    /// The neighbours a value that came from `sender` goes on to.
    pub open spec fn targets(self, sender: Seq<char>) -> Seq<Seq<char>> {
        without(self.neighbors(), sender)
    }

    /// The state after a broadcast request has been taken. The sender is
    /// always answered, and first. A value already learned changes nothing
    /// else. A new value is learned and sent on to the neighbours other than
    /// the sender; where there are any, they are noted as owing an
    /// acknowledgment and a retry is registered. Where the node has too few
    /// ids left for the requests, none is sent.
    pub open spec fn broadcast_handled(
        self,
        sender: Seq<char>,
        msg_id: MsgId,
        value: NodeMessage,
    ) -> NodeView {
        let answered = self.sent(sender, MessageBodyView::BroadcastOk { in_reply_to: msg_id });
        let targets = self.targets(sender);
        if self.messages.contains(value) {
            answered
        } else if targets.len() > self.ids_left() || targets.len() == 0 {
            answered.learned(value)
        } else {
            let spread = answered.learned(value).fanned_out(value, targets);
            NodeView {
                pending: spread.pending.insert(value, targets),
                tasks: spread.tasks.push(
                    Task {
                        interval: RETRY_INTERVAL,
                        last_fired: spread.clock,
                        action: Action::RetryBroadcast { value },
                    },
                ),
                ..spread
            }
        }
    }

    /// The state after `neighbor` has acknowledged `value`. When that was the
    /// last neighbour owing one, the retry of the value is taken out.
    pub open spec fn acknowledged(self, value: NodeMessage, neighbor: Seq<char>) -> NodeView {
        let pending = crate::pending::acknowledged(self.pending, value, neighbor);
        NodeView {
            pending,
            tasks: if self.pending.contains_key(value) && !pending.contains_key(value) {
                cancelled(self.tasks, Action::RetryBroadcast { value })
            } else {
                self.tasks
            },
            ..self
        }
    }

    /// The state after the reply to request `id` has come: the continuation
    /// leaves the table, and runs.
    pub open spec fn replied(self, id: MsgId, reply: MessageBodyView) -> NodeView {
        let taken = NodeView { callbacks: self.callbacks.remove(id), ..self };
        match (self.callbacks[id], reply) {
            (
                ContinuationView::BroadcastAck { value, neighbor },
                MessageBodyView::BroadcastOk { .. },
            ) => taken.acknowledged(value, neighbor),
            _ => taken.logged(UNEXPECTED_REPLY@),
        }
    }

    /// The state after `value` has been sent again to the neighbours that
    /// owe an acknowledgment.
    pub open spec fn retried(self, value: NodeMessage) -> NodeView {
        let targets = unacked_of(self.pending, value);
        if targets.len() > self.ids_left() {
            self.logged(IDS_EXHAUSTED@)
        } else {
            self.fanned_out(value, targets)
        }
    }

    /// The state after a periodic action has run.
    pub open spec fn acted(self, action: Action) -> NodeView {
        match action {
            Action::RetryBroadcast { value } => self.retried(value),
        }
    }

    /// The state after `actions` have run, one after the other.
    pub open spec fn ran(self, actions: Seq<Action>) -> NodeView
        decreases actions.len(),
    {
        if actions.len() == 0 {
            self
        } else {
            self.ran(actions.drop_last()).acted(actions.last())
        }
    }

    /// The state after a tick at time `now`: the tasks that are due fire, in
    /// the order they were registered, and their actions run.
    pub open spec fn ticked(self, now: u64) -> NodeView {
        let time = later(self.clock, now);
        NodeView { clock: time, tasks: rearmed(self.tasks, time), ..self }.ran(
            fired(self.tasks, time),
        )
    }

    /// Whether `reply` runs the continuation of request `id`: it quotes the
    /// id, and the request awaits a reply.
    pub open spec fn resolves(self, id: MsgId, reply: MessageBodyView) -> bool {
        reply.in_reply_to() == Some(id) && self.callbacks.contains_key(id)
    }

    /// The state after `reply` has been held against request `id`. A reply
    /// that quotes the id of a request that awaits one runs the
    /// continuation; any other is logged and dropped.
    pub open spec fn resolved(self, id: MsgId, reply: MessageBodyView) -> NodeView {
        if self.resolves(id, reply) {
            self.replied(id, reply)
        } else {
            self.logged(UNSOLICITED_REPLY@)
        }
    }

    /// Whether `after` is the state once `message` has been dispatched. A
    /// reply goes to the continuation of the request it quotes and never to
    /// a handler. A request goes to the handler of its kind; one without a
    /// handler is logged and dropped.
    pub open spec fn dispatched(self, message: MessageView, after: NodeView) -> bool {
        match message.body.in_reply_to() {
            Some(id) => after == self.resolved(id, message.body),
            None => match message.body {
                MessageBodyView::Echo { msg_id, echo } => after == self.echo_handled(
                    message.src,
                    msg_id,
                    echo,
                ),
                MessageBodyView::Topology { msg_id, topology } => after == self.topology_handled(
                    message.src,
                    msg_id,
                    topology,
                ),
                MessageBodyView::Broadcast { msg_id, message: value } => after
                    == self.broadcast_handled(message.src, msg_id, value),
                MessageBodyView::Read { msg_id } => self.read_handled(message.src, msg_id, after),
                MessageBodyView::Add { msg_id, element } => after == self.add_handled(
                    message.src,
                    msg_id,
                    element,
                ),
                _ => after == self.logged(NO_HANDLER@),
            },
        }
    }

    /// Whether dispatching `message` fails: only a new broadcast value can,
    /// when the node has too few ids left to send it on.
    pub open spec fn dispatch_fails(self, message: MessageView) -> bool {
        &&& message.body matches MessageBodyView::Broadcast { message: value, .. }
        &&& !self.messages.contains(value)
        &&& self.targets(message.src).len() > self.ids_left()
    }
}

} // verus!

//! The node: what it holds, and what it does with each message and each
//! tick of the clock.

use crate::callbacks::CallbackTable;
use crate::delivery::{
    lemma_dispatch_keeps_coherent, lemma_registration_keeps_coherent, lemma_reply_keeps_coherent,
    lemma_tick_keeps_coherent,
};
use crate::error::ProtocolError;
use crate::message::{
    Message, MessageBody, MessageBodyView, MessageView, MsgId, NodeId, NodeMessage, views,
};
use crate::message_set::{MessageSet, lists};
use crate::pending::{PendingBroadcasts, names_without, unacked_of};
use crate::scheduler::{Action, Scheduler, Task};
use crate::state::{
    ContinuationView, IDS_EXHAUSTED, NO_HANDLER, NodeView, RETRY_INTERVAL, UNEXPECTED_REPLY,
    UNSOLICITED_REPLY,
};
use crate::topology::Topology;
use vstd::prelude::*;

verus! {

/// What to do when the reply to a request arrives.
#[derive(Debug)]
pub enum Continuation {
    /// The request carried `value` to `neighbor`: the reply settles that pair.
    BroadcastAck { value: NodeMessage, neighbor: NodeId },
}

impl View for Continuation {
    type V = ContinuationView;

    open spec fn view(&self) -> ContinuationView {
        match self {
            Continuation::BroadcastAck { value, neighbor } => ContinuationView::BroadcastAck {
                value: *value,
                neighbor: neighbor@,
            },
        }
    }
}

/// A participant in the protocol. It holds what the node knows and what it
/// waits for; it collects the messages and log lines it wants written and
/// leaves the writing to its driver.
#[derive(Debug)]
pub struct Node {
    node_id: NodeId,
    next_message_id: MsgId,
    messages: MessageSet,
    topology: Option<Topology>,
    callbacks: CallbackTable<Continuation>,
    pending: PendingBroadcasts,
    scheduler: Scheduler,
    outbox: Vec<Message>,
    diagnostics: Vec<String>,
}

impl View for Node {
    type V = NodeView;

    closed spec fn view(&self) -> NodeView {
        NodeView {
            node_id: self.node_id@,
            next_message_id: self.next_message_id,
            messages: self.messages@,
            topology: match self.topology {
                Some(topology) => Some(topology@),
                None => None,
            },
            callbacks: self.callbacks@.map_values(|continuation: Continuation| continuation@),
            pending: self.pending@,
            clock: self.scheduler@.clock,
            tasks: self.scheduler@.tasks,
            outbox: views(self.outbox@),
            diagnostics: self.diagnostics.deep_view(),
        }
    }
}

impl Node {
    /// A node named `node_id` that has seen nothing yet.
    pub fn new(node_id: &NodeId) -> (node: Self)
        ensures
            node@ == NodeView::fresh(node_id@),
            node@.coherent(),
    {
        Node {
            node_id: node_id.clone(),
            next_message_id: 0,
            messages: MessageSet::new(),
            topology: None,
            callbacks: CallbackTable::new(),
            pending: PendingBroadcasts::new(),
            scheduler: Scheduler::new(),
            outbox: Vec::new(),
            diagnostics: Vec::new(),
        }
    }

    /// A node named `node_id` that has seen nothing yet and counts its
    /// message ids from `first` on, for a process that takes up an id
    /// sequence where an earlier one left it.
    pub fn starting_at(node_id: &NodeId, first: MsgId) -> (node: Self)
        ensures
            node@ == (NodeView { next_message_id: first, ..NodeView::fresh(node_id@) }),
            node@.coherent(),
    {
        let mut node = Node::new(node_id);
        node.next_message_id = first;
        node
    }

    /// The node's own name.
    pub fn node_id(&self) -> (name: &NodeId)
        ensures
            name@ == self@.node_id,
    {
        &self.node_id
    }

    /// How many message ids the node can still issue.
    pub fn ids_left(&self) -> (count: u64)
        ensures
            count == self@.ids_left(),
    {
        u64::MAX - self.next_message_id
    }

    /// Whether request `id` awaits a reply.
    pub fn awaits_reply(&self, id: MsgId) -> (found: bool)
        ensures
            found == self@.callbacks.contains_key(id),
    {
        self.callbacks.contains(id)
    }

    /// The neighbours that owe an acknowledgment of `value`.
    pub fn unacked(&self, value: NodeMessage) -> (list: Vec<NodeId>)
        ensures
            list.deep_view() == unacked_of(self@.pending, value),
    {
        self.pending.unacked(value)
    }

    /// The latest time a tick has seen.
    pub fn clock(&self) -> (now: u64)
        ensures
            now == self@.clock,
    {
        self.scheduler.clock()
    }

    /// How many periodic tasks are registered.
    pub fn task_count(&self) -> (count: usize)
        ensures
            count == self@.tasks.len(),
    {
        self.scheduler.len()
    }

    /// Hands over the messages waiting to be written out, oldest first, and
    /// leaves the outbox empty.
    pub fn take_outbox(&mut self) -> (messages: Vec<Message>)
        ensures
            views(messages@) == old(self)@.outbox,
            final(self)@ == (NodeView { outbox: Seq::empty(), ..old(self)@ }),
            old(self)@.coherent() ==> final(self)@.coherent(),
    {
        let mut messages: Vec<Message> = Vec::new();
        std::mem::swap(&mut self.outbox, &mut messages);
        messages
    }

    /// Hands over the log lines waiting to be written out, oldest first, and
    /// leaves the log empty.
    pub fn take_diagnostics(&mut self) -> (lines: Vec<String>)
        ensures
            lines.deep_view() == old(self)@.diagnostics,
            final(self)@ == (NodeView { diagnostics: Seq::empty(), ..old(self)@ }),
            old(self)@.coherent() ==> final(self)@.coherent(),
    {
        let mut lines: Vec<String> = Vec::new();
        std::mem::swap(&mut self.diagnostics, &mut lines);
        lines
    }

    /// Issues the next message id. Ids count up from zero and none is issued
    /// twice.
    pub fn get_next_msg_id(&mut self) -> (id: MsgId)
        requires
            old(self)@.ids_left() > 0,
        ensures
            id == old(self)@.next_message_id,
            final(self)@ == old(self)@.issued(),
            old(self)@.coherent() ==> final(self)@.coherent(),
    {
        let id = self.next_message_id;
        self.next_message_id = id + 1;
        id
    }

    /// Issues the next message id, if one is left.
    pub fn next_message_id(&mut self) -> (id: Option<MsgId>)
        ensures
            id == if old(self)@.ids_left() > 0 {
                Some(old(self)@.next_message_id)
            } else {
                None
            },
            final(self)@ == if old(self)@.ids_left() > 0 {
                old(self)@.issued()
            } else {
                old(self)@
            },
            old(self)@.coherent() ==> final(self)@.coherent(),
    {
        if self.next_message_id < u64::MAX {
            Some(self.get_next_msg_id())
        } else {
            None
        }
    }

    /// Puts a message from this node to `dest` in the outbox.
    pub fn send(&mut self, dest: &NodeId, body: MessageBody)
        ensures
            final(self)@ == old(self)@.sent(dest@, body@),
            old(self)@.coherent() ==> final(self)@.coherent(),
    {
        let message = Message { src: self.node_id.clone(), dest: dest.clone(), body };
        self.outbox.push(message);
    }

    /// Puts a line in the log.
    pub fn log(&mut self, text: &str)
        ensures
            final(self)@ == old(self)@.logged(text@),
            old(self)@.coherent() ==> final(self)@.coherent(),
    {
        self.diagnostics.push(text.to_owned());
    }

    /// Learns `message`; tells whether it was new. Learning a value twice
    /// leaves the node as learning it once.
    pub fn add_message(&mut self, message: NodeMessage) -> (inserted: bool)
        ensures
            final(self)@ == old(self)@.learned(message),
            inserted == !old(self)@.messages.contains(message),
            old(self)@.coherent() ==> final(self)@.coherent(),
    {
        self.messages.add(message)
    }

    /// Whether the node has learned `message`.
    pub fn messages_contain(&self, message: &NodeMessage) -> (found: bool)
        ensures
            found == self@.messages.contains(*message),
    {
        self.messages.contains(*message)
    }

    /// The values the node has learned at this moment, each once, in no
    /// particular order.
    pub fn read_messages(&self) -> (list: Vec<NodeMessage>)
        ensures
            lists(list@, self@.messages),
    {
        self.messages.to_vec()
    }

    /// The values the node has learned at this moment, as `read_messages`
    /// gives them.
    pub fn get_all_messages(&self) -> (list: Vec<NodeMessage>)
        ensures
            lists(list@, self@.messages),
    {
        self.read_messages()
    }

    /// Registers `action` to run every `interval` milliseconds, counted from
    /// the latest tick.
    pub fn every(&mut self, interval: u64, action: Action)
        ensures
            final(self)@ == (NodeView {
                tasks: old(self)@.tasks.push(
                    Task { interval, last_fired: old(self)@.clock, action },
                ),
                ..old(self)@
            }),
            old(self)@.coherent() ==> final(self)@.coherent(),
    {
        proof {
            if old(self)@.coherent() {
                lemma_registration_keeps_coherent(
                    old(self)@,
                    Task { interval, last_fired: old(self)@.clock, action },
                );
            }
        }
        self.scheduler.every(interval, action);
    }

    /// Sends the request `body` to `dest` and files `continuation` for its
    /// reply. The body must carry an id that this node has issued and that
    /// awaits no reply yet; otherwise nothing is sent or filed.
    pub fn rpc(&mut self, dest: &NodeId, body: MessageBody, continuation: Continuation) -> (result:
        Result<(), ProtocolError>)
        ensures
            match body@.msg_id() {
                None => {
                    &&& result == Err::<(), ProtocolError>(ProtocolError::MissingMessageId)
                    &&& final(self)@ == old(self)@
                },
                Some(id) => if old(self)@.is_fresh(id) {
                    &&& result == Ok::<(), ProtocolError>(())
                    &&& final(self)@ == old(self)@.awaiting(id, continuation@).sent(dest@, body@)
                } else {
                    &&& result == Err::<(), ProtocolError>(ProtocolError::StaleMessageId)
                    &&& final(self)@ == old(self)@
                },
            },
            old(self)@.coherent() ==> final(self)@.coherent(),
    {
        match body.msg_id() {
            None => Err(ProtocolError::MissingMessageId),
            Some(id) => {
                if id >= self.next_message_id || self.callbacks.contains(id) {
                    Err(ProtocolError::StaleMessageId)
                } else {
                    self.callbacks.register(id, continuation);
                    self.send(dest, body);
                    Ok(())
                }
            },
        }
    }

    /// Sends `value` to each of `targets` as a request of its own.
    fn fan_out(&mut self, value: NodeMessage, targets: &Vec<NodeId>)
        requires
            targets@.len() <= old(self)@.ids_left(),
        ensures
            final(self)@ == old(self)@.fanned_out(value, targets.deep_view()),
    {
        let ghost names = targets.deep_view();
        let mut i: usize = 0;
        while i < targets.len()
            invariant
                i <= targets@.len(),
                names == targets.deep_view(),
                targets@.len() <= old(self)@.ids_left(),
                self@ == old(self)@.fanned_out(value, names.take(i as int)),
            decreases targets@.len() - i,
        {
            let ghost before = self@;
            let id = self.get_next_msg_id();
            let continuation = Continuation::BroadcastAck { value, neighbor: targets[i].clone() };
            self.callbacks.register(id, continuation);
            assert(self@.callbacks =~= before.callbacks.insert(id, continuation@));
            self.send(&targets[i], MessageBody::Broadcast { msg_id: id, message: value });
            i += 1;
        }
    }

    /// Answers an echo request with what it said.
    pub fn handle_echo(&mut self, message: &Message) -> (result: Result<(), ProtocolError>)
        ensures
            match message@.body {
                MessageBodyView::Echo { msg_id, echo } => {
                    &&& result == Ok::<(), ProtocolError>(())
                    &&& final(self)@ == old(self)@.echo_handled(message@.src, msg_id, echo)
                },
                _ => {
                    &&& result == Err::<(), ProtocolError>(ProtocolError::MismatchedBody)
                    &&& final(self)@ == old(self)@
                },
            },
            old(self)@.coherent() ==> final(self)@.coherent(),
    {
        match &message.body {
            MessageBody::Echo { msg_id, echo } => {
                let reply = MessageBody::EchoOk { echo: echo.clone(), in_reply_to: *msg_id };
                self.send(&message.src, reply);
                Ok(())
            },
            _ => Err(ProtocolError::MismatchedBody),
        }
    }

    /// Takes the topology of a topology request in place of any it had, and
    /// answers.
    pub fn handle_topology(&mut self, message: &Message) -> (result: Result<(), ProtocolError>)
        ensures
            match message@.body {
                MessageBodyView::Topology { msg_id, topology } => {
                    &&& result == Ok::<(), ProtocolError>(())
                    &&& final(self)@ == old(self)@.topology_handled(message@.src, msg_id, topology)
                },
                _ => {
                    &&& result == Err::<(), ProtocolError>(ProtocolError::MismatchedBody)
                    &&& final(self)@ == old(self)@
                },
            },
            old(self)@.coherent() ==> final(self)@.coherent(),
    {
        match &message.body {
            MessageBody::Topology { msg_id, topology } => {
                self.topology = Some(topology.clone());
                self.send(&message.src, MessageBody::TopologyOk { in_reply_to: *msg_id });
                Ok(())
            },
            _ => Err(ProtocolError::MismatchedBody),
        }
    }

    /// Answers a read request with the values learned so far.
    pub fn handle_read(&mut self, message: &Message) -> (result: Result<(), ProtocolError>)
        ensures
            match message@.body {
                MessageBodyView::Read { msg_id } => {
                    &&& result == Ok::<(), ProtocolError>(())
                    &&& old(self)@.read_handled(message@.src, msg_id, final(self)@)
                },
                _ => {
                    &&& result == Err::<(), ProtocolError>(ProtocolError::MismatchedBody)
                    &&& final(self)@ == old(self)@
                },
            },
            old(self)@.coherent() ==> final(self)@.coherent(),
    {
        match &message.body {
            MessageBody::Read { msg_id } => {
                let messages = self.read_messages();
                self.send(&message.src, MessageBody::ReadOk { in_reply_to: *msg_id, messages });
                Ok(())
            },
            _ => Err(ProtocolError::MismatchedBody),
        }
    }

    /// Learns the element of an add request, and answers.
    pub fn handle_add(&mut self, message: &Message) -> (result: Result<(), ProtocolError>)
        ensures
            match message@.body {
                MessageBodyView::Add { msg_id, element } => {
                    &&& result == Ok::<(), ProtocolError>(())
                    &&& final(self)@ == old(self)@.add_handled(message@.src, msg_id, element)
                },
                _ => {
                    &&& result == Err::<(), ProtocolError>(ProtocolError::MismatchedBody)
                    &&& final(self)@ == old(self)@
                },
            },
            old(self)@.coherent() ==> final(self)@.coherent(),
    {
        match &message.body {
            MessageBody::Add { msg_id, element } => {
                self.add_message(*element);
                self.send(&message.src, MessageBody::AddOk { in_reply_to: *msg_id });
                Ok(())
            },
            _ => Err(ProtocolError::MismatchedBody),
        }
    }

    /// The neighbours the topology gives this node.
    pub fn neighbors(&self) -> (list: Vec<NodeId>)
        ensures
            list.deep_view() == self@.neighbors(),
    {
        match &self.topology {
            Some(topology) => topology.neighbors(&self.node_id),
            None => Vec::new(),
        }
    }

    /// Takes a broadcast request. The sender is answered at once, whatever
    /// follows. A value the node already has ends there. A new value is
    /// learned and sent on to each neighbour other than the sender, and is
    /// sent again at every retry interval to those that have not
    /// acknowledged it. Where the node has too few message ids left to send
    /// the value on, it sends it to nobody and says so.
    pub fn handle_broadcast(&mut self, message: &Message) -> (result: Result<(), ProtocolError>)
        ensures
            match message@.body {
                MessageBodyView::Broadcast { msg_id, message: value } => {
                    &&& final(self)@ == old(self)@.broadcast_handled(message@.src, msg_id, value)
                    &&& result == if old(self)@.dispatch_fails(message@) {
                        Err::<(), ProtocolError>(ProtocolError::MessageIdsExhausted)
                    } else {
                        Ok::<(), ProtocolError>(())
                    }
                },
                _ => {
                    &&& result == Err::<(), ProtocolError>(ProtocolError::MismatchedBody)
                    &&& final(self)@ == old(self)@
                },
            },
            old(self)@.coherent() ==> final(self)@.coherent(),
    {
        let result = match &message.body {
            MessageBody::Broadcast { msg_id, message: value } => {
                let neighbors = self.neighbors();
                self.send(&message.src, MessageBody::BroadcastOk { in_reply_to: *msg_id });
                if self.messages_contain(value) {
                    Ok(())
                } else {
                    self.add_message(*value);
                    let targets = names_without(&neighbors, &message.src);
                    if targets.len() as u64 > self.ids_left() {
                        Err(ProtocolError::MessageIdsExhausted)
                    } else if targets.len() == 0 {
                        Ok(())
                    } else {
                        self.fan_out(*value, &targets);
                        self.pending.begin(*value, targets);
                        let retry = Action::RetryBroadcast { value: *value };
                        self.scheduler.every(RETRY_INTERVAL, retry);
                        Ok(())
                    }
                }
            },
            _ => Err(ProtocolError::MismatchedBody),
        };
        proof {
            if old(self)@.coherent() && message@.body is Broadcast {
                lemma_dispatch_keeps_coherent(old(self)@, message@, self@);
            }
        }
        result
    }

    /// Notes that `neighbor` has acknowledged `value`.
    fn acknowledge(&mut self, value: NodeMessage, neighbor: &NodeId)
        ensures
            final(self)@ == old(self)@.acknowledged(value, neighbor@),
    {
        let settled = self.pending.acknowledge(value, neighbor);
        if settled {
            self.scheduler.cancel(Action::RetryBroadcast { value });
        }
    }

    /// Holds `reply` against request `msg_id`. If the reply quotes that id
    /// and the request awaits a reply, its continuation leaves the table and
    /// runs, so that it runs at most once; otherwise the reply is logged and
    /// dropped. Tells whether a continuation ran.
    pub fn resolve(&mut self, msg_id: MsgId, reply: &MessageBody) -> (found: bool)
        ensures
            final(self)@ == old(self)@.resolved(msg_id, reply@),
            found == old(self)@.resolves(msg_id, reply@),
            old(self)@.coherent() ==> final(self)@.coherent(),
    {
        proof {
            if old(self)@.coherent() {
                lemma_reply_keeps_coherent(old(self)@, msg_id, reply@);
            }
        }
        let quoted = match reply.in_reply_to() {
            Some(id) => id == msg_id,
            None => false,
        };
        let continuation = if quoted {
            self.callbacks.resolve(msg_id)
        } else {
            None
        };
        match continuation {
            None => {
                assert(self@.callbacks =~= old(self)@.callbacks);
                self.log(UNSOLICITED_REPLY);
                false
            },
            Some(Continuation::BroadcastAck { value, neighbor }) => {
                assert(self@.callbacks =~= old(self)@.callbacks.remove(msg_id));
                match reply {
                    MessageBody::BroadcastOk { .. } => {
                        self.acknowledge(value, &neighbor);
                    },
                    _ => {
                        self.log(UNEXPECTED_REPLY);
                    },
                }
                true
            },
        }
    }

    /// Sends `value` again to the neighbours that owe an acknowledgment.
    fn retry(&mut self, value: NodeMessage)
        ensures
            final(self)@ == old(self)@.retried(value),
    {
        let targets = self.pending.unacked(value);
        if targets.len() as u64 > self.ids_left() {
            self.log(IDS_EXHAUSTED);
        } else {
            self.fan_out(value, &targets);
        }
    }

    /// One tick of the clock at time `now`, in milliseconds: the periodic
    /// tasks that are due fire, in the order they were registered.
    pub fn tick(&mut self, now: u64)
        ensures
            final(self)@ == old(self)@.ticked(now),
            old(self)@.coherent() ==> final(self)@.coherent(),
    {
        proof {
            if old(self)@.coherent() {
                lemma_tick_keeps_coherent(old(self)@, now);
            }
        }
        let actions = self.scheduler.poll(now);
        let ghost polled = self@;
        let mut i: usize = 0;
        while i < actions.len()
            invariant
                i <= actions@.len(),
                self@ == polled.ran(actions@.take(i as int)),
            decreases actions@.len() - i,
        {
            assert(actions@.take(i + 1).drop_last() =~= actions@.take(i as int));
            match actions[i] {
                Action::RetryBroadcast { value } => {
                    self.retry(value);
                },
            }
            i += 1;
        }
        assert(actions@.take(actions@.len() as int) =~= actions@);
    }

    /// Routes one message. A reply goes to the continuation of the request it
    /// quotes, and never to a handler. A request goes to the handler of its
    /// kind; one without a handler is logged and dropped.
    pub fn dispatch(&mut self, message: &Message) -> (result: Result<(), ProtocolError>)
        ensures
            old(self)@.dispatched(message@, final(self)@),
            result == if old(self)@.dispatch_fails(message@) {
                Err::<(), ProtocolError>(ProtocolError::MessageIdsExhausted)
            } else {
                Ok::<(), ProtocolError>(())
            },
            old(self)@.coherent() ==> final(self)@.coherent(),
    {
        let result = match message.body.in_reply_to() {
            Some(id) => {
                self.resolve(id, &message.body);
                Ok(())
            },
            None => match &message.body {
                MessageBody::Echo { .. } => self.handle_echo(message),
                MessageBody::Topology { .. } => self.handle_topology(message),
                MessageBody::Broadcast { .. } => self.handle_broadcast(message),
                MessageBody::Read { .. } => self.handle_read(message),
                MessageBody::Add { .. } => self.handle_add(message),
                _ => {
                    self.log(NO_HANDLER);
                    Ok(())
                },
            },
        };
        proof {
            if old(self)@.coherent() {
                lemma_dispatch_keeps_coherent(old(self)@, message@, self@);
            }
        }
        result
    }
}

} // verus!

//! The life of a process: it waits for `init`, becomes a node, and runs
//! until it ends.

use crate::error::ProtocolError;
use crate::handshake::{initialize_node, initialized};
use crate::message::{Message, MessageBodyView, MessageView, views};
use crate::node::Node;
use crate::state::NodeView;
use vstd::prelude::*;

verus! {

/// A line that could not be read as a message.
#[derive(Debug, PartialEq, Eq)]
pub struct DecodeError {
    /// What the log is to say of it.
    pub reason: String,
}

/// What the reader made of one line: a message, or the reason it found none.
pub type Inbound = Result<Message, DecodeError>;

/// The view of what the reader made of one line.
pub open spec fn inbound_view(inbound: Inbound) -> Result<MessageView, Seq<char>> {
    match inbound {
        Ok(message) => Ok(message@),
        Err(error) => Err(error.reason@),
    }
}

/// A process as contracts see it.
pub enum RuntimeView {
    /// No line has come yet.
    Starting,
    /// The first line was `init`: the process is this node.
    Running(NodeView),
    /// The first line was not `init`: the process is to end.
    Failed,
}

impl RuntimeView {
    /// Whether `after` is the process once one line has been taken. The
    /// first line has to be an `init` message: it makes the node, which
    /// answers `init_ok`; anything else is fatal. From then on a message is
    /// dispatched, and a line that is no message is logged and dropped.
    pub open spec fn received(
        self,
        inbound: Result<MessageView, Seq<char>>,
        after: RuntimeView,
    ) -> bool {
        match self {
            RuntimeView::Starting => match inbound {
                Ok(message) => match message.body {
                    MessageBodyView::Init { msg_id, node_id, .. } => after == RuntimeView::Running(
                        initialized(message.src, msg_id, node_id),
                    ),
                    _ => after == RuntimeView::Failed,
                },
                Err(_) => after == RuntimeView::Failed,
            },
            RuntimeView::Running(node) => match inbound {
                Ok(message) => after matches RuntimeView::Running(next) && node.dispatched(
                    message,
                    next,
                ),
                Err(reason) => after == RuntimeView::Running(node.logged(reason)),
            },
            RuntimeView::Failed => after == RuntimeView::Failed,
        }
    }

    /// What taking a line answers: the first line is refused unless it is
    /// `init`, a failed process refuses every line, and a running node
    /// refuses only a new value it has no message ids to send on.
    pub open spec fn refuses(self, inbound: Result<MessageView, Seq<char>>) -> Option<
        ProtocolError,
    > {
        match self {
            RuntimeView::Starting => match inbound {
                Ok(message) => if message.body is Init {
                    None
                } else {
                    Some(ProtocolError::FirstMessageNotInit)
                },
                Err(_) => Some(ProtocolError::FirstMessageNotInit),
            },
            RuntimeView::Running(node) => match inbound {
                Ok(message) => if node.dispatch_fails(message) {
                    Some(ProtocolError::MessageIdsExhausted)
                } else {
                    None
                },
                Err(_) => None,
            },
            RuntimeView::Failed => Some(ProtocolError::FirstMessageNotInit),
        }
    }

    /// The process after a tick at time `now`: a running node ticks, and
    /// nothing else changes.
    pub open spec fn ticked(self, now: u64) -> RuntimeView {
        match self {
            RuntimeView::Running(node) => RuntimeView::Running(node.ticked(now)),
            _ => self,
        }
    }

    /// Whether the node of a running process is coherent.
    pub open spec fn coherent(self) -> bool {
        self matches RuntimeView::Running(node) ==> node.coherent()
    }

    /// The messages waiting to be written out.
    pub open spec fn outbox(self) -> Seq<MessageView> {
        match self {
            RuntimeView::Running(node) => node.outbox,
            _ => Seq::empty(),
        }
    }

    /// The log lines waiting to be written out.
    pub open spec fn diagnostics(self) -> Seq<Seq<char>> {
        match self {
            RuntimeView::Running(node) => node.diagnostics,
            _ => Seq::empty(),
        }
    }

    /// The process with its outbox emptied.
    pub open spec fn without_outbox(self) -> RuntimeView {
        match self {
            RuntimeView::Running(node) => RuntimeView::Running(
                NodeView { outbox: Seq::empty(), ..node },
            ),
            _ => self,
        }
    }

    /// The process with its log emptied.
    pub open spec fn without_diagnostics(self) -> RuntimeView {
        match self {
            RuntimeView::Running(node) => RuntimeView::Running(
                NodeView { diagnostics: Seq::empty(), ..node },
            ),
            _ => self,
        }
    }
}

/// A process from its start. The node is made once, by the first line, and
/// lives as long as the process.
#[derive(Debug)]
pub enum Runtime {
    /// No line has come yet.
    Starting,
    /// The first line was `init`: the process is this node.
    Running(Node),
    /// The first line was not `init`: the process is to end.
    Failed,
}

impl View for Runtime {
    type V = RuntimeView;

    open spec fn view(&self) -> RuntimeView {
        match self {
            Runtime::Starting => RuntimeView::Starting,
            Runtime::Running(node) => RuntimeView::Running(node@),
            Runtime::Failed => RuntimeView::Failed,
        }
    }
}

impl Runtime {
    /// A process that has received nothing yet.
    pub fn new() -> (runtime: Self)
        ensures
            runtime@ == RuntimeView::Starting,
            runtime@.coherent(),
    {
        Runtime::Starting
    }

    /// Whether the process is to end because its first line was not `init`.
    pub fn has_failed(&self) -> (failed: bool)
        ensures
            failed == (self@ is Failed),
    {
        match self {
            Runtime::Failed => true,
            _ => false,
        }
    }

    /// Takes what the reader made of one line.
    pub fn receive(&mut self, inbound: Inbound) -> (result: Result<(), ProtocolError>)
        ensures
            old(self)@.received(inbound_view(inbound), final(self)@),
            result == match old(self)@.refuses(inbound_view(inbound)) {
                Some(error) => Err::<(), ProtocolError>(error),
                None => Ok::<(), ProtocolError>(()),
            },
            old(self)@.coherent() ==> final(self)@.coherent(),
    {
        match self {
            Runtime::Starting => {
                let made = match inbound {
                    Ok(message) => initialize_node(&message),
                    Err(_) => Err(ProtocolError::FirstMessageNotInit),
                };
                match made {
                    Ok(node) => {
                        *self = Runtime::Running(node);
                        Ok(())
                    },
                    Err(error) => {
                        *self = Runtime::Failed;
                        Err(error)
                    },
                }
            },
            Runtime::Running(node) => match inbound {
                Ok(message) => node.dispatch(&message),
                Err(error) => {
                    node.log(error.reason.as_str());
                    Ok(())
                },
            },
            Runtime::Failed => Err(ProtocolError::FirstMessageNotInit),
        }
    }

    /// One tick of the clock at time `now`, in milliseconds.
    pub fn tick(&mut self, now: u64)
        ensures
            final(self)@ == old(self)@.ticked(now),
            old(self)@.coherent() ==> final(self)@.coherent(),
    {
        if let Runtime::Running(node) = self {
            node.tick(now);
        }
    }

    /// Hands over the messages waiting to be written out, oldest first.
    pub fn take_outbox(&mut self) -> (messages: Vec<Message>)
        ensures
            views(messages@) == old(self)@.outbox(),
            final(self)@ == old(self)@.without_outbox(),
            old(self)@.coherent() ==> final(self)@.coherent(),
    {
        match self {
            Runtime::Running(node) => node.take_outbox(),
            _ => Vec::new(),
        }
    }

    /// Hands over the log lines waiting to be written out, oldest first.
    pub fn take_diagnostics(&mut self) -> (lines: Vec<String>)
        ensures
            lines.deep_view() == old(self)@.diagnostics(),
            final(self)@ == old(self)@.without_diagnostics(),
            old(self)@.coherent() ==> final(self)@.coherent(),
    {
        match self {
            Runtime::Running(node) => node.take_diagnostics(),
            _ => Vec::new(),
        }
    }
}

/// The handshake gate: a process whose first line is anything but an `init`
/// message fails, and stays failed whatever comes.
pub proof fn lemma_first_line_must_be_init(
    inbound: Result<MessageView, Seq<char>>,
    after: RuntimeView,
    next: Result<MessageView, Seq<char>>,
    later: RuntimeView,
)
    requires
        !(inbound matches Ok(message) && message.body is Init),
        RuntimeView::Starting.received(inbound, after),
        after.received(next, later),
    ensures
        after == RuntimeView::Failed,
        later == RuntimeView::Failed,
        RuntimeView::Starting.refuses(inbound) == Some(ProtocolError::FirstMessageNotInit),
        after.refuses(next) == Some(ProtocolError::FirstMessageNotInit),
{
}

/// The handshake opens the way: after an `init` message an echo request is
/// taken and answered with what it said, so that the outbox holds `init_ok`
/// and then `echo_ok`, and nothing else.
pub proof fn lemma_init_then_echo(
    init: MessageView,
    started: RuntimeView,
    echo: MessageView,
    after: RuntimeView,
)
    requires
        init.body is Init,
        echo.body is Echo,
        RuntimeView::Starting.received(Ok(init), started),
        started.received(Ok(echo), after),
    ensures
        RuntimeView::Starting.refuses(Ok(init)) is None,
        started.refuses(Ok(echo)) is None,
        after.outbox() == seq![
            MessageView {
                src: init.body->Init_node_id,
                dest: init.src,
                body: MessageBodyView::InitOk { in_reply_to: init.body->Init_msg_id },
            },
            MessageView {
                src: init.body->Init_node_id,
                dest: echo.src,
                body: MessageBodyView::EchoOk {
                    echo: echo.body->Echo_echo,
                    in_reply_to: echo.body->Echo_msg_id,
                },
            },
        ],
{
}

} // verus!

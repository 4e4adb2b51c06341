//! The messages nodes exchange.

use crate::topology::Topology;
use vstd::prelude::*;

verus! {

/// The name of a node or client.
pub type NodeId = String;

/// The number a sender gives a request, and a reply quotes.
pub type MsgId = u64;

/// A value carried by broadcast and add requests.
pub type NodeMessage = i64;

/// What a message asks or answers. A request carries its own `msg_id`; a
/// reply carries the `msg_id` of the request it answers as `in_reply_to`.
#[derive(Debug, PartialEq, Eq)]
pub enum MessageBody {
    Init { msg_id: MsgId, node_id: NodeId, node_ids: Vec<NodeId> },
    InitOk { in_reply_to: MsgId },
    Echo { msg_id: MsgId, echo: String },
    EchoOk { echo: String, in_reply_to: MsgId },
    Topology { msg_id: MsgId, topology: Topology },
    TopologyOk { in_reply_to: MsgId },
    Broadcast { msg_id: MsgId, message: NodeMessage },
    BroadcastOk { in_reply_to: MsgId },
    Read { msg_id: MsgId },
    ReadOk { in_reply_to: MsgId, messages: Vec<NodeMessage> },
    Add { msg_id: MsgId, element: NodeMessage },
    AddOk { in_reply_to: MsgId },
}

/// A message body as contracts see it.
pub enum MessageBodyView {
    Init { msg_id: MsgId, node_id: Seq<char>, node_ids: Seq<Seq<char>> },
    InitOk { in_reply_to: MsgId },
    Echo { msg_id: MsgId, echo: Seq<char> },
    EchoOk { echo: Seq<char>, in_reply_to: MsgId },
    Topology { msg_id: MsgId, topology: Map<Seq<char>, Seq<Seq<char>>> },
    TopologyOk { in_reply_to: MsgId },
    Broadcast { msg_id: MsgId, message: NodeMessage },
    BroadcastOk { in_reply_to: MsgId },
    Read { msg_id: MsgId },
    ReadOk { in_reply_to: MsgId, messages: Seq<NodeMessage> },
    Add { msg_id: MsgId, element: NodeMessage },
    AddOk { in_reply_to: MsgId },
}

impl MessageBodyView {
    /// The id a request carries; a reply carries none.
    pub open spec fn msg_id(self) -> Option<MsgId> {
        match self {
            MessageBodyView::Init { msg_id, .. } => Some(msg_id),
            MessageBodyView::Echo { msg_id, .. } => Some(msg_id),
            MessageBodyView::Topology { msg_id, .. } => Some(msg_id),
            MessageBodyView::Broadcast { msg_id, .. } => Some(msg_id),
            MessageBodyView::Read { msg_id } => Some(msg_id),
            MessageBodyView::Add { msg_id, .. } => Some(msg_id),
            _ => None,
        }
    }

    /// The id of the request a reply answers; a request answers none.
    pub open spec fn in_reply_to(self) -> Option<MsgId> {
        match self {
            MessageBodyView::InitOk { in_reply_to } => Some(in_reply_to),
            MessageBodyView::EchoOk { in_reply_to, .. } => Some(in_reply_to),
            MessageBodyView::TopologyOk { in_reply_to } => Some(in_reply_to),
            MessageBodyView::BroadcastOk { in_reply_to } => Some(in_reply_to),
            MessageBodyView::ReadOk { in_reply_to, .. } => Some(in_reply_to),
            MessageBodyView::AddOk { in_reply_to } => Some(in_reply_to),
            _ => None,
        }
    }
}

impl View for MessageBody {
    type V = MessageBodyView;

    open spec fn view(&self) -> MessageBodyView {
        match self {
            MessageBody::Init { msg_id, node_id, node_ids } => MessageBodyView::Init {
                msg_id: *msg_id,
                node_id: node_id@,
                node_ids: node_ids.deep_view(),
            },
            MessageBody::InitOk { in_reply_to } => MessageBodyView::InitOk {
                in_reply_to: *in_reply_to,
            },
            MessageBody::Echo { msg_id, echo } => MessageBodyView::Echo {
                msg_id: *msg_id,
                echo: echo@,
            },
            MessageBody::EchoOk { echo, in_reply_to } => MessageBodyView::EchoOk {
                echo: echo@,
                in_reply_to: *in_reply_to,
            },
            MessageBody::Topology { msg_id, topology } => MessageBodyView::Topology {
                msg_id: *msg_id,
                topology: topology@,
            },
            MessageBody::TopologyOk { in_reply_to } => MessageBodyView::TopologyOk {
                in_reply_to: *in_reply_to,
            },
            MessageBody::Broadcast { msg_id, message } => MessageBodyView::Broadcast {
                msg_id: *msg_id,
                message: *message,
            },
            MessageBody::BroadcastOk { in_reply_to } => MessageBodyView::BroadcastOk {
                in_reply_to: *in_reply_to,
            },
            MessageBody::Read { msg_id } => MessageBodyView::Read { msg_id: *msg_id },
            MessageBody::ReadOk { in_reply_to, messages } => MessageBodyView::ReadOk {
                in_reply_to: *in_reply_to,
                messages: messages@,
            },
            MessageBody::Add { msg_id, element } => MessageBodyView::Add {
                msg_id: *msg_id,
                element: *element,
            },
            MessageBody::AddOk { in_reply_to } => MessageBodyView::AddOk {
                in_reply_to: *in_reply_to,
            },
        }
    }
}

impl MessageBody {
    /// The id a request carries; a reply carries none.
    pub fn msg_id(&self) -> (id: Option<MsgId>)
        ensures
            id == self@.msg_id(),
    {
        match self {
            MessageBody::Init { msg_id, .. } => Some(*msg_id),
            MessageBody::Echo { msg_id, .. } => Some(*msg_id),
            MessageBody::Topology { msg_id, .. } => Some(*msg_id),
            MessageBody::Broadcast { msg_id, .. } => Some(*msg_id),
            MessageBody::Read { msg_id } => Some(*msg_id),
            MessageBody::Add { msg_id, .. } => Some(*msg_id),
            _ => None,
        }
    }

    /// The id of the request a reply answers; a request answers none.
    pub fn in_reply_to(&self) -> (id: Option<MsgId>)
        ensures
            id == self@.in_reply_to(),
    {
        match self {
            MessageBody::InitOk { in_reply_to } => Some(*in_reply_to),
            MessageBody::EchoOk { in_reply_to, .. } => Some(*in_reply_to),
            MessageBody::TopologyOk { in_reply_to } => Some(*in_reply_to),
            MessageBody::BroadcastOk { in_reply_to } => Some(*in_reply_to),
            MessageBody::ReadOk { in_reply_to, .. } => Some(*in_reply_to),
            MessageBody::AddOk { in_reply_to } => Some(*in_reply_to),
            _ => None,
        }
    }
}

impl Clone for MessageBody {
    fn clone(&self) -> (copy: Self)
        ensures
            copy@ == self@,
    {
        match self {
            MessageBody::Init { msg_id, node_id, node_ids } => MessageBody::Init {
                msg_id: *msg_id,
                node_id: node_id.clone(),
                node_ids: node_ids.clone(),
            },
            MessageBody::InitOk { in_reply_to } => MessageBody::InitOk {
                in_reply_to: *in_reply_to,
            },
            MessageBody::Echo { msg_id, echo } => MessageBody::Echo {
                msg_id: *msg_id,
                echo: echo.clone(),
            },
            MessageBody::EchoOk { echo, in_reply_to } => MessageBody::EchoOk {
                echo: echo.clone(),
                in_reply_to: *in_reply_to,
            },
            MessageBody::Topology { msg_id, topology } => MessageBody::Topology {
                msg_id: *msg_id,
                topology: topology.clone(),
            },
            MessageBody::TopologyOk { in_reply_to } => MessageBody::TopologyOk {
                in_reply_to: *in_reply_to,
            },
            MessageBody::Broadcast { msg_id, message } => MessageBody::Broadcast {
                msg_id: *msg_id,
                message: *message,
            },
            MessageBody::BroadcastOk { in_reply_to } => MessageBody::BroadcastOk {
                in_reply_to: *in_reply_to,
            },
            MessageBody::Read { msg_id } => MessageBody::Read { msg_id: *msg_id },
            MessageBody::ReadOk { in_reply_to, messages } => MessageBody::ReadOk {
                in_reply_to: *in_reply_to,
                messages: messages.clone(),
            },
            MessageBody::Add { msg_id, element } => MessageBody::Add {
                msg_id: *msg_id,
                element: *element,
            },
            MessageBody::AddOk { in_reply_to } => MessageBody::AddOk {
                in_reply_to: *in_reply_to,
            },
        }
    }
}

/// One message on the wire: who sent it, whom it is for, and what it says.
#[derive(Debug, PartialEq, Eq)]
pub struct Message {
    pub src: NodeId,
    pub dest: NodeId,
    pub body: MessageBody,
}

/// A message as contracts see it.
pub struct MessageView {
    pub src: Seq<char>,
    pub dest: Seq<char>,
    pub body: MessageBodyView,
}

impl View for Message {
    type V = MessageView;

    open spec fn view(&self) -> MessageView {
        MessageView { src: self.src@, dest: self.dest@, body: self.body@ }
    }
}

impl Clone for Message {
    fn clone(&self) -> (copy: Self)
        ensures
            copy@ == self@,
    {
        Message { src: self.src.clone(), dest: self.dest.clone(), body: self.body.clone() }
    }
}

/// The views of a list of messages, in order.
pub open spec fn views(messages: Seq<Message>) -> Seq<MessageView> {
    messages.map_values(|message: Message| message@)
}

} // verus!

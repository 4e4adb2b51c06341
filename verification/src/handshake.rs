//! The first exchange: a process becomes a node when it is told its name.

use crate::message::{Message, MessageBody, MessageBodyView, MsgId, NodeId};
use crate::error::ProtocolError;
use crate::node::Node;
use crate::state::NodeView;
use vstd::prelude::*;

verus! {

/// Reads the first message a process receives. It has to be `init`; any
/// other message is refused. An `init` message gives, in this order: the id
/// of the request, who sent it, the name the node is given, and the names
/// of all nodes.
pub fn parse_init_node(message: &Message) -> (result: Result<
    (MsgId, NodeId, NodeId, Vec<NodeId>),
    ProtocolError,
>)
    ensures
        match message@.body {
            MessageBodyView::Init { msg_id, node_id, node_ids } => {
                &&& result matches Ok(parts)
                &&& parts.0 == msg_id
                &&& parts.1@ == message@.src
                &&& parts.2@ == node_id
                &&& parts.3.deep_view() == node_ids
            },
            _ => result matches Err(error) && error == ProtocolError::FirstMessageNotInit,
        },
{
    match &message.body {
        MessageBody::Init { msg_id, node_id, node_ids } => Ok(
            (*msg_id, message.src.clone(), node_id.clone(), node_ids.clone()),
        ),
        _ => Err(ProtocolError::FirstMessageNotInit),
    }
}

/// Answers the `init` request `init_request_id` of `init_ok_tgt`.
pub fn acknowledge_init_node(node: &mut Node, init_request_id: MsgId, init_ok_tgt: NodeId)
    ensures
        final(node)@ == old(node)@.sent(
            init_ok_tgt@,
            MessageBodyView::InitOk { in_reply_to: init_request_id },
        ),
        old(node)@.coherent() ==> final(node)@.coherent(),
{
    node.send(&init_ok_tgt, MessageBody::InitOk { in_reply_to: init_request_id });
}

/// The state of a node that has just answered the `init` request `msg_id`
/// of `sender`, which named it `node_id`.
pub open spec fn initialized(sender: Seq<char>, msg_id: MsgId, node_id: Seq<char>) -> NodeView {
    NodeView::fresh(node_id).sent(sender, MessageBodyView::InitOk { in_reply_to: msg_id })
}

/// Makes the node from the first message a process receives: an `init`
/// message names the node and is answered with `init_ok`. Any other first
/// message is a protocol violation, and there is no node.
pub fn initialize_node(message: &Message) -> (result: Result<Node, ProtocolError>)
    ensures
        match message@.body {
            MessageBodyView::Init { msg_id, node_id, .. } => {
                &&& result matches Ok(node)
                &&& node@ == initialized(message@.src, msg_id, node_id)
                &&& node@.coherent()
            },
            _ => result matches Err(error) && error == ProtocolError::FirstMessageNotInit,
        },
{
    match parse_init_node(message) {
        Ok((init_request_id, init_request_src, node_id, _node_ids)) => {
            let mut node = Node::new(&node_id);
            acknowledge_init_node(&mut node, init_request_id, init_request_src);
            Ok(node)
        },
        Err(error) => Err(error),
    }
}

} // verus!

//! What the node refuses.

use vstd::prelude::*;

verus! {

/// Why the node refused to act.
#[derive(Clone, Copy, Debug, PartialEq, Eq, Structural)]
pub enum ProtocolError {
    /// The first message a process received was not `init`.
    FirstMessageNotInit,
    /// A handler was given a body of another kind than the one it handles.
    MismatchedBody,
    /// A body handed to `rpc` carries no message id: it is no request.
    MissingMessageId,
    /// The id of a body handed to `rpc` was never issued by this node, or
    /// still awaits its reply.
    StaleMessageId,
    /// The node has no message ids left for the requests it would send.
    MessageIdsExhausted,
}

impl ProtocolError {
    /// What went wrong, in words.
    pub open spec fn text(self) -> Seq<char> {
        match self {
            ProtocolError::FirstMessageNotInit => "First message received must be init"@,
            ProtocolError::MismatchedBody => "Handler called on a message of another kind"@,
            ProtocolError::MissingMessageId => "Request carries no message id"@,
            ProtocolError::StaleMessageId => "Request carries a message id that is not fresh"@,
            ProtocolError::MessageIdsExhausted => "No message id left"@,
        }
    }

    /// What went wrong, in words.
    pub fn describe(&self) -> (text: &'static str)
        ensures
            text@ == self.text(),
    {
        match self {
            ProtocolError::FirstMessageNotInit => "First message received must be init",
            ProtocolError::MismatchedBody => "Handler called on a message of another kind",
            ProtocolError::MissingMessageId => "Request carries no message id",
            ProtocolError::StaleMessageId => "Request carries a message id that is not fresh",
            ProtocolError::MessageIdsExhausted => "No message id left",
        }
    }
}

} // verus!

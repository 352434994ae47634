//! Typed overlay messages: the tagged union carried inside every relay
//! envelope, one variant per protocol step.
use vstd::prelude::*;

verus! {

use crate::did::Did;

/// A node announces that it has learnt of `id` and joined it to the ring.
#[derive(Clone, Copy, Debug, PartialEq, Eq, Structural)]
pub struct JoinDHT {
    /// The identifier that joined.
    pub id: Did,
}

/// Request to open a transport to `target_id`, tunnelled through the
/// overlay; carries the signed offer payload.
#[derive(Clone, Debug, PartialEq, Eq)]
pub struct ConnectNodeSend {
    /// The node asking for the connection.
    pub sender_id: Did,
    /// The node the connection should reach.
    pub target_id: Did,
    /// Encoded signed offer (description plus gathered candidates).
    pub handshake_info: Vec<u8>,
}

/// The target's answer to a `ConnectNodeSend`, walked back along the path.
#[derive(Clone, Debug, PartialEq, Eq)]
pub struct ConnectNodeReport {
    /// The answering node.
    pub answer_id: Did,
    /// Encoded signed answer payload.
    pub handshake_info: Vec<u8>,
}

/// The target already shares a transport with the asking node.
#[derive(Clone, Copy, Debug, PartialEq, Eq, Structural)]
pub struct AlreadyConnected {
    /// The answering node.
    pub answer_id: Did,
}

/// Ask the ring for the successor of `id`.
#[derive(Clone, Copy, Debug, PartialEq, Eq, Structural)]
pub struct FindSuccessorSend {
    /// The identifier whose successor is sought.
    pub id: Did,
    /// Whether the answer refills a finger entry rather than the
    /// successor list.
    pub for_fix: bool,
}

/// The answer to a `FindSuccessorSend`.
#[derive(Clone, Copy, Debug, PartialEq, Eq, Structural)]
pub struct FindSuccessorReport {
    /// The successor that was found.
    pub id: Did,
    /// Echoed from the request, so the origin knows where the answer goes.
    pub for_fix: bool,
}

/// Tell a node it may be our predecessor's successor: carries the sender's
/// identifier as a predecessor candidate.
#[derive(Clone, Copy, Debug, PartialEq, Eq, Structural)]
pub struct NotifyPredecessorSend {
    /// The candidate predecessor.
    pub id: Did,
}

/// The answer to a `NotifyPredecessorSend`: the notified node's identifier.
#[derive(Clone, Copy, Debug, PartialEq, Eq, Structural)]
pub struct NotifyPredecessorReport {
    /// The notified node.
    pub id: Did,
}

/// An opaque application payload routed through the overlay.
#[derive(Clone, Debug, PartialEq, Eq)]
pub struct CustomMessage {
    /// The payload.
    pub bytes: Vec<u8>,
}

/// The closed set of overlay messages.
#[derive(Clone, Debug, PartialEq, Eq)]
pub enum Message {
    /// A node joined the ring.
    JoinDHT(JoinDHT),
    /// Connection request tunnelled through the overlay.
    ConnectNodeSend(ConnectNodeSend),
    /// Answer to a connection request.
    ConnectNodeReport(ConnectNodeReport),
    /// The requested connection already exists.
    AlreadyConnected(AlreadyConnected),
    /// Successor query.
    FindSuccessorSend(FindSuccessorSend),
    /// Successor answer.
    FindSuccessorReport(FindSuccessorReport),
    /// Predecessor candidate announcement.
    NotifyPredecessorSend(NotifyPredecessorSend),
    /// Acknowledgement of a predecessor announcement.
    NotifyPredecessorReport(NotifyPredecessorReport),
    /// Application payload.
    CustomMessage(CustomMessage),
}

impl Message {
    /// Every identifier named by the message is well formed.
    pub open spec fn wf(self) -> bool {
        match self {
            Message::JoinDHT(m) => m.id.wf(),
            Message::ConnectNodeSend(m) => m.sender_id.wf() && m.target_id.wf(),
            Message::ConnectNodeReport(m) => m.answer_id.wf(),
            Message::AlreadyConnected(m) => m.answer_id.wf(),
            Message::FindSuccessorSend(m) => m.id.wf(),
            Message::FindSuccessorReport(m) => m.id.wf(),
            Message::NotifyPredecessorSend(m) => m.id.wf(),
            Message::NotifyPredecessorReport(m) => m.id.wf(),
            Message::CustomMessage(_) => true,
        }
    }
}

} // verus!

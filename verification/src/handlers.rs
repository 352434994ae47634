//! Dispatch of typed overlay messages to the ring-mutating handlers.
//!
//! Each handler is a decision step: it takes the envelope just received and
//! the hop it came from, updates the local ring and swarm state, and
//! returns the effects the runtime must perform — envelopes to send and
//! transport work to do. The runtime performs the I/O and feeds results
//! back in.
use vstd::prelude::*;

verus! {

use crate::chord::PeerRing;
use crate::chord::PeerRingAction;
use crate::chord::PeerRingRemoteAction;
use crate::chord::cpn_spec;
use crate::chord::finger_contains;
use crate::did::Did;
use crate::did::in_arc_open_closed;
use crate::err::Error;
use crate::message::Message;
use crate::message::AlreadyConnected;
use crate::message::ConnectNodeReport;
use crate::message::ConnectNodeSend;
use crate::message::FindSuccessorSend;
use crate::message::FindSuccessorReport;
use crate::message::JoinDHT;
use crate::message::NotifyPredecessorReport;
use crate::message::NotifyPredecessorSend;
use crate::relay::MessageRelay;
use crate::relay::MessageRelayMethod;
use crate::successor::seq_contains_val;
use crate::successor::updated_list;
use crate::swarm::Swarm;
use crate::swarm::Transport;
use crate::swarm::TransportState;

/// Hop budget given to every envelope this node originates.
pub const DEFAULT_TTL: u32 = 64;

/// An envelope to hand to the named neighbour's transport.
#[derive(Clone, Debug, PartialEq, Eq)]
pub struct OutboundMessage {
    /// The next hop to deliver to.
    pub destination: Did,
    /// The envelope to send.
    pub relay: MessageRelay,
}

/// Work the runtime must perform after a handler has decided.
#[derive(Clone, Debug, PartialEq, Eq)]
pub enum HandlerEffect {
    /// Send the envelope to the named neighbour.
    Send(OutboundMessage),
    /// Negotiate an answer for a tunnelled connection offer: start the
    /// pending transport, apply the remote offer, gather an answer, then
    /// hand it back through `connect_node_answered`.
    NegotiateAnswer {
        /// The pending transport minted for the new connection.
        transport: Transport,
        /// The node that asked for the connection.
        sender_id: Did,
        /// The encoded signed offer to apply.
        handshake_info: Vec<u8>,
        /// The hop the request came from; the answer walks back through it.
        reply_to: Did,
        /// The recorded forward path, which the answer will retrace.
        reply_path: Vec<Did>,
    },
    /// Apply the remote answer to the transport of a connection this node
    /// asked for.
    AcceptAnswer {
        /// The transport awaiting the answer.
        transport: Transport,
        /// The encoded signed answer.
        handshake_info: Vec<u8>,
    },
    /// Close the transport; it lost the registration race or was removed.
    CloseTransport(Transport),
    /// Hand an application payload to the node's message callback.
    DeliverCustom {
        /// The hop the payload arrived from.
        from: Did,
        /// The payload.
        bytes: Vec<u8>,
    },
}

/// Does the effect send `data` to `dest` with exactly these paths?
pub open spec fn sends(
    e: HandlerEffect,
    dest: Did,
    method: MessageRelayMethod,
    from_path: Seq<Did>,
    to_path: Seq<Did>,
    ttl: u32,
    data: Message,
) -> bool {
    match e {
        HandlerEffect::Send(m) => {
            &&& m.destination == dest
            &&& m.relay.method == method
            &&& m.relay.from_path@ == from_path
            &&& m.relay.to_path@ == to_path
            &&& m.relay.ttl == ttl
            &&& m.relay.data == data
        },
        _ => false,
    }
}

/// The consumer of overlay events: it owns the ring state and the swarm
/// registry and turns each received envelope into state changes and
/// effects.
pub struct MessageHandler {
    /// The Chord state.
    pub dht: PeerRing,
    /// The transport registry.
    pub swarm: Swarm,
    /// How many envelopes were dropped for an invalid relay path.
    pub invalid_path_drops: u64,
}

/// Everything but the ring's predecessor is unchanged.
pub open spec fn ring_keeps_all_but_predecessor(pre: PeerRing, post: PeerRing) -> bool {
    &&& post.id == pre.id
    &&& post.finger == pre.finger
    &&& post.successor == pre.successor
    &&& post.fix_finger_index == pre.fix_finger_index
}

/// The predecessor after a `notify(did)` step.
pub open spec fn notified_predecessor_spec(pre: PeerRing, did: Did) -> Option<Did> {
    match pre.predecessor {
        None => Some(did),
        Some(p) => if crate::did::in_arc_open_open(did.val(), p.val(), pre.id.val()) {
            Some(did)
        } else {
            Some(p)
        },
    }
}

/// What learning of a joined node does: a known identifier changes
/// nothing; a new one may enter the successor list, and its successor is
/// asked for through the closest preceding finger — unless that is the hop
/// the news came from, or this node knows no fingers yet.
pub open spec fn post_join_chord(
    pre: MessageHandler,
    post: MessageHandler,
    relay: MessageRelay,
    prev: Did,
    msg: JoinDHT,
    r: Result<Vec<HandlerEffect>, Error>,
) -> bool {
    let known = msg.id.val() == pre.dht.id.val() || finger_contains(pre.dht.finger@, msg.id)
        || seq_contains_val(pre.dht.successor.list@, msg.id);
    let next = cpn_spec(pre.dht.finger@, pre.dht.id, msg.id, 160);
    let join_op = crate::chord::count_fingers(pre.dht.finger@, 160) > 0;
    &&& post.swarm == pre.swarm
    &&& post.invalid_path_drops == pre.invalid_path_drops
    &&& post.dht.id == pre.dht.id
    &&& post.dht.finger == pre.dht.finger
    &&& post.dht.predecessor == pre.dht.predecessor
    &&& post.dht.fix_finger_index == pre.dht.fix_finger_index
    &&& if known {
        post.dht == pre.dht && (r matches Ok(v) && v.len() == 0)
    } else {
        (if in_arc_open_closed(
            msg.id.val(),
            pre.dht.id.val(),
            pre.dht.successor.head_spec().val(),
        ) {
            updated_list(pre.dht.successor, post.dht.successor, msg.id)
        } else {
            post.dht.successor == pre.dht.successor
        }) && if next.val() != prev.val() && join_op {
            r matches Ok(v) && v.len() == 1 && sends(
                v[0],
                next,
                MessageRelayMethod::SEND,
                relay.from_path@,
                relay.to_path@,
                DEFAULT_TTL,
                Message::FindSuccessorSend(FindSuccessorSend { id: msg.id, for_fix: false }),
            )
        } else {
            r matches Ok(v) && v.len() == 0
        }
    }
}

/// What routing a successor query returns: no state changes; the answer
/// goes back to the hop it came from, or the query travels on toward the
/// closest preceding finger with its TTL spent down.
pub open spec fn post_find_successor(
    pre: MessageHandler,
    relay: MessageRelay,
    prev: Did,
    msg: FindSuccessorSend,
    r: Result<Vec<HandlerEffect>, Error>,
) -> bool {
    let from2 = relay.from_path@.push(prev);
    let to2 = relay.to_path@;
    let head = pre.dht.successor.head_spec();
    if relay.from_path@.len() > 0 && relay.from_path@.last().val() == prev.val() {
        r == Err::<Vec<HandlerEffect>, Error>(Error::InvalidRelayPath)
    } else if in_arc_open_closed(msg.id.val(), pre.dht.id.val(), head.val()) {
        r matches Ok(v) && v.len() == 1 && sends(
            v[0],
            prev,
            MessageRelayMethod::REPORT,
            Seq::<Did>::empty(),
            from2,
            DEFAULT_TTL,
            Message::FindSuccessorReport(FindSuccessorReport { id: head, for_fix: msg.for_fix }),
        )
    } else if relay.ttl == 0 {
        r == Err::<Vec<HandlerEffect>, Error>(Error::ExpiredRelay)
    } else {
        r matches Ok(v) && v.len() == 1 && sends(
            v[0],
            cpn_spec(pre.dht.finger@, pre.dht.id, msg.id, 160),
            MessageRelayMethod::SEND,
            from2,
            to2,
            (relay.ttl - 1) as u32,
            relay.data,
        )
    }
}

/// What consuming a successor answer does: forwarded down the return path
/// while it has entries, else folded into the finger table or the
/// successor list at the origin.
pub open spec fn post_found_successor(
    pre: MessageHandler,
    post: MessageHandler,
    relay: MessageRelay,
    prev: Did,
    msg: FindSuccessorReport,
    r: Result<Vec<HandlerEffect>, Error>,
) -> bool {
    let to2 = relay.to_path@.drop_last();
    let from2 = seq![prev] + relay.from_path@;
    if relay.to_path@.len() == 0 || relay.to_path@.last().val() != pre.dht.id.val() {
        r == Err::<Vec<HandlerEffect>, Error>(Error::InvalidRelayDestination) && post == pre
    } else if relay.from_path@.len() > 0 && relay.from_path@[0].val() == prev.val() {
        r == Err::<Vec<HandlerEffect>, Error>(Error::InvalidRelayPath) && post == pre
    } else if to2.len() > 0 {
        post == pre && if relay.ttl == 0 {
            r == Err::<Vec<HandlerEffect>, Error>(Error::ExpiredRelay)
        } else {
            r matches Ok(v) && v.len() == 1 && sends(
                v[0],
                to2.last(),
                MessageRelayMethod::REPORT,
                from2,
                to2,
                (relay.ttl - 1) as u32,
                relay.data,
            )
        }
    } else {
        &&& (r matches Ok(v) && v.len() == 0)
        &&& post.dht.id == pre.dht.id
        &&& post.dht.predecessor == pre.dht.predecessor
        &&& post.dht.fix_finger_index == pre.dht.fix_finger_index
        &&& if msg.for_fix {
            post.dht.successor == pre.dht.successor && post.dht.finger@ == (if msg.id.val()
                == pre.dht.id.val() {
                pre.dht.finger@
            } else {
                pre.dht.finger@.update(pre.dht.fix_finger_index as int, Some(msg.id))
            })
        } else {
            post.dht.finger == pre.dht.finger && updated_list(
                pre.dht.successor,
                post.dht.successor,
                msg.id,
            )
        }
    }
}

/// What a predecessor announcement does: the candidate is accepted by the
/// notify rule, and the predecessor the node then holds goes back as the
/// answer, so the asker learns its successor's predecessor.
pub open spec fn post_notify_predecessor(
    pre: MessageHandler,
    post: MessageHandler,
    relay: MessageRelay,
    prev: Did,
    msg: NotifyPredecessorSend,
    r: Result<Vec<HandlerEffect>, Error>,
) -> bool {
    let from2 = relay.from_path@.push(prev);
    let to2 = relay.to_path@;
    if relay.from_path@.len() > 0 && relay.from_path@.last().val() == prev.val() {
        r == Err::<Vec<HandlerEffect>, Error>(Error::InvalidRelayPath) && post == pre
    } else {
        &&& ring_keeps_all_but_predecessor(pre.dht, post.dht)
        &&& post.dht.predecessor == notified_predecessor_spec(pre.dht, msg.id)
        &&& (notified_predecessor_spec(pre.dht, msg.id) matches Some(p) && (r matches Ok(v)
            && v.len() == 1 && sends(
            v[0],
            prev,
            MessageRelayMethod::REPORT,
            Seq::<Did>::empty(),
            from2,
            DEFAULT_TTL,
            Message::NotifyPredecessorReport(NotifyPredecessorReport { id: p }),
        )))
    }
}

/// What an acknowledged predecessor announcement does: the answering
/// node's identifier is kept among the nearest clockwise neighbours.
pub open spec fn post_notified_predecessor(
    pre: MessageHandler,
    post: MessageHandler,
    relay: MessageRelay,
    prev: Did,
    msg: NotifyPredecessorReport,
    r: Result<Vec<HandlerEffect>, Error>,
) -> bool {
    if relay.to_path@.len() == 0 || relay.to_path@.last().val() != pre.dht.id.val() {
        r == Err::<Vec<HandlerEffect>, Error>(Error::InvalidRelayDestination) && post == pre
    } else if relay.from_path@.len() > 0 && relay.from_path@[0].val() == prev.val() {
        r == Err::<Vec<HandlerEffect>, Error>(Error::InvalidRelayPath) && post == pre
    } else {
        &&& (r matches Ok(v) && v.len() == 0)
        &&& post.dht.id == pre.dht.id
        &&& post.dht.finger == pre.dht.finger
        &&& post.dht.predecessor == pre.dht.predecessor
        &&& post.dht.fix_finger_index == pre.dht.fix_finger_index
        &&& updated_list(pre.dht.successor, post.dht.successor, msg.id)
    }
}

/// What carrying a tunnelled connection request does. Away from the
/// target it travels on toward the target's successor; at the target it is
/// answered, either with `AlreadyConnected` or by minting a pending
/// transport and asking the runtime to negotiate.
pub open spec fn post_connect_node(
    pre: MessageHandler,
    post: MessageHandler,
    relay: MessageRelay,
    prev: Did,
    msg: ConnectNodeSend,
    r: Result<Vec<HandlerEffect>, Error>,
) -> bool {
    let from2 = relay.from_path@.push(prev);
    let to2 = relay.to_path@;
    let head = pre.dht.successor.head_spec();
    if relay.from_path@.len() > 0 && relay.from_path@.last().val() == prev.val() {
        r == Err::<Vec<HandlerEffect>, Error>(Error::InvalidRelayPath) && post == pre
    } else if pre.dht.id.val() != msg.target_id.val() {
        let next = if in_arc_open_closed(msg.target_id.val(), pre.dht.id.val(), head.val()) {
            head
        } else {
            cpn_spec(pre.dht.finger@, pre.dht.id, msg.target_id, 160)
        };
        post == pre && if relay.ttl == 0 {
            r == Err::<Vec<HandlerEffect>, Error>(Error::ExpiredRelay)
        } else {
            r matches Ok(v) && v.len() == 1 && sends(
                v[0],
                next,
                MessageRelayMethod::SEND,
                from2,
                to2,
                (relay.ttl - 1) as u32,
                relay.data,
            )
        }
    } else {
        match crate::swarm::table_lookup(pre.swarm.table@, msg.sender_id) {
            Some(_) => post == pre && (r matches Ok(v) && v.len() == 1) && (r matches Ok(v)
                && sends(
                v[0],
                prev,
                MessageRelayMethod::REPORT,
                Seq::<Did>::empty(),
                from2,
                DEFAULT_TTL,
                Message::AlreadyConnected(AlreadyConnected { answer_id: pre.dht.id }),
            )),
            None => {
                if pre.swarm.next_handle == u64::MAX {
                    r == Err::<Vec<HandlerEffect>, Error>(Error::InvalidTransportUuid) && post
                        == pre
                } else {
                    &&& (r matches Ok(v) && v.len() == 1 && (v[0] matches
                        HandlerEffect::NegotiateAnswer {
                        transport,
                        sender_id,
                        handshake_info,
                        reply_to,
                        reply_path,
                    } && transport.handle == pre.swarm.next_handle && transport.state
                        == TransportState::New && sender_id == msg.sender_id && handshake_info@
                        == msg.handshake_info@ && reply_to == prev && reply_path@ == from2))
                    &&& post.swarm.pending@ == pre.swarm.pending@.push(
                        Transport { handle: pre.swarm.next_handle, state: TransportState::New },
                    )
                    &&& post.swarm.next_handle == pre.swarm.next_handle + 1
                }
            },
        }
    }
}

/// What walking a connection answer back does: forwarded down the return
/// path, or, at the origin, applied to the transport registered for the
/// answering node.
pub open spec fn post_connected_node(
    pre: MessageHandler,
    relay: MessageRelay,
    prev: Did,
    msg: ConnectNodeReport,
    r: Result<Vec<HandlerEffect>, Error>,
) -> bool {
    let to2 = relay.to_path@.drop_last();
    let from2 = seq![prev] + relay.from_path@;
    if relay.to_path@.len() == 0 || relay.to_path@.last().val() != pre.dht.id.val() {
        r == Err::<Vec<HandlerEffect>, Error>(Error::InvalidRelayDestination)
    } else if relay.from_path@.len() > 0 && relay.from_path@[0].val() == prev.val() {
        r == Err::<Vec<HandlerEffect>, Error>(Error::InvalidRelayPath)
    } else if to2.len() > 0 {
        if relay.ttl == 0 {
            r == Err::<Vec<HandlerEffect>, Error>(Error::ExpiredRelay)
        } else {
            r matches Ok(v) && v.len() == 1 && sends(
                v[0],
                to2.last(),
                MessageRelayMethod::REPORT,
                from2,
                to2,
                (relay.ttl - 1) as u32,
                relay.data,
            )
        }
    } else {
        match crate::swarm::table_lookup(pre.swarm.table@, msg.answer_id) {
            Some(t) => r matches Ok(v) && v.len() == 1 && (v[0] matches
                HandlerEffect::AcceptAnswer { transport, handshake_info } && transport == t
                && handshake_info@ == msg.handshake_info@),
            None => r == Err::<Vec<HandlerEffect>, Error>(
                Error::MessageHandlerMissTransportConnectedNode,
            ),
        }
    }
}

/// What walking an `AlreadyConnected` answer back does: forwarded down the
/// return path; at the origin it must find the shared transport.
pub open spec fn post_already_connected(
    pre: MessageHandler,
    relay: MessageRelay,
    prev: Did,
    msg: AlreadyConnected,
    r: Result<Vec<HandlerEffect>, Error>,
) -> bool {
    let to2 = relay.to_path@.drop_last();
    let from2 = seq![prev] + relay.from_path@;
    if relay.to_path@.len() == 0 || relay.to_path@.last().val() != pre.dht.id.val() {
        r == Err::<Vec<HandlerEffect>, Error>(Error::InvalidRelayDestination)
    } else if relay.from_path@.len() > 0 && relay.from_path@[0].val() == prev.val() {
        r == Err::<Vec<HandlerEffect>, Error>(Error::InvalidRelayPath)
    } else if to2.len() > 0 {
        if relay.ttl == 0 {
            r == Err::<Vec<HandlerEffect>, Error>(Error::ExpiredRelay)
        } else {
            r matches Ok(v) && v.len() == 1 && sends(
                v[0],
                to2.last(),
                MessageRelayMethod::REPORT,
                from2,
                to2,
                (relay.ttl - 1) as u32,
                relay.data,
            )
        }
    } else {
        if crate::swarm::table_has(pre.swarm.table@, msg.answer_id) {
            r matches Ok(v) && v.len() == 0
        } else {
            r == Err::<Vec<HandlerEffect>, Error>(
                Error::MessageHandlerMissTransportAlreadyConnected,
            )
        }
    }
}

impl MessageHandler {
    /// The handler state is internally consistent.
    pub open spec fn wf(self) -> bool {
        self.dht.wf() && self.swarm.wf()
    }

    /// A handler over a fresh ring and registry.
    pub fn new(dht: PeerRing, swarm: Swarm) -> (r: MessageHandler)
        requires
            dht.wf(),
            swarm.wf(),
        ensures
            r.wf(),
            r.dht == dht,
            r.swarm == swarm,
            r.invalid_path_drops == 0,
    {
        MessageHandler { dht, swarm, invalid_path_drops: 0 }
    }

    /// A node joined: offer it to the ring; when the ring wants its
    /// successor resolved, ask the closest preceding node — unless that is
    /// the hop we just heard from, or this node knows no fingers yet.
    pub fn join_chord(&mut self, relay: &MessageRelay, prev: &Did, msg: &JoinDHT) -> (r: Result<
        Vec<HandlerEffect>,
        Error,
    >)
        requires
            old(self).wf(),
            relay.wf(),
            prev.wf(),
            msg.id.wf(),
        ensures
            final(self).wf(),
            post_join_chord(*old(self), *final(self), *relay, *prev, *msg, r),
    {
        let join_op = self.number_of_fingers_is_positive();
        let act = self.dht.join(&msg.id);
        match act {
            PeerRingAction::NoAction => Ok(Vec::new()),
            PeerRingAction::RemoteAction(next, PeerRingRemoteAction::FindSuccessor(id)) => {
                proof {
                    crate::did::lemma_did_val_injective(next, *prev);
                }
                if next != *prev && join_op {
                    let out = OutboundMessage {
                        destination: next,
                        relay: MessageRelay {
                            method: MessageRelayMethod::SEND,
                            from_path: clone_path(&relay.from_path),
                            to_path: clone_path(&relay.to_path),
                            ttl: DEFAULT_TTL,
                            data: Message::FindSuccessorSend(
                                FindSuccessorSend { id, for_fix: false },
                            ),
                            signature: Vec::new(),
                            signer_address: Vec::new(),
                        },
                    };
                    let mut v: Vec<HandlerEffect> = Vec::new();
                    v.push(HandlerEffect::Send(out));
                    Ok(v)
                } else {
                    Ok(Vec::new())
                }
            },
            PeerRingAction::Found(_) => Ok(Vec::new()),
        }
    }

    /// Route a successor query: answer from the successor list when the
    /// sought identifier lies in `(id, successor.head]`, else pass the
    /// query on to the closest preceding finger.
    pub fn find_successor(
        &mut self,
        relay: MessageRelay,
        prev: &Did,
        msg: &FindSuccessorSend,
    ) -> (r: Result<Vec<HandlerEffect>, Error>)
        requires
            old(self).wf(),
            relay.wf(),
            relay.method == MessageRelayMethod::SEND,
            prev.wf(),
            msg.id.wf(),
        ensures
            final(self).wf(),
            *final(self) == *old(self),
            post_find_successor(*old(self), relay, *prev, *msg, r),
    {
        let mut relay = relay;
        match relay.push_prev(&self.dht.id, prev) {
            Ok(_) => {},
            Err(e) => {
                return Err(e);
            },
        }
        match self.dht.find_successor(&msg.id)? {
            PeerRingAction::Found(id) => {
                let rep = relay.make_report(
                    Message::FindSuccessorReport(
                        FindSuccessorReport { id, for_fix: msg.for_fix },
                    ),
                    DEFAULT_TTL,
                );
                let mut v: Vec<HandlerEffect> = Vec::new();
                v.push(HandlerEffect::Send(OutboundMessage { destination: *prev, relay: rep }));
                Ok(v)
            },
            PeerRingAction::RemoteAction(next, PeerRingRemoteAction::FindSuccessor(_)) => {
                if relay.ttl == 0 {
                    return Err(Error::ExpiredRelay);
                }
                relay.ttl = relay.ttl - 1;
                let mut v: Vec<HandlerEffect> = Vec::new();
                v.push(HandlerEffect::Send(OutboundMessage { destination: next, relay }));
                Ok(v)
            },
            PeerRingAction::NoAction => Err(Error::MessageHandlerMissNextNode),
        }
    }

    /// Consume or pass back a successor answer: forward it down the return
    /// path, or, at the origin, refill the finger under the cursor or the
    /// successor list, as the echoed flag says.
    pub fn found_successor(
        &mut self,
        relay: MessageRelay,
        prev: &Did,
        msg: &FindSuccessorReport,
    ) -> (r: Result<Vec<HandlerEffect>, Error>)
        requires
            old(self).wf(),
            relay.wf(),
            relay.method == MessageRelayMethod::REPORT,
            prev.wf(),
            msg.id.wf(),
        ensures
            final(self).wf(),
            final(self).swarm == old(self).swarm,
            final(self).invalid_path_drops == old(self).invalid_path_drops,
            post_found_successor(*old(self), *final(self), relay, *prev, *msg, r),
    {
        let mut relay = relay;
        match relay.push_prev(&self.dht.id, prev) {
            Ok(_) => {},
            Err(e) => {
                return Err(e);
            },
        }
        if relay.to_path.len() > 0 {
            if relay.ttl == 0 {
                return Err(Error::ExpiredRelay);
            }
            relay.ttl = relay.ttl - 1;
            let next = relay.to_path[relay.to_path.len() - 1];
            let mut v: Vec<HandlerEffect> = Vec::new();
            v.push(HandlerEffect::Send(OutboundMessage { destination: next, relay }));
            Ok(v)
        } else {
            if msg.for_fix {
                self.dht.set_fix_finger(&msg.id);
            } else {
                self.dht.successor.update(msg.id);
            }
            Ok(Vec::new())
        }
    }

    /// Take the sender's identifier as a predecessor candidate and answer
    /// with this node's identifier.
    pub fn notify_predecessor(
        &mut self,
        relay: MessageRelay,
        prev: &Did,
        msg: &NotifyPredecessorSend,
    ) -> (r: Result<Vec<HandlerEffect>, Error>)
        requires
            old(self).wf(),
            relay.wf(),
            relay.method == MessageRelayMethod::SEND,
            prev.wf(),
            msg.id.wf(),
        ensures
            final(self).wf(),
            final(self).swarm == old(self).swarm,
            final(self).invalid_path_drops == old(self).invalid_path_drops,
            post_notify_predecessor(*old(self), *final(self), relay, *prev, *msg, r),
    {
        let mut relay = relay;
        match relay.push_prev(&self.dht.id, prev) {
            Ok(_) => {},
            Err(e) => {
                return Err(e);
            },
        }
        self.dht.notify(&msg.id);
        let answer = match self.dht.predecessor {
            Some(p) => p,
            None => self.dht.id,
        };
        let rep = relay.make_report(
            Message::NotifyPredecessorReport(NotifyPredecessorReport { id: answer }),
            DEFAULT_TTL,
        );
        let mut v: Vec<HandlerEffect> = Vec::new();
        v.push(HandlerEffect::Send(OutboundMessage { destination: *prev, relay: rep }));
        Ok(v)
    }

    /// A node answered a predecessor announcement: keep it among the
    /// nearest clockwise neighbours.
    pub fn notified_predecessor(
        &mut self,
        relay: MessageRelay,
        prev: &Did,
        msg: &NotifyPredecessorReport,
    ) -> (r: Result<Vec<HandlerEffect>, Error>)
        requires
            old(self).wf(),
            relay.wf(),
            relay.method == MessageRelayMethod::REPORT,
            prev.wf(),
            msg.id.wf(),
        ensures
            final(self).wf(),
            final(self).swarm == old(self).swarm,
            final(self).invalid_path_drops == old(self).invalid_path_drops,
            post_notified_predecessor(*old(self), *final(self), relay, *prev, *msg, r),
    {
        let mut relay = relay;
        match relay.push_prev(&self.dht.id, prev) {
            Ok(_) => {},
            Err(e) => {
                return Err(e);
            },
        }
        self.dht.successor.update(msg.id);
        Ok(Vec::new())
    }

    /// Carry a tunnelled connection request toward its target; at the
    /// target, either answer that the transport already exists or mint a
    /// pending transport and ask the runtime to negotiate an answer.
    pub fn connect_node(
        &mut self,
        relay: MessageRelay,
        prev: &Did,
        msg: &ConnectNodeSend,
    ) -> (r: Result<Vec<HandlerEffect>, Error>)
        requires
            old(self).wf(),
            relay.wf(),
            relay.method == MessageRelayMethod::SEND,
            prev.wf(),
            msg.sender_id.wf(),
            msg.target_id.wf(),
        ensures
            final(self).wf(),
            final(self).dht == old(self).dht,
            final(self).invalid_path_drops == old(self).invalid_path_drops,
            final(self).swarm.table == old(self).swarm.table,
            post_connect_node(*old(self), *final(self), relay, *prev, *msg, r),
    {
        let mut relay = relay;
        match relay.push_prev(&self.dht.id, prev) {
            Ok(_) => {},
            Err(e) => {
                return Err(e);
            },
        }
        proof {
            crate::did::lemma_did_val_injective(self.dht.id, msg.target_id);
        }
        if self.dht.id != msg.target_id {
            let next = match self.dht.find_successor(&msg.target_id)? {
                PeerRingAction::Found(node) => node,
                PeerRingAction::RemoteAction(node, _) => node,
                PeerRingAction::NoAction => {
                    return Err(Error::MessageHandlerMissNextNode);
                },
            };
            if relay.ttl == 0 {
                return Err(Error::ExpiredRelay);
            }
            relay.ttl = relay.ttl - 1;
            let mut v: Vec<HandlerEffect> = Vec::new();
            v.push(HandlerEffect::Send(OutboundMessage { destination: next, relay }));
            return Ok(v);
        }
        match self.swarm.get_transport(&msg.sender_id) {
            Some(_) => {
                let rep = relay.make_report(
                    Message::AlreadyConnected(AlreadyConnected { answer_id: self.dht.id }),
                    DEFAULT_TTL,
                );
                let mut v: Vec<HandlerEffect> = Vec::new();
                v.push(HandlerEffect::Send(OutboundMessage { destination: *prev, relay: rep }));
                Ok(v)
            },
            None => {
                let t = self.swarm.new_transport()?;
                let mut v: Vec<HandlerEffect> = Vec::new();
                v.push(
                    HandlerEffect::NegotiateAnswer {
                        transport: t,
                        sender_id: msg.sender_id,
                        handshake_info: clone_bytes(&msg.handshake_info),
                        reply_to: *prev,
                        reply_path: relay.from_path,
                    },
                );
                Ok(v)
            },
        }
    }

    /// Finish answering a tunnelled connection request: bind the negotiated
    /// transport to the asking node and send the answer back along the
    /// recorded path. If the asking node raced us and is bound already, the
    /// fresh transport is handed back to be closed.
    pub fn connect_node_answered(
        &mut self,
        transport: Transport,
        sender_id: &Did,
        handshake_info: Vec<u8>,
        reply_to: &Did,
        reply_path: Vec<Did>,
    ) -> (r: Result<Vec<HandlerEffect>, Error>)
        requires
            old(self).wf(),
            sender_id.wf(),
            reply_to.wf(),
            crate::relay::path_wf(reply_path@),
            transport.handle < old(self).swarm.next_handle,
        ensures
            final(self).wf(),
            final(self).dht == old(self).dht,
            final(self).invalid_path_drops == old(self).invalid_path_drops,
            final(self).swarm.next_handle == old(self).swarm.next_handle,
            !crate::swarm::pending_has(final(self).swarm.pending@, transport.handle),
            crate::swarm::table_lookup(final(self).swarm.table@, *sender_id) is Some,
            match r {
                Ok(v) => {
                    &&& v.len() >= 1
                    &&& (v[0] matches HandlerEffect::Send(m) && m.destination == *reply_to
                        && m.relay.method == MessageRelayMethod::REPORT && m.relay.to_path@
                        == reply_path@ && m.relay.from_path@.len() == 0 && m.relay.ttl
                        == DEFAULT_TTL && (m.relay.data matches Message::ConnectNodeReport(cr)
                        && cr.answer_id == old(self).dht.id && cr.handshake_info@
                        == handshake_info@))
                    &&& match crate::swarm::table_lookup(old(self).swarm.table@, *sender_id) {
                        Some(_) => v.len() == 2 && v[1] == HandlerEffect::CloseTransport(transport)
                            && final(self).swarm.table == old(self).swarm.table,
                        None => v.len() == 1 && final(self).swarm.table@
                            == old(self).swarm.table@.push((*sender_id, transport)),
                    }
                },
                Err(_) => false,
            },
    {
        let (_, to_close) = self.swarm.get_or_register(sender_id, transport)?;
        let rep = MessageRelay {
            method: MessageRelayMethod::REPORT,
            from_path: Vec::new(),
            to_path: reply_path,
            ttl: DEFAULT_TTL,
            data: Message::ConnectNodeReport(
                ConnectNodeReport { answer_id: self.dht.id, handshake_info },
            ),
            signature: Vec::new(),
            signer_address: Vec::new(),
        };
        let mut v: Vec<HandlerEffect> = Vec::new();
        v.push(HandlerEffect::Send(OutboundMessage { destination: *reply_to, relay: rep }));
        match to_close {
            Some(t) => {
                v.push(HandlerEffect::CloseTransport(t));
            },
            None => {},
        }
        proof {
            crate::swarm::lemma_table_lookup_has(final(self).swarm.table@, *sender_id);
        }
        Ok(v)
    }

    /// Walk a connection answer back toward its origin; at the origin,
    /// hand the answer to the waiting transport.
    pub fn connected_node(
        &mut self,
        relay: MessageRelay,
        prev: &Did,
        msg: &ConnectNodeReport,
    ) -> (r: Result<Vec<HandlerEffect>, Error>)
        requires
            old(self).wf(),
            relay.wf(),
            relay.method == MessageRelayMethod::REPORT,
            prev.wf(),
            msg.answer_id.wf(),
        ensures
            final(self).wf(),
            *final(self) == *old(self),
            post_connected_node(*old(self), relay, *prev, *msg, r),
    {
        let mut relay = relay;
        match relay.push_prev(&self.dht.id, prev) {
            Ok(_) => {},
            Err(e) => {
                return Err(e);
            },
        }
        match relay.find_prev() {
            Some(next) => {
                if relay.ttl == 0 {
                    return Err(Error::ExpiredRelay);
                }
                relay.ttl = relay.ttl - 1;
                let mut v: Vec<HandlerEffect> = Vec::new();
                v.push(HandlerEffect::Send(OutboundMessage { destination: next, relay }));
                Ok(v)
            },
            None => {
                match self.swarm.get_transport(&msg.answer_id) {
                    Some(t) => {
                        let mut v: Vec<HandlerEffect> = Vec::new();
                        v.push(
                            HandlerEffect::AcceptAnswer {
                                transport: t,
                                handshake_info: clone_bytes(&msg.handshake_info),
                            },
                        );
                        Ok(v)
                    },
                    None => Err(Error::MessageHandlerMissTransportConnectedNode),
                }
            },
        }
    }

    /// Walk an `AlreadyConnected` answer back toward its origin; at the
    /// origin, check that the shared transport really is registered.
    pub fn already_connected(
        &mut self,
        relay: MessageRelay,
        prev: &Did,
        msg: &AlreadyConnected,
    ) -> (r: Result<Vec<HandlerEffect>, Error>)
        requires
            old(self).wf(),
            relay.wf(),
            relay.method == MessageRelayMethod::REPORT,
            prev.wf(),
            msg.answer_id.wf(),
        ensures
            final(self).wf(),
            *final(self) == *old(self),
            post_already_connected(*old(self), relay, *prev, *msg, r),
    {
        let mut relay = relay;
        match relay.push_prev(&self.dht.id, prev) {
            Ok(_) => {},
            Err(e) => {
                return Err(e);
            },
        }
        match relay.find_prev() {
            Some(next) => {
                if relay.ttl == 0 {
                    return Err(Error::ExpiredRelay);
                }
                relay.ttl = relay.ttl - 1;
                let mut v: Vec<HandlerEffect> = Vec::new();
                v.push(HandlerEffect::Send(OutboundMessage { destination: next, relay }));
                Ok(v)
            },
            None => {
                match self.swarm.get_transport(&msg.answer_id) {
                    Some(_) => Ok(Vec::new()),
                    None => Err(Error::MessageHandlerMissTransportAlreadyConnected),
                }
            },
        }
    }

    /// Consume one received envelope: drop it when its paths repeat a hop
    /// or its method does not fit its payload or this node is not the next
    /// hop, else dispatch it to the matching handler.
    pub fn handle_message(&mut self, relay: MessageRelay, prev: &Did) -> (r: Result<
        Vec<HandlerEffect>,
        Error,
    >)
        requires
            old(self).wf(),
            relay.wf(),
            prev.wf(),
        ensures
            final(self).wf(),
            !relay.paths_valid() ==> r == Err::<Vec<HandlerEffect>, Error>(Error::InvalidRelayPath)
                && final(self).dht == old(self).dht && final(self).swarm == old(self).swarm
                && final(self).invalid_path_drops == (if old(self).invalid_path_drops < u64::MAX {
                old(self).invalid_path_drops + 1
            } else {
                old(self).invalid_path_drops as int
            }),
            relay.paths_valid() ==> match relay.data {
                Message::JoinDHT(m) => if relay.method != MessageRelayMethod::SEND {
                    rejected(*old(self), *final(self), r, Error::InvalidRelayDestination)
                } else {
                    post_join_chord(*old(self), *final(self), relay, *prev, m, r)
                },
                Message::ConnectNodeSend(m) => if relay.method != MessageRelayMethod::SEND {
                    rejected(*old(self), *final(self), r, Error::InvalidRelayDestination)
                } else {
                    post_connect_node(*old(self), *final(self), relay, *prev, m, r)
                },
                Message::ConnectNodeReport(m) => if relay.method != MessageRelayMethod::REPORT {
                    rejected(*old(self), *final(self), r, Error::InvalidRelayDestination)
                } else if relay.to_path@.len() == 0 || relay.to_path@.last().val() != old(self).dht.id.val() {
                    rejected(*old(self), *final(self), r, Error::InvalidNextHop)
                } else {
                    *final(self) == *old(self) && post_connected_node(
                        *old(self),
                        relay,
                        *prev,
                        m,
                        r,
                    )
                },
                Message::AlreadyConnected(m) => if relay.method != MessageRelayMethod::REPORT {
                    rejected(*old(self), *final(self), r, Error::InvalidRelayDestination)
                } else if relay.to_path@.len() == 0 || relay.to_path@.last().val() != old(self).dht.id.val() {
                    rejected(*old(self), *final(self), r, Error::InvalidNextHop)
                } else {
                    *final(self) == *old(self) && post_already_connected(
                        *old(self),
                        relay,
                        *prev,
                        m,
                        r,
                    )
                },
                Message::FindSuccessorSend(m) => if relay.method != MessageRelayMethod::SEND {
                    rejected(*old(self), *final(self), r, Error::InvalidRelayDestination)
                } else {
                    *final(self) == *old(self) && post_find_successor(
                        *old(self),
                        relay,
                        *prev,
                        m,
                        r,
                    )
                },
                Message::FindSuccessorReport(m) => if relay.method != MessageRelayMethod::REPORT {
                    rejected(*old(self), *final(self), r, Error::InvalidRelayDestination)
                } else if relay.to_path@.len() == 0 || relay.to_path@.last().val() != old(self).dht.id.val() {
                    rejected(*old(self), *final(self), r, Error::InvalidNextHop)
                } else {
                    post_found_successor(*old(self), *final(self), relay, *prev, m, r)
                },
                Message::NotifyPredecessorSend(m) => if relay.method != MessageRelayMethod::SEND {
                    rejected(*old(self), *final(self), r, Error::InvalidRelayDestination)
                } else {
                    post_notify_predecessor(*old(self), *final(self), relay, *prev, m, r)
                },
                Message::NotifyPredecessorReport(m) => if relay.method
                    != MessageRelayMethod::REPORT {
                    rejected(*old(self), *final(self), r, Error::InvalidRelayDestination)
                } else if relay.to_path@.len() == 0 || relay.to_path@.last().val() != old(self).dht.id.val() {
                    rejected(*old(self), *final(self), r, Error::InvalidNextHop)
                } else {
                    post_notified_predecessor(*old(self), *final(self), relay, *prev, m, r)
                },
                Message::CustomMessage(m) => *final(self) == *old(self) && (r matches Ok(v)
                    && v.len() == 1 && (v[0] matches HandlerEffect::DeliverCustom { from, bytes }
                    && from == *prev && bytes@ == m.bytes@)),
            },
    {
        if !relay.check_paths() {
            if self.invalid_path_drops < u64::MAX {
                self.invalid_path_drops = self.invalid_path_drops + 1;
            }
            return Err(Error::InvalidRelayPath);
        }
        let is_send = match relay.method {
            MessageRelayMethod::SEND => true,
            MessageRelayMethod::REPORT => false,
        };
        let wants_send = match &relay.data {
            Message::JoinDHT(_) => true,
            Message::ConnectNodeSend(_) => true,
            Message::ConnectNodeReport(_) => false,
            Message::AlreadyConnected(_) => false,
            Message::FindSuccessorSend(_) => true,
            Message::FindSuccessorReport(_) => false,
            Message::NotifyPredecessorSend(_) => true,
            Message::NotifyPredecessorReport(_) => false,
            Message::CustomMessage(_) => is_send,
        };
        if is_send != wants_send {
            return Err(Error::InvalidRelayDestination);
        }
        if !is_send {
            match &relay.data {
                Message::CustomMessage(_) => {},
                _ => {
                    proof {
                        if relay.to_path@.len() > 0 {
                            crate::did::lemma_did_val_injective(relay.to_path@.last(), self.dht.id);
                        }
                    }
                    if relay.to_path.len() == 0 {
                        return Err(Error::InvalidNextHop);
                    }
                    if relay.to_path[relay.to_path.len() - 1] != self.dht.id {
                        return Err(Error::InvalidNextHop);
                    }
                },
            }
        }
        match &relay.data {
            Message::JoinDHT(m) => {
                let mm = *m;
                self.join_chord(&relay, prev, &mm)
            },
            Message::ConnectNodeSend(m) => {
                let mm = ConnectNodeSend {
                    sender_id: m.sender_id,
                    target_id: m.target_id,
                    handshake_info: clone_bytes(&m.handshake_info),
                };
                self.connect_node(relay, prev, &mm)
            },
            Message::ConnectNodeReport(m) => {
                let mm = ConnectNodeReport {
                    answer_id: m.answer_id,
                    handshake_info: clone_bytes(&m.handshake_info),
                };
                self.connected_node(relay, prev, &mm)
            },
            Message::AlreadyConnected(m) => {
                let mm = *m;
                self.already_connected(relay, prev, &mm)
            },
            Message::FindSuccessorSend(m) => {
                let mm = *m;
                self.find_successor(relay, prev, &mm)
            },
            Message::FindSuccessorReport(m) => {
                let mm = *m;
                self.found_successor(relay, prev, &mm)
            },
            Message::NotifyPredecessorSend(m) => {
                let mm = *m;
                self.notify_predecessor(relay, prev, &mm)
            },
            Message::NotifyPredecessorReport(m) => {
                let mm = *m;
                self.notified_predecessor(relay, prev, &mm)
            },
            Message::CustomMessage(m) => {
                let mut v: Vec<HandlerEffect> = Vec::new();
                v.push(
                    HandlerEffect::DeliverCustom { from: *prev, bytes: clone_bytes(&m.bytes) },
                );
                Ok(v)
            },
        }
    }

    /// Start a tunnelled connection to `target`: bind the freshly minted
    /// transport to it and send the signed offer toward its successor.
    pub fn connect_peer(
        &mut self,
        target: &Did,
        transport: Transport,
        handshake_info: Vec<u8>,
    ) -> (r: Result<Vec<HandlerEffect>, Error>)
        requires
            old(self).wf(),
            target.wf(),
            target.val() != old(self).dht.id.val(),
            transport.handle < old(self).swarm.next_handle,
            !crate::swarm::table_has(old(self).swarm.table@, *target),
        ensures
            final(self).wf(),
            final(self).dht == old(self).dht,
            final(self).invalid_path_drops == old(self).invalid_path_drops,
            if old(self).dht.successor.list@.len() == 0 {
                r == Err::<Vec<HandlerEffect>, Error>(Error::MessageHandlerMissNextNode)
                    && *final(self) == *old(self)
            } else {
                let head = old(self).dht.successor.head_spec();
                let c = cpn_spec(old(self).dht.finger@, old(self).dht.id, *target, 160);
                let next = if in_arc_open_closed(
                    target.val(),
                    old(self).dht.id.val(),
                    head.val(),
                ) {
                    head
                } else if c.val() == old(self).dht.id.val() {
                    head
                } else {
                    c
                };
                &&& final(self).swarm.table@ == old(self).swarm.table@.push((*target, transport))
                &&& !crate::swarm::pending_has(final(self).swarm.pending@, transport.handle)
                &&& final(self).swarm.next_handle == old(self).swarm.next_handle
                &&& (r matches Ok(v) && v.len() == 1 && (v[0] matches HandlerEffect::Send(m)
                    && m.destination == next && m.relay.method == MessageRelayMethod::SEND
                    && m.relay.from_path@.len() == 0 && m.relay.to_path@.len() == 0 && m.relay.ttl
                    == DEFAULT_TTL && (m.relay.data matches Message::ConnectNodeSend(cs)
                    && cs.sender_id == old(self).dht.id && cs.target_id == *target
                    && cs.handshake_info@ == handshake_info@)))
            },
    {
        if self.dht.successor.is_empty() {
            return Err(Error::MessageHandlerMissNextNode);
        }
        let head = self.dht.successor.head();
        let next = match self.dht.find_successor(target)? {
            PeerRingAction::Found(node) => node,
            PeerRingAction::RemoteAction(node, _) => {
                proof {
                    crate::did::lemma_did_val_injective(node, self.dht.id);
                }
                if node == self.dht.id {
                    head
                } else {
                    node
                }
            },
            PeerRingAction::NoAction => {
                return Err(Error::MessageHandlerMissNextNode);
            },
        };
        proof {
            crate::swarm::lemma_table_lookup_has(self.swarm.table@, *target);
        }
        let (_, _) = self.swarm.get_or_register(target, transport)?;
        let relay = MessageRelay::new_send(
            Message::ConnectNodeSend(
                ConnectNodeSend {
                    sender_id: self.dht.id,
                    target_id: *target,
                    handshake_info,
                },
            ),
            DEFAULT_TTL,
        );
        let mut v: Vec<HandlerEffect> = Vec::new();
        v.push(HandlerEffect::Send(OutboundMessage { destination: next, relay }));
        Ok(v)
    }

    /// Is any finger entry filled?
    fn number_of_fingers_is_positive(&self) -> (r: bool)
        requires
            self.wf(),
        ensures
            r == (crate::chord::count_fingers(self.dht.finger@, 160) > 0),
    {
        let n = self.dht.number_of_fingers();
        n > 0
    }
}

/// The handlers of the Chord connection protocol, one per message kind.
/// The inherent methods of `MessageHandler` carry the exact contracts;
/// this trait names the protocol surface they implement.
pub trait TChordConnection {
    /// The implementing state is internally consistent.
    spec fn chord_wf(&self) -> bool;

    /// Handle a `JoinDHT` announcement.
    fn join_chord(&mut self, relay: &MessageRelay, prev: &Did, msg: &JoinDHT) -> (r: Result<Vec<HandlerEffect>, Error>)
        requires
            old(self).chord_wf(),
            relay.wf(),
            prev.wf(),
            msg.id.wf(),
        ensures
            final(self).chord_wf(),
    ;

    /// Handle a `ConnectNodeSend` request.
    fn connect_node(&mut self, relay: MessageRelay, prev: &Did, msg: &ConnectNodeSend) -> (r: Result<Vec<HandlerEffect>, Error>)
        requires
            old(self).chord_wf(),
            relay.wf(),
            relay.method == MessageRelayMethod::SEND,
            prev.wf(),
            msg.sender_id.wf(),
            msg.target_id.wf(),
        ensures
            final(self).chord_wf(),
    ;

    /// Handle a `ConnectNodeReport` answer.
    fn connected_node(&mut self, relay: MessageRelay, prev: &Did, msg: &ConnectNodeReport) -> (r: Result<Vec<HandlerEffect>, Error>)
        requires
            old(self).chord_wf(),
            relay.wf(),
            relay.method == MessageRelayMethod::REPORT,
            prev.wf(),
            msg.answer_id.wf(),
        ensures
            final(self).chord_wf(),
    ;

    /// Handle an `AlreadyConnected` answer.
    fn already_connected(&mut self, relay: MessageRelay, prev: &Did, msg: &AlreadyConnected) -> (r: Result<Vec<HandlerEffect>, Error>)
        requires
            old(self).chord_wf(),
            relay.wf(),
            relay.method == MessageRelayMethod::REPORT,
            prev.wf(),
            msg.answer_id.wf(),
        ensures
            final(self).chord_wf(),
    ;

    /// Handle a `FindSuccessorSend` query.
    fn find_successor(&mut self, relay: MessageRelay, prev: &Did, msg: &FindSuccessorSend) -> (r: Result<Vec<HandlerEffect>, Error>)
        requires
            old(self).chord_wf(),
            relay.wf(),
            relay.method == MessageRelayMethod::SEND,
            prev.wf(),
            msg.id.wf(),
        ensures
            final(self).chord_wf(),
    ;

    /// Handle a `FindSuccessorReport` answer.
    fn found_successor(&mut self, relay: MessageRelay, prev: &Did, msg: &FindSuccessorReport) -> (r: Result<Vec<HandlerEffect>, Error>)
        requires
            old(self).chord_wf(),
            relay.wf(),
            relay.method == MessageRelayMethod::REPORT,
            prev.wf(),
            msg.id.wf(),
        ensures
            final(self).chord_wf(),
    ;

    /// Handle a `NotifyPredecessorSend` announcement.
    fn notify_predecessor(
        &mut self,
        relay: MessageRelay,
        prev: &Did,
        msg: &NotifyPredecessorSend,
    ) -> (r: Result<Vec<HandlerEffect>, Error>)
        requires
            old(self).chord_wf(),
            relay.wf(),
            relay.method == MessageRelayMethod::SEND,
            prev.wf(),
            msg.id.wf(),
        ensures
            final(self).chord_wf(),
    ;

    /// Handle a `NotifyPredecessorReport` answer.
    fn notified_predecessor(
        &mut self,
        relay: MessageRelay,
        prev: &Did,
        msg: &NotifyPredecessorReport,
    ) -> (r: Result<Vec<HandlerEffect>, Error>)
        requires
            old(self).chord_wf(),
            relay.wf(),
            relay.method == MessageRelayMethod::REPORT,
            prev.wf(),
            msg.id.wf(),
        ensures
            final(self).chord_wf(),
    ;
}

impl TChordConnection for MessageHandler {
    open spec fn chord_wf(&self) -> bool {
        self.wf()
    }

    fn join_chord(&mut self, relay: &MessageRelay, prev: &Did, msg: &JoinDHT) -> Result<
        Vec<HandlerEffect>,
        Error,
    > {
        MessageHandler::join_chord(self, relay, prev, msg)
    }

    fn connect_node(&mut self, relay: MessageRelay, prev: &Did, msg: &ConnectNodeSend) -> Result<
        Vec<HandlerEffect>,
        Error,
    > {
        MessageHandler::connect_node(self, relay, prev, msg)
    }

    fn connected_node(&mut self, relay: MessageRelay, prev: &Did, msg: &ConnectNodeReport) -> Result<
        Vec<HandlerEffect>,
        Error,
    > {
        MessageHandler::connected_node(self, relay, prev, msg)
    }

    fn already_connected(&mut self, relay: MessageRelay, prev: &Did, msg: &AlreadyConnected) -> Result<
        Vec<HandlerEffect>,
        Error,
    > {
        MessageHandler::already_connected(self, relay, prev, msg)
    }

    fn find_successor(&mut self, relay: MessageRelay, prev: &Did, msg: &FindSuccessorSend) -> Result<
        Vec<HandlerEffect>,
        Error,
    > {
        MessageHandler::find_successor(self, relay, prev, msg)
    }

    fn found_successor(&mut self, relay: MessageRelay, prev: &Did, msg: &FindSuccessorReport) -> Result<
        Vec<HandlerEffect>,
        Error,
    > {
        MessageHandler::found_successor(self, relay, prev, msg)
    }

    fn notify_predecessor(
        &mut self,
        relay: MessageRelay,
        prev: &Did,
        msg: &NotifyPredecessorSend,
    ) -> Result<Vec<HandlerEffect>, Error> {
        MessageHandler::notify_predecessor(self, relay, prev, msg)
    }

    fn notified_predecessor(
        &mut self,
        relay: MessageRelay,
        prev: &Did,
        msg: &NotifyPredecessorReport,
    ) -> Result<Vec<HandlerEffect>, Error> {
        MessageHandler::notified_predecessor(self, relay, prev, msg)
    }
}

/// The envelope was refused with `e` and nothing changed.
pub open spec fn rejected(
    pre: MessageHandler,
    post: MessageHandler,
    r: Result<Vec<HandlerEffect>, Error>,
    e: Error,
) -> bool {
    post == pre && r == Err::<Vec<HandlerEffect>, Error>(e)
}

/// Copy a byte payload, leaving the source message usable.
fn clone_bytes(p: &Vec<u8>) -> (r: Vec<u8>)
    ensures
        r@ == p@,
{
    let mut out: Vec<u8> = Vec::new();
    let mut i: usize = 0;
    while i < p.len()
        invariant
            i <= p@.len(),
            out@ == p@.take(i as int),
        decreases p@.len() - i,
    {
        out.push(p[i]);
        proof {
            assert(out@ =~= p@.take(i as int + 1));
        }
        i += 1;
    }
    proof {
        assert(p@.take(p@.len() as int) =~= p@);
    }
    out
}

/// Copy a path, leaving the source envelope usable.
fn clone_path(p: &Vec<Did>) -> (r: Vec<Did>)
    ensures
        r@ == p@,
{
    let mut out: Vec<Did> = Vec::new();
    let mut i: usize = 0;
    while i < p.len()
        invariant
            i <= p@.len(),
            out@ == p@.take(i as int),
        decreases p@.len() - i,
    {
        out.push(p[i]);
        proof {
            assert(out@ =~= p@.take(i as int + 1));
        }
        i += 1;
    }
    proof {
        assert(p@.take(p@.len() as int) =~= p@);
    }
    out
}

} // verus!

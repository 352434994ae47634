//! The periodic maintenance step: announce this node to its successor,
//! push the fix-finger cursor forward and query for the finger it points
//! at, and purge nodes whose transports have died.
use vstd::prelude::*;

verus! {

use crate::chord::finger_entry_is;
use crate::did::Did;
use crate::did::ring_add;
use crate::did::ring_add_spec;
use crate::did::did_pow2;
use crate::err::Error;
use crate::handlers::DEFAULT_TTL;
use crate::handlers::HandlerEffect;
use crate::handlers::MessageHandler;
use crate::handlers::OutboundMessage;
use crate::handlers::sends;
use crate::message::Message;
use crate::message::FindSuccessorSend;
use crate::message::NotifyPredecessorSend;
use crate::relay::MessageRelay;
use crate::relay::MessageRelayMethod;
use crate::successor::seq_contains_val;
use crate::swarm::Transport;
use vstd::arithmetic::power2::pow2;

/// One stabilization tick. The fix-finger cursor always advances; while
/// the node has a successor, it is sent a predecessor announcement and a
/// query for the node responsible for `id + 2^cursor`.
pub fn stabilize_tick(h: &mut MessageHandler) -> (r: Vec<HandlerEffect>)
    requires
        old(h).wf(),
    ensures
        final(h).wf(),
        final(h).swarm == old(h).swarm,
        final(h).invalid_path_drops == old(h).invalid_path_drops,
        final(h).dht.id == old(h).dht.id,
        final(h).dht.finger == old(h).dht.finger,
        final(h).dht.successor == old(h).dht.successor,
        final(h).dht.predecessor == old(h).dht.predecessor,
        final(h).dht.fix_finger_index == (old(h).dht.fix_finger_index + 1) % 160,
        ({
            let head = old(h).dht.successor.head_spec();
            let target = ring_add_spec(
                old(h).dht.id.val(),
                pow2(((old(h).dht.fix_finger_index + 1) % 160) as nat),
            );
            if old(h).dht.successor.list@.len() == 0 {
                r.len() == 0
            } else {
                r.len() == 2 && (r[0] matches HandlerEffect::Send(m) && m.destination == head
                    && m.relay.method == MessageRelayMethod::SEND && m.relay.from_path@.len() == 0
                    && m.relay.to_path@.len() == 0 && m.relay.ttl == DEFAULT_TTL && m.relay.data
                    == Message::NotifyPredecessorSend(
                    NotifyPredecessorSend { id: old(h).dht.id },
                )) && (r[1] matches HandlerEffect::Send(m) && m.destination == head
                    && m.relay.method == MessageRelayMethod::SEND && m.relay.from_path@.len() == 0
                    && m.relay.to_path@.len() == 0 && m.relay.ttl == DEFAULT_TTL && (m.relay.data
                    matches Message::FindSuccessorSend(fs) && fs.id.val() == target && fs.for_fix
                    == true))
            }
        }),
{
    let idx = if h.dht.fix_finger_index >= 159 {
        0
    } else {
        h.dht.fix_finger_index + 1
    };
    h.dht.fix_finger_index = idx;
    if h.dht.successor.is_empty() {
        return Vec::new();
    }
    let head = h.dht.successor.head();
    let offset = did_pow2(idx);
    let target = ring_add(&h.dht.id, &offset);
    let mut r: Vec<HandlerEffect> = Vec::new();
    r.push(
        HandlerEffect::Send(
            OutboundMessage {
                destination: head,
                relay: MessageRelay::new_send(
                    Message::NotifyPredecessorSend(NotifyPredecessorSend { id: h.dht.id }),
                    DEFAULT_TTL,
                ),
            },
        ),
    );
    r.push(
        HandlerEffect::Send(
            OutboundMessage {
                destination: head,
                relay: MessageRelay::new_send(
                    Message::FindSuccessorSend(FindSuccessorSend { id: target, for_fix: true }),
                    DEFAULT_TTL,
                ),
            },
        ),
    );
    r
}

/// Purge a dead node: unbind its transport so the runtime can close it,
/// and drop it from the successor list and the finger table.
pub fn prune_dead(h: &mut MessageHandler, did: &Did) -> (r: Result<Transport, Error>)
    requires
        old(h).wf(),
        did.wf(),
    ensures
        final(h).wf(),
        final(h).invalid_path_drops == old(h).invalid_path_drops,
        final(h).dht.id == old(h).dht.id,
        final(h).dht.predecessor == old(h).dht.predecessor,
        final(h).dht.fix_finger_index == old(h).dht.fix_finger_index,
        !crate::swarm::table_has(final(h).swarm.table@, *did),
        forall|i: int|
            0 <= i < 160 ==> (#[trigger] final(h).dht.finger@[i]) == (if finger_entry_is(
                old(h).dht.finger@[i],
                *did,
            ) {
                None::<Did>
            } else {
                old(h).dht.finger@[i]
            }),
        forall|x: Did|
            seq_contains_val(final(h).dht.successor.list@, x) <==> (seq_contains_val(
                old(h).dht.successor.list@,
                x,
            ) && x.val() != did.val()),
        match r {
            Ok(t) => crate::swarm::table_lookup(old(h).swarm.table@, *did) == Some(t),
            Err(e) => e == Error::SwarmMissAddressInTable && !crate::swarm::table_has(
                old(h).swarm.table@,
                *did,
            ),
        },
{
    let out = h.swarm.disconnect(did);
    h.dht.remove(did);
    out
}

} // verus!

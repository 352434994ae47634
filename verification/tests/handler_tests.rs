use rings_node::chord::PeerRing;
use rings_node::did::Did;
use rings_node::err::Error;
use rings_node::handlers::{HandlerEffect, MessageHandler};
use rings_node::message::{JoinDHT, Message, NotifyPredecessorReport};
use rings_node::relay::{MessageRelay, MessageRelayMethod};
use rings_node::stabilization::stabilize_tick;
use rings_node::swarm::Swarm;

fn d(v: u128) -> Did {
    Did::new(0, v)
}

fn node(id: u128) -> MessageHandler {
    MessageHandler::new(PeerRing::new(d(id)), Swarm::new())
}

/// Deliver every outgoing envelope to its destination, letting each
/// receiver's own effects flow on. Envelopes a receiver refuses are
/// dropped, as a real node drops them.
fn pump(nodes: &mut Vec<MessageHandler>, from: Did, effects: Vec<HandlerEffect>) {
    for e in effects {
        if let HandlerEffect::Send(out) = e {
            let idx = match nodes.iter().position(|n| n.dht.id == out.destination) {
                Some(i) => i,
                None => continue,
            };
            let sender = nodes[idx].dht.id;
            if let Ok(fx) = nodes[idx].handle_message(out.relay, &from) {
                pump(nodes, sender, fx);
            }
        }
    }
}

/// Both ends of a fresh connection announce the new peer to their rings.
fn announce(nodes: &mut Vec<MessageHandler>, a: usize, b: usize) {
    let (ida, idb) = (nodes[a].dht.id, nodes[b].dht.id);
    let ra = MessageRelay::new_send(Message::JoinDHT(JoinDHT { id: idb }), 64);
    let fx = nodes[a].handle_message(ra, &idb).unwrap();
    pump(nodes, ida, fx);
    let rb = MessageRelay::new_send(Message::JoinDHT(JoinDHT { id: ida }), 64);
    let fx = nodes[b].handle_message(rb, &ida).unwrap();
    pump(nodes, idb, fx);
}

fn tick(nodes: &mut Vec<MessageHandler>, i: usize) {
    let from = nodes[i].dht.id;
    let fx = stabilize_tick(&mut nodes[i]);
    pump(nodes, from, fx);
}

#[test]
fn two_node_join_converges_in_one_tick() {
    let mut nodes = vec![node(10), node(200)];
    announce(&mut nodes, 0, 1);
    tick(&mut nodes, 0);
    tick(&mut nodes, 1);
    assert_eq!(nodes[0].dht.successor.head(), d(200));
    assert_eq!(nodes[1].dht.successor.head(), d(10));
    assert_eq!(nodes[0].dht.predecessor, Some(d(200)));
    assert_eq!(nodes[1].dht.predecessor, Some(d(10)));
}

#[test]
fn quiescent_ring_settles_on_true_neighbours() {
    // four nodes that have all heard of one another settle, within a few
    // ticks, on exactly their clockwise neighbours and predecessors
    let mut nodes = vec![node(10), node(70), node(130), node(200)];
    for a in 0..4 {
        for b in (a + 1)..4 {
            announce(&mut nodes, a, b);
        }
    }
    for _ in 0..3 {
        for i in 0..4 {
            tick(&mut nodes, i);
        }
    }
    assert_eq!(nodes[0].dht.successor.head(), d(70));
    assert_eq!(nodes[1].dht.successor.head(), d(130));
    assert_eq!(nodes[2].dht.successor.head(), d(200));
    assert_eq!(nodes[3].dht.successor.head(), d(10));
    assert_eq!(nodes[0].dht.predecessor, Some(d(200)));
    assert_eq!(nodes[1].dht.predecessor, Some(d(10)));
    assert_eq!(nodes[2].dht.predecessor, Some(d(70)));
    assert_eq!(nodes[3].dht.predecessor, Some(d(130)));
}

#[test]
fn handshake_tunnels_through_the_overlay() {
    // A (10) is connected only to B (100); C is 200. A asks for a direct
    // transport to C through the overlay.
    let mut a = node(10);
    let mut b = node(100);
    let mut c = node(200);
    a.dht.successor.update(d(100));
    b.dht.successor.update(d(200));
    c.dht.successor.update(d(10));

    let ta = a.swarm.new_transport().unwrap();
    let fx = a.connect_peer(&d(200), ta, b"offer-from-a".to_vec()).unwrap();
    let out = match &fx[0] {
        HandlerEffect::Send(m) => m.clone(),
        other => panic!("unexpected effect: {:?}", other),
    };
    assert_eq!(out.destination, d(100));

    // B forwards toward C
    let fx = b.handle_message(out.relay, &d(10)).unwrap();
    let out = match &fx[0] {
        HandlerEffect::Send(m) => m.clone(),
        other => panic!("unexpected effect: {:?}", other),
    };
    assert_eq!(out.destination, d(200));

    // C has no transport for A yet: it asks its runtime to negotiate
    let fx = c.handle_message(out.relay, &d(100)).unwrap();
    let (tc, sender_id, offer, reply_to, reply_path) = match &fx[0] {
        HandlerEffect::NegotiateAnswer {
            transport,
            sender_id,
            handshake_info,
            reply_to,
            reply_path,
        } => (
            *transport,
            *sender_id,
            handshake_info.clone(),
            *reply_to,
            reply_path.clone(),
        ),
        other => panic!("unexpected effect: {:?}", other),
    };
    assert_eq!(sender_id, d(10));
    assert_eq!(offer, b"offer-from-a".to_vec());
    assert_eq!(reply_to, d(100));
    assert_eq!(reply_path, vec![d(10), d(100)]);

    // the negotiated answer walks back: C -> B -> A
    let fx = c
        .connect_node_answered(tc, &sender_id, b"answer-from-c".to_vec(), &reply_to, reply_path)
        .unwrap();
    assert!(c.swarm.get_transport(&d(10)).is_some());
    let out = match &fx[0] {
        HandlerEffect::Send(m) => m.clone(),
        other => panic!("unexpected effect: {:?}", other),
    };
    assert_eq!(out.destination, d(100));

    let fx = b.handle_message(out.relay, &d(200)).unwrap();
    let out = match &fx[0] {
        HandlerEffect::Send(m) => m.clone(),
        other => panic!("unexpected effect: {:?}", other),
    };
    assert_eq!(out.destination, d(10));

    let fx = a.handle_message(out.relay, &d(100)).unwrap();
    match &fx[0] {
        HandlerEffect::AcceptAnswer {
            transport,
            handshake_info,
        } => {
            assert_eq!(*transport, ta);
            assert_eq!(handshake_info, &b"answer-from-c".to_vec());
        }
        other => panic!("unexpected effect: {:?}", other),
    }
    // a direct A <-> C binding exists on both sides
    assert!(a.swarm.get_transport(&d(200)).is_some());
    assert!(c.swarm.get_transport(&d(10)).is_some());
}

#[test]
fn already_connected_peers_mint_no_new_transport() {
    let mut a = node(10);
    let mut b = node(100);
    let mut c = node(200);
    a.dht.successor.update(d(100));
    b.dht.successor.update(d(200));

    // A and C already share a transport
    let tac = a.swarm.new_transport().unwrap();
    a.swarm.get_or_register(&d(200), tac).unwrap();
    let tca = c.swarm.new_transport().unwrap();
    c.swarm.get_or_register(&d(10), tca).unwrap();
    let pending_before = c.swarm.pending.len();
    let handles_before = c.swarm.next_handle;

    // A asks again for C; the envelope reaches C through B
    let relay = MessageRelay::new_send(
        Message::ConnectNodeSend(rings_node::message::ConnectNodeSend {
            sender_id: d(10),
            target_id: d(200),
            handshake_info: b"offer".to_vec(),
        }),
        64,
    );
    let fx = b.handle_message(relay, &d(10)).unwrap();
    let out = match &fx[0] {
        HandlerEffect::Send(m) => m.clone(),
        other => panic!("unexpected effect: {:?}", other),
    };
    let fx = c.handle_message(out.relay, &d(100)).unwrap();
    let out = match &fx[0] {
        HandlerEffect::Send(m) => m.clone(),
        other => panic!("unexpected effect: {:?}", other),
    };
    // C answers AlreadyConnected and minted nothing
    match &out.relay.data {
        Message::AlreadyConnected(m) => assert_eq!(m.answer_id, d(200)),
        other => panic!("unexpected payload: {:?}", other),
    }
    assert!(matches!(out.relay.method, MessageRelayMethod::REPORT));
    assert_eq!(c.swarm.pending.len(), pending_before);
    assert_eq!(c.swarm.next_handle, handles_before);

    // the report walks back to A, which still holds the shared transport
    let fx = b.handle_message(out.relay, &d(200)).unwrap();
    let out = match &fx[0] {
        HandlerEffect::Send(m) => m.clone(),
        other => panic!("unexpected effect: {:?}", other),
    };
    let fx = a.handle_message(out.relay, &d(100)).unwrap();
    assert!(fx.is_empty());
}

#[test]
fn envelope_with_repeated_hops_is_dropped() {
    let mut h = node(10);
    let mut relay = MessageRelay::new_send(
        Message::NotifyPredecessorReport(NotifyPredecessorReport { id: d(5) }),
        64,
    );
    relay.method = MessageRelayMethod::REPORT;
    relay.to_path = vec![d(10), d(10)];
    assert_eq!(
        h.handle_message(relay, &d(5)),
        Err(Error::InvalidRelayPath)
    );
    assert_eq!(h.invalid_path_drops, 1);
}

#[test]
fn fix_finger_refills_the_cursor_entry() {
    // ring {10, 70, 130, 200}: node 10 fixes finger 6 (offset 64); the
    // node responsible for 10 + 64 = 74 is 130
    let mut nodes = vec![node(10), node(70), node(130), node(200)];
    nodes[0].dht.successor.update(d(70));
    nodes[0].dht.successor.update(d(130));
    nodes[0].dht.successor.update(d(200));
    nodes[1].dht.successor.update(d(130));
    nodes[1].dht.successor.update(d(200));
    nodes[2].dht.successor.update(d(200));
    nodes[3].dht.successor.update(d(10));
    nodes[0].dht.fix_finger_index = 5;
    tick(&mut nodes, 0);
    assert_eq!(nodes[0].dht.fix_finger_index, 6);
    assert_eq!(nodes[0].dht.finger[6], Some(d(130)));
}

#[test]
fn a_spent_envelope_expires_instead_of_travelling_on() {
    // node 10 must forward a query for 150 but its TTL is gone
    let mut h = node(10);
    h.dht.successor.update(d(100));
    let mut relay = MessageRelay::new_send(
        Message::FindSuccessorSend(rings_node::message::FindSuccessorSend {
            id: d(150),
            for_fix: false,
        }),
        0,
    );
    relay.from_path = vec![d(6)];
    assert_eq!(h.handle_message(relay, &d(5)), Err(Error::ExpiredRelay));
}

#[test]
fn a_lonely_node_cannot_start_a_tunnelled_connection() {
    let mut h = node(10);
    let t = h.swarm.new_transport().unwrap();
    assert_eq!(
        h.connect_peer(&d(200), t, b"offer".to_vec()),
        Err(Error::MessageHandlerMissNextNode)
    );
}

#[test]
fn reports_at_an_origin_without_a_transport_are_errors() {
    let mut h = node(10);
    let mut relay = MessageRelay::new_send(
        Message::ConnectNodeReport(rings_node::message::ConnectNodeReport {
            answer_id: d(200),
            handshake_info: b"answer".to_vec(),
        }),
        64,
    );
    relay.method = MessageRelayMethod::REPORT;
    relay.to_path = vec![d(10)];
    assert_eq!(
        h.handle_message(relay, &d(5)),
        Err(Error::MessageHandlerMissTransportConnectedNode)
    );
    let mut relay = MessageRelay::new_send(
        Message::AlreadyConnected(rings_node::message::AlreadyConnected { answer_id: d(200) }),
        64,
    );
    relay.method = MessageRelayMethod::REPORT;
    relay.to_path = vec![d(10)];
    assert_eq!(
        h.handle_message(relay, &d(5)),
        Err(Error::MessageHandlerMissTransportAlreadyConnected)
    );
}

#[test]
fn custom_payloads_are_handed_to_the_callback() {
    let mut h = node(10);
    let relay = MessageRelay::new_send(
        Message::CustomMessage(rings_node::message::CustomMessage {
            bytes: b"hello ring".to_vec(),
        }),
        64,
    );
    let fx = h.handle_message(relay, &d(5)).unwrap();
    match &fx[0] {
        HandlerEffect::DeliverCustom { from, bytes } => {
            assert_eq!(*from, d(5));
            assert_eq!(bytes, &b"hello ring".to_vec());
        }
        other => panic!("unexpected effect: {:?}", other),
    }
}

#[test]
fn notify_answers_with_the_accepted_predecessor() {
    // node 100 already believes 20 precedes it; 80 announces itself and
    // must be told the (new) predecessor
    let mut h = node(100);
    h.dht.notify(&d(20));
    let relay = MessageRelay::new_send(
        Message::NotifyPredecessorSend(rings_node::message::NotifyPredecessorSend { id: d(80) }),
        64,
    );
    let fx = h.handle_message(relay, &d(80)).unwrap();
    assert_eq!(h.dht.predecessor, Some(d(80)));
    match &fx[0] {
        HandlerEffect::Send(m) => match &m.relay.data {
            Message::NotifyPredecessorReport(rep) => assert_eq!(rep.id, d(80)),
            other => panic!("unexpected payload: {:?}", other),
        },
        other => panic!("unexpected effect: {:?}", other),
    }
}

#[test]
fn mismatched_method_is_refused() {
    let mut h = node(10);
    let mut relay = MessageRelay::new_send(
        Message::NotifyPredecessorReport(NotifyPredecessorReport { id: d(5) }),
        64,
    );
    // a report payload arriving as SEND is not the next hop's business
    relay.method = MessageRelayMethod::SEND;
    assert_eq!(
        h.handle_message(relay, &d(5)),
        Err(Error::InvalidRelayDestination)
    );
}

#[test]
fn report_for_someone_else_is_refused() {
    let mut h = node(10);
    let mut relay = MessageRelay::new_send(
        Message::NotifyPredecessorReport(NotifyPredecessorReport { id: d(5) }),
        64,
    );
    relay.method = MessageRelayMethod::REPORT;
    relay.to_path = vec![d(99)];
    assert_eq!(h.handle_message(relay, &d(5)), Err(Error::InvalidNextHop));
}

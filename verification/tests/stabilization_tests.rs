use rings_node::chord::PeerRing;
use rings_node::did::Did;
use rings_node::handlers::{HandlerEffect, MessageHandler};
use rings_node::message::Message;
use rings_node::stabilization::{prune_dead, stabilize_tick};
use rings_node::swarm::Swarm;

fn d(v: u128) -> Did {
    Did::new(0, v)
}

#[test]
fn a_tick_announces_and_queries_through_the_successor() {
    let mut ring = PeerRing::new(d(10));
    ring.successor.update(d(70));
    let mut h = MessageHandler::new(ring, Swarm::new());
    let fx = stabilize_tick(&mut h);
    assert_eq!(h.dht.fix_finger_index, 1);
    assert_eq!(fx.len(), 2);
    match &fx[0] {
        HandlerEffect::Send(m) => {
            assert_eq!(m.destination, d(70));
            match &m.relay.data {
                Message::NotifyPredecessorSend(n) => assert_eq!(n.id, d(10)),
                other => panic!("unexpected payload: {:?}", other),
            }
        }
        other => panic!("unexpected effect: {:?}", other),
    }
    match &fx[1] {
        HandlerEffect::Send(m) => {
            assert_eq!(m.destination, d(70));
            match &m.relay.data {
                // cursor moved to 1, so the query is for id + 2^1
                Message::FindSuccessorSend(f) => {
                    assert_eq!(f.id, d(12));
                    assert!(f.for_fix);
                }
                other => panic!("unexpected payload: {:?}", other),
            }
        }
        other => panic!("unexpected effect: {:?}", other),
    }
}

#[test]
fn the_cursor_wraps_and_a_lonely_node_stays_silent() {
    let mut h = MessageHandler::new(PeerRing::new(d(10)), Swarm::new());
    h.dht.fix_finger_index = 159;
    let fx = stabilize_tick(&mut h);
    assert_eq!(h.dht.fix_finger_index, 0);
    assert!(fx.is_empty());
}

#[test]
fn pruning_a_dead_node_clears_every_trace() {
    let mut ring = PeerRing::new(d(10));
    ring.successor.update(d(70));
    ring.successor.update(d(130));
    ring.finger[5] = Some(d(70));
    let mut swarm = Swarm::new();
    let t = swarm.new_transport().unwrap();
    swarm.get_or_register(&d(70), t).unwrap();
    let mut h = MessageHandler::new(ring, swarm);

    let closed = prune_dead(&mut h, &d(70)).unwrap();
    assert_eq!(closed, t);
    assert!(h.swarm.get_transport(&d(70)).is_none());
    assert_eq!(h.dht.finger[5], None);
    assert_eq!(h.dht.successor.head(), d(130));
}

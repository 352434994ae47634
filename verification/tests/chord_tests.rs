use rings_node::chord::{PeerRing, PeerRingAction, PeerRingRemoteAction};
use rings_node::did::Did;

fn d(v: u128) -> Did {
    Did::new(0, v)
}

#[test]
fn successor_list_keeps_clockwise_order() {
    let mut ring = PeerRing::new(d(10));
    ring.successor.update(d(200));
    ring.successor.update(d(70));
    ring.successor.update(d(130));
    assert_eq!(ring.successor.head(), d(70));
    assert_eq!(ring.successor.list.len(), 3);
    assert_eq!(ring.successor.list[0], d(70));
    assert_eq!(ring.successor.list[1], d(130));
    assert_eq!(ring.successor.list[2], d(200));
}

#[test]
fn successor_list_caps_at_three_and_drops_farthest() {
    let mut ring = PeerRing::new(d(10));
    ring.successor.update(d(200));
    ring.successor.update(d(70));
    ring.successor.update(d(130));
    ring.successor.update(d(20));
    assert_eq!(ring.successor.list.len(), 3);
    assert_eq!(ring.successor.list[0], d(20));
    assert_eq!(ring.successor.list[1], d(70));
    assert_eq!(ring.successor.list[2], d(130));
}

#[test]
fn successor_list_ignores_owner_and_duplicates() {
    let mut ring = PeerRing::new(d(10));
    ring.successor.update(d(10));
    assert!(ring.successor.is_empty());
    ring.successor.update(d(70));
    ring.successor.update(d(70));
    assert_eq!(ring.successor.list.len(), 1);
}

#[test]
fn find_successor_answers_locally_inside_the_arc() {
    let mut ring = PeerRing::new(d(10));
    ring.successor.update(d(100));
    match ring.find_successor(&d(50)) {
        Ok(PeerRingAction::Found(n)) => assert_eq!(n, d(100)),
        other => panic!("unexpected action: {:?}", other),
    }
}

#[test]
fn find_successor_hops_through_the_highest_preceding_finger() {
    // scenario: nodes 10, 100, 200; from 10, find_successor(150) resolves
    // to 200 via a remote hop through 100's state
    let mut ring10 = PeerRing::new(d(10));
    ring10.successor.update(d(100));
    ring10.finger[6] = Some(d(100));
    let next = match ring10.find_successor(&d(150)) {
        Ok(PeerRingAction::RemoteAction(n, PeerRingRemoteAction::FindSuccessor(t))) => {
            assert_eq!(t, d(150));
            n
        }
        other => panic!("unexpected action: {:?}", other),
    };
    assert_eq!(next, d(100));
    let mut ring100 = PeerRing::new(d(100));
    ring100.successor.update(d(200));
    match ring100.find_successor(&d(150)) {
        Ok(PeerRingAction::Found(n)) => assert_eq!(n, d(200)),
        other => panic!("unexpected action: {:?}", other),
    }
}

#[test]
fn closest_preceding_node_falls_back_to_self() {
    let ring = PeerRing::new(d(10));
    assert_eq!(ring.closest_preceding_node(&d(150)), d(10));
}

#[test]
fn closest_preceding_node_picks_highest_match() {
    let mut ring = PeerRing::new(d(10));
    ring.finger[3] = Some(d(40));
    ring.finger[6] = Some(d(100));
    ring.finger[8] = Some(d(180));
    assert_eq!(ring.closest_preceding_node(&d(150)), d(100));
}

#[test]
fn join_offers_the_newcomer_and_names_whom_to_ask() {
    let mut ring = PeerRing::new(d(10));
    match ring.join(&d(200)) {
        PeerRingAction::RemoteAction(next, PeerRingRemoteAction::FindSuccessor(t)) => {
            assert_eq!(t, d(200));
            assert_eq!(next, d(10));
        }
        other => panic!("unexpected action: {:?}", other),
    }
    assert_eq!(ring.successor.head(), d(200));
    // a known identifier is ignored
    assert!(matches!(ring.join(&d(200)), PeerRingAction::NoAction));
    // the node's own identifier is ignored
    assert!(matches!(ring.join(&d(10)), PeerRingAction::NoAction));
}

#[test]
fn notify_accepts_by_the_predecessor_rule() {
    let mut ring = PeerRing::new(d(100));
    ring.notify(&d(20));
    assert_eq!(ring.predecessor, Some(d(20)));
    // closer predecessor wins
    ring.notify(&d(80));
    assert_eq!(ring.predecessor, Some(d(80)));
    // farther candidate is ignored
    ring.notify(&d(30));
    assert_eq!(ring.predecessor, Some(d(80)));
}

#[test]
fn remove_purges_successors_and_fingers() {
    let mut ring = PeerRing::new(d(10));
    ring.successor.update(d(70));
    ring.successor.update(d(130));
    ring.finger[4] = Some(d(70));
    ring.finger[5] = Some(d(130));
    ring.remove(&d(70));
    assert_eq!(ring.successor.list.len(), 1);
    assert_eq!(ring.successor.head(), d(130));
    assert_eq!(ring.finger[4], None);
    assert_eq!(ring.finger[5], Some(d(130)));
}

#[test]
fn number_of_fingers_counts_filled_entries() {
    let mut ring = PeerRing::new(d(10));
    assert_eq!(ring.number_of_fingers(), 0);
    ring.finger[0] = Some(d(20));
    ring.finger[159] = Some(d(30));
    assert_eq!(ring.number_of_fingers(), 2);
}

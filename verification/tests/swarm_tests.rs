use rings_node::did::Did;
use rings_node::err::Error;
use rings_node::swarm::{Swarm, TransportState};

fn d(v: u128) -> Did {
    Did::new(0, v)
}

#[test]
fn new_transport_mints_fresh_handles() {
    let mut swarm = Swarm::new();
    let t1 = swarm.new_transport().unwrap();
    let t2 = swarm.new_transport().unwrap();
    assert_ne!(t1.handle, t2.handle);
    assert!(matches!(t1.state, TransportState::New));
    assert!(swarm.get_pending(t1.handle).is_some());
    assert!(swarm.get_pending(t2.handle).is_some());
}

#[test]
fn get_or_register_promotes_a_pending_transport() {
    let mut swarm = Swarm::new();
    let t = swarm.new_transport().unwrap();
    let (reg, to_close) = swarm.get_or_register(&d(7), t).unwrap();
    assert_eq!(reg, t);
    assert!(to_close.is_none());
    // the binding is in the table and nothing waits in pending any more
    assert_eq!(swarm.get_transport(&d(7)), Some(t));
    assert!(swarm.get_pending(t.handle).is_none());
}

#[test]
fn get_or_register_keeps_the_existing_binding() {
    let mut swarm = Swarm::new();
    let first = swarm.new_transport().unwrap();
    let second = swarm.new_transport().unwrap();
    swarm.get_or_register(&d(7), first).unwrap();
    let (reg, to_close) = swarm.get_or_register(&d(7), second).unwrap();
    assert_eq!(reg, first);
    assert_eq!(to_close, Some(second));
    assert_eq!(swarm.get_transport(&d(7)), Some(first));
    // the loser is out of pending as well: the caller closes it
    assert!(swarm.get_pending(second.handle).is_none());
}

#[test]
fn disconnect_unbinds_and_returns_the_transport() {
    let mut swarm = Swarm::new();
    let t = swarm.new_transport().unwrap();
    swarm.get_or_register(&d(7), t).unwrap();
    assert_eq!(swarm.disconnect(&d(7)), Ok(t));
    assert!(swarm.get_transport(&d(7)).is_none());
    assert_eq!(swarm.disconnect(&d(7)), Err(Error::SwarmMissAddressInTable));
}

#[test]
fn pop_pending_takes_a_transport_out() {
    let mut swarm = Swarm::new();
    let t1 = swarm.new_transport().unwrap();
    let t2 = swarm.new_transport().unwrap();
    assert_eq!(swarm.pop_pending(t1.handle), Ok(t1));
    assert!(swarm.get_pending(t1.handle).is_none());
    assert!(swarm.get_pending(t2.handle).is_some());
    assert_eq!(
        swarm.pop_pending(t1.handle),
        Err(Error::SwarmPendingTransNotFound)
    );
}

#[test]
fn an_exhausted_handle_space_is_an_error() {
    let mut swarm = Swarm::new();
    swarm.next_handle = u64::MAX;
    assert_eq!(swarm.new_transport(), Err(Error::InvalidTransportUuid));
}

#[test]
fn lookups_keep_bindings_apart() {
    let mut swarm = Swarm::new();
    let t1 = swarm.new_transport().unwrap();
    let t2 = swarm.new_transport().unwrap();
    swarm.get_or_register(&d(7), t1).unwrap();
    swarm.get_or_register(&d(9), t2).unwrap();
    assert_eq!(swarm.get_transport(&d(7)), Some(t1));
    assert_eq!(swarm.get_transport(&d(9)), Some(t2));
    assert!(swarm.get_transport(&d(8)).is_none());
}

use rings_node::did::Did;
use rings_node::err::Error;
use rings_node::message::{CustomMessage, Message, NotifyPredecessorSend};
use rings_node::relay::{MessageRelay, MessageRelayMethod};

fn d(v: u128) -> Did {
    Did::new(0, v)
}

fn send_relay() -> MessageRelay {
    MessageRelay::new_send(
        Message::NotifyPredecessorSend(NotifyPredecessorSend { id: d(1) }),
        64,
    )
}

#[test]
fn push_prev_appends_sender_on_send() {
    let mut relay = send_relay();
    assert!(relay.push_prev(&d(2), &d(1)).is_ok());
    assert!(relay.push_prev(&d(3), &d(2)).is_ok());
    assert_eq!(relay.from_path, vec![d(1), d(2)]);
    assert!(relay.to_path.is_empty());
}

#[test]
fn push_prev_refuses_a_repeated_hop() {
    let mut relay = send_relay();
    assert!(relay.push_prev(&d(2), &d(1)).is_ok());
    assert_eq!(relay.push_prev(&d(3), &d(1)), Err(Error::InvalidRelayPath));
    // the envelope is untouched by the refused step
    assert_eq!(relay.from_path, vec![d(1)]);
}

#[test]
fn push_prev_consumes_the_return_path_tail() {
    let mut relay = send_relay();
    relay.method = MessageRelayMethod::REPORT;
    relay.to_path = vec![d(1), d(2)];
    // node 2 consumes its own tail entry and records the hop from 3
    assert!(relay.push_prev(&d(2), &d(3)).is_ok());
    assert_eq!(relay.to_path, vec![d(1)]);
    assert_eq!(relay.from_path, vec![d(3)]);
    // next consumer must be node 1
    assert_eq!(relay.find_prev(), Some(d(1)));
    assert!(relay.push_prev(&d(1), &d(2)).is_ok());
    assert!(relay.to_path.is_empty());
    assert_eq!(relay.from_path, vec![d(2), d(3)]);
    assert_eq!(relay.find_prev(), None);
}

#[test]
fn push_prev_refuses_a_report_not_addressed_here() {
    let mut relay = send_relay();
    relay.method = MessageRelayMethod::REPORT;
    relay.to_path = vec![d(1), d(2)];
    assert_eq!(
        relay.push_prev(&d(9), &d(3)),
        Err(Error::InvalidRelayDestination)
    );
    let mut empty = send_relay();
    empty.method = MessageRelayMethod::REPORT;
    assert_eq!(
        empty.push_prev(&d(9), &d(3)),
        Err(Error::InvalidRelayDestination)
    );
}

#[test]
fn make_report_inverts_the_recorded_path() {
    let mut relay = send_relay();
    assert!(relay.push_prev(&d(2), &d(1)).is_ok());
    assert!(relay.push_prev(&d(3), &d(2)).is_ok());
    let rep = relay.make_report(
        Message::CustomMessage(CustomMessage { bytes: vec![7] }),
        64,
    );
    assert!(matches!(rep.method, MessageRelayMethod::REPORT));
    assert_eq!(rep.to_path, vec![d(1), d(2)]);
    assert!(rep.from_path.is_empty());
    // the report retraces the forward path in reverse: 2 first, then 1
    assert_eq!(rep.find_prev(), Some(d(2)));
}

#[test]
fn check_paths_spots_equal_adjacent_entries() {
    let mut relay = send_relay();
    relay.to_path = vec![d(5), d(5)];
    assert!(!relay.check_paths());
    relay.to_path = vec![d(5), d(6), d(5)];
    assert!(relay.check_paths());
    relay.from_path = vec![d(4), d(4)];
    assert!(!relay.check_paths());
}

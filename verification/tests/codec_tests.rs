use rings_node::codec::{decode_relay, did_from_bytes, did_to_bytes, encode_relay};
use rings_node::did::Did;
use rings_node::err::Error;
use rings_node::message::{
    AlreadyConnected, ConnectNodeReport, ConnectNodeSend, CustomMessage, FindSuccessorReport,
    FindSuccessorSend, JoinDHT, Message, NotifyPredecessorReport, NotifyPredecessorSend,
};
use rings_node::relay::{MessageRelay, MessageRelayMethod};

fn d(v: u128) -> Did {
    Did::new(0, v)
}

fn sealed_relay(method: MessageRelayMethod, data: Message) -> MessageRelay {
    MessageRelay {
        method,
        from_path: vec![d(1), d(2)],
        to_path: vec![d(3)],
        ttl: 7,
        data,
        signature: vec![0x42; 65],
        signer_address: vec![0x24; 20],
    }
}

fn assert_round_trip(relay: MessageRelay) {
    let bytes = encode_relay(&relay);
    let back = decode_relay(&bytes).expect("an encoded envelope must decode");
    assert!(matches!(
        (&relay.method, &back.method),
        (MessageRelayMethod::SEND, MessageRelayMethod::SEND)
            | (MessageRelayMethod::REPORT, MessageRelayMethod::REPORT)
    ));
    assert_eq!(back.from_path, relay.from_path);
    assert_eq!(back.to_path, relay.to_path);
    assert_eq!(back.ttl, relay.ttl);
    assert_eq!(back.signature, relay.signature);
    assert_eq!(back.signer_address, relay.signer_address);
    // re-encoding the decoded envelope reproduces the bytes exactly
    assert_eq!(encode_relay(&back), bytes);
}

#[test]
fn every_message_kind_round_trips() {
    assert_round_trip(sealed_relay(
        MessageRelayMethod::SEND,
        Message::JoinDHT(JoinDHT { id: d(9) }),
    ));
    assert_round_trip(sealed_relay(
        MessageRelayMethod::SEND,
        Message::ConnectNodeSend(ConnectNodeSend {
            sender_id: d(10),
            target_id: d(200),
            handshake_info: b"offer".to_vec(),
        }),
    ));
    assert_round_trip(sealed_relay(
        MessageRelayMethod::REPORT,
        Message::ConnectNodeReport(ConnectNodeReport {
            answer_id: d(200),
            handshake_info: b"answer".to_vec(),
        }),
    ));
    assert_round_trip(sealed_relay(
        MessageRelayMethod::REPORT,
        Message::AlreadyConnected(AlreadyConnected { answer_id: d(200) }),
    ));
    assert_round_trip(sealed_relay(
        MessageRelayMethod::SEND,
        Message::FindSuccessorSend(FindSuccessorSend {
            id: d(74),
            for_fix: true,
        }),
    ));
    assert_round_trip(sealed_relay(
        MessageRelayMethod::REPORT,
        Message::FindSuccessorReport(FindSuccessorReport {
            id: d(130),
            for_fix: false,
        }),
    ));
    assert_round_trip(sealed_relay(
        MessageRelayMethod::SEND,
        Message::NotifyPredecessorSend(NotifyPredecessorSend { id: d(10) }),
    ));
    assert_round_trip(sealed_relay(
        MessageRelayMethod::REPORT,
        Message::NotifyPredecessorReport(NotifyPredecessorReport { id: d(200) }),
    ));
    assert_round_trip(sealed_relay(
        MessageRelayMethod::SEND,
        Message::CustomMessage(CustomMessage {
            bytes: vec![0, 1, 2, 255],
        }),
    ));
}

#[test]
fn decoded_fields_carry_the_encoded_values() {
    let relay = sealed_relay(
        MessageRelayMethod::SEND,
        Message::ConnectNodeSend(ConnectNodeSend {
            sender_id: d(10),
            target_id: d(200),
            handshake_info: b"offer".to_vec(),
        }),
    );
    let back = decode_relay(&encode_relay(&relay)).unwrap();
    match back.data {
        Message::ConnectNodeSend(m) => {
            assert_eq!(m.sender_id, d(10));
            assert_eq!(m.target_id, d(200));
            assert_eq!(m.handshake_info, b"offer".to_vec());
        }
        other => panic!("unexpected payload: {:?}", other),
    }
}

#[test]
fn wire_layout_starts_with_method_and_ttl() {
    let relay = sealed_relay(
        MessageRelayMethod::REPORT,
        Message::AlreadyConnected(AlreadyConnected { answer_id: d(200) }),
    );
    let bytes = encode_relay(&relay);
    assert_eq!(bytes[0], 1); // REPORT
    assert_eq!(&bytes[1..5], &[7, 0, 0, 0]); // ttl, little-endian
    assert_eq!(&bytes[5..9], &[2, 0, 0, 0]); // from_path entry count
}

#[test]
fn malformed_bytes_are_refused() {
    let relay = sealed_relay(
        MessageRelayMethod::SEND,
        Message::JoinDHT(JoinDHT { id: d(9) }),
    );
    let good = encode_relay(&relay);
    // truncated
    let mut cut = good.clone();
    cut.pop();
    assert_eq!(decode_relay(&cut), Err(Error::Deserialize));
    // trailing junk
    let mut long = good.clone();
    long.push(0);
    assert_eq!(decode_relay(&long), Err(Error::Deserialize));
    // bad method byte
    let mut bad_method = good.clone();
    bad_method[0] = 9;
    assert_eq!(decode_relay(&bad_method), Err(Error::Deserialize));
    // empty input
    assert_eq!(decode_relay(&Vec::new()), Err(Error::Deserialize));
}

#[test]
fn did_bytes_round_trip() {
    let ids = [d(0), d(1), d(200), Did::new(0xffffffff, u128::MAX)];
    for id in ids {
        let bytes = did_to_bytes(&id);
        assert_eq!(bytes.len(), 20);
        assert_eq!(did_from_bytes(&bytes), id);
    }
}

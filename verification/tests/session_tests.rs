use rings_node::did::Did;
use rings_node::ecc::{keccak256, key_address, key_did, recover_address, sign_digest};
use rings_node::message::{CustomMessage, Message};
use rings_node::relay::MessageRelay;
use rings_node::session::{open_payload_bytes, seal_relay, sign_payload_bytes, verify_relay, SessionManager};

fn d(v: u128) -> Did {
    Did::new(0, v)
}

fn key(last: u8) -> Vec<u8> {
    let mut k = vec![0u8; 32];
    k[31] = last;
    k
}

#[test]
fn keccak_matches_the_known_empty_digest() {
    let digest = keccak256(&Vec::new());
    let expected: [u8; 32] = [
        0xc5, 0xd2, 0x46, 0x01, 0x86, 0xf7, 0x23, 0x3c, 0x92, 0x7e, 0x7d, 0xb2, 0xdc, 0xc7, 0x03,
        0xc0, 0xe5, 0x00, 0xb6, 0x53, 0xca, 0x82, 0x27, 0x3b, 0x7b, 0xfa, 0xd8, 0x04, 0x5d, 0x85,
        0xa4, 0x70,
    ];
    assert_eq!(digest, expected.to_vec());
}

#[test]
fn key_address_matches_the_known_vector() {
    // the address of the secret key 0x...01 is a fixed, well-known value
    let addr = key_address(&key(1)).unwrap();
    let expected: [u8; 20] = [
        0x7e, 0x5f, 0x45, 0x52, 0x09, 0x1a, 0x69, 0x12, 0x5d, 0x5d, 0xfc, 0xb7, 0xb8, 0xc2, 0x65,
        0x90, 0x29, 0x39, 0x5b, 0xdf,
    ];
    assert_eq!(addr, expected.to_vec());
    // an all-zero key is invalid
    assert!(key_address(&vec![0u8; 32]).is_err());
    assert!(key_did(&key(1)).is_ok());
}

#[test]
fn signatures_recover_to_the_signing_key() {
    let k = key(7);
    let addr = key_address(&k).unwrap();
    let digest = keccak256(&b"a message to sign".to_vec());
    let sig = sign_digest(&k, &digest).unwrap();
    assert_eq!(sig.len(), 65);
    let v = sig[64];
    assert!((27..=30).contains(&v));
    let recovered = recover_address(&digest, &sig[..64].to_vec(), (v - 27) as i32).unwrap();
    assert_eq!(recovered, addr);
    // a different digest recovers to something else
    let other = keccak256(&b"another message".to_vec());
    let wrong = recover_address(&other, &sig[..64].to_vec(), (v - 27) as i32);
    assert!(wrong.is_err() || wrong.unwrap() != addr);
}

fn plain_relay() -> MessageRelay {
    let mut r = MessageRelay::new_send(
        Message::CustomMessage(CustomMessage {
            bytes: b"hello ring".to_vec(),
        }),
        64,
    );
    r.from_path = vec![d(1)];
    r
}

#[test]
fn sealed_envelopes_verify_and_tampered_ones_do_not() {
    let k = key(9);
    let sealed = seal_relay(plain_relay(), &k).unwrap();
    assert!(verify_relay(&sealed));
    // tampering with the payload breaks the signature
    let mut tampered = sealed.clone();
    tampered.ttl = 63;
    assert!(!verify_relay(&tampered));
    // claiming another signer breaks it too
    let mut forged = sealed.clone();
    forged.signer_address = key_address(&key(8)).unwrap();
    assert!(!verify_relay(&forged));
    // an unsealed envelope does not verify
    assert!(!verify_relay(&plain_relay()));
}

#[test]
fn signed_payload_bytes_open_and_refuse_tampering() {
    let k = key(11);
    let payload = b"{\"sdp\":\"...\"}".to_vec();
    let signed = sign_payload_bytes(&payload, &k).unwrap();
    assert_eq!(signed.len(), 85 + payload.len());
    let (signer, opened) = open_payload_bytes(&signed).unwrap();
    assert_eq!(signer, key_address(&k).unwrap());
    assert_eq!(opened, payload);
    // flipping a payload byte breaks the signature
    let mut tampered = signed.clone();
    let last = tampered.len() - 1;
    tampered[last] ^= 1;
    assert!(open_payload_bytes(&tampered).is_err());
    // too short to carry a signature at all
    assert!(open_payload_bytes(&vec![0u8; 10]).is_err());
}

#[test]
fn sessions_endorse_and_expire() {
    let root_key = key(3);
    let session_key = key(4);
    let root_address = key_address(&root_key).unwrap();

    let ttl = Some(1000u64);
    let payload = SessionManager::gen_unsign_info(&session_key, &ttl, 50).unwrap();
    let digest = keccak256(&payload);
    let auth_signature = sign_digest(&root_key, &digest).unwrap();

    let session = SessionManager::new(
        root_address.clone(),
        session_key.clone(),
        auth_signature,
        ttl,
        50,
    )
    .unwrap();
    assert!(session.session_valid(100));
    assert!(session.session_valid(1050));
    // past its lifetime the session is refused
    assert!(!session.session_valid(1051));

    // an endorsement by the wrong root is refused
    let bad_sig = sign_digest(&key(5), &digest).unwrap();
    let forged = SessionManager::new(root_address, session_key.clone(), bad_sig, ttl, 50).unwrap();
    assert!(!forged.session_valid(100));

    // envelopes sealed by the session carry the session address
    let sealed = session.sign_relay(plain_relay()).unwrap();
    assert!(verify_relay(&sealed));
    assert_eq!(sealed.signer_address, key_address(&session_key).unwrap());
}

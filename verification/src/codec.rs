//! The wire format of relay envelopes on a data channel.
//!
//! Integers travel little-endian. An envelope is laid out as: one method
//! byte, the TTL, the two paths (entry count, then 20 bytes per
//! identifier), the 65-byte signature, the 20-byte signer address, and the
//! payload (one tag byte, then its fields; byte payloads carry their
//! length first). `spec_encode_relay` is the ground truth; the encoder
//! produces exactly it and whatever the decoder accepts re-encodes to the
//! input, so a decoded envelope is a true pre-image of its bytes.
use vstd::prelude::*;

verus! {

use crate::did::Did;
use crate::err::Error;
use crate::message::AlreadyConnected;
use crate::message::ConnectNodeReport;
use crate::message::ConnectNodeSend;
use crate::message::CustomMessage;
use crate::message::FindSuccessorSend;
use crate::message::FindSuccessorReport;
use crate::message::JoinDHT;
use crate::message::Message;
use crate::message::NotifyPredecessorReport;
use crate::message::NotifyPredecessorSend;
use crate::relay::MessageRelay;
use crate::relay::MessageRelayMethod;
use crate::relay::path_wf;
use vstd::bytes::spec_u32_to_le_bytes;
use vstd::bytes::spec_u32_from_le_bytes;
use vstd::bytes::spec_u64_to_le_bytes;
use vstd::bytes::spec_u64_from_le_bytes;
use vstd::bytes::lemma_auto_spec_u32_to_from_le_bytes;
use vstd::bytes::lemma_auto_spec_u64_to_from_le_bytes;
use vstd::bytes::u32_to_le_bytes;
use vstd::bytes::u32_from_le_bytes;
use vstd::bytes::u64_to_le_bytes;
use vstd::bytes::u64_from_le_bytes;
use vstd::slice::slice_subrange;
use vstd::slice::slice_to_vec;
use vstd::arithmetic::div_mod::lemma_fundamental_div_mod_converse;

/// An identifier on the wire: high 32 bits, then the two halves of the
/// low 128 bits, high half first, each little-endian.
pub open spec fn enc_did(d: Did) -> Seq<u8> {
    spec_u32_to_le_bytes(d.hi as u32) + spec_u64_to_le_bytes((d.lo / 0x10000000000000000) as u64)
        + spec_u64_to_le_bytes((d.lo % 0x10000000000000000) as u64)
}

/// The entries of a path, one after the other.
pub open spec fn enc_entries(p: Seq<Did>) -> Seq<u8>
    decreases p.len(),
{
    if p.len() == 0 {
        Seq::empty()
    } else {
        enc_entries(p.drop_last()) + enc_did(p.last())
    }
}

/// A path: its entry count, then its entries.
pub open spec fn enc_path(p: Seq<Did>) -> Seq<u8> {
    spec_u32_to_le_bytes(p.len() as u32) + enc_entries(p)
}

/// A byte payload: its length, then its bytes.
pub open spec fn enc_bytes(s: Seq<u8>) -> Seq<u8> {
    spec_u32_to_le_bytes(s.len() as u32) + s
}

/// A boolean as one byte.
pub open spec fn enc_bool(b: bool) -> Seq<u8> {
    if b {
        seq![1u8]
    } else {
        seq![0u8]
    }
}

/// A payload: its tag byte, then its fields.
pub open spec fn enc_msg(m: Message) -> Seq<u8> {
    match m {
        Message::JoinDHT(x) => seq![0u8] + enc_did(x.id),
        Message::ConnectNodeSend(x) => seq![1u8] + enc_did(x.sender_id) + enc_did(x.target_id)
            + enc_bytes(x.handshake_info@),
        Message::ConnectNodeReport(x) => seq![2u8] + enc_did(x.answer_id) + enc_bytes(
            x.handshake_info@,
        ),
        Message::AlreadyConnected(x) => seq![3u8] + enc_did(x.answer_id),
        Message::FindSuccessorSend(x) => seq![4u8] + enc_did(x.id) + enc_bool(x.for_fix),
        Message::FindSuccessorReport(x) => seq![5u8] + enc_did(x.id) + enc_bool(x.for_fix),
        Message::NotifyPredecessorSend(x) => seq![6u8] + enc_did(x.id),
        Message::NotifyPredecessorReport(x) => seq![7u8] + enc_did(x.id),
        Message::CustomMessage(x) => seq![8u8] + enc_bytes(x.bytes@),
    }
}

/// The method as one byte.
pub open spec fn enc_method(m: MessageRelayMethod) -> Seq<u8> {
    match m {
        MessageRelayMethod::SEND => seq![0u8],
        MessageRelayMethod::REPORT => seq![1u8],
    }
}

/// The whole envelope on the wire.
pub open spec fn spec_encode_relay(r: MessageRelay) -> Seq<u8> {
    enc_method(r.method) + spec_u32_to_le_bytes(r.ttl) + enc_path(r.from_path@) + enc_path(
        r.to_path@,
    ) + r.signature@ + r.signer_address@ + enc_msg(r.data)
}

/// The envelope carries a full signature and signer address.
pub open spec fn sealed(r: MessageRelay) -> bool {
    r.signature@.len() == 65 && r.signer_address@.len() == 20
}

/// The envelope's variable parts fit the wire format's 32-bit lengths.
pub open spec fn encodable(r: MessageRelay) -> bool {
    &&& r.from_path@.len() < 0x100000000
    &&& r.to_path@.len() < 0x100000000
    &&& match r.data {
        Message::ConnectNodeSend(x) => x.handshake_info@.len() < 0x100000000,
        Message::ConnectNodeReport(x) => x.handshake_info@.len() < 0x100000000,
        Message::CustomMessage(x) => x.bytes@.len() < 0x100000000,
        _ => true,
    }
}

/// The portion of an envelope that its signature covers: the payload, the
/// two paths, and the TTL.
pub open spec fn spec_sign_payload(r: MessageRelay) -> Seq<u8> {
    enc_msg(r.data) + enc_path(r.from_path@) + enc_path(r.to_path@) + spec_u32_to_le_bytes(r.ttl)
}

/// A path — an entry count and that many 20-byte entries — can be read
/// at `i`.
pub open spec fn path_block_ok(b: Seq<u8>, i: int) -> bool {
    &&& 0 <= i
    &&& i + 4 <= b.len()
    &&& i + 4 + 20 * (spec_u32_from_le_bytes(b.subrange(i, i + 4)) as int) <= b.len()
}

/// The offset just past the path read at `i`.
pub open spec fn path_block_end(b: Seq<u8>, i: int) -> int {
    i + 4 + 20 * (spec_u32_from_le_bytes(b.subrange(i, i + 4)) as int)
}

/// A byte payload — a length and that many bytes — can be read at `i`.
pub open spec fn bytes_block_ok(b: Seq<u8>, i: int) -> bool {
    &&& 0 <= i
    &&& i + 4 <= b.len()
    &&& i + 4 + (spec_u32_from_le_bytes(b.subrange(i, i + 4)) as int) <= b.len()
}

/// The offset just past the byte payload read at `i`.
pub open spec fn bytes_block_end(b: Seq<u8>, i: int) -> int {
    i + 4 + (spec_u32_from_le_bytes(b.subrange(i, i + 4)) as int)
}

/// A message — a tag byte and its fields — can be read at `i`.
pub open spec fn msg_block_ok(b: Seq<u8>, i: int) -> bool {
    &&& 0 <= i < b.len()
    &&& {
        let tag = b[i];
        if tag == 0 || tag == 3 || tag == 6 || tag == 7 {
            i + 21 <= b.len()
        } else if tag == 1 {
            i + 41 <= b.len() && bytes_block_ok(b, i + 41)
        } else if tag == 2 {
            i + 21 <= b.len() && bytes_block_ok(b, i + 21)
        } else if tag == 4 || tag == 5 {
            i + 22 <= b.len() && (b[i + 21] == 0 || b[i + 21] == 1)
        } else if tag == 8 {
            bytes_block_ok(b, i + 1)
        } else {
            false
        }
    }
}

/// The offset just past the message read at `i`.
pub open spec fn msg_block_end(b: Seq<u8>, i: int) -> int {
    let tag = b[i];
    if tag == 0 || tag == 3 || tag == 6 || tag == 7 {
        i + 21
    } else if tag == 1 {
        bytes_block_end(b, i + 41)
    } else if tag == 2 {
        bytes_block_end(b, i + 21)
    } else if tag == 4 || tag == 5 {
        i + 22
    } else {
        bytes_block_end(b, i + 1)
    }
}

/// These bytes parse as exactly one envelope: a method byte, the TTL, the
/// two paths, the signature and signer address, and a message that ends
/// exactly at the end of the input.
pub open spec fn spec_decodable(b: Seq<u8>) -> bool {
    &&& b.len() >= 5
    &&& (b[0] == 0 || b[0] == 1)
    &&& path_block_ok(b, 5)
    &&& path_block_ok(b, path_block_end(b, 5))
    &&& {
        let i3 = path_block_end(b, path_block_end(b, 5));
        &&& i3 + 85 < b.len()
        &&& msg_block_ok(b, i3 + 85)
        &&& msg_block_end(b, i3 + 85) == b.len()
    }
}

/// An identifier's 20 wire bytes.
pub fn did_to_bytes(d: &Did) -> (out: Vec<u8>)
    requires
        d.wf(),
    ensures
        out@ == enc_did(*d),
        out@.len() == 20,
{
    proof {
        lemma_auto_spec_u32_to_from_le_bytes();
        lemma_auto_spec_u64_to_from_le_bytes();
    }
    let mut out: Vec<u8> = Vec::new();
    push_did(&mut out, d);
    proof {
        assert(out@ =~= enc_did(*d));
    }
    out
}

/// The identifier whose wire bytes these are.
pub fn did_from_bytes(b: &Vec<u8>) -> (r: Did)
    requires
        b@.len() == 20,
    ensures
        r.wf(),
        enc_did(r) == b@,
{
    let d = parse_did(b, 0);
    proof {
        assert(b@.subrange(0, 20) =~= b@);
    }
    d
}

/// Append an identifier's 20 wire bytes.
fn push_did(out: &mut Vec<u8>, d: &Did)
    requires
        d.wf(),
    ensures
        final(out)@ == old(out)@ + enc_did(*d),
{
    proof {
        lemma_auto_spec_u32_to_from_le_bytes();
        lemma_auto_spec_u64_to_from_le_bytes();
    }
    let hi = u32_to_le_bytes(d.hi as u32);
    let lo_high = u64_to_le_bytes((d.lo / 0x10000000000000000u128) as u64);
    let lo_low = u64_to_le_bytes((d.lo % 0x10000000000000000u128) as u64);
    let ghost pre = out@;
    out.extend_from_slice(hi.as_slice());
    out.extend_from_slice(lo_high.as_slice());
    out.extend_from_slice(lo_low.as_slice());
    proof {
        assert(out@ =~= pre + enc_did(*d));
    }
}

/// Append a path: count, then entries.
fn push_path(out: &mut Vec<u8>, p: &Vec<Did>)
    requires
        path_wf(p@),
        p@.len() < 0x100000000,
    ensures
        final(out)@ == old(out)@ + enc_path(p@),
{
    let n = u32_to_le_bytes(p.len() as u32);
    let ghost pre = out@;
    out.extend_from_slice(n.as_slice());
    let mut i: usize = 0;
    while i < p.len()
        invariant
            i <= p@.len(),
            path_wf(p@),
            p@.len() < 0x100000000,
            out@ == pre + spec_u32_to_le_bytes(p@.len() as u32) + enc_entries(p@.take(i as int)),
        decreases p@.len() - i,
    {
        push_did(out, &p[i]);
        proof {
            assert(p@.take(i as int + 1).drop_last() =~= p@.take(i as int));
            assert(p@.take(i as int + 1).last() == p@[i as int]);
            assert(out@ =~= pre + spec_u32_to_le_bytes(p@.len() as u32) + enc_entries(
                p@.take(i as int + 1),
            ));
        }
        i += 1;
    }
    proof {
        assert(p@.take(p@.len() as int) =~= p@);
        assert(out@ =~= pre + enc_path(p@));
    }
}

/// Append a byte payload: length, then bytes.
fn push_bytes(out: &mut Vec<u8>, s: &Vec<u8>)
    requires
        s@.len() < 0x100000000,
    ensures
        final(out)@ == old(out)@ + enc_bytes(s@),
{
    let n = u32_to_le_bytes(s.len() as u32);
    let ghost pre = out@;
    out.extend_from_slice(n.as_slice());
    out.extend_from_slice(s.as_slice());
    proof {
        assert(out@ =~= pre + enc_bytes(s@));
    }
}

/// Encode an envelope for the data channel: exactly its wire bytes.
pub fn encode_relay(r: &MessageRelay) -> (out: Vec<u8>)
    requires
        r.wf(),
        encodable(*r),
    ensures
        out@ == spec_encode_relay(*r),
{
    let mut out: Vec<u8> = Vec::new();
    match r.method {
        MessageRelayMethod::SEND => out.push(0u8),
        MessageRelayMethod::REPORT => out.push(1u8),
    }
    proof {
        assert(out@ =~= enc_method(r.method));
    }
    let ttl = u32_to_le_bytes(r.ttl);
    out.extend_from_slice(ttl.as_slice());
    push_path(&mut out, &r.from_path);
    push_path(&mut out, &r.to_path);
    out.extend_from_slice(r.signature.as_slice());
    out.extend_from_slice(r.signer_address.as_slice());
    let ghost header = out@;
    match &r.data {
        Message::JoinDHT(x) => {
            out.push(0u8);
            push_did(&mut out, &x.id);
        },
        Message::ConnectNodeSend(x) => {
            out.push(1u8);
            push_did(&mut out, &x.sender_id);
            push_did(&mut out, &x.target_id);
            push_bytes(&mut out, &x.handshake_info);
        },
        Message::ConnectNodeReport(x) => {
            out.push(2u8);
            push_did(&mut out, &x.answer_id);
            push_bytes(&mut out, &x.handshake_info);
        },
        Message::AlreadyConnected(x) => {
            out.push(3u8);
            push_did(&mut out, &x.answer_id);
        },
        Message::FindSuccessorSend(x) => {
            out.push(4u8);
            push_did(&mut out, &x.id);
            out.push(if x.for_fix {
                1u8
            } else {
                0u8
            });
        },
        Message::FindSuccessorReport(x) => {
            out.push(5u8);
            push_did(&mut out, &x.id);
            out.push(if x.for_fix {
                1u8
            } else {
                0u8
            });
        },
        Message::NotifyPredecessorSend(x) => {
            out.push(6u8);
            push_did(&mut out, &x.id);
        },
        Message::NotifyPredecessorReport(x) => {
            out.push(7u8);
            push_did(&mut out, &x.id);
        },
        Message::CustomMessage(x) => {
            out.push(8u8);
            push_bytes(&mut out, &x.bytes);
        },
    }
    proof {
        assert(header =~= enc_method(r.method) + spec_u32_to_le_bytes(r.ttl) + enc_path(
            r.from_path@,
        ) + enc_path(r.to_path@) + r.signature@ + r.signer_address@);
        assert(out@ =~= header + enc_msg(r.data));
        assert(out@ =~= spec_encode_relay(*r));
    }
    out
}

/// Encode the signed portion of an envelope: exactly the bytes the
/// signature covers.
pub fn encode_sign_payload(r: &MessageRelay) -> (out: Vec<u8>)
    requires
        r.wf(),
        encodable(*r),
    ensures
        out@ == spec_sign_payload(*r),
{
    let mut out: Vec<u8> = Vec::new();
    match &r.data {
        Message::JoinDHT(x) => {
            out.push(0u8);
            push_did(&mut out, &x.id);
        },
        Message::ConnectNodeSend(x) => {
            out.push(1u8);
            push_did(&mut out, &x.sender_id);
            push_did(&mut out, &x.target_id);
            push_bytes(&mut out, &x.handshake_info);
        },
        Message::ConnectNodeReport(x) => {
            out.push(2u8);
            push_did(&mut out, &x.answer_id);
            push_bytes(&mut out, &x.handshake_info);
        },
        Message::AlreadyConnected(x) => {
            out.push(3u8);
            push_did(&mut out, &x.answer_id);
        },
        Message::FindSuccessorSend(x) => {
            out.push(4u8);
            push_did(&mut out, &x.id);
            out.push(if x.for_fix {
                1u8
            } else {
                0u8
            });
        },
        Message::FindSuccessorReport(x) => {
            out.push(5u8);
            push_did(&mut out, &x.id);
            out.push(if x.for_fix {
                1u8
            } else {
                0u8
            });
        },
        Message::NotifyPredecessorSend(x) => {
            out.push(6u8);
            push_did(&mut out, &x.id);
        },
        Message::NotifyPredecessorReport(x) => {
            out.push(7u8);
            push_did(&mut out, &x.id);
        },
        Message::CustomMessage(x) => {
            out.push(8u8);
            push_bytes(&mut out, &x.bytes);
        },
    }
    proof {
        assert(out@ =~= enc_msg(r.data));
    }
    push_path(&mut out, &r.from_path);
    push_path(&mut out, &r.to_path);
    let ttl = u32_to_le_bytes(r.ttl);
    out.extend_from_slice(ttl.as_slice());
    proof {
        assert(out@ =~= spec_sign_payload(*r));
    }
    out
}

/// Read an identifier's 20 wire bytes at `i`.
fn parse_did(b: &Vec<u8>, i: usize) -> (r: Did)
    requires
        i + 20 <= b@.len(),
    ensures
        r.wf(),
        enc_did(r) == b@.subrange(i as int, i as int + 20),
{
    proof {
        lemma_auto_spec_u32_to_from_le_bytes();
        lemma_auto_spec_u64_to_from_le_bytes();
    }
    let total = b.len();
    let hi = u32_from_le_bytes(slice_subrange(b.as_slice(), i, i + 4));
    let lo_high = u64_from_le_bytes(slice_subrange(b.as_slice(), i + 4, i + 12));
    let lo_low = u64_from_le_bytes(slice_subrange(b.as_slice(), i + 12, i + 20));
    let lo: u128 = (lo_high as u128) * 0x10000000000000000u128 + (lo_low as u128);
    let d = Did { hi: hi as u64, lo };
    proof {
        lemma_fundamental_div_mod_converse(
            lo as int,
            0x10000000000000000,
            lo_high as int,
            lo_low as int,
        );
        assert(enc_did(d) =~= b@.subrange(i as int, i as int + 20));
    }
    d
}

/// Read a little-endian length at `i`.
fn parse_u32(b: &Vec<u8>, i: usize) -> (r: u32)
    requires
        i + 4 <= b@.len(),
    ensures
        spec_u32_to_le_bytes(r) == b@.subrange(i as int, i as int + 4),
        r == spec_u32_from_le_bytes(b@.subrange(i as int, i as int + 4)),
{
    proof {
        lemma_auto_spec_u32_to_from_le_bytes();
    }
    let total = b.len();
    u32_from_le_bytes(slice_subrange(b.as_slice(), i, i + 4))
}

/// Read a path at `i`; hand back the entries and the offset just past
/// them.
fn parse_path(b: &Vec<u8>, i: usize) -> (r: Result<(Vec<Did>, usize), Error>)
    requires
        i <= b@.len(),
    ensures
        match r {
            Ok((p, j)) => {
                &&& i <= j <= b@.len()
                &&& path_wf(p@)
                &&& p@.len() < 0x100000000
                &&& enc_path(p@) == b@.subrange(i as int, j as int)
                &&& path_block_ok(b@, i as int)
                &&& j == path_block_end(b@, i as int)
            },
            Err(e) => e == Error::Deserialize && !path_block_ok(b@, i as int),
        },
{
    if b.len() - i < 4 {
        return Err(Error::Deserialize);
    }
    let n = parse_u32(b, i);
    let entries_start = i + 4;
    if n as usize > (b.len() - entries_start) / 20 {
        proof {
            vstd::arithmetic::div_mod::lemma_fundamental_div_mod(
                (b@.len() - entries_start) as int,
                20,
            );
        }
        return Err(Error::Deserialize);
    }
    proof {
        vstd::arithmetic::div_mod::lemma_fundamental_div_mod(
            (b@.len() - entries_start) as int,
            20,
        );
        assert((n as int) * 20 <= ((b@.len() - entries_start) as int / 20) * 20)
            by (nonlinear_arith)
            requires
                n as int <= (b@.len() - entries_start) as int / 20,
        ;
    }
    let mut p: Vec<Did> = Vec::new();
    let mut k: usize = 0;
    while k < n as usize
        invariant
            k <= n as usize,
            i + 4 == entries_start,
            entries_start + (n as int) * 20 <= b@.len(),
            b@.len() <= usize::MAX,
            p@.len() == k,
            path_wf(p@),
            spec_u32_to_le_bytes(n) == b@.subrange(i as int, i as int + 4),
            enc_entries(p@) == b@.subrange(entries_start as int, entries_start as int + k * 20),
        decreases n as int - k,
    {
        proof {
            assert((k + 1) * 20 <= n as int * 20) by (nonlinear_arith)
                requires
                    k + 1 <= n as int,
            ;
            assert(k * 20 + 20 == (k + 1) * 20);
        }
        let d = parse_did(b, entries_start + k * 20);
        let ghost p_pre = p@;
        p.push(d);
        proof {
            assert(p@.drop_last() =~= p_pre);
            assert(enc_did(d) == b@.subrange(
                entries_start as int + k * 20,
                entries_start as int + k * 20 + 20,
            ));
            assert(enc_entries(p@) =~= b@.subrange(
                entries_start as int,
                entries_start as int + (k + 1) * 20,
            ));
        }
        k += 1;
    }
    let j = entries_start + (n as usize) * 20;
    proof {
        assert(enc_path(p@) =~= b@.subrange(i as int, j as int));
    }
    Ok((p, j))
}

/// Read a byte payload at `i`; hand back the bytes and the offset just
/// past them.
fn parse_bytes(b: &Vec<u8>, i: usize) -> (r: Result<(Vec<u8>, usize), Error>)
    requires
        i <= b@.len(),
    ensures
        match r {
            Ok((s, j)) => {
                &&& i <= j <= b@.len()
                &&& s@.len() < 0x100000000
                &&& enc_bytes(s@) == b@.subrange(i as int, j as int)
                &&& bytes_block_ok(b@, i as int)
                &&& j == bytes_block_end(b@, i as int)
            },
            Err(e) => e == Error::Deserialize && !bytes_block_ok(b@, i as int),
        },
{
    if b.len() - i < 4 {
        return Err(Error::Deserialize);
    }
    let n = parse_u32(b, i);
    let start = i + 4;
    if n as usize > b.len() - start {
        return Err(Error::Deserialize);
    }
    let s = slice_to_vec(slice_subrange(b.as_slice(), start, start + n as usize));
    proof {
        assert(enc_bytes(s@) =~= b@.subrange(i as int, (start + n as usize) as int));
    }
    Ok((s, start + n as usize))
}

/// Splitting two equal concatenations at the same offset splits them into
/// equal halves.
proof fn lemma_concat_split(x: Seq<u8>, y: Seq<u8>, u: Seq<u8>, v: Seq<u8>)
    requires
        x + y == u + v,
        x.len() == u.len(),
    ensures
        x == u,
        y == v,
{
    assert forall|i: int| 0 <= i < x.len() implies x[i] == u[i] by {
        assert((x + y)[i] == x[i]);
        assert((u + v)[i] == u[i]);
    }
    assert(x =~= u);
    assert(y.len() == v.len()) by {
        assert((x + y).len() == x.len() + y.len());
        assert((u + v).len() == u.len() + v.len());
    }
    assert forall|i: int| 0 <= i < y.len() implies y[i] == v[i] by {
        assert((x + y)[x.len() as int + i] == y[i]);
        assert((u + v)[u.len() as int + i] == v[i]);
    }
    assert(y =~= v);
}

/// An identifier's wire bytes are 20 long.
proof fn lemma_enc_did_len(d: Did)
    ensures
        enc_did(d).len() == 20,
{
    lemma_auto_spec_u32_to_from_le_bytes();
    lemma_auto_spec_u64_to_from_le_bytes();
}

/// Equal wire bytes name equal identifiers.
proof fn lemma_enc_did_injective(x: Did, y: Did)
    requires
        x.wf(),
        y.wf(),
        enc_did(x) == enc_did(y),
    ensures
        x == y,
{
    lemma_auto_spec_u32_to_from_le_bytes();
    lemma_auto_spec_u64_to_from_le_bytes();
    lemma_concat_split(
        spec_u32_to_le_bytes(x.hi as u32) + spec_u64_to_le_bytes(
            (x.lo / 0x10000000000000000) as u64,
        ),
        spec_u64_to_le_bytes((x.lo % 0x10000000000000000) as u64),
        spec_u32_to_le_bytes(y.hi as u32) + spec_u64_to_le_bytes(
            (y.lo / 0x10000000000000000) as u64,
        ),
        spec_u64_to_le_bytes((y.lo % 0x10000000000000000) as u64),
    );
    lemma_concat_split(
        spec_u32_to_le_bytes(x.hi as u32),
        spec_u64_to_le_bytes((x.lo / 0x10000000000000000) as u64),
        spec_u32_to_le_bytes(y.hi as u32),
        spec_u64_to_le_bytes((y.lo / 0x10000000000000000) as u64),
    );
    assert(spec_u32_from_le_bytes(spec_u32_to_le_bytes(x.hi as u32)) == x.hi as u32);
    assert(spec_u64_from_le_bytes(spec_u64_to_le_bytes((x.lo / 0x10000000000000000) as u64)) == (
    x.lo / 0x10000000000000000) as u64);
    assert(spec_u64_from_le_bytes(spec_u64_to_le_bytes((x.lo % 0x10000000000000000) as u64)) == (
    x.lo % 0x10000000000000000) as u64);
    assert(x.hi == y.hi);
    assert(x.lo == (x.lo / 0x10000000000000000) * 0x10000000000000000 + (x.lo
        % 0x10000000000000000)) by {
        vstd::arithmetic::div_mod::lemma_fundamental_div_mod(
            x.lo as int,
            0x10000000000000000,
        );
    }
    assert(y.lo == (y.lo / 0x10000000000000000) * 0x10000000000000000 + (y.lo
        % 0x10000000000000000)) by {
        vstd::arithmetic::div_mod::lemma_fundamental_div_mod(
            y.lo as int,
            0x10000000000000000,
        );
    }
}

/// A path's entry bytes are 20 per entry.
proof fn lemma_enc_entries_len(p: Seq<Did>)
    ensures
        enc_entries(p).len() == 20 * p.len(),
    decreases p.len(),
{
    if p.len() > 0 {
        lemma_enc_entries_len(p.drop_last());
        lemma_enc_did_len(p.last());
    }
}

/// Equal entry bytes of equally long paths name equal paths.
proof fn lemma_enc_entries_injective(p: Seq<Did>, q: Seq<Did>)
    requires
        path_wf(p),
        path_wf(q),
        p.len() == q.len(),
        enc_entries(p) == enc_entries(q),
    ensures
        p == q,
    decreases p.len(),
{
    if p.len() > 0 {
        lemma_enc_entries_len(p.drop_last());
        lemma_enc_entries_len(q.drop_last());
        lemma_enc_did_len(p.last());
        lemma_concat_split(
            enc_entries(p.drop_last()),
            enc_did(p.last()),
            enc_entries(q.drop_last()),
            enc_did(q.last()),
        );
        assert(path_wf(p.drop_last()));
        assert(path_wf(q.drop_last()));
        assert(p.last().wf());
        assert(q.last().wf());
        lemma_enc_did_injective(p.last(), q.last());
        lemma_enc_entries_injective(p.drop_last(), q.drop_last());
        assert forall|i: int| 0 <= i < p.len() implies p[i] == q[i] by {
            if i < p.len() - 1 {
                assert(p.drop_last()[i] == q.drop_last()[i]);
            }
        }
        assert(p =~= q);
    } else {
        assert(p =~= q);
    }
}

/// Equal wire bytes of paths that fit the format name equal paths.
proof fn lemma_enc_path_injective(p: Seq<Did>, q: Seq<Did>)
    requires
        path_wf(p),
        path_wf(q),
        p.len() < 0x100000000,
        q.len() < 0x100000000,
        enc_path(p) == enc_path(q),
    ensures
        p == q,
{
    lemma_auto_spec_u32_to_from_le_bytes();
    lemma_concat_split(
        spec_u32_to_le_bytes(p.len() as u32),
        enc_entries(p),
        spec_u32_to_le_bytes(q.len() as u32),
        enc_entries(q),
    );
    assert(spec_u32_from_le_bytes(spec_u32_to_le_bytes(p.len() as u32)) == p.len() as u32);
    assert(p.len() == q.len());
    lemma_enc_entries_injective(p, q);
}

/// Equal wire bytes of payloads that fit the format are equal payloads.
proof fn lemma_enc_bytes_injective(s: Seq<u8>, t: Seq<u8>)
    requires
        s.len() < 0x100000000,
        t.len() < 0x100000000,
        enc_bytes(s) == enc_bytes(t),
    ensures
        s == t,
{
    lemma_auto_spec_u32_to_from_le_bytes();
    lemma_concat_split(
        spec_u32_to_le_bytes(s.len() as u32),
        s,
        spec_u32_to_le_bytes(t.len() as u32),
        t,
    );
    assert(spec_u32_from_le_bytes(spec_u32_to_le_bytes(s.len() as u32)) == s.len() as u32);
}

/// Equal wire bytes of messages name equal messages.
proof fn lemma_enc_msg_injective(x: Message, y: Message)
    requires
        x.wf(),
        y.wf(),
        msg_encodable(x),
        msg_encodable(y),
        enc_msg(x) == enc_msg(y),
    ensures
        msg_view_eq(x, y),
{
    assert(enc_msg(x)[0] == enc_msg(y)[0]);
    match (x, y) {
        (Message::JoinDHT(a), Message::JoinDHT(b)) => {
            lemma_concat_split(seq![0u8], enc_did(a.id), seq![0u8], enc_did(b.id));
            lemma_enc_did_injective(a.id, b.id);
        },
        (Message::ConnectNodeSend(a), Message::ConnectNodeSend(b)) => {
            lemma_enc_did_len(a.sender_id);
            lemma_enc_did_len(a.target_id);
            lemma_enc_did_len(b.sender_id);
            lemma_enc_did_len(b.target_id);
            lemma_concat_split(
                seq![1u8] + enc_did(a.sender_id) + enc_did(a.target_id),
                enc_bytes(a.handshake_info@),
                seq![1u8] + enc_did(b.sender_id) + enc_did(b.target_id),
                enc_bytes(b.handshake_info@),
            );
            lemma_concat_split(
                seq![1u8] + enc_did(a.sender_id),
                enc_did(a.target_id),
                seq![1u8] + enc_did(b.sender_id),
                enc_did(b.target_id),
            );
            lemma_concat_split(seq![1u8], enc_did(a.sender_id), seq![1u8], enc_did(b.sender_id));
            lemma_enc_did_injective(a.sender_id, b.sender_id);
            lemma_enc_did_injective(a.target_id, b.target_id);
            lemma_enc_bytes_injective(a.handshake_info@, b.handshake_info@);
        },
        (Message::ConnectNodeReport(a), Message::ConnectNodeReport(b)) => {
            lemma_enc_did_len(a.answer_id);
            lemma_enc_did_len(b.answer_id);
            lemma_concat_split(
                seq![2u8] + enc_did(a.answer_id),
                enc_bytes(a.handshake_info@),
                seq![2u8] + enc_did(b.answer_id),
                enc_bytes(b.handshake_info@),
            );
            lemma_concat_split(seq![2u8], enc_did(a.answer_id), seq![2u8], enc_did(b.answer_id));
            lemma_enc_did_injective(a.answer_id, b.answer_id);
            lemma_enc_bytes_injective(a.handshake_info@, b.handshake_info@);
        },
        (Message::AlreadyConnected(a), Message::AlreadyConnected(b)) => {
            lemma_concat_split(seq![3u8], enc_did(a.answer_id), seq![3u8], enc_did(b.answer_id));
            lemma_enc_did_injective(a.answer_id, b.answer_id);
        },
        (Message::FindSuccessorSend(a), Message::FindSuccessorSend(b)) => {
            lemma_enc_did_len(a.id);
            lemma_enc_did_len(b.id);
            lemma_concat_split(
                seq![4u8] + enc_did(a.id),
                enc_bool(a.for_fix),
                seq![4u8] + enc_did(b.id),
                enc_bool(b.for_fix),
            );
            lemma_concat_split(seq![4u8], enc_did(a.id), seq![4u8], enc_did(b.id));
            lemma_enc_did_injective(a.id, b.id);
            assert(enc_bool(a.for_fix)[0] == enc_bool(b.for_fix)[0]);
        },
        (Message::FindSuccessorReport(a), Message::FindSuccessorReport(b)) => {
            lemma_enc_did_len(a.id);
            lemma_enc_did_len(b.id);
            lemma_concat_split(
                seq![5u8] + enc_did(a.id),
                enc_bool(a.for_fix),
                seq![5u8] + enc_did(b.id),
                enc_bool(b.for_fix),
            );
            lemma_concat_split(seq![5u8], enc_did(a.id), seq![5u8], enc_did(b.id));
            lemma_enc_did_injective(a.id, b.id);
            assert(enc_bool(a.for_fix)[0] == enc_bool(b.for_fix)[0]);
        },
        (Message::NotifyPredecessorSend(a), Message::NotifyPredecessorSend(b)) => {
            lemma_concat_split(seq![6u8], enc_did(a.id), seq![6u8], enc_did(b.id));
            lemma_enc_did_injective(a.id, b.id);
        },
        (Message::NotifyPredecessorReport(a), Message::NotifyPredecessorReport(b)) => {
            lemma_concat_split(seq![7u8], enc_did(a.id), seq![7u8], enc_did(b.id));
            lemma_enc_did_injective(a.id, b.id);
        },
        (Message::CustomMessage(a), Message::CustomMessage(b)) => {
            lemma_concat_split(seq![8u8], enc_bytes(a.bytes@), seq![8u8], enc_bytes(b.bytes@));
            lemma_enc_bytes_injective(a.bytes@, b.bytes@);
        },
        _ => {
            lemma_enc_msg_tag(x);
            lemma_enc_msg_tag(y);
            assert(msg_tag(x) == msg_tag(y));
            assert(false);
        },
    }
}

/// The tag byte of a message's wire form.
pub open spec fn msg_tag(m: Message) -> u8 {
    match m {
        Message::JoinDHT(_) => 0u8,
        Message::ConnectNodeSend(_) => 1u8,
        Message::ConnectNodeReport(_) => 2u8,
        Message::AlreadyConnected(_) => 3u8,
        Message::FindSuccessorSend(_) => 4u8,
        Message::FindSuccessorReport(_) => 5u8,
        Message::NotifyPredecessorSend(_) => 6u8,
        Message::NotifyPredecessorReport(_) => 7u8,
        Message::CustomMessage(_) => 8u8,
    }
}

/// The wire form of a message starts with its tag byte.
proof fn lemma_enc_msg_tag(m: Message)
    ensures
        enc_msg(m).len() >= 1,
        enc_msg(m)[0] == msg_tag(m),
{
}

/// The two messages agree on every field, byte payloads compared by
/// content.
pub open spec fn msg_view_eq(x: Message, y: Message) -> bool {
    match (x, y) {
        (Message::JoinDHT(a), Message::JoinDHT(b)) => a == b,
        (Message::ConnectNodeSend(a), Message::ConnectNodeSend(b)) => a.sender_id == b.sender_id
            && a.target_id == b.target_id && a.handshake_info@ == b.handshake_info@,
        (Message::ConnectNodeReport(a), Message::ConnectNodeReport(b)) => a.answer_id
            == b.answer_id && a.handshake_info@ == b.handshake_info@,
        (Message::AlreadyConnected(a), Message::AlreadyConnected(b)) => a == b,
        (Message::FindSuccessorSend(a), Message::FindSuccessorSend(b)) => a == b,
        (Message::FindSuccessorReport(a), Message::FindSuccessorReport(b)) => a == b,
        (Message::NotifyPredecessorSend(a), Message::NotifyPredecessorSend(b)) => a == b,
        (Message::NotifyPredecessorReport(a), Message::NotifyPredecessorReport(b)) => a == b,
        (Message::CustomMessage(a), Message::CustomMessage(b)) => a.bytes@ == b.bytes@,
        _ => false,
    }
}

/// The message's variable parts fit the wire format's 32-bit lengths.
pub open spec fn msg_encodable(m: Message) -> bool {
    match m {
        Message::ConnectNodeSend(x) => x.handshake_info@.len() < 0x100000000,
        Message::ConnectNodeReport(x) => x.handshake_info@.len() < 0x100000000,
        Message::CustomMessage(x) => x.bytes@.len() < 0x100000000,
        _ => true,
    }
}

/// Law: an envelope is recoverable from its wire bytes. Two well-formed,
/// sealed, encodable envelopes with the same encoding agree on every
/// field, so together with the decoder's pre-image contract, whatever the
/// decoder returns for an envelope's bytes is that envelope.
pub proof fn lemma_encode_injective(a: MessageRelay, b: MessageRelay)
    requires
        a.wf(),
        sealed(a),
        encodable(a),
        b.wf(),
        sealed(b),
        encodable(b),
        spec_encode_relay(a) == spec_encode_relay(b),
    ensures
        a.method == b.method,
        a.ttl == b.ttl,
        a.from_path@ == b.from_path@,
        a.to_path@ == b.to_path@,
        a.signature@ == b.signature@,
        a.signer_address@ == b.signer_address@,
        msg_view_eq(a.data, b.data),
{
    lemma_auto_spec_u32_to_from_le_bytes();
    let ha = enc_method(a.method) + spec_u32_to_le_bytes(a.ttl);
    let hb = enc_method(b.method) + spec_u32_to_le_bytes(b.ttl);
    let ra = enc_path(a.to_path@) + a.signature@ + a.signer_address@ + enc_msg(a.data);
    let rb = enc_path(b.to_path@) + b.signature@ + b.signer_address@ + enc_msg(b.data);
    assert(spec_encode_relay(a) =~= (ha + enc_path(a.from_path@)) + ra);
    assert(spec_encode_relay(b) =~= (hb + enc_path(b.from_path@)) + rb);
    // the head and the first path peel off together once the entry counts
    // are known to match
    lemma_enc_entries_len(a.from_path@);
    lemma_enc_entries_len(b.from_path@);
    assert(enc_method(a.method).len() == 1);
    assert(enc_method(b.method).len() == 1);
    assert(spec_encode_relay(a) =~= ha + (enc_path(a.from_path@) + ra));
    assert(spec_encode_relay(b) =~= hb + (enc_path(b.from_path@) + rb));
    lemma_concat_split(ha, enc_path(a.from_path@) + ra, hb, enc_path(b.from_path@) + rb);
    lemma_concat_split(
        enc_method(a.method),
        spec_u32_to_le_bytes(a.ttl),
        enc_method(b.method),
        spec_u32_to_le_bytes(b.ttl),
    );
    assert(a.method == b.method) by {
        assert(enc_method(a.method)[0] == enc_method(b.method)[0]);
    }
    assert(spec_u32_from_le_bytes(spec_u32_to_le_bytes(a.ttl)) == a.ttl);
    assert(a.ttl == b.ttl);
    // the first path's count is the next four bytes on both sides
    assert(enc_path(a.from_path@) + ra =~= spec_u32_to_le_bytes(a.from_path@.len() as u32) + (
    enc_entries(a.from_path@) + ra));
    assert(enc_path(b.from_path@) + rb =~= spec_u32_to_le_bytes(b.from_path@.len() as u32) + (
    enc_entries(b.from_path@) + rb));
    lemma_concat_split(
        spec_u32_to_le_bytes(a.from_path@.len() as u32),
        enc_entries(a.from_path@) + ra,
        spec_u32_to_le_bytes(b.from_path@.len() as u32),
        enc_entries(b.from_path@) + rb,
    );
    assert(spec_u32_from_le_bytes(spec_u32_to_le_bytes(a.from_path@.len() as u32))
        == a.from_path@.len() as u32);
    assert(a.from_path@.len() == b.from_path@.len());
    lemma_concat_split(enc_entries(a.from_path@), ra, enc_entries(b.from_path@), rb);
    lemma_enc_entries_injective(a.from_path@, b.from_path@);
    // then the second path the same way
    let sa = a.signature@ + a.signer_address@ + enc_msg(a.data);
    let sb = b.signature@ + b.signer_address@ + enc_msg(b.data);
    lemma_enc_entries_len(a.to_path@);
    lemma_enc_entries_len(b.to_path@);
    assert(ra =~= spec_u32_to_le_bytes(a.to_path@.len() as u32) + (enc_entries(a.to_path@) + sa));
    assert(rb =~= spec_u32_to_le_bytes(b.to_path@.len() as u32) + (enc_entries(b.to_path@) + sb));
    lemma_concat_split(
        spec_u32_to_le_bytes(a.to_path@.len() as u32),
        enc_entries(a.to_path@) + sa,
        spec_u32_to_le_bytes(b.to_path@.len() as u32),
        enc_entries(b.to_path@) + sb,
    );
    assert(spec_u32_from_le_bytes(spec_u32_to_le_bytes(a.to_path@.len() as u32)) == a.to_path@.len()
        as u32);
    assert(a.to_path@.len() == b.to_path@.len());
    lemma_concat_split(enc_entries(a.to_path@), sa, enc_entries(b.to_path@), sb);
    lemma_enc_entries_injective(a.to_path@, b.to_path@);
    // the fixed-size signature and address peel off by their known sizes
    assert(sa =~= a.signature@ + (a.signer_address@ + enc_msg(a.data)));
    assert(sb =~= b.signature@ + (b.signer_address@ + enc_msg(b.data)));
    lemma_concat_split(
        a.signature@,
        a.signer_address@ + enc_msg(a.data),
        b.signature@,
        b.signer_address@ + enc_msg(b.data),
    );
    lemma_concat_split(a.signer_address@, enc_msg(a.data), b.signer_address@, enc_msg(b.data));
    lemma_enc_msg_injective(a.data, b.data);
}

/// The first and second halves of a concatenation are its subranges.
proof fn lemma_concat_parts(x: Seq<u8>, y: Seq<u8>)
    ensures
        (x + y).subrange(0, x.len() as int) == x,
        (x + y).subrange(x.len() as int, (x + y).len() as int) == y,
{
    assert((x + y).subrange(0, x.len() as int) =~= x);
    assert((x + y).subrange(x.len() as int, (x + y).len() as int) =~= y);
}

/// The wire bytes of any well-formed, sealed, encodable envelope parse:
/// the encoder never produces bytes the decoder refuses.
#[verifier::rlimit(100)]
pub proof fn lemma_encoding_decodable(m: MessageRelay)
    requires
        m.wf(),
        sealed(m),
        encodable(m),
    ensures
        spec_decodable(spec_encode_relay(m)),
{
    lemma_auto_spec_u32_to_from_le_bytes();
    let b = spec_encode_relay(m);
    let em = enc_method(m.method);
    let et = spec_u32_to_le_bytes(m.ttl);
    let p1 = enc_path(m.from_path@);
    let p2 = enc_path(m.to_path@);
    let d = enc_msg(m.data);
    let n1 = m.from_path@.len() as int;
    let n2 = m.to_path@.len() as int;
    lemma_enc_entries_len(m.from_path@);
    lemma_enc_entries_len(m.to_path@);
    lemma_enc_msg_tag(m.data);
    // regroup the encoding to the right so offsets read off directly
    let rest = p2 + m.signature@ + m.signer_address@ + d;
    assert(b =~= em + et + p1 + (p2 + m.signature@ + m.signer_address@ + d));
    let o3 = 5 + p1.len() as int;
    let o4 = o3 + p2.len() as int;
    let o6 = o4 + 85;
    assert(b.len() == 5 + p1.len() + p2.len() + 85 + d.len());
    // the method byte
    assert(b[0] == em[0]);
    assert(b[0] == 0 || b[0] == 1);
    // the first path: its count bytes sit at offset 5
    assert(b.subrange(5, 9) =~= spec_u32_to_le_bytes(n1 as u32));
    assert(path_block_ok(b, 5));
    assert(path_block_end(b, 5) == o3);
    // the second path: its count bytes sit just past the first
    assert(b.subrange(o3, o3 + 4) =~= spec_u32_to_le_bytes(n2 as u32));
    assert(path_block_ok(b, o3));
    assert(path_block_end(b, o3) == o4);
    // the signature and address leave the tag byte inside the input
    assert(d.len() >= 1);
    assert(o4 + 85 < b.len());
    // the message block: the tag, then its fields, ending at the end
    assert(b[o6] == d[0]);
    assert forall|k: int| 0 <= k < d.len() implies b[o6 + k] == d[k] by {}
    match m.data {
        Message::JoinDHT(x) => {
            lemma_enc_did_len(x.id);
            assert(msg_block_ok(b, o6));
            assert(msg_block_end(b, o6) == b.len());
        },
        Message::ConnectNodeSend(x) => {
            lemma_enc_did_len(x.sender_id);
            lemma_enc_did_len(x.target_id);
            let hl = x.handshake_info@.len() as int;
            assert(d =~= seq![1u8] + enc_did(x.sender_id) + enc_did(x.target_id) + (
            spec_u32_to_le_bytes(hl as u32) + x.handshake_info@));
            assert(b.subrange(o6 + 41, o6 + 45) =~= spec_u32_to_le_bytes(hl as u32));
            assert(bytes_block_ok(b, o6 + 41));
            assert(bytes_block_end(b, o6 + 41) == b.len());
            assert(msg_block_ok(b, o6));
            assert(msg_block_end(b, o6) == b.len());
        },
        Message::ConnectNodeReport(x) => {
            lemma_enc_did_len(x.answer_id);
            let hl = x.handshake_info@.len() as int;
            assert(d =~= seq![2u8] + enc_did(x.answer_id) + (spec_u32_to_le_bytes(hl as u32)
                + x.handshake_info@));
            assert(b.subrange(o6 + 21, o6 + 25) =~= spec_u32_to_le_bytes(hl as u32));
            assert(bytes_block_ok(b, o6 + 21));
            assert(bytes_block_end(b, o6 + 21) == b.len());
            assert(msg_block_ok(b, o6));
            assert(msg_block_end(b, o6) == b.len());
        },
        Message::AlreadyConnected(x) => {
            lemma_enc_did_len(x.answer_id);
            assert(msg_block_ok(b, o6));
            assert(msg_block_end(b, o6) == b.len());
        },
        Message::FindSuccessorSend(x) => {
            lemma_enc_did_len(x.id);
            assert(d[21] == enc_bool(x.for_fix)[0]);
            assert(b[o6 + 21] == 0 || b[o6 + 21] == 1);
            assert(msg_block_ok(b, o6));
            assert(msg_block_end(b, o6) == b.len());
        },
        Message::FindSuccessorReport(x) => {
            lemma_enc_did_len(x.id);
            assert(d[21] == enc_bool(x.for_fix)[0]);
            assert(b[o6 + 21] == 0 || b[o6 + 21] == 1);
            assert(msg_block_ok(b, o6));
            assert(msg_block_end(b, o6) == b.len());
        },
        Message::NotifyPredecessorSend(x) => {
            lemma_enc_did_len(x.id);
            assert(msg_block_ok(b, o6));
            assert(msg_block_end(b, o6) == b.len());
        },
        Message::NotifyPredecessorReport(x) => {
            lemma_enc_did_len(x.id);
            assert(msg_block_ok(b, o6));
            assert(msg_block_end(b, o6) == b.len());
        },
        Message::CustomMessage(x) => {
            let hl = x.bytes@.len() as int;
            assert(d =~= seq![8u8] + (spec_u32_to_le_bytes(hl as u32) + x.bytes@));
            assert(b.subrange(o6 + 1, o6 + 5) =~= spec_u32_to_le_bytes(hl as u32));
            assert(bytes_block_ok(b, o6 + 1));
            assert(bytes_block_end(b, o6 + 1) == b.len());
            assert(msg_block_ok(b, o6));
            assert(msg_block_end(b, o6) == b.len());
        },
    }
    assert(spec_decodable(b));
}

/// The parsing core of `decode_relay`: an accepted envelope re-encodes to
/// exactly the input, and a refusal means the bytes do not parse.
#[verifier::rlimit(100)]
fn decode_relay_inner(b: &Vec<u8>) -> (r: Result<MessageRelay, Error>)
    ensures
        match r {
            Ok(rel) => rel.wf() && sealed(rel) && encodable(rel) && spec_encode_relay(rel) == b@,
            Err(e) => e == Error::Deserialize && !spec_decodable(b@),
        },
{
    if b.len() < 5 {
        return Err(Error::Deserialize);
    }
    let method = match b[0] {
        0u8 => MessageRelayMethod::SEND,
        1u8 => MessageRelayMethod::REPORT,
        _ => {
            return Err(Error::Deserialize);
        },
    };
    let ttl = parse_u32(b, 1);
    let (from_path, i2) = parse_path(b, 5)?;
    let (to_path, i3) = parse_path(b, i2)?;
    if b.len() - i3 < 85 {
        return Err(Error::Deserialize);
    }
    let signature = slice_to_vec(slice_subrange(b.as_slice(), i3, i3 + 65));
    let signer_address = slice_to_vec(slice_subrange(b.as_slice(), i3 + 65, i3 + 85));
    let i4 = i3 + 85;
    if i4 >= b.len() {
        return Err(Error::Deserialize);
    }
    let tag = b[i4];
    let i5 = i4 + 1;
    let (data, end): (Message, usize) = match tag {
        0u8 => {
            if b.len() - i5 < 20 {
                return Err(Error::Deserialize);
            }
            (Message::JoinDHT(JoinDHT { id: parse_did(b, i5) }), i5 + 20)
        },
        1u8 => {
            if b.len() - i5 < 40 {
                return Err(Error::Deserialize);
            }
            let sender_id = parse_did(b, i5);
            let target_id = parse_did(b, i5 + 20);
            let (handshake_info, e) = parse_bytes(b, i5 + 40)?;
            (
                Message::ConnectNodeSend(
                    ConnectNodeSend { sender_id, target_id, handshake_info },
                ),
                e,
            )
        },
        2u8 => {
            if b.len() - i5 < 20 {
                return Err(Error::Deserialize);
            }
            let answer_id = parse_did(b, i5);
            let (handshake_info, e) = parse_bytes(b, i5 + 20)?;
            (Message::ConnectNodeReport(ConnectNodeReport { answer_id, handshake_info }), e)
        },
        3u8 => {
            if b.len() - i5 < 20 {
                return Err(Error::Deserialize);
            }
            (Message::AlreadyConnected(AlreadyConnected { answer_id: parse_did(b, i5) }), i5 + 20)
        },
        4u8 => {
            if b.len() - i5 < 21 {
                return Err(Error::Deserialize);
            }
            let id = parse_did(b, i5);
            let for_fix = match b[i5 + 20] {
                0u8 => false,
                1u8 => true,
                _ => {
                    return Err(Error::Deserialize);
                },
            };
            (Message::FindSuccessorSend(FindSuccessorSend { id, for_fix }), i5 + 21)
        },
        5u8 => {
            if b.len() - i5 < 21 {
                return Err(Error::Deserialize);
            }
            let id = parse_did(b, i5);
            let for_fix = match b[i5 + 20] {
                0u8 => false,
                1u8 => true,
                _ => {
                    return Err(Error::Deserialize);
                },
            };
            (Message::FindSuccessorReport(FindSuccessorReport { id, for_fix }), i5 + 21)
        },
        6u8 => {
            if b.len() - i5 < 20 {
                return Err(Error::Deserialize);
            }
            (
                Message::NotifyPredecessorSend(
                    NotifyPredecessorSend { id: parse_did(b, i5) },
                ),
                i5 + 20,
            )
        },
        7u8 => {
            if b.len() - i5 < 20 {
                return Err(Error::Deserialize);
            }
            (
                Message::NotifyPredecessorReport(
                    NotifyPredecessorReport { id: parse_did(b, i5) },
                ),
                i5 + 20,
            )
        },
        8u8 => {
            let (bytes, e) = parse_bytes(b, i5)?;
            (Message::CustomMessage(CustomMessage { bytes }), e)
        },
        _ => {
            return Err(Error::Deserialize);
        },
    };
    if end != b.len() {
        return Err(Error::Deserialize);
    }
    let rel = MessageRelay { method, from_path, to_path, ttl, data, signature, signer_address };
    proof {
        assert(enc_method(rel.method) =~= b@.subrange(0, 1));
        assert(enc_msg(rel.data) =~= b@.subrange(i4 as int, end as int));
        assert(rel.signature@ =~= b@.subrange(i3 as int, i3 as int + 65));
        assert(rel.signer_address@ =~= b@.subrange(i3 as int + 65, i3 as int + 85));
        assert(spec_encode_relay(rel) =~= b@);
    }
    Ok(rel)
}


/// Decode one envelope from its wire bytes. It succeeds exactly when the
/// bytes parse — equivalently, exactly when some well-formed, sealed,
/// encodable envelope encodes to them — and whatever it accepts re-encodes
/// to exactly the input, so together with `lemma_encode_injective` the
/// decoded envelope is the one that was encoded.
pub fn decode_relay(b: &Vec<u8>) -> (r: Result<MessageRelay, Error>)
    ensures
        match r {
            Ok(rel) => rel.wf() && sealed(rel) && encodable(rel) && spec_encode_relay(rel) == b@,
            Err(e) => e == Error::Deserialize,
        },
        (r is Ok) <==> spec_decodable(b@),
        (r is Ok) <==> exists|m: MessageRelay|
            m.wf() && sealed(m) && encodable(m) && #[trigger] spec_encode_relay(m) == b@,
{
    match decode_relay_inner(b) {
        Ok(rel) => {
            proof {
                lemma_encoding_decodable(rel);
            }
            Ok(rel)
        },
        Err(e) => {
            proof {
                assert forall|m: MessageRelay|
                    m.wf() && sealed(m) && encodable(m) implies #[trigger] spec_encode_relay(m)
                    != b@ by {
                    lemma_encoding_decodable(m);
                }
            }
            Err(e)
        },
    }
}

} // verus!

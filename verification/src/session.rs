//! Sessions: a short-lived signing key whose address is endorsed by the
//! node's long-term key, so overlay envelopes can be signed while the root
//! key stays cold; and the sealing and checking of envelope signatures.
use vstd::prelude::*;

verus! {

use crate::codec::encodable;
use crate::codec::encode_sign_payload;
use crate::codec::sealed;
use crate::codec::spec_sign_payload;
use crate::ecc::address_of;
use crate::ecc::keccak_of;
use crate::ecc::keccak256;
use crate::ecc::key_address;
use crate::ecc::recover_of;
use crate::ecc::recover_address;
use crate::ecc::sign_digest;
use crate::ecc::sign_of;
use crate::err::Error;
use crate::relay::MessageRelay;
use vstd::bytes::spec_u64_to_le_bytes;
use vstd::bytes::u64_to_le_bytes;
use vstd::slice::slice_subrange;
use vstd::slice::slice_to_vec;

/// The envelope's signature is a valid compact recoverable signature over
/// its signed portion, and recovers to its claimed signer address.
pub open spec fn relay_signature_valid(r: MessageRelay) -> bool {
    &&& r.signature@.len() == 65
    &&& r.signature@[64] >= 27
    &&& recover_of(
        keccak_of(spec_sign_payload(r)),
        r.signature@.subrange(0, 64),
        r.signature@[64] - 27,
    ) == Some(r.signer_address@)
}

/// Are two byte strings equal?
fn eq_bytes(a: &Vec<u8>, b: &Vec<u8>) -> (r: bool)
    ensures
        r == (a@ == b@),
{
    if a.len() != b.len() {
        proof {
            assert(a@ != b@);
        }
        return false;
    }
    let mut i: usize = 0;
    while i < a.len()
        invariant
            a@.len() == b@.len(),
            i <= a@.len(),
            forall|k: int| 0 <= k < i ==> a@[k] == b@[k],
        decreases a@.len() - i,
    {
        if a[i] != b[i] {
            proof {
                assert(a@ != b@);
            }
            return false;
        }
        i += 1;
    }
    proof {
        assert(a@ =~= b@);
    }
    true
}

/// Seal an envelope: sign its payload, paths and TTL with `key` and stamp
/// the signature and the key's address into it. The sealed envelope then
/// passes `verify_relay`.
pub fn seal_relay(relay: MessageRelay, key: &Vec<u8>) -> (r: Result<MessageRelay, Error>)
    requires
        relay.wf(),
        encodable(relay),
        key@.len() == 32,
    ensures
        (r is Ok) == (sign_of(key@, keccak_of(spec_sign_payload(relay))) is Some && address_of(
            key@,
        ) is Some),
        r matches Ok(r2) ==> {
            &&& r2.method == relay.method
            &&& r2.from_path == relay.from_path
            &&& r2.to_path == relay.to_path
            &&& r2.ttl == relay.ttl
            &&& r2.data == relay.data
            &&& r2.wf()
            &&& encodable(r2)
            &&& sealed(r2)
            &&& Some(r2.signature@) == sign_of(key@, keccak_of(spec_sign_payload(relay)))
            &&& Some(r2.signer_address@) == address_of(key@)
            &&& relay_signature_valid(r2)
        },
        r matches Err(e) ==> e == Error::Libsecp256k1SecretKeyParse,
{
    let payload = encode_sign_payload(&relay);
    let digest = keccak256(&payload);
    let signature = sign_digest(key, &digest)?;
    let signer_address = key_address(key)?;
    let r2 = MessageRelay {
        method: relay.method,
        from_path: relay.from_path,
        to_path: relay.to_path,
        ttl: relay.ttl,
        data: relay.data,
        signature,
        signer_address,
    };
    proof {
        assert(spec_sign_payload(r2) == spec_sign_payload(relay));
    }
    Ok(r2)
}

/// Check an envelope's signature: recover the signer from the signed
/// portion and hold it against the claimed signer address.
pub fn verify_relay(relay: &MessageRelay) -> (r: bool)
    requires
        relay.wf(),
        encodable(*relay),
    ensures
        r == relay_signature_valid(*relay),
{
    if relay.signature.len() != 65 {
        return false;
    }
    let v = relay.signature[64];
    if v < 27 {
        return false;
    }
    let payload = encode_sign_payload(relay);
    let digest = keccak256(&payload);
    let sig64 = slice_to_vec(slice_subrange(relay.signature.as_slice(), 0, 64));
    match recover_address(&digest, &sig64, (v - 27) as i32) {
        Ok(a) => eq_bytes(&a, &relay.signer_address),
        Err(_) => false,
    }
}

/// A free-standing signed payload: the signer's 20-byte address, the
/// 65-byte signature over the payload's digest, then the payload itself.
/// Handshake bundles travel through the overlay in this shape.
pub open spec fn signed_bytes_of(addr: Seq<u8>, sig: Seq<u8>, payload: Seq<u8>) -> Seq<u8> {
    addr + sig + payload
}

/// Sign a free-standing payload with `key`: the result carries the key's
/// address, the signature over the payload's digest, and the payload. It
/// succeeds exactly when the key is valid, and an honestly signed bundle
/// is exactly what `open_payload_bytes` accepts.
pub fn sign_payload_bytes(payload: &Vec<u8>, key: &Vec<u8>) -> (r: Result<Vec<u8>, Error>)
    requires
        key@.len() == 32,
    ensures
        (r is Ok) == (sign_of(key@, keccak_of(payload@)) is Some && address_of(key@) is Some),
        r matches Ok(out) ==> (address_of(key@) matches Some(a) && sign_of(
            key@,
            keccak_of(payload@),
        ) matches Some(s) && out@ == signed_bytes_of(a, s, payload@) && a.len() == 20 && s.len()
            == 65),
        r matches Ok(out) ==> {
            &&& out@.len() == 85 + payload@.len()
            &&& out@.skip(85) == payload@
            &&& out@[84] >= 27
            &&& recover_of(keccak_of(payload@), out@.subrange(20, 84), out@[84] - 27)
                == address_of(key@)
            &&& Some(out@.subrange(0, 20)) == address_of(key@)
        },
        r matches Err(e) ==> e == Error::Libsecp256k1SecretKeyParse,
{
    let digest = keccak256(payload);
    let signature = sign_digest(key, &digest)?;
    let address = key_address(key)?;
    let mut out: Vec<u8> = Vec::new();
    out.extend_from_slice(address.as_slice());
    out.extend_from_slice(signature.as_slice());
    out.extend_from_slice(payload.as_slice());
    proof {
        assert(out@ =~= signed_bytes_of(address@, signature@, payload@));
        assert(out@.skip(85) =~= payload@);
        assert(out@.subrange(20, 84) =~= signature@.subrange(0, 64));
        assert(out@.subrange(0, 20) =~= address@);
        assert(out@[84] == signature@[64]);
    }
    Ok(out)
}

/// Open a free-standing signed payload: hand back the signer's address and
/// the payload exactly when the signature recovers to the claimed address.
pub fn open_payload_bytes(b: &Vec<u8>) -> (r: Result<(Vec<u8>, Vec<u8>), Error>)
    ensures
        (r is Ok) <==> (b@.len() >= 85 && b@[84] >= 27 && recover_of(
            keccak_of(b@.skip(85)),
            b@.subrange(20, 84),
            b@[84] - 27,
        ) == Some(b@.subrange(0, 20))),
        match r {
            Ok((addr, payload)) => {
                &&& addr@.len() == 20
                &&& b@ == signed_bytes_of(addr@, b@.subrange(20, 85), payload@)
                &&& b@.subrange(20, 85)[64] >= 27
                &&& recover_of(
                    keccak_of(payload@),
                    b@.subrange(20, 84),
                    b@.subrange(20, 85)[64] - 27,
                ) == Some(addr@)
            },
            Err(e) => e == Error::VerifySignatureFailed,
        },
{
    if b.len() < 85 {
        return Err(Error::VerifySignatureFailed);
    }
    let address = slice_to_vec(slice_subrange(b.as_slice(), 0, 20));
    let v = b[84];
    if v < 27 {
        return Err(Error::VerifySignatureFailed);
    }
    let sig64 = slice_to_vec(slice_subrange(b.as_slice(), 20, 84));
    let payload = slice_to_vec(slice_subrange(b.as_slice(), 85, b.len()));
    proof {
        assert(payload@ =~= b@.skip(85));
        assert(address@ =~= b@.subrange(0, 20));
    }
    let digest = keccak256(&payload);
    match recover_address(&digest, &sig64, (v - 27) as i32) {
        Ok(a) => {
            if eq_bytes(&a, &address) {
                proof {
                    assert(b@ =~= signed_bytes_of(
                        address@,
                        b@.subrange(20, 85),
                        payload@,
                    ));
                    assert(b@.subrange(20, 85).subrange(0, 64) =~= b@.subrange(20, 84));
                    assert(b@.subrange(20, 85)[64] == b@[84]);
                }
                Ok((address, payload))
            } else {
                Err(Error::VerifySignatureFailed)
            }
        },
        Err(_) => Err(Error::VerifySignatureFailed),
    }
}

/// A session: the short-lived key, its address, and the long-term key's
/// endorsement of it.
pub struct SessionManager {
    /// The address of the long-term key that endorsed the session.
    pub root_address: Vec<u8>,
    /// The short-lived secret key that signs envelopes.
    pub session_key: Vec<u8>,
    /// The session key's address; envelopes recover to it.
    pub session_address: Vec<u8>,
    /// The long-term key's signature over the session's authorization
    /// payload.
    pub auth_signature: Vec<u8>,
    /// How long past its timestamp the session stays valid, if limited.
    pub ttl_ms: Option<u64>,
    /// When the session was issued.
    pub ts_ms: u64,
}

/// The bytes a long-term key signs to endorse a session: the session
/// address, the optional lifetime, and the timestamp.
pub open spec fn spec_auth_payload(session_address: Seq<u8>, ttl_ms: Option<u64>, ts_ms: u64) -> Seq<
    u8,
> {
    session_address + (match ttl_ms {
        Some(t) => seq![1u8] + spec_u64_to_le_bytes(t),
        None => seq![0u8],
    }) + spec_u64_to_le_bytes(ts_ms)
}

/// Encode a session's authorization payload.
pub fn auth_payload(session_address: &Vec<u8>, ttl_ms: &Option<u64>, ts_ms: u64) -> (out: Vec<u8>)
    ensures
        out@ == spec_auth_payload(session_address@, *ttl_ms, ts_ms),
{
    let mut out: Vec<u8> = Vec::new();
    out.extend_from_slice(session_address.as_slice());
    match ttl_ms {
        Some(t) => {
            out.push(1u8);
            let tb = u64_to_le_bytes(*t);
            out.extend_from_slice(tb.as_slice());
        },
        None => {
            out.push(0u8);
        },
    }
    let ts = u64_to_le_bytes(ts_ms);
    out.extend_from_slice(ts.as_slice());
    proof {
        assert(out@ =~= spec_auth_payload(session_address@, *ttl_ms, ts_ms));
    }
    out
}

impl SessionManager {
    /// The stored session address really is the session key's, and the
    /// stored byte strings have their wire sizes.
    pub open spec fn wf(self) -> bool {
        &&& self.root_address@.len() == 20
        &&& self.session_key@.len() == 32
        &&& Some(self.session_address@) == address_of(self.session_key@)
        &&& self.auth_signature@.len() == 65
    }

    /// The payload the long-term key must sign to endorse the session key:
    /// the session key's address with the lifetime and timestamp.
    pub fn gen_unsign_info(session_key: &Vec<u8>, ttl_ms: &Option<u64>, ts_ms: u64) -> (r: Result<
        Vec<u8>,
        Error,
    >)
        requires
            session_key@.len() == 32,
        ensures
            (r is Ok) == (address_of(session_key@) is Some),
            r matches Ok(p) ==> (address_of(session_key@) matches Some(a) && p@
                == spec_auth_payload(a, *ttl_ms, ts_ms)),
            r matches Err(e) ==> e == Error::Libsecp256k1SecretKeyParse,
    {
        let session_address = key_address(session_key)?;
        Ok(auth_payload(&session_address, ttl_ms, ts_ms))
    }

    /// Assemble a session from the long-term key's signature over its
    /// authorization payload.
    pub fn new(
        root_address: Vec<u8>,
        session_key: Vec<u8>,
        auth_signature: Vec<u8>,
        ttl_ms: Option<u64>,
        ts_ms: u64,
    ) -> (r: Result<SessionManager, Error>)
        requires
            root_address@.len() == 20,
            session_key@.len() == 32,
            auth_signature@.len() == 65,
        ensures
            (r is Ok) == (address_of(session_key@) is Some),
            r matches Ok(m) ==> {
                &&& m.wf()
                &&& m.root_address@ == root_address@
                &&& m.session_key@ == session_key@
                &&& m.auth_signature@ == auth_signature@
                &&& m.ttl_ms == ttl_ms
                &&& m.ts_ms == ts_ms
            },
            r matches Err(e) ==> e == Error::Libsecp256k1SecretKeyParse,
    {
        let session_address = key_address(&session_key)?;
        Ok(
            SessionManager {
                root_address,
                session_key,
                session_address,
                auth_signature,
                ttl_ms,
                ts_ms,
            },
        )
    }

    /// The session's endorsement recovers to the root address and the
    /// session has not outlived its TTL at `now_ms`.
    pub open spec fn valid_spec(self, now_ms: u64) -> bool {
        &&& self.auth_signature@[64] >= 27
        &&& recover_of(
            keccak_of(spec_auth_payload(self.session_address@, self.ttl_ms, self.ts_ms)),
            self.auth_signature@.subrange(0, 64),
            self.auth_signature@[64] - 27,
        ) == Some(self.root_address@)
        &&& match self.ttl_ms {
            None => true,
            Some(t) => now_ms as int <= self.ts_ms as int + t as int,
        }
    }

    /// Decide whether the session is valid at `now_ms`.
    pub fn session_valid(&self, now_ms: u64) -> (r: bool)
        requires
            self.wf(),
        ensures
            r == self.valid_spec(now_ms),
    {
        match &self.ttl_ms {
            Some(t) => {
                if self.ts_ms <= u64::MAX - *t {
                    if now_ms > self.ts_ms + *t {
                        return false;
                    }
                }
            },
            None => {},
        }
        let v = self.auth_signature[64];
        if v < 27 {
            return false;
        }
        let payload = auth_payload(&self.session_address, &self.ttl_ms, self.ts_ms);
        let digest = keccak256(&payload);
        let sig64 = slice_to_vec(slice_subrange(self.auth_signature.as_slice(), 0, 64));
        match recover_address(&digest, &sig64, (v - 27) as i32) {
            Ok(a) => eq_bytes(&a, &self.root_address),
            Err(_) => false,
        }
    }

    /// Seal an envelope with the session key; the signer address stamped
    /// into it is the session address. It succeeds exactly when the
    /// session key can sign the envelope's digest.
    pub fn sign_relay(&self, relay: MessageRelay) -> (r: Result<MessageRelay, Error>)
        requires
            self.wf(),
            relay.wf(),
            encodable(relay),
        ensures
            (r is Ok) == (sign_of(
                self.session_key@,
                keccak_of(spec_sign_payload(relay)),
            ) is Some),
            r matches Ok(r2) ==> {
                &&& r2.method == relay.method
                &&& r2.from_path == relay.from_path
                &&& r2.to_path == relay.to_path
                &&& r2.ttl == relay.ttl
                &&& r2.data == relay.data
                &&& r2.wf()
                &&& encodable(r2)
                &&& sealed(r2)
                &&& relay_signature_valid(r2)
                &&& r2.signer_address@ == self.session_address@
            },
            r matches Err(e) ==> e == Error::Libsecp256k1SecretKeyParse,
    {
        seal_relay(relay, &self.session_key)
    }
}

} // verus!

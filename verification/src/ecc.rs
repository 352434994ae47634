//! Key arithmetic at the edge of the overlay: Keccak hashing, compact
//! recoverable ECDSA signatures, and the address a key stands for.
//!
//! The operations themselves live in the `web3` crate; each is named by an
//! uninterpreted function of its inputs, and everything the overlay proves
//! about signatures goes through those names.
use vstd::prelude::*;

verus! {

use crate::codec::enc_did;
use crate::did::Did;
use crate::err::Error;

/// What Keccak-256 returns for these bytes.
pub uninterp spec fn keccak_of(b: Seq<u8>) -> Seq<u8>;

/// What compact recoverable ECDSA signing returns: the 65 signature bytes
/// for this secret key and digest, or nothing when the key is invalid.
pub uninterp spec fn sign_of(key: Seq<u8>, digest: Seq<u8>) -> Option<Seq<u8>>;

/// What signer recovery returns: the 20-byte address that made this
/// signature over this digest, or nothing when the signature is invalid.
pub uninterp spec fn recover_of(digest: Seq<u8>, sig: Seq<u8>, v: int) -> Option<Seq<u8>>;

/// What address derivation returns: the 20-byte address of this secret
/// key, or nothing when the key is invalid.
pub uninterp spec fn address_of(key: Seq<u8>) -> Option<Seq<u8>>;

/// Relies on `web3::signing::keccak256`: the Keccak-256 digest, 32 bytes,
/// a function of the input alone.
#[verifier::external_body]
pub fn keccak256(b: &Vec<u8>) -> (r: Vec<u8>)
    ensures
        r@ == keccak_of(b@),
        r@.len() == 32,
{
    web3::signing::keccak256(b.as_slice()).to_vec()
}

/// Relies on `secp256k1::SecretKey::from_slice` and
/// `web3::signing::Key::sign` (with no chain id): deterministic RFC 6979
/// signing, 65 bytes `r ‖ s ‖ v` with `v` the recovery id plus 27; the
/// recovered signer is the key's own address. Fails exactly when the key
/// bytes are not a valid secret key.
#[verifier::external_body]
pub fn sign_digest(key: &Vec<u8>, digest: &Vec<u8>) -> (r: Result<Vec<u8>, Error>)
    requires
        key@.len() == 32,
        digest@.len() == 32,
    ensures
        (r is Ok) == (sign_of(key@, digest@) is Some),
        r matches Ok(s) ==> {
            &&& Some(s@) == sign_of(key@, digest@)
            &&& s@.len() == 65
            &&& 27 <= s@[64] <= 30
            &&& recover_of(digest@, s@.subrange(0, 64), s@[64] - 27) == address_of(key@)
            &&& address_of(key@) is Some
        },
        r matches Err(e) ==> e == Error::Libsecp256k1SecretKeyParse,
{
    let sk = web3::signing::SecretKey::from_slice(key.as_slice()).map_err(
        |_| Error::Libsecp256k1SecretKeyParse,
    )?;
    let sig = web3::signing::Key::sign(
        &web3::signing::SecretKeyRef::new(&sk),
        digest.as_slice(),
        None,
    ).map_err(|_| Error::Libsecp256k1SecretKeyParse)?;
    let mut out = sig.r.0.to_vec();
    out.extend_from_slice(&sig.s.0);
    out.push(sig.v as u8);
    Ok(out)
}

/// Relies on `web3::signing::recover`: the address of whoever made the
/// signature, a function of digest, signature and recovery id alone.
/// Fails exactly when they do not fit together.
#[verifier::external_body]
pub fn recover_address(digest: &Vec<u8>, sig64: &Vec<u8>, v: i32) -> (r: Result<Vec<u8>, Error>)
    requires
        digest@.len() == 32,
        sig64@.len() == 64,
    ensures
        match r {
            Ok(a) => Some(a@) == recover_of(digest@, sig64@, v as int) && a@.len() == 20,
            Err(e) => recover_of(digest@, sig64@, v as int) is None && e
                == Error::Libsecp256k1Recover,
        },
{
    let a = web3::signing::recover(digest.as_slice(), sig64.as_slice(), v).map_err(
        |_| Error::Libsecp256k1Recover,
    )?;
    Ok(a.0.to_vec())
}

/// Relies on `secp256k1::SecretKey::from_slice` and
/// `web3::signing::Key::address`: the low 20 bytes of the Keccak hash of
/// the key's public key. Fails exactly when the key bytes are not a valid
/// secret key.
#[verifier::external_body]
pub fn key_address(key: &Vec<u8>) -> (r: Result<Vec<u8>, Error>)
    requires
        key@.len() == 32,
    ensures
        (r is Ok) == (address_of(key@) is Some),
        r matches Ok(a) ==> Some(a@) == address_of(key@) && a@.len() == 20,
        r matches Err(e) ==> e == Error::Libsecp256k1SecretKeyParse,
{
    let sk = web3::signing::SecretKey::from_slice(key.as_slice()).map_err(
        |_| Error::Libsecp256k1SecretKeyParse,
    )?;
    let a = web3::signing::Key::address(&web3::signing::SecretKeyRef::new(&sk));
    Ok(a.0.to_vec())
}

/// The ring identifier a secret key stands for: its address, read as a
/// 160-bit ring point.
pub fn key_did(key: &Vec<u8>) -> (r: Result<Did, Error>)
    requires
        key@.len() == 32,
    ensures
        (r is Ok) == (address_of(key@) is Some),
        r matches Ok(d) ==> d.wf() && Some(enc_did(d)) == address_of(key@),
        r matches Err(e) ==> e == Error::Libsecp256k1SecretKeyParse,
{
    let addr = key_address(key)?;
    Ok(crate::codec::did_from_bytes(&addr))
}

} // verus!

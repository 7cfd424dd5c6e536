//! Cryptographic primitives: SHA-256, SHA-512, HMAC-SHA-256 and Ed25519,
//! computed by the `sha2`, `hmac` and `ed25519-dalek` crates.

use vstd::prelude::*;
use sha2::{Digest, Sha256, Sha512};
use hmac::{Hmac, Mac};
use ed25519_dalek::{Signer, SigningKey, VerifyingKey};

verus! {

/// The SHA-256 digest of `data` (32 bytes).
pub uninterp spec fn sha256_digest(data: Seq<u8>) -> Seq<u8>;

/// The SHA-512 digest of `data` (64 bytes).
pub uninterp spec fn sha512_digest(data: Seq<u8>) -> Seq<u8>;

/// The HMAC-SHA-256 tag of `data` under `key` (32 bytes).
pub uninterp spec fn hmac_sha256_tag(key: Seq<u8>, data: Seq<u8>) -> Seq<u8>;

/// The Ed25519 public key derived from a 32-byte secret seed.
pub uninterp spec fn ed25519_public_of(seed: Seq<u8>) -> Seq<u8>;

/// The Ed25519 signature of `message` under the key derived from `seed`.
pub uninterp spec fn ed25519_signature_of(seed: Seq<u8>, message: Seq<u8>) -> Seq<u8>;

/// Whether strict Ed25519 verification accepts `signature` on `message` under `public_key`.
pub uninterp spec fn ed25519_accepts(public_key: Seq<u8>, message: Seq<u8>, signature: Seq<u8>) -> bool;

/// `Sha256::digest` (sha2): claims only that the result is the SHA-256 digest
/// of the input, a function of the input bytes alone.
#[verifier::external_body]
fn sha256_call(data: &[u8]) -> (d: [u8; 32])
    ensures
        d@ == sha256_digest(data@),
{
    Sha256::digest(data).into()
}

/// `Sha512::digest` (sha2): claims only that the result is the SHA-512 digest
/// of the input, a function of the input bytes alone.
#[verifier::external_body]
fn sha512_call(data: &[u8]) -> (d: [u8; 64])
    ensures
        d@ == sha512_digest(data@),
{
    Sha512::digest(data).into()
}

/// `Hmac::<Sha256>` keyed with `new_from_slice` (which accepts keys of every
/// length), fed `data` and finalised: claims only that the tag is a function
/// of key and data.
#[verifier::external_body]
fn hmac_sha256_call(key: &[u8], data: &[u8]) -> (t: [u8; 32])
    ensures
        t@ == hmac_sha256_tag(key@, data@),
{
    let mut mac = <Hmac<Sha256> as Mac>::new_from_slice(key).expect("HMAC can take key of any size");
    mac.update(data);
    mac.finalize().into_bytes().into()
}

/// `SigningKey::from_bytes(seed).verifying_key().to_bytes()` (ed25519-dalek):
/// claims only that the public key is a function of the seed.
#[verifier::external_body]
fn ed25519_public_call(seed: &[u8; 32]) -> (pk: [u8; 32])
    ensures
        pk@ == ed25519_public_of(seed@),
{
    SigningKey::from_bytes(seed).verifying_key().to_bytes()
}

/// `Signer::sign` on `SigningKey::from_bytes(seed)` (ed25519-dalek), as bytes:
/// Ed25519 signing is deterministic, so the signature is a function of seed
/// and message.
#[verifier::external_body]
fn ed25519_sign_call(seed: &[u8; 32], message: &[u8]) -> (sig: [u8; 64])
    ensures
        sig@ == ed25519_signature_of(seed@, message@),
{
    SigningKey::from_bytes(seed).sign(message).to_bytes()
}

/// `VerifyingKey::from_bytes` then `verify_strict` (ed25519-dalek): true when
/// the key decompresses and the signature verifies strictly. Nothing is
/// claimed about which signatures verify.
#[verifier::external_body]
fn ed25519_verify_call(public_key: &[u8; 32], message: &[u8], signature: &[u8; 64]) -> (ok: bool)
    ensures
        ok == ed25519_accepts(public_key@, message@, signature@),
{
    match VerifyingKey::from_bytes(public_key) {
        Ok(vk) => vk.verify_strict(message, &ed25519_dalek::Signature::from_bytes(signature)).is_ok(),
        Err(_) => false,
    }
}

pub fn sha256(data: &[u8]) -> (d: [u8; 32])
    ensures
        d@ == sha256_digest(data@),
{
    sha256_call(data)
}

pub fn sha512(data: &[u8]) -> (d: [u8; 64])
    ensures
        d@ == sha512_digest(data@),
{
    sha512_call(data)
}

pub fn hmac_sha256(key: &[u8], data: &[u8]) -> (t: [u8; 32])
    ensures
        t@ == hmac_sha256_tag(key@, data@),
{
    hmac_sha256_call(key, data)
}

/// The key pair of a seed: the public key, and the 64-byte secret key made
/// of the seed followed by the public key.
pub fn ed25519_keypair_from_seed(seed: &[u8; 32]) -> (r: ([u8; 32], [u8; 64]))
    ensures
        r.0@ == ed25519_public_of(seed@),
        r.1@ == seed@ + ed25519_public_of(seed@),
{
    let pk = ed25519_public_call(seed);
    let mut sk = [0u8; 64];
    let mut i: usize = 0;
    while i < 32
        invariant
            i <= 32,
            sk@.len() == 64,
            forall|j: int| 0 <= j < i ==> sk@[j] == seed@[j],
            forall|j: int| 0 <= j < i ==> sk@[32 + j] == pk@[j],
        decreases 32 - i,
    {
        sk[i] = seed[i];
        sk[32 + i] = pk[i];
        i += 1;
    }
    assert(sk@ =~= seed@ + pk@);
    (pk, sk)
}

/// Signs `message` with the seed held in the first half of `secret_key`.
pub fn ed25519_sign(secret_key: &[u8; 64], message: &[u8]) -> (sig: [u8; 64])
    ensures
        sig@ == ed25519_signature_of(secret_key@.subrange(0, 32), message@),
{
    let mut seed = [0u8; 32];
    let mut i: usize = 0;
    while i < 32
        invariant
            i <= 32,
            seed@.len() == 32,
            forall|j: int| 0 <= j < i ==> seed@[j] == secret_key@[j],
        decreases 32 - i,
    {
        seed[i] = secret_key[i];
        i += 1;
    }
    assert(seed@ =~= secret_key@.subrange(0, 32));
    ed25519_sign_call(&seed, message)
}

pub fn ed25519_verify(public_key: &[u8; 32], message: &[u8], signature: &[u8; 64]) -> (ok: bool)
    ensures
        ok == ed25519_accepts(public_key@, message@, signature@),
{
    ed25519_verify_call(public_key, message, signature)
}

} // verus!

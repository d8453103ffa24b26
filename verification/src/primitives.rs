//! Cryptographic primitives, supplied by outside libraries and exposed to
//! the verified code through narrow trusted wrappers.
//!
//! Digest and KEM outputs are named by uninterpreted functions: they are
//! pure functions of their inputs, but their values are fixed only by the
//! outside implementations.

use vstd::prelude::*;

use crate::bytes::hex_of;
use pqcrypto_traits::kem::Ciphertext;
use pqcrypto_traits::kem::PublicKey;
use pqcrypto_traits::kem::SecretKey;
use pqcrypto_traits::kem::SharedSecret;
use ring::aead::{Aad, LessSafeKey, Nonce, UnboundKey, AES_256_GCM};
use ring::rand::{SecureRandom, SystemRandom};
use sha2::{Digest, Sha256};
use vstd::utf8::{decode_utf8, valid_utf8};

verus! {

/// The SHA-256 digest of a byte string.
pub uninterp spec fn sha256_of(data: Seq<u8>) -> Seq<u8>;

/// The BLAKE3 digest of a byte string.
pub uninterp spec fn blake3_of(data: Seq<u8>) -> Seq<u8>;

/// The AES-256-GCM sealing (ciphertext plus 16-byte tag) of `data` under
/// `key` and `nonce`, with empty additional data.
pub uninterp spec fn aead_seal_of(key: Seq<u8>, nonce: Seq<u8>, data: Seq<u8>) -> Seq<u8>;

/// The AES-256-GCM opening of `sealed` under `key` and `nonce`: the
/// plaintext when the tag authenticates, nothing otherwise.
pub uninterp spec fn aead_open_of(key: Seq<u8>, nonce: Seq<u8>, sealed: Seq<u8>) -> Option<
    Seq<u8>,
>;

/// The Kyber1024 shared secret recovered from a ciphertext by a secret key.
pub uninterp spec fn kyber_decap_of(sk: Seq<u8>, ct: Seq<u8>) -> Seq<u8>;

/// Relies on sha2's `Sha256::digest`: a 32-byte digest determined by the
/// input bytes alone.
#[verifier::external_body]
pub fn sha256(data: &[u8]) -> (r: Vec<u8>)
    ensures
        r@ == sha256_of(data@),
        r@.len() == 32,
{
    Sha256::digest(data).to_vec()
}

/// Relies on blake3's `hash`: a 32-byte digest determined by the input
/// bytes alone.
#[verifier::external_body]
pub fn blake3_hash(data: &[u8]) -> (r: Vec<u8>)
    ensures
        r@ == blake3_of(data@),
        r@.len() == 32,
{
    blake3::hash(data).as_bytes().to_vec()
}

/// The key block HMAC derives from a key: hashed down when longer than
/// the 64-byte block, zero-padded to the block either way.
pub open spec fn hmac_key_block(key: Seq<u8>) -> Seq<u8> {
    let base = if key.len() > 64 {
        sha256_of(key)
    } else {
        key
    };
    base + Seq::new((64 - base.len()) as nat, |i: int| 0u8)
}

/// HMAC-SHA256 as the standard two-pass composition over SHA-256.
pub open spec fn hmac_sha256_of(key: Seq<u8>, data: Seq<u8>) -> Seq<u8> {
    let block = hmac_key_block(key);
    let ipad = block.map_values(|b: u8| b ^ 0x36);
    let opad = block.map_values(|b: u8| b ^ 0x5c);
    sha256_of(opad + sha256_of(ipad + data))
}

/// Computes HMAC-SHA256 of `data` under `key`.
pub fn hmac_sha256(key: &[u8], data: &[u8]) -> (r: Vec<u8>)
    ensures
        r@ == hmac_sha256_of(key@, data@),
        r@.len() == 32,
{
    let base: Vec<u8> = if key.len() > 64 {
        sha256(key)
    } else {
        vstd::slice::slice_to_vec(key)
    };
    let mut block = base;
    let ghost base_len = block@.len() as int;
    proof {
        assert(base_len <= 64);
        assert(hmac_key_block(key@).len() == 64);
        assert(block@ =~= hmac_key_block(key@).take(base_len));
    }
    #[verifier::loop_isolation(false)]
    while block.len() < 64
        invariant
            base_len <= block@.len() <= 64,
            block@ == hmac_key_block(key@).take(block@.len() as int),
        decreases 64 - block@.len(),
    {
        proof {
            assert(hmac_key_block(key@)[block@.len() as int] == 0u8);
        }
        block.push(0u8);
        proof {
            assert(block@ =~= hmac_key_block(key@).take(block@.len() as int));
        }
    }
    proof {
        assert(block@ =~= hmac_key_block(key@));
    }
    let mut inner: Vec<u8> = Vec::new();
    let mut outer: Vec<u8> = Vec::new();
    for i in 0..64usize
        invariant
            block@ == hmac_key_block(key@),
            block@.len() == 64,
            inner@.len() == i,
            outer@.len() == i,
            forall|j: int| 0 <= j < i ==> inner@[j] == (block@[j] ^ 0x36),
            forall|j: int| 0 <= j < i ==> outer@[j] == (block@[j] ^ 0x5c),
    {
        inner.push(block[i] ^ 0x36);
        outer.push(block[i] ^ 0x5c);
    }
    inner.extend_from_slice(data);
    proof {
        assert(inner@ =~= hmac_key_block(key@).map_values(|b: u8| b ^ 0x36) + data@);
    }
    let inner_digest = sha256(inner.as_slice());
    outer.extend_from_slice(inner_digest.as_slice());
    proof {
        assert(outer@ =~= hmac_key_block(key@).map_values(|b: u8| b ^ 0x5c) + sha256_of(
            hmac_key_block(key@).map_values(|b: u8| b ^ 0x36) + data@,
        ));
    }
    sha256(outer.as_slice())
}

/// Relies on hex's `encode`: two lowercase hexadecimal digits per byte,
/// high nibble first.
#[verifier::external_body]
pub fn hex_encode(data: &[u8]) -> (r: String)
    ensures
        r@ == hex_of(data@),
{
    hex::encode(data)
}

/// Relies on ring's `SystemRandom::fill`: on success the buffer is filled
/// with `len` bytes from the system's secure generator.
#[verifier::external_body]
pub fn random_bytes(len: usize) -> (r: Result<Vec<u8>, ()>)
    ensures
        r matches Ok(v) ==> v@.len() == len,
{
    let mut out = vec![0u8; len];
    match SystemRandom::new().fill(&mut out) {
        Ok(()) => Ok(out),
        Err(_) => Err(()),
    }
}

/// Relies on ring's `LessSafeKey::seal_in_place_append_tag` for
/// AES-256-GCM: on success the result is the ciphertext of `data` with the
/// 16-byte tag appended.
#[verifier::external_body]
pub fn aead_seal(key: &[u8], nonce: &[u8], data: &[u8]) -> (r: Result<Vec<u8>, ()>)
    requires
        key@.len() == 32,
        nonce@.len() == 12,
    ensures
        r matches Ok(v) ==> v@ == aead_seal_of(key@, nonce@, data@) && v@.len() == data@.len()
            + 16,
{
    let k = LessSafeKey::new(UnboundKey::new(&AES_256_GCM, key).map_err(|_| ())?);
    let n = Nonce::assume_unique_for_key(<[u8; 12]>::try_from(nonce).map_err(|_| ())?);
    let mut buf = data.to_vec();
    k.seal_in_place_append_tag(n, Aad::empty(), &mut buf).map_err(|_| ())?;
    Ok(buf)
}

/// Relies on ring's `LessSafeKey::open_in_place` for AES-256-GCM: it
/// returns the plaintext exactly when the tag authenticates, and fails
/// closed otherwise.
#[verifier::external_body]
pub fn aead_open(key: &[u8], nonce: &[u8], sealed: &[u8]) -> (r: Option<Vec<u8>>)
    requires
        key@.len() == 32,
        nonce@.len() == 12,
    ensures
        match r {
            Some(v) => aead_open_of(key@, nonce@, sealed@) == Some(v@) && v@.len() + 16
                == sealed@.len(),
            None => aead_open_of(key@, nonce@, sealed@) is None,
        },
{
    let k = LessSafeKey::new(UnboundKey::new(&AES_256_GCM, key).ok()?);
    let n = Nonce::assume_unique_for_key(<[u8; 12]>::try_from(nonce).ok()?);
    let mut buf = sealed.to_vec();
    let plain_len = k.open_in_place(n, Aad::empty(), &mut buf).ok()?.len();
    buf.truncate(plain_len);
    Some(buf)
}

/// Relies on pqcrypto-kyber's `kyber1024::keypair`: a fresh keypair of the
/// documented sizes (1568-byte public key, 3168-byte secret key).
#[verifier::external_body]
pub fn kyber_keypair() -> (r: (Vec<u8>, Vec<u8>))
    ensures
        r.0@.len() == 1568,
        r.1@.len() == 3168,
{
    let (pk, sk) = pqcrypto_kyber::kyber1024::keypair();
    (pk.as_bytes().to_vec(), sk.as_bytes().to_vec())
}

/// Relies on pqcrypto-kyber's `kyber1024::encapsulate`: a fresh 32-byte
/// shared secret and a 1568-byte ciphertext for the given public key.
#[verifier::external_body]
pub fn kyber_encapsulate(pk: &[u8]) -> (r: Result<(Vec<u8>, Vec<u8>), ()>)
    ensures
        r matches Ok(p) ==> p.0@.len() == 32 && p.1@.len() == 1568,
{
    let pk = pqcrypto_kyber::kyber1024::PublicKey::from_bytes(pk).map_err(|_| ())?;
    let (ss, ct) = pqcrypto_kyber::kyber1024::encapsulate(&pk);
    Ok((ss.as_bytes().to_vec(), ct.as_bytes().to_vec()))
}

/// Relies on pqcrypto-kyber's `kyber1024::decapsulate`: the shared secret
/// is a pure function of the secret key and the ciphertext.
#[verifier::external_body]
pub fn kyber_decapsulate(sk: &[u8], ct: &[u8]) -> (r: Result<Vec<u8>, ()>)
    ensures
        r matches Ok(v) ==> v@ == kyber_decap_of(sk@, ct@) && v@.len() == 32,
{
    let sk = pqcrypto_kyber::kyber1024::SecretKey::from_bytes(sk).map_err(|_| ())?;
    let ct = pqcrypto_kyber::kyber1024::Ciphertext::from_bytes(ct).map_err(|_| ())?;
    Ok(pqcrypto_kyber::kyber1024::decapsulate(&ct, &sk).as_bytes().to_vec())
}

/// Relies on std's `String::from_utf8`: it succeeds exactly on valid UTF-8
/// and decodes those bytes.
#[verifier::external_body]
pub fn bytes_to_string(v: Vec<u8>) -> (r: Option<String>)
    ensures
        r is Some <==> valid_utf8(v@),
        r matches Some(s) ==> s@ == decode_utf8(v@),
{
    String::from_utf8(v).ok()
}

} // verus!

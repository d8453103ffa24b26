//! The encryption engine: per-frame hashing, hash-chain linking,
//! symmetric encryption under a rotating key schedule, and the
//! sequence-wide tamper proof.

use std::collections::HashMap;
use vstd::prelude::*;

use crate::bytes::{hex_of, push_u64_be, u64_be_bytes};
use crate::error::ImmutableEncryptionError;
use crate::primitives::{aead_seal, aead_seal_of, blake3_hash, blake3_of, hex_encode, kyber_keypair, random_bytes, sha256, sha256_of};
use crate::{frames_view, EncryptedFrame, EncryptedFrameView, FrameMetadataView, VideoFrame, VideoFrameView};
use vstd::utf8::encode_utf8;

verus! {

broadcast use vstd::std_specs::hash::group_hash_axioms;

/// Configuration of the encryption engine.
pub struct CryptoConfig {
    /// The 32-byte primary key.
    pub primary_key: Vec<u8>,
    /// The key-rotation interval in seconds; also how many buckets each
    /// rotation fills ahead.
    pub key_rotation_interval: u64,
    pub quantum_resistant: bool,
    pub hardware_backed: bool,
}

/// The key-schedule bucket that a timestamp falls into.
pub open spec fn bucket_of(timestamp: u64, interval: u64) -> u64 {
    if interval == 0 {
        timestamp
    } else {
        timestamp / interval
    }
}

/// The canonical versioned serialization of frame metadata: a format tag,
/// then each field in order, strings length-prefixed, numbers big endian.
pub open spec fn canon_metadata_bytes(m: FrameMetadataView) -> Seq<u8> {
    seq![1u8] + u64_be_bytes(encode_utf8(m.device_id).len() as u64) + encode_utf8(m.device_id)
        + (match m.location {
        Some(loc) => seq![1u8] + u64_be_bytes(loc.0 as u64) + u64_be_bytes(loc.1 as u64),
        None => seq![0u8],
    }) + u64_be_bytes(m.resolution.0 as u64) + u64_be_bytes(m.resolution.1 as u64) + u64_be_bytes(
        m.fps as u64,
    ) + encode_utf8(m.codec)
}

/// The bytes hashed for one frame: sequence, timestamp, payload, and the
/// canonical metadata serialization.
pub open spec fn frame_msg(f: VideoFrameView) -> Seq<u8> {
    u64_be_bytes(f.sequence) + u64_be_bytes(f.timestamp) + f.data + canon_metadata_bytes(f.metadata)
}

/// The content hash of a frame: BLAKE3 over SHA-256, in lowercase hex.
pub open spec fn frame_hash_of(f: VideoFrameView) -> Seq<char> {
    hex_of(blake3_of(sha256_of(frame_msg(f))))
}

/// The chain link: SHA-256 over the current hash, the previous hash, and
/// the sequence number, in lowercase hex.
pub open spec fn chain_link_of(cur: Seq<char>, prev: Seq<char>, sequence: u64) -> Seq<char> {
    hex_of(sha256_of(encode_utf8(cur) + encode_utf8(prev) + u64_be_bytes(sequence)))
}

/// The bytes hashed for the sequence-wide tamper proof.
pub open spec fn tamper_msg(s: Seq<EncryptedFrameView>) -> Seq<u8>
    decreases s.len(),
{
    if s.len() == 0 {
        Seq::<u8>::empty()
    } else {
        tamper_msg(s.drop_last()) + encode_utf8(s.last().hash) + s.last().nonce + u64_be_bytes(
            s.last().sequence,
        )
    }
}

/// The sequence-wide tamper proof, in lowercase hex.
pub open spec fn tamper_proof_of(s: Seq<EncryptedFrameView>) -> Seq<char> {
    hex_of(sha256_of(tamper_msg(s)))
}

/// Serializes frame metadata canonically.
pub fn encode_canon_metadata(m: &crate::FrameMetadata) -> (r: Vec<u8>)
    ensures
        r@ == canon_metadata_bytes(m@),
{
    let mut out: Vec<u8> = Vec::new();
    out.push(1u8);
    let device_bytes = m.device_id.as_str().as_bytes();
    push_u64_be(&mut out, device_bytes.len() as u64);
    out.extend_from_slice(device_bytes);
    match m.location {
        Some((lat, lon)) => {
            out.push(1u8);
            push_u64_be(&mut out, lat as u64);
            push_u64_be(&mut out, lon as u64);
        },
        None => {
            out.push(0u8);
        },
    }
    push_u64_be(&mut out, m.resolution.0 as u64);
    push_u64_be(&mut out, m.resolution.1 as u64);
    push_u64_be(&mut out, m.fps as u64);
    let codec_bytes = m.codec.as_str().as_bytes();
    out.extend_from_slice(codec_bytes);
    proof {
        assert(out@ =~= canon_metadata_bytes(m@));
    }
    out
}

/// The encryption engine. It holds the primary key, a symmetric key
/// schedule, and, when enabled, a post-quantum keypair schedule, both
/// indexed by timestamp bucket.
pub struct EncryptionEngine {
    pub config: CryptoConfig,
    pub key_schedule: HashMap<u64, Vec<u8>>,
    pub quantum_keys: HashMap<u64, (Vec<u8>, Vec<u8>)>,
}

impl EncryptionEngine {
    /// Every schedule entry is a 32-byte key; every quantum entry is a
    /// Kyber1024 keypair of the documented sizes.
    pub open spec fn wf(&self) -> bool {
        &&& self.config.primary_key@.len() == 32
        &&& forall|b: u64|
            self.key_schedule@.contains_key(b) ==> (#[trigger] self.key_schedule@[b])@.len() == 32
        &&& forall|b: u64|
            self.quantum_keys@.contains_key(b) ==> (#[trigger] self.quantum_keys@[b]).0@.len()
                == 1568 && self.quantum_keys@[b].1@.len() == 3168
    }

    /// Builds the engine and fills the first stretch of the key schedule,
    /// starting at the bucket of `now`. Fails on a primary key that is
    /// not 32 bytes, and on random-generator failure.
    pub fn new(config: CryptoConfig, now: u64) -> (r: Result<Self, ImmutableEncryptionError>)
        ensures
            config.primary_key@.len() != 32 ==> r is Err,
            r matches Ok(e) ==> {
                &&& e.config == config
                &&& e.wf()
                &&& forall|b: int|
                    bucket_of(now, config.key_rotation_interval) <= b < bucket_of(
                        now,
                        config.key_rotation_interval,
                    ) + config.key_rotation_interval && b <= u64::MAX
                        ==> e.key_schedule@.contains_key(#[trigger] (b as u64))
                &&& config.quantum_resistant ==> forall|b: int|
                    bucket_of(now, config.key_rotation_interval) <= b < bucket_of(
                        now,
                        config.key_rotation_interval,
                    ) + config.key_rotation_interval && b <= u64::MAX
                        ==> e.quantum_keys@.contains_key(#[trigger] (b as u64))
            },
    {
        if config.primary_key.len() != 32 {
            return Err(ImmutableEncryptionError::crypto("primary key must be 32 bytes"));
        }
        let mut engine = EncryptionEngine {
            config,
            key_schedule: HashMap::new(),
            quantum_keys: HashMap::new(),
        };
        match engine.rotate_keys(now) {
            Ok(()) => Ok(engine),
            Err(e) => Err(e),
        }
    }

    /// Fills the schedule forward from the bucket of `now`: one fresh
    /// 32-byte key per bucket, and a fresh Kyber1024 keypair when the
    /// quantum layer is enabled. Buckets outside the refilled stretch
    /// keep their keys.
    pub fn rotate_keys(&mut self, now: u64) -> (r: Result<(), ImmutableEncryptionError>)
        requires
            old(self).wf(),
        ensures
            final(self).config == old(self).config,
            final(self).wf(),
            forall|b: u64|
                #[trigger] old(self).key_schedule@.contains_key(b)
                    ==> final(self).key_schedule@.contains_key(b),
            r is Ok ==> {
                let start = bucket_of(now, old(self).config.key_rotation_interval);
                &&& forall|b: int|
                    start <= b < start + old(self).config.key_rotation_interval && b <= u64::MAX
                        ==> final(self).key_schedule@.contains_key(#[trigger] (b as u64))
                &&& old(self).config.quantum_resistant ==> forall|b: int|
                    start <= b < start + old(self).config.key_rotation_interval && b <= u64::MAX
                        ==> final(self).quantum_keys@.contains_key(#[trigger] (b as u64))
            },
    {
        let interval = self.config.key_rotation_interval;
        let start = if interval == 0 {
            now
        } else {
            now / interval
        };
        let ghost start0 = start;
        let mut i: u64 = 0;
        while i < interval
            invariant
                self.wf(),
                self.config == old(self).config,
                interval == old(self).config.key_rotation_interval,
                start == start0,
                start0 == bucket_of(now, interval),
                0 <= i <= interval,
                forall|b: u64|
                    #[trigger] old(self).key_schedule@.contains_key(b)
                        ==> self.key_schedule@.contains_key(b),
                forall|b: int|
                    start0 <= b < start0 + i && b <= u64::MAX ==> self.key_schedule@.contains_key(
                        #[trigger] (b as u64),
                    ),
                old(self).config.quantum_resistant ==> forall|b: int|
                    start0 <= b < start0 + i && b <= u64::MAX ==> self.quantum_keys@.contains_key(
                        #[trigger] (b as u64),
                    ),
            decreases interval - i,
        {
            if start > u64::MAX - i {
                proof {
                    assert(start0 + i > u64::MAX);
                }
                return Ok(());
            }
            let b = start + i;
            let key = match random_bytes(32) {
                Ok(k) => k,
                Err(_) => {
                    return Err(ImmutableEncryptionError::crypto("random generator failure"));
                },
            };
            self.key_schedule.insert(b, key);
            if self.config.quantum_resistant {
                let (pk, sk) = kyber_keypair();
                self.quantum_keys.insert(b, (pk, sk));
            }
            i = i + 1;
        }
        Ok(())
    }

    /// Computes the content hash of a frame: BLAKE3 over SHA-256 of the
    /// frame's sequence, timestamp, payload, and canonical metadata.
    pub fn generate_frame_hash(&self, frame: &VideoFrame) -> (r: Result<
        String,
        ImmutableEncryptionError,
    >)
        ensures
            r matches Ok(h) && h@ == frame_hash_of(frame@) && h@.len() == 64 && forall|i: int|
                0 <= i < 64 ==> crate::is_hex_digit_char(#[trigger] h@[i]),
    {
        let mut msg: Vec<u8> = Vec::new();
        push_u64_be(&mut msg, frame.sequence);
        push_u64_be(&mut msg, frame.timestamp);
        msg.extend_from_slice(frame.data.as_slice());
        let meta = encode_canon_metadata(&frame.metadata);
        msg.extend_from_slice(meta.as_slice());
        proof {
            assert(msg@ =~= frame_msg(frame@));
        }
        let sha = sha256(msg.as_slice());
        let blake = blake3_hash(sha.as_slice());
        let out = hex_encode(blake.as_slice());
        proof {
            crate::bytes::lemma_hex_of_is_hex(blake@);
        }
        Ok(out)
    }

    /// Computes the chain link that binds a frame hash to its
    /// predecessor's hash and the sequence number.
    pub fn create_hash_chain_link(
        &self,
        current_hash: &str,
        previous_hash: &str,
        sequence: u64,
    ) -> (r: Result<String, ImmutableEncryptionError>)
        ensures
            r matches Ok(h) && h@ == chain_link_of(current_hash@, previous_hash@, sequence)
                && h@.len() == 64 && forall|i: int|
                0 <= i < 64 ==> crate::is_hex_digit_char(#[trigger] h@[i]),
    {
        let mut msg: Vec<u8> = Vec::new();
        msg.extend_from_slice(current_hash.as_bytes());
        msg.extend_from_slice(previous_hash.as_bytes());
        push_u64_be(&mut msg, sequence);
        proof {
            assert(msg@ =~= encode_utf8(current_hash@) + encode_utf8(previous_hash@)
                + u64_be_bytes(sequence));
        }
        let digest = sha256(msg.as_slice());
        let out = hex_encode(digest.as_slice());
        proof {
            crate::bytes::lemma_hex_of_is_hex(digest@);
        }
        Ok(out)
    }

    /// Encrypts a payload under the schedule key of the timestamp's
    /// bucket, with a fresh random 12-byte nonce. Fails when no key is
    /// scheduled for that bucket, on random-generator failure, and on a
    /// sealing failure.
    pub fn encrypt_data(&self, data: &[u8], timestamp: u64) -> (r: Result<
        (Vec<u8>, Vec<u8>),
        ImmutableEncryptionError,
    >)
        requires
            self.wf(),
        ensures
            !self.key_schedule@.contains_key(
                bucket_of(timestamp, self.config.key_rotation_interval),
            ) ==> r is Err,
            r matches Ok(p) ==> {
                let b = bucket_of(timestamp, self.config.key_rotation_interval);
                &&& self.key_schedule@.contains_key(b)
                &&& p.1@.len() == 12
                &&& p.0@ == aead_seal_of(self.key_schedule@[b]@, p.1@, data@)
                &&& p.0@.len() == data@.len() + 16
            },
    {
        let interval = self.config.key_rotation_interval;
        let b = if interval == 0 {
            timestamp
        } else {
            timestamp / interval
        };
        let key = match self.key_schedule.get(&b) {
            Some(k) => k,
            None => {
                return Err(ImmutableEncryptionError::crypto("no encryption key for timestamp"));
            },
        };
        let nonce = match random_bytes(12) {
            Ok(n) => n,
            Err(_) => {
                return Err(ImmutableEncryptionError::crypto("random generator failure"));
            },
        };
        let sealed = match aead_seal(key.as_slice(), nonce.as_slice(), data) {
            Ok(c) => c,
            Err(_) => {
                return Err(ImmutableEncryptionError::crypto("encryption failure"));
            },
        };
        Ok((sealed, nonce))
    }

    /// Reports whether the post-quantum layer stands for a timestamp:
    /// trivially true when disabled, otherwise true exactly when a
    /// quantum keypair is scheduled for the timestamp's bucket.
    pub fn verify_quantum_layer(&self, _encrypted_data: &[u8], timestamp: u64) -> (r: Result<
        bool,
        ImmutableEncryptionError,
    >)
        ensures
            r matches Ok(b) && b == (!self.config.quantum_resistant || self.quantum_keys@.contains_key(
                bucket_of(timestamp, self.config.key_rotation_interval),
            )),
    {
        if !self.config.quantum_resistant {
            return Ok(true);
        }
        let interval = self.config.key_rotation_interval;
        let b = if interval == 0 {
            timestamp
        } else {
            timestamp / interval
        };
        Ok(self.quantum_keys.contains_key(&b))
    }

    /// Computes the sequence-wide tamper proof: SHA-256 over each frame's
    /// hash, nonce, and sequence number, in order.
    pub fn generate_tamper_proof(&self, frames: &Vec<EncryptedFrame>) -> (r: Result<
        String,
        ImmutableEncryptionError,
    >)
        ensures
            r matches Ok(h) && h@ == tamper_proof_of(frames_view(frames@)),
    {
        let ghost s = frames_view(frames@);
        proof {
            assert(forall|j: int| 0 <= j < frames@.len() ==> #[trigger] s[j] == frames@[j]@);
        }
        let mut msg: Vec<u8> = Vec::new();
        proof {
            assert(msg@ =~= tamper_msg(s.take(0)));
        }
        for i in 0..frames.len()
            invariant
                s == frames_view(frames@),
                s.len() == frames@.len(),
                forall|j: int| 0 <= j < frames@.len() ==> #[trigger] s[j] == frames@[j]@,
                msg@ == tamper_msg(s.take(i as int)),
        {
            msg.extend_from_slice(frames[i].hash.as_str().as_bytes());
            msg.extend_from_slice(frames[i].nonce.as_slice());
            push_u64_be(&mut msg, frames[i].sequence);
            proof {
                assert(s.take(i as int + 1).drop_last() =~= s.take(i as int));
                assert(s.take(i as int + 1).last() == s[i as int]);
                assert(msg@ =~= tamper_msg(s.take(i as int + 1)));
            }
        }
        proof {
            assert(s.take(s.len() as int) =~= s);
        }
        let digest = sha256(msg.as_slice());
        Ok(hex_encode(digest.as_slice()))
    }
}

} // verus!

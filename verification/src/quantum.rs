//! The post-quantum layer: Kyber1024 key encapsulation around the
//! symmetric cipher, hybrid frame encryption, commitment Merkle roots,
//! and quantum-layer verification.

use vstd::prelude::*;

use crate::bytes::{hex_of, push_u64_be, u64_be_bytes};
use crate::codec::{dec_frame, decode_frame, enc_bytes, enc_frame, encode_frame};
use crate::error::ImmutableEncryptionError;
use crate::primitives::{
    aead_open, aead_open_of, aead_seal, aead_seal_of, blake3_hash, blake3_of, hex_encode,
    kyber_decap_of, kyber_decapsulate, kyber_encapsulate, kyber_keypair, random_bytes,
};
use crate::video::clone_frame;
use crate::{zero_hash, EncryptedFrame, EncryptedFrameView};

verus! {

/// Configuration of the post-quantum layer.
pub struct QuantumResistantConfig {
    pub enabled: bool,
    pub algorithm: QuantumAlgorithm,
    pub key_rotation_interval_hours: u64,
    /// Combine classical and post-quantum protection.
    pub hybrid_mode: bool,
    /// When to rely on the post-quantum layer alone.
    pub post_quantum_only_threshold: u64,
}

#[derive(Clone, Copy, Debug, PartialEq, Eq, Structural)]
pub enum QuantumAlgorithm {
    Kyber1024,
    NTRU,
    Dilithium,
    Falcon,
}

#[derive(Clone, Copy, Debug, PartialEq, Eq, Structural)]
pub enum QuantumSecurityLevel {
    Level1,
    Level2,
    Level3,
    Level4,
    Level5,
}

/// The display name of a security level.
pub open spec fn level_name_of(level: QuantumSecurityLevel) -> Seq<char> {
    match level {
        QuantumSecurityLevel::Level1 => "Classical Only"@,
        QuantumSecurityLevel::Level2 => "Basic Post-Quantum"@,
        QuantumSecurityLevel::Level3 => "Standard Post-Quantum"@,
        QuantumSecurityLevel::Level4 => "High Post-Quantum"@,
        QuantumSecurityLevel::Level5 => "Maximum Post-Quantum Security"@,
    }
}

/// The bit-security figure of a level.
pub open spec fn bit_security_of(level: QuantumSecurityLevel) -> u32 {
    match level {
        QuantumSecurityLevel::Level1 => 128,
        QuantumSecurityLevel::Level2 => 160,
        QuantumSecurityLevel::Level3 => 192,
        QuantumSecurityLevel::Level4 => 256,
        QuantumSecurityLevel::Level5 => 512,
    }
}

impl QuantumSecurityLevel {
    pub fn as_str(&self) -> (r: &'static str)
        ensures
            r@ == level_name_of(*self),
    {
        match self {
            QuantumSecurityLevel::Level1 => "Classical Only",
            QuantumSecurityLevel::Level2 => "Basic Post-Quantum",
            QuantumSecurityLevel::Level3 => "Standard Post-Quantum",
            QuantumSecurityLevel::Level4 => "High Post-Quantum",
            QuantumSecurityLevel::Level5 => "Maximum Post-Quantum Security",
        }
    }

    pub fn bit_security(&self) -> (r: u32)
        ensures
            r == bit_security_of(*self),
    {
        match self {
            QuantumSecurityLevel::Level1 => 128,
            QuantumSecurityLevel::Level2 => 160,
            QuantumSecurityLevel::Level3 => 192,
            QuantumSecurityLevel::Level4 => 256,
            QuantumSecurityLevel::Level5 => 512,
        }
    }
}

/// The security level a KEM algorithm provides.
pub open spec fn security_level_of(a: QuantumAlgorithm) -> QuantumSecurityLevel {
    match a {
        QuantumAlgorithm::Kyber1024 => QuantumSecurityLevel::Level5,
        QuantumAlgorithm::NTRU => QuantumSecurityLevel::Level4,
        QuantumAlgorithm::Dilithium => QuantumSecurityLevel::Level5,
        QuantumAlgorithm::Falcon => QuantumSecurityLevel::Level5,
    }
}

/// The conservative resistance estimate of an algorithm, in years.
pub open spec fn resistance_years_of(a: QuantumAlgorithm) -> u64 {
    match a {
        QuantumAlgorithm::Kyber1024 => 50,
        QuantumAlgorithm::NTRU => 45,
        QuantumAlgorithm::Dilithium => 50,
        QuantumAlgorithm::Falcon => 48,
    }
}

/// One quantum-protected payload: the KEM ciphertext that carries the
/// shared secret, and the symmetric sealing of the data under it.
pub struct QuantumEncapsulation {
    pub key_id: u64,
    pub ciphertext: Vec<u8>,
    pub quantum_ciphertext: Vec<u8>,
    pub nonce: Vec<u8>,
    pub algorithm: QuantumAlgorithm,
    pub timestamp: u64,
    pub quantum_signature: Vec<u8>,
}

#[verifier::ext_equal]
pub ghost struct QuantumEncapsulationView {
    pub key_id: u64,
    pub ciphertext: Seq<u8>,
    pub quantum_ciphertext: Seq<u8>,
    pub nonce: Seq<u8>,
    pub algorithm: QuantumAlgorithm,
    pub timestamp: u64,
    pub quantum_signature: Seq<u8>,
}

impl View for QuantumEncapsulation {
    type V = QuantumEncapsulationView;

    open spec fn view(&self) -> QuantumEncapsulationView {
        QuantumEncapsulationView {
            key_id: self.key_id,
            ciphertext: self.ciphertext@,
            quantum_ciphertext: self.quantum_ciphertext@,
            nonce: self.nonce@,
            algorithm: self.algorithm,
            timestamp: self.timestamp,
            quantum_signature: self.quantum_signature@,
        }
    }
}

/// A frame protected both classically and by the quantum layer.
pub struct HybridEncryptedFrame {
    pub original_frame: EncryptedFrame,
    pub quantum_encapsulation: QuantumEncapsulation,
    pub classical_backup: Vec<u8>,
    pub quantum_only: bool,
}

#[verifier::ext_equal]
pub ghost struct HybridEncryptedFrameView {
    pub original_frame: EncryptedFrameView,
    pub quantum_encapsulation: QuantumEncapsulationView,
    pub classical_backup: Seq<u8>,
    pub quantum_only: bool,
}

impl View for HybridEncryptedFrame {
    type V = HybridEncryptedFrameView;

    open spec fn view(&self) -> HybridEncryptedFrameView {
        HybridEncryptedFrameView {
            original_frame: self.original_frame@,
            quantum_encapsulation: self.quantum_encapsulation@,
            classical_backup: self.classical_backup@,
            quantum_only: self.quantum_only,
        }
    }
}

/// The view of a keypair store.
pub open spec fn kp_view(v: Seq<(u64, (Vec<u8>, Vec<u8>))>) -> Seq<(u64, (Seq<u8>, Seq<u8>))> {
    v.map_values(|p: (u64, (Vec<u8>, Vec<u8>))| (p.0, (p.1.0@, p.1.1@)))
}

/// The first keypair bound to `id`, if any.
pub open spec fn kp_lookup(entries: Seq<(u64, (Seq<u8>, Seq<u8>))>, id: u64) -> Option<
    (Seq<u8>, Seq<u8>),
>
    decreases entries.len(),
{
    if entries.len() == 0 {
        None
    } else if entries[0].0 == id {
        Some(entries[0].1)
    } else {
        kp_lookup(entries.drop_first(), id)
    }
}

/// The keypair-schedule bucket of a point in time.
pub open spec fn quantum_key_id_of(now: u64, hours: u64) -> u64 {
    if hours == 0 || hours > u64::MAX / 3600 {
        now
    } else {
        now / ((hours * 3600) as u64)
    }
}

/// The engine that manages Kyber1024 keypairs and wraps payloads in the
/// quantum layer.
pub struct QuantumCryptoEngine {
    pub config: QuantumResistantConfig,
    /// Keypairs by key id: (public key, secret key).
    pub key_pairs: Vec<(u64, (Vec<u8>, Vec<u8>))>,
    pub current_key_id: u64,
}

impl QuantumCryptoEngine {
    /// Every stored keypair has the Kyber1024 sizes.
    pub open spec fn wf(&self) -> bool {
        forall|i: int|
            0 <= i < self.key_pairs@.len() ==> (#[trigger] self.key_pairs@[i]).1.0@.len() == 1568
                && self.key_pairs@[i].1.1@.len() == 3168
    }

    /// Builds the engine with one fresh keypair for the key id of `now`.
    pub fn new(config: QuantumResistantConfig, now: u64) -> (r: Result<
        Self,
        ImmutableEncryptionError,
    >)
        ensures
            r matches Ok(e) ==> {
                &&& e.wf()
                &&& e.config == config
                &&& e.current_key_id == quantum_key_id_of(now, config.key_rotation_interval_hours)
                &&& kp_lookup(kp_view(e.key_pairs@), e.current_key_id) is Some
            },
    {
        let mut engine = QuantumCryptoEngine { config, key_pairs: Vec::new(), current_key_id: 0 };
        match engine.rotate_quantum_keys(now) {
            Ok(()) => Ok(engine),
            Err(e) => Err(e),
        }
    }

    /// Generates a fresh keypair for the key id of `now`, replacing any
    /// existing one, and drops the oldest keypair once more than two are
    /// held.
    pub fn rotate_quantum_keys(&mut self, now: u64) -> (r: Result<(), ImmutableEncryptionError>)
        requires
            old(self).wf(),
        ensures
            r is Ok,
            final(self).wf(),
            final(self).config == old(self).config,
            final(self).current_key_id == quantum_key_id_of(
                now,
                old(self).config.key_rotation_interval_hours,
            ),
            old(self).key_pairs@.len() <= 1 ==> kp_lookup(
                kp_view(final(self).key_pairs@),
                final(self).current_key_id,
            ) is Some,
    {
        let hours = self.config.key_rotation_interval_hours;
        let key_id = if hours == 0 || hours > u64::MAX / 3600 {
            now
        } else {
            now / (hours * 3600)
        };
        let (pk, sk) = kyber_keypair();
        let n = self.key_pairs.len();
        let mut i: usize = 0;
        let mut replaced = false;
        while i < n
            invariant
                self.wf(),
                self.config == old(self).config,
                n == self.key_pairs@.len(),
                self.key_pairs@.len() == old(self).key_pairs@.len(),
                replaced ==> kp_lookup(kp_view(self.key_pairs@), key_id) is Some,
                pk@.len() == 1568,
                sk@.len() == 3168,
                0 <= i <= n,
            decreases n - i,
        {
            if !replaced && self.key_pairs[i].0 == key_id {
                self.key_pairs.set(i, (key_id, (pk.clone(), sk.clone())));
                proof {
                    lemma_kp_lookup_present(kp_view(self.key_pairs@), i as int, key_id);
                }
                replaced = true;
            }
            i = i + 1;
        }
        if !replaced {
            self.key_pairs.push((key_id, (pk, sk)));
            proof {
                lemma_kp_lookup_present(
                    kp_view(self.key_pairs@),
                    self.key_pairs@.len() - 1,
                    key_id,
                );
            }
        }
        self.current_key_id = key_id;
        // Keep at most the two most recent keypairs for a smooth handover.
        if self.key_pairs.len() > 2 {
            let mut min_idx: usize = 0;
            let m = self.key_pairs.len();
            let mut j: usize = 1;
            while j < m
                invariant
                    m == self.key_pairs@.len(),
                    0 <= min_idx < m,
                    1 <= j <= m,
                decreases m - j,
            {
                if self.key_pairs[j].0 < self.key_pairs[min_idx].0 {
                    min_idx = j;
                }
                j = j + 1;
            }
            let _ = self.key_pairs.remove(min_idx);
        }
        Ok(())
    }

    /// Looks a keypair up by key id.
    fn lookup_keypair(&self, id: u64) -> (r: Option<&(u64, (Vec<u8>, Vec<u8>))>)
        ensures
            match r {
                Some(p) => kp_lookup(kp_view(self.key_pairs@), id) == Some((p.1.0@, p.1.1@))
                    && p.0 == id,
                None => kp_lookup(kp_view(self.key_pairs@), id) is None,
            },
    {
        let ghost kv = kp_view(self.key_pairs@);
        proof {
            assert(forall|k: int|
                0 <= k < self.key_pairs@.len() ==> #[trigger] kv[k] == (
                    self.key_pairs@[k].0,
                    (self.key_pairs@[k].1.0@, self.key_pairs@[k].1.1@),
                ));
            assert(kv.skip(0) =~= kv);
        }
        let n = self.key_pairs.len();
        let mut i: usize = 0;
        while i < n
            invariant
                kv == kp_view(self.key_pairs@),
                n == self.key_pairs@.len(),
                kv.len() == n,
                0 <= i <= n,
                forall|k: int|
                    0 <= k < self.key_pairs@.len() ==> #[trigger] kv[k] == (
                        self.key_pairs@[k].0,
                        (self.key_pairs@[k].1.0@, self.key_pairs@[k].1.1@),
                    ),
                kp_lookup(kv, id) == kp_lookup(kv.skip(i as int), id),
            decreases n - i,
        {
            proof {
                assert(kv.skip(i as int)[0] == kv[i as int]);
            }
            if self.key_pairs[i].0 == id {
                return Some(&self.key_pairs[i]);
            }
            proof {
                assert(kv.skip(i as int).drop_first() =~= kv.skip(i as int + 1));
            }
            i = i + 1;
        }
        proof {
            assert(kv.skip(n as int).len() == 0);
        }
        None
    }

    /// Seals `data` under the symmetric key derived from a shared secret,
    /// with a fresh nonce.
    fn encrypt_with_quantum_secret(&self, data: &[u8], secret: &[u8]) -> (r: Result<
        (Vec<u8>, Vec<u8>),
        ImmutableEncryptionError,
    >)
        ensures
            r matches Ok(p) ==> {
                &&& p.1@.len() == 12
                &&& p.0@ == aead_seal_of(blake3_of(secret@), p.1@, data@)
                &&& p.0@.len() == data@.len() + 16
            },
    {
        let key = blake3_hash(secret);
        let nonce = match random_bytes(12) {
            Ok(n) => n,
            Err(_) => {
                return Err(ImmutableEncryptionError::crypto("random generator failure"));
            },
        };
        let sealed = match aead_seal(key.as_slice(), nonce.as_slice(), data) {
            Ok(c) => c,
            Err(_) => {
                return Err(ImmutableEncryptionError::crypto("encryption failure"));
            },
        };
        Ok((sealed, nonce))
    }

    /// Opens a sealing made under the symmetric key derived from a shared
    /// secret; fails closed on a tag mismatch.
    fn decrypt_with_quantum_secret(&self, ciphertext: &[u8], nonce: &[u8], secret: &[u8]) -> (r:
        Result<Vec<u8>, ImmutableEncryptionError>)
        ensures
            r matches Ok(v) ==> nonce@.len() == 12 && aead_open_of(
                blake3_of(secret@),
                nonce@,
                ciphertext@,
            ) == Some(v@),
            nonce@.len() == 12 && aead_open_of(blake3_of(secret@), nonce@, ciphertext@) is None
                ==> r is Err,
    {
        if nonce.len() != 12 {
            return Err(ImmutableEncryptionError::crypto("nonce must be 12 bytes"));
        }
        let key = blake3_hash(secret);
        match aead_open(key.as_slice(), nonce, ciphertext) {
            Some(v) => Ok(v),
            None => Err(ImmutableEncryptionError::crypto("decryption failed")),
        }
    }

    /// Wraps `data` in the quantum layer: encapsulates a fresh shared
    /// secret to the keypair of `now` (or the current one), seals the
    /// data under it, and signs the secret.
    pub fn encapsulate(&self, data: &[u8], now: u64) -> (r: Result<
        QuantumEncapsulation,
        ImmutableEncryptionError,
    >)
        requires
            self.wf(),
        ensures
            kp_lookup(
                kp_view(self.key_pairs@),
                quantum_key_id_of(now, self.config.key_rotation_interval_hours),
            ) is None && kp_lookup(kp_view(self.key_pairs@), self.current_key_id) is None ==> r
                is Err,
            r matches Ok(e) ==> {
                &&& e.key_id == quantum_key_id_of(now, self.config.key_rotation_interval_hours)
                &&& e.nonce@.len() == 12
                &&& e.quantum_ciphertext@.len() == 1568
                &&& e.algorithm == self.config.algorithm
                &&& e.timestamp == now
                &&& exists|ss: Seq<u8>|
                    ss.len() == 32 && e.quantum_signature@ == blake3_of(ss) && e.ciphertext@
                        == aead_seal_of(blake3_of(ss), e.nonce@, data@) && e.ciphertext@.len()
                        == data@.len() + 16
            },
    {
        let hours = self.config.key_rotation_interval_hours;
        let key_id = if hours == 0 || hours > u64::MAX / 3600 {
            now
        } else {
            now / (hours * 3600)
        };
        let key_pair = match self.lookup_keypair(key_id) {
            Some(p) => p,
            None => {
                match self.lookup_keypair(self.current_key_id) {
                    Some(p) => p,
                    None => {
                        return Err(ImmutableEncryptionError::crypto("no quantum key available"));
                    },
                }
            },
        };
        proof {
            assert(key_pair.1.0@.len() == 1568) by {
                let kv = kp_view(self.key_pairs@);
                lemma_kp_lookup_sizes(kv, self.key_pairs@, key_pair.0);
            }
        }
        let (shared_secret, kem_ct) = match kyber_encapsulate(key_pair.1.0.as_slice()) {
            Ok(p) => p,
            Err(_) => {
                return Err(ImmutableEncryptionError::crypto("key encapsulation failure"));
            },
        };
        let (encrypted_data, nonce) = match self.encrypt_with_quantum_secret(
            data,
            shared_secret.as_slice(),
        ) {
            Ok(p) => p,
            Err(e) => {
                return Err(e);
            },
        };
        let signature = blake3_hash(shared_secret.as_slice());
        let ghost ss = shared_secret@;
        let result = QuantumEncapsulation {
            key_id,
            ciphertext: encrypted_data,
            quantum_ciphertext: kem_ct,
            nonce,
            algorithm: self.config.algorithm,
            timestamp: now,
            quantum_signature: signature,
        };
        proof {
            assert(ss.len() == 32 && result.quantum_signature@ == blake3_of(ss)
                && result.ciphertext@ == aead_seal_of(blake3_of(ss), result.nonce@, data@)
                && result.ciphertext@.len() == data@.len() + 16);
        }
        Ok(result)
    }

    /// Unwraps the quantum layer: recovers the shared secret with the
    /// stored secret key, checks the signature, and opens the sealing.
    pub fn decapsulate(&self, encapsulation: &QuantumEncapsulation) -> (r: Result<
        Vec<u8>,
        ImmutableEncryptionError,
    >)
        requires
            self.wf(),
        ensures
            kp_lookup(kp_view(self.key_pairs@), encapsulation.key_id) is None ==> r is Err,
            r matches Ok(v) ==> {
                let kp = kp_lookup(kp_view(self.key_pairs@), encapsulation.key_id);
                let ss = kyber_decap_of(kp.unwrap().1, encapsulation.quantum_ciphertext@);
                &&& kp is Some
                &&& encapsulation.quantum_signature@ == blake3_of(ss)
                &&& aead_open_of(blake3_of(ss), encapsulation.nonce@, encapsulation.ciphertext@)
                    == Some(v@)
            },
    {
        let key_pair = match self.lookup_keypair(encapsulation.key_id) {
            Some(p) => p,
            None => {
                return Err(ImmutableEncryptionError::crypto("quantum key not found for id"));
            },
        };
        let shared_secret = match kyber_decapsulate(
            key_pair.1.1.as_slice(),
            encapsulation.quantum_ciphertext.as_slice(),
        ) {
            Ok(s) => s,
            Err(_) => {
                return Err(ImmutableEncryptionError::crypto("key decapsulation failure"));
            },
        };
        let expected = blake3_hash(shared_secret.as_slice());
        if !bytes_eq(expected.as_slice(), encapsulation.quantum_signature.as_slice()) {
            return Err(ImmutableEncryptionError::crypto("invalid quantum signature"));
        }
        self.decrypt_with_quantum_secret(
            encapsulation.ciphertext.as_slice(),
            encapsulation.nonce.as_slice(),
            shared_secret.as_slice(),
        )
    }

    /// Protects a frame record both ways: the quantum layer wraps the
    /// serialized record, and a classical digest of it is kept beside.
    pub fn create_hybrid_encryption(&self, frame: &EncryptedFrame, now: u64) -> (r: Result<
        HybridEncryptedFrame,
        ImmutableEncryptionError,
    >)
        requires
            self.wf(),
        ensures
            r matches Ok(h) ==> {
                &&& h.original_frame@ == frame@
                &&& h.classical_backup@ == blake3_of(enc_frame(frame@))
                &&& h.quantum_only == false
                &&& h.quantum_encapsulation.timestamp == now
            },
    {
        let serialized = encode_frame(frame);
        let quantum_enc = match self.encapsulate(serialized.as_slice(), now) {
            Ok(e) => e,
            Err(e) => {
                return Err(e);
            },
        };
        let classical = blake3_hash(serialized.as_slice());
        Ok(
            HybridEncryptedFrame {
                original_frame: clone_frame(frame),
                quantum_encapsulation: quantum_enc,
                classical_backup: classical,
                quantum_only: false,
            },
        )
    }

    /// Recovers the frame record from its hybrid protection; there is no
    /// recovery path through the classical digest alone.
    pub fn decrypt_hybrid_encryption(&self, hybrid: &HybridEncryptedFrame) -> (r: Result<
        EncryptedFrame,
        ImmutableEncryptionError,
    >)
        requires
            self.wf(),
        ensures
            r matches Ok(f) ==> {
                let kp = kp_lookup(
                    kp_view(self.key_pairs@),
                    hybrid.quantum_encapsulation.key_id,
                );
                let ss = kyber_decap_of(
                    kp.unwrap().1,
                    hybrid.quantum_encapsulation.quantum_ciphertext@,
                );
                let opened = aead_open_of(
                    blake3_of(ss),
                    hybrid.quantum_encapsulation.nonce@,
                    hybrid.quantum_encapsulation.ciphertext@,
                );
                &&& kp is Some
                &&& opened is Some
                &&& dec_frame(opened.unwrap()) == Some(f@)
            },
    {
        let decrypted = match self.decapsulate(&hybrid.quantum_encapsulation) {
            Ok(v) => v,
            Err(e) => {
                return Err(e);
            },
        };
        match decode_frame(decrypted.as_slice()) {
            Some(f) => Ok(f),
            None => Err(ImmutableEncryptionError::crypto("quantum decryption failed")),
        }
    }

    pub fn get_quantum_security_level(&self) -> (r: QuantumSecurityLevel)
        ensures
            r == security_level_of(self.config.algorithm),
    {
        match self.config.algorithm {
            QuantumAlgorithm::Kyber1024 => QuantumSecurityLevel::Level5,
            QuantumAlgorithm::NTRU => QuantumSecurityLevel::Level4,
            QuantumAlgorithm::Dilithium => QuantumSecurityLevel::Level5,
            QuantumAlgorithm::Falcon => QuantumSecurityLevel::Level5,
        }
    }

    pub fn estimate_quantum_resistance_years(&self) -> (r: u64)
        ensures
            r == resistance_years_of(self.config.algorithm),
    {
        match self.config.algorithm {
            QuantumAlgorithm::Kyber1024 => 50,
            QuantumAlgorithm::NTRU => 45,
            QuantumAlgorithm::Dilithium => 50,
            QuantumAlgorithm::Falcon => 48,
        }
    }
}

/// The outcome of verifying the quantum layer over a batch.
pub struct QuantumVerificationResult {
    pub total_frames: usize,
    pub successful_verifications: usize,
    pub failed_verifications: usize,
    pub quantum_attack_resistance: bool,
    pub security_level: QuantumSecurityLevel,
    pub quantum_resistance_years: u64,
    pub verification_timestamp: u64,
    pub quantum_attacks_detected: u64,
}

/// A commitment to a batch of quantum-protected frames.
pub struct QuantumProof {
    pub merkle_root: String,
    pub security_level: QuantumSecurityLevel,
    pub algorithm_used: QuantumAlgorithm,
    pub frame_count: usize,
    pub proof_created: u64,
    pub quantum_resistance_years: u64,
    pub cryptographic_assumptions: Vec<String>,
}

/// A byte tag for each KEM algorithm, used in serialization.
pub open spec fn algorithm_tag_of(a: QuantumAlgorithm) -> u8 {
    match a {
        QuantumAlgorithm::Kyber1024 => 1,
        QuantumAlgorithm::NTRU => 2,
        QuantumAlgorithm::Dilithium => 3,
        QuantumAlgorithm::Falcon => 4,
    }
}

/// The serialization of one encapsulation, hashed into Merkle leaves.
pub open spec fn enc_encap(e: QuantumEncapsulationView) -> Seq<u8> {
    u64_be_bytes(e.key_id) + enc_bytes(e.ciphertext) + enc_bytes(e.quantum_ciphertext) + enc_bytes(
        e.nonce,
    ) + seq![algorithm_tag_of(e.algorithm)] + u64_be_bytes(e.timestamp) + enc_bytes(
        e.quantum_signature,
    )
}

/// Serializes one encapsulation.
pub fn encode_encapsulation(e: &QuantumEncapsulation) -> (r: Vec<u8>)
    ensures
        r@ == enc_encap(e@),
{
    let mut out: Vec<u8> = Vec::new();
    push_u64_be(&mut out, e.key_id);
    crate::codec::push_bytes_field(&mut out, e.ciphertext.as_slice());
    crate::codec::push_bytes_field(&mut out, e.quantum_ciphertext.as_slice());
    crate::codec::push_bytes_field(&mut out, e.nonce.as_slice());
    let tag: u8 = match e.algorithm {
        QuantumAlgorithm::Kyber1024 => 1,
        QuantumAlgorithm::NTRU => 2,
        QuantumAlgorithm::Dilithium => 3,
        QuantumAlgorithm::Falcon => 4,
    };
    out.push(tag);
    push_u64_be(&mut out, e.timestamp);
    crate::codec::push_bytes_field(&mut out, e.quantum_signature.as_slice());
    proof {
        assert(out@ =~= enc_encap(e@));
    }
    out
}

/// One reduction step of the Merkle tree: adjacent pairs are hashed
/// together; an odd trailing node is paired with itself.
pub open spec fn merkle_level(l: Seq<Seq<u8>>) -> Seq<Seq<u8>> {
    Seq::new(
        ((l.len() + 1) / 2) as nat,
        |i: int|
            if 2 * i + 1 < l.len() {
                blake3_of(l[2 * i] + l[2 * i + 1])
            } else {
                blake3_of(l[2 * i] + l[2 * i])
            },
    )
}

/// The Merkle root of a layer of hashes.
pub open spec fn merkle_root_of(l: Seq<Seq<u8>>) -> Seq<u8>
    decreases l.len(),
{
    if l.len() == 0 {
        Seq::<u8>::empty()
    } else if l.len() == 1 {
        l[0]
    } else {
        merkle_root_of(merkle_level(l))
    }
}

/// The Merkle leaves of a batch: the digest of each frame's
/// encapsulation, in order.
pub open spec fn hybrid_leaves(s: Seq<HybridEncryptedFrameView>) -> Seq<Seq<u8>> {
    s.map_values(|h: HybridEncryptedFrameView| blake3_of(enc_encap(h.quantum_encapsulation)))
}

/// The Merkle root of a batch, in lowercase hex; the all-zero string for
/// an empty batch.
pub open spec fn quantum_merkle_root_of(s: Seq<HybridEncryptedFrameView>) -> Seq<char> {
    if s.len() == 0 {
        zero_hash()
    } else {
        hex_of(merkle_root_of(hybrid_leaves(s)))
    }
}

/// The views of a batch of hybrid frames.
pub open spec fn hybrids_view(frames: Seq<HybridEncryptedFrame>) -> Seq<HybridEncryptedFrameView> {
    frames.map_values(|h: HybridEncryptedFrame| h@)
}

/// The fixed list of hardness assumptions a quantum proof rests on.
pub open spec fn assumptions_list() -> Seq<Seq<char>> {
    seq![
        "Lattice problems remain hard for quantum computers"@,
        "Shortest Vector Problem (SVP) resistance"@,
        "Learning With Errors (LWE) security"@,
    ]
}

/// Verifies the quantum layer over batches and commits to them.
pub struct QuantumVerificationEngine {
    pub quantum_engine: QuantumCryptoEngine,
}

impl QuantumVerificationEngine {
    pub fn new(config: QuantumResistantConfig, now: u64) -> (r: Result<
        Self,
        ImmutableEncryptionError,
    >)
        ensures
            r matches Ok(e) ==> e.quantum_engine.wf() && e.quantum_engine.config == config,
    {
        let engine = match QuantumCryptoEngine::new(config, now) {
            Ok(e) => e,
            Err(e) => {
                return Err(e);
            },
        };
        Ok(QuantumVerificationEngine { quantum_engine: engine })
    }

    /// Attempts to unwrap every frame's quantum layer and tallies the
    /// outcomes; a signature mismatch anywhere marks the batch as not
    /// quantum-attack resistant.
    pub fn verify_quantum_integrity(&self, frames: &Vec<HybridEncryptedFrame>, now: u64) -> (r:
        Result<QuantumVerificationResult, ImmutableEncryptionError>)
        requires
            self.quantum_engine.wf(),
        ensures
            r matches Ok(v) ==> {
                &&& v.total_frames == frames@.len()
                &&& v.successful_verifications + v.failed_verifications == frames@.len()
                &&& v.security_level == security_level_of(self.quantum_engine.config.algorithm)
                &&& v.quantum_resistance_years == resistance_years_of(
                    self.quantum_engine.config.algorithm,
                )
                &&& v.verification_timestamp == now
                &&& v.quantum_attacks_detected == 0
            },
    {
        let mut successful: usize = 0;
        let mut failed: usize = 0;
        let mut resistant = true;
        let bad_signature = String::from_str("invalid quantum signature");
        for i in 0..frames.len()
            invariant
                self.quantum_engine.wf(),
                successful + failed == i,
                i <= frames@.len(),
        {
            match self.quantum_engine.decapsulate(&frames[i].quantum_encapsulation) {
                Ok(_) => {
                    successful = successful + 1;
                },
                Err(e) => {
                    failed = failed + 1;
                    if e.message() == bad_signature {
                        resistant = false;
                    }
                },
            }
        }
        Ok(
            QuantumVerificationResult {
                total_frames: frames.len(),
                successful_verifications: successful,
                failed_verifications: failed,
                quantum_attack_resistance: resistant,
                security_level: self.quantum_engine.get_quantum_security_level(),
                quantum_resistance_years: self.quantum_engine.estimate_quantum_resistance_years(),
                verification_timestamp: now,
                quantum_attacks_detected: 0,
            },
        )
    }

    /// Commits to a batch: the Merkle root over the frames'
    /// encapsulations, with the algorithm's security figures.
    pub fn generate_quantum_proof(&self, frames: &Vec<HybridEncryptedFrame>, now: u64) -> (r:
        Result<QuantumProof, ImmutableEncryptionError>)
        ensures
            r matches Ok(p) ==> {
                &&& p.merkle_root@ == quantum_merkle_root_of(hybrids_view(frames@))
                &&& p.security_level == security_level_of(self.quantum_engine.config.algorithm)
                &&& p.algorithm_used == self.quantum_engine.config.algorithm
                &&& p.frame_count == frames@.len()
                &&& p.proof_created == now
                &&& p.quantum_resistance_years == resistance_years_of(
                    self.quantum_engine.config.algorithm,
                )
                &&& p.cryptographic_assumptions@.map_values(|a: String| a@) == assumptions_list()
            },
    {
        let merkle_root = self.create_quantum_merkle_root(frames);
        let mut assumptions: Vec<String> = Vec::new();
        assumptions.push(String::from_str("Lattice problems remain hard for quantum computers"));
        assumptions.push(String::from_str("Shortest Vector Problem (SVP) resistance"));
        assumptions.push(String::from_str("Learning With Errors (LWE) security"));
        proof {
            assert(assumptions@.map_values(|a: String| a@) =~= assumptions_list());
        }
        Ok(
            QuantumProof {
                merkle_root,
                security_level: self.quantum_engine.get_quantum_security_level(),
                algorithm_used: self.quantum_engine.config.algorithm,
                frame_count: frames.len(),
                proof_created: now,
                quantum_resistance_years: self.quantum_engine.estimate_quantum_resistance_years(),
                cryptographic_assumptions: assumptions,
            },
        )
    }

    /// Builds the Merkle root over the batch's encapsulation digests.
    fn create_quantum_merkle_root(&self, frames: &Vec<HybridEncryptedFrame>) -> (r: String)
        ensures
            r@ == quantum_merkle_root_of(hybrids_view(frames@)),
    {
        let ghost hv = hybrids_view(frames@);
        proof {
            assert(forall|k: int| 0 <= k < frames@.len() ==> #[trigger] hv[k] == frames@[k]@);
        }
        if frames.len() == 0 {
            return crate::zero_hash_string();
        }
        let mut layer: Vec<Vec<u8>> = Vec::new();
        for i in 0..frames.len()
            invariant
                hv == hybrids_view(frames@),
                hv.len() == frames@.len(),
                forall|k: int| 0 <= k < frames@.len() ==> #[trigger] hv[k] == frames@[k]@,
                layer@.len() == i,
                forall|k: int|
                    0 <= k < i ==> (#[trigger] layer@[k])@ == hybrid_leaves(hv)[k],
        {
            let encoded = encode_encapsulation(&frames[i].quantum_encapsulation);
            layer.push(blake3_hash(encoded.as_slice()));
        }
        let ghost leaves = hybrid_leaves(hv);
        proof {
            assert(layer@.map_values(|v: Vec<u8>| v@) =~= leaves);
        }
        while layer.len() > 1
            invariant
                layer@.len() >= 1,
                merkle_root_of(layer@.map_values(|v: Vec<u8>| v@)) == merkle_root_of(leaves),
            decreases layer@.len(),
        {
            let ghost cur = layer@.map_values(|v: Vec<u8>| v@);
            let n = layer.len();
            let next_len = n / 2 + n % 2;
            proof {
                assert(next_len == (n + 1) as int / 2);
            }
            let mut next: Vec<Vec<u8>> = Vec::new();
            let mut i: usize = 0;
            while i < next_len
                invariant
                    cur == layer@.map_values(|v: Vec<u8>| v@),
                    n == layer@.len(),
                    n >= 2,
                    cur.len() == n,
                    next_len == (n + 1) / 2,
                    forall|k: int| 0 <= k < n ==> (#[trigger] layer@[k])@ == cur[k],
                    0 <= i <= next_len,
                    next@.len() == i,
                    forall|k: int|
                        0 <= k < i ==> (#[trigger] next@[k])@ == merkle_level(cur)[k],
                decreases next_len - i,
            {
                let mut pair: Vec<u8> = Vec::new();
                pair.extend_from_slice(layer[2 * i].as_slice());
                if 2 * i + 1 < n {
                    pair.extend_from_slice(layer[2 * i + 1].as_slice());
                    proof {
                        assert(pair@ =~= cur[2 * (i as int)] + cur[2 * (i as int) + 1]);
                    }
                } else {
                    pair.extend_from_slice(layer[2 * i].as_slice());
                    proof {
                        assert(pair@ =~= cur[2 * (i as int)] + cur[2 * (i as int)]);
                    }
                }
                next.push(blake3_hash(pair.as_slice()));
                proof {
                    assert(next@[next@.len() - 1]@ == merkle_level(cur)[i as int]);
                }
                i = i + 1;
            }
            layer = next;
            proof {
                assert(layer@.map_values(|v: Vec<u8>| v@) =~= merkle_level(cur));
                assert(merkle_root_of(cur) == merkle_root_of(merkle_level(cur)));
            }
        }
        proof {
            let cur = layer@.map_values(|v: Vec<u8>| v@);
            assert(cur.len() == 1);
            assert(merkle_root_of(cur) == cur[0]);
            assert(layer@[0]@ == cur[0]);
        }
        let root = hex_encode(layer[0].as_slice());
        proof {
            assert(root@ == quantum_merkle_root_of(hv));
        }
        root
    }
}


/// Compares two byte strings.
pub fn bytes_eq(a: &[u8], b: &[u8]) -> (r: bool)
    ensures
        r == (a@ == b@),
{
    if a.len() != b.len() {
        return false;
    }
    let n = a.len();
    let mut i: usize = 0;
    while i < n
        invariant
            n == a@.len(),
            a@.len() == b@.len(),
            0 <= i <= n,
            forall|j: int| 0 <= j < i ==> a@[j] == b@[j],
        decreases n - i,
    {
        if a[i] != b[i] {
            return false;
        }
        i = i + 1;
    }
    proof {
        assert(a@ =~= b@);
    }
    true
}

/// A keypair stored at a position is found by its id when no earlier
/// entry shares it; its sizes then come from the store's invariant.
proof fn lemma_kp_lookup_present(entries: Seq<(u64, (Seq<u8>, Seq<u8>))>, i: int, id: u64)
    requires
        0 <= i < entries.len(),
        entries[i].0 == id,
    ensures
        kp_lookup(entries, id) is Some,
    decreases i,
{
    if entries[0].0 == id {
    } else {
        lemma_kp_lookup_present(entries.drop_first(), i - 1, id);
    }
}

/// Whatever `kp_lookup` finds in a well-sized store has the Kyber1024
/// sizes.
proof fn lemma_kp_lookup_sizes(
    entries: Seq<(u64, (Seq<u8>, Seq<u8>))>,
    backing: Seq<(u64, (Vec<u8>, Vec<u8>))>,
    id: u64,
)
    requires
        entries == kp_view(backing),
        forall|i: int|
            0 <= i < backing.len() ==> (#[trigger] backing[i]).1.0@.len() == 1568
                && backing[i].1.1@.len() == 3168,
    ensures
        kp_lookup(entries, id) matches Some(p) ==> p.0.len() == 1568 && p.1.len() == 3168,
    decreases backing.len(),
{
    if backing.len() > 0 {
        assert(entries[0] == (backing[0].0, (backing[0].1.0@, backing[0].1.1@)));
        if entries[0].0 != id {
            assert(entries.drop_first() =~= kp_view(backing.drop_first()));
            lemma_kp_lookup_sizes(entries.drop_first(), backing.drop_first(), id);
        }
    }
}

} // verus!

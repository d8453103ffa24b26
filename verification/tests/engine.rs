use immutable_encryption::crypto::{CryptoConfig, EncryptionEngine};
use sha2::Digest;
use immutable_encryption::error::ImmutableEncryptionError;
use immutable_encryption::quantum::{
    QuantumAlgorithm, QuantumCryptoEngine, QuantumResistantConfig, QuantumSecurityLevel,
    QuantumVerificationEngine,
};
use immutable_encryption::{EncryptedFrame, FrameMetadata, VideoFrame};

fn test_metadata() -> FrameMetadata {
    FrameMetadata {
        device_id: "test-camera-01".to_string(),
        location: Some((40_712_800, -74_006_000)),
        resolution: (1920, 1080),
        fps: 30,
        codec: "H.264".to_string(),
    }
}

fn quantum_config() -> QuantumResistantConfig {
    QuantumResistantConfig {
        enabled: true,
        algorithm: QuantumAlgorithm::Kyber1024,
        key_rotation_interval_hours: 24,
        hybrid_mode: true,
        post_quantum_only_threshold: 10,
    }
}

#[test]
fn test_frame_hash_generation() -> Result<(), ImmutableEncryptionError> {
    let config = CryptoConfig {
        primary_key: vec![0u8; 32],
        key_rotation_interval: 60,
        quantum_resistant: false,
        hardware_backed: false,
    };

    let engine = EncryptionEngine::new(config, 1640995200)?;

    let frame = VideoFrame {
        timestamp: 1640995200,
        sequence: 1,
        data: vec![1, 2, 3, 4],
        metadata: test_metadata(),
    };

    let hash1 = engine.generate_frame_hash(&frame)?;
    let hash2 = engine.generate_frame_hash(&frame);

    assert_eq!(hash1, hash2?);
    assert_eq!(hash1.len(), 64);

    Ok(())
}

#[test]
fn test_hash_chain_link() -> Result<(), ImmutableEncryptionError> {
    let config = CryptoConfig {
        primary_key: vec![0u8; 32],
        key_rotation_interval: 60,
        quantum_resistant: false,
        hardware_backed: false,
    };

    let engine = EncryptionEngine::new(config, 1640995200)?;

    let prev_hash = "a1b2c3d4e5f6";
    let current_hash = "f6e5d4c3b2a1";
    let sequence = 42;

    let chain_link = engine.create_hash_chain_link(current_hash, prev_hash, sequence)?;

    assert_ne!(chain_link, current_hash);
    assert_ne!(chain_link, prev_hash);
    assert_eq!(chain_link.len(), 64);

    Ok(())
}

// The chain link must be exactly SHA-256 over the hash bytes, the
// previous-hash bytes, and the big-endian sequence number, in lowercase
// hex; computed here independently of the library.
#[test]
fn chain_link_matches_reference_digest() {
    let config = CryptoConfig {
        primary_key: vec![0u8; 32],
        key_rotation_interval: 60,
        quantum_resistant: false,
        hardware_backed: false,
    };
    let engine = EncryptionEngine::new(config, 0).unwrap();
    let link = engine.create_hash_chain_link("abc", "def", 7).unwrap();

    let mut msg: Vec<u8> = Vec::new();
    msg.extend_from_slice(b"abc");
    msg.extend_from_slice(b"def");
    msg.extend_from_slice(&7u64.to_be_bytes());
    let expected = hex::encode(sha2::Sha256::digest(&msg));
    assert_eq!(link, expected);
}

// The frame hash must be BLAKE3 over SHA-256 of the canonical frame
// bytes; computed here independently of the library.
#[test]
fn frame_hash_matches_reference_digest() {
    let config = CryptoConfig {
        primary_key: vec![0u8; 32],
        key_rotation_interval: 60,
        quantum_resistant: false,
        hardware_backed: false,
    };
    let engine = EncryptionEngine::new(config, 0).unwrap();
    let frame = VideoFrame {
        timestamp: 1000,
        sequence: 5,
        data: vec![9, 8, 7],
        metadata: FrameMetadata {
            device_id: "cam".to_string(),
            location: None,
            resolution: (640, 480),
            fps: 25,
            codec: "raw".to_string(),
        },
    };
    let hash = engine.generate_frame_hash(&frame).unwrap();

    let mut msg: Vec<u8> = Vec::new();
    msg.extend_from_slice(&5u64.to_be_bytes());
    msg.extend_from_slice(&1000u64.to_be_bytes());
    msg.extend_from_slice(&[9, 8, 7]);
    // Canonical metadata: tag, device id (length-prefixed), location tag,
    // resolution, fps, codec bytes.
    msg.push(1u8);
    msg.extend_from_slice(&3u64.to_be_bytes());
    msg.extend_from_slice(b"cam");
    msg.push(0u8);
    msg.extend_from_slice(&640u64.to_be_bytes());
    msg.extend_from_slice(&480u64.to_be_bytes());
    msg.extend_from_slice(&25u64.to_be_bytes());
    msg.extend_from_slice(b"raw");
    let sha = sha2::Sha256::digest(&msg);
    let expected = hex::encode(blake3::hash(&sha).as_bytes());
    assert_eq!(hash, expected);
}

#[test]
fn encryption_is_not_deterministic() {
    let config = CryptoConfig {
        primary_key: vec![0u8; 32],
        key_rotation_interval: 60,
        quantum_resistant: false,
        hardware_backed: false,
    };
    let engine = EncryptionEngine::new(config, 1000).unwrap();
    let (ct1, nonce1) = engine.encrypt_data(&[1, 2, 3], 1000).unwrap();
    let (ct2, nonce2) = engine.encrypt_data(&[1, 2, 3], 1000).unwrap();
    assert_eq!(nonce1.len(), 12);
    assert_eq!(ct1.len(), 3 + 16);
    assert_ne!(nonce1, nonce2);
    assert_ne!(ct1, ct2);
}

#[test]
fn encrypt_data_without_scheduled_key_fails() {
    let config = CryptoConfig {
        primary_key: vec![0u8; 32],
        key_rotation_interval: 60,
        quantum_resistant: false,
        hardware_backed: false,
    };
    // Keys are scheduled from the bucket of second 1000 onward; second 0
    // falls before the schedule.
    let engine = EncryptionEngine::new(config, 100_000).unwrap();
    assert!(engine.encrypt_data(&[1], 0).is_err());
}

#[test]
fn engine_rejects_short_primary_key() {
    let config = CryptoConfig {
        primary_key: vec![0u8; 16],
        key_rotation_interval: 60,
        quantum_resistant: false,
        hardware_backed: false,
    };
    match EncryptionEngine::new(config, 0) {
        Err(ImmutableEncryptionError::Crypto(_)) => {}
        _ => panic!("a 16-byte primary key must be rejected"),
    }
}

#[test]
fn quantum_layer_reflects_schedule() -> Result<(), ImmutableEncryptionError> {
    let config = CryptoConfig {
        primary_key: vec![0u8; 32],
        key_rotation_interval: 60,
        quantum_resistant: true,
        hardware_backed: false,
    };
    let engine = EncryptionEngine::new(config, 6000)?;
    assert!(engine.verify_quantum_layer(&[1, 2], 6000)?);
    assert!(!engine.verify_quantum_layer(&[1, 2], 0)?);

    let disabled = CryptoConfig {
        primary_key: vec![0u8; 32],
        key_rotation_interval: 60,
        quantum_resistant: false,
        hardware_backed: false,
    };
    let engine = EncryptionEngine::new(disabled, 6000)?;
    assert!(engine.verify_quantum_layer(&[1, 2], 0)?);
    Ok(())
}

#[test]
fn tamper_proof_matches_reference_digest() {
    let config = CryptoConfig {
        primary_key: vec![0u8; 32],
        key_rotation_interval: 60,
        quantum_resistant: false,
        hardware_backed: false,
    };
    let engine = EncryptionEngine::new(config, 0).unwrap();
    let frames = vec![EncryptedFrame {
        sequence: 3,
        ciphertext: vec![1],
        hash: "ab".to_string(),
        previous_hash: "cd".to_string(),
        nonce: vec![5; 12],
        timestamp: 77,
        blockchain_anchors: vec![],
    }];
    let proof = engine.generate_tamper_proof(&frames).unwrap();

    let mut msg: Vec<u8> = Vec::new();
    msg.extend_from_slice(b"ab");
    msg.extend_from_slice(&[5; 12]);
    msg.extend_from_slice(&3u64.to_be_bytes());
    assert_eq!(proof, hex::encode(sha2::Sha256::digest(&msg)));
}

// The standard HMAC-SHA256 test vector: a 20-byte 0x0b key over
// "Hi There".
#[test]
fn hmac_matches_reference_vector() {
    let key = [0x0bu8; 20];
    let mac = immutable_encryption::primitives::hmac_sha256(&key, b"Hi There");
    assert_eq!(
        hex::encode(mac),
        "b0344c61d8db38535ca8afceaf0bf12b881dc200c9833da726e9376c2e32cff7"
    );
}

#[test]
fn test_quantum_encapsulation() -> Result<(), ImmutableEncryptionError> {
    let config = quantum_config();

    let engine = QuantumCryptoEngine::new(config, 1640995200)?;

    let test_data = b"This is test data for quantum encryption";
    let encapsulation = engine.encapsulate(test_data, 1640995200)?;

    assert!(encapsulation.key_id > 0);
    assert!(!encapsulation.ciphertext.is_empty());
    assert_eq!(encapsulation.algorithm, QuantumAlgorithm::Kyber1024);

    // Test decapsulation
    let decrypted = engine.decapsulate(&encapsulation)?;
    assert_eq!(decrypted, test_data);

    Ok(())
}

#[test]
fn test_hybrid_encryption() -> Result<(), ImmutableEncryptionError> {
    let config = quantum_config();

    let engine = QuantumCryptoEngine::new(config, 1640995200)?;

    let frame = EncryptedFrame {
        sequence: 1,
        ciphertext: vec![1, 2, 3, 4],
        hash: "test_hash_123".repeat(32),
        previous_hash: "prev_hash_123".repeat(32),
        nonce: vec![0, 1, 2, 3],
        timestamp: 1640995200,
        blockchain_anchors: vec![],
    };

    let hybrid = engine.create_hybrid_encryption(&frame, 1640995200)?;

    assert!(!hybrid.quantum_encapsulation.quantum_ciphertext.is_empty());
    assert!(!hybrid.classical_backup.is_empty());
    assert!(!hybrid.quantum_only);

    // Test decryption
    let decrypted = engine.decrypt_hybrid_encryption(&hybrid)?;
    assert_eq!(decrypted.sequence, frame.sequence);
    assert_eq!(decrypted.ciphertext, frame.ciphertext);

    Ok(())
}

#[test]
fn tampered_quantum_signature_is_rejected() {
    let engine = QuantumCryptoEngine::new(quantum_config(), 1640995200).unwrap();
    let mut enc = engine.encapsulate(b"payload", 1640995200).unwrap();
    enc.quantum_signature[0] ^= 0xff;
    match engine.decapsulate(&enc) {
        Err(ImmutableEncryptionError::Crypto(m)) => {
            assert_eq!(m, "invalid quantum signature");
        }
        _ => panic!("a tampered signature must be rejected"),
    }
}

#[test]
fn decapsulate_with_unknown_key_id_fails() {
    let engine = QuantumCryptoEngine::new(quantum_config(), 1640995200).unwrap();
    let mut enc = engine.encapsulate(b"payload", 1640995200).unwrap();
    enc.key_id += 1;
    assert!(engine.decapsulate(&enc).is_err());
}

// The batch commitment: the all-zero root for an empty batch, a stable
// 64-character hex root otherwise.
#[test]
fn quantum_merkle_root_shape() {
    let engine = QuantumVerificationEngine::new(quantum_config(), 1640995200).unwrap();
    let proof_empty = engine.generate_quantum_proof(&vec![], 10).unwrap();
    assert_eq!(proof_empty.merkle_root, "0".repeat(64));
    assert_eq!(proof_empty.frame_count, 0);
    assert_eq!(proof_empty.proof_created, 10);
    assert_eq!(proof_empty.cryptographic_assumptions.len(), 3);

    let frame = EncryptedFrame {
        sequence: 1,
        ciphertext: vec![1, 2, 3, 4],
        hash: "a".repeat(64),
        previous_hash: "0".repeat(64),
        nonce: vec![0; 12],
        timestamp: 1640995200,
        blockchain_anchors: vec![],
    };
    let hybrid = engine
        .quantum_engine
        .create_hybrid_encryption(&frame, 1640995200)
        .unwrap();
    let hybrid_copy = engine
        .quantum_engine
        .create_hybrid_encryption(&frame, 1640995200)
        .unwrap();
    let p1 = engine.generate_quantum_proof(&vec![hybrid], 11).unwrap();
    assert_eq!(p1.merkle_root.len(), 64);
    assert_ne!(p1.merkle_root, "0".repeat(64));
    // Distinct encapsulations (fresh secrets) give distinct roots.
    let p2 = engine.generate_quantum_proof(&vec![hybrid_copy], 11).unwrap();
    assert_ne!(p1.merkle_root, p2.merkle_root);

    let verdict = engine
        .verify_quantum_integrity(&vec![], 12)
        .unwrap();
    assert_eq!(verdict.total_frames, 0);
    assert_eq!(verdict.verification_timestamp, 12);
}

#[test]
fn security_levels_describe_algorithms() {
    let engine = QuantumCryptoEngine::new(quantum_config(), 0).unwrap();
    let level = engine.get_quantum_security_level();
    assert_eq!(level, QuantumSecurityLevel::Level5);
    assert_eq!(level.as_str(), "Maximum Post-Quantum Security");
    assert_eq!(level.bit_security(), 512);
    assert_eq!(QuantumSecurityLevel::Level1.as_str(), "Classical Only");
    assert_eq!(QuantumSecurityLevel::Level1.bit_security(), 128);
    assert_eq!(engine.estimate_quantum_resistance_years(), 50);
}

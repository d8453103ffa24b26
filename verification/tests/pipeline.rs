use immutable_encryption::blockchain::{anchor_to_all, make_anchor, verify_all_anchors, bitcoin_anchor_payload};
use immutable_encryption::codec::{decode_frame, encode_frame};
use immutable_encryption::crypto::CryptoConfig;
use immutable_encryption::error::ImmutableEncryptionError;
use immutable_encryption::storage::{fallback_cid, generate_frame_key, generate_metadata_key, generate_replica_pointer_key};
use immutable_encryption::verification::{VerificationConfig, VerificationEngine};
use immutable_encryption::video::{attach_anchor_results, sort_frames_by_sequence, RealTimeEncryptionNode};
use immutable_encryption::{BlockchainAnchor, EncryptedFrame, FrameMetadata, VideoFrame};

fn crypto_config() -> CryptoConfig {
    CryptoConfig {
        primary_key: vec![0u8; 32],
        key_rotation_interval: 60,
        quantum_resistant: false,
        hardware_backed: false,
    }
}

fn video_frame(sequence: u64, timestamp: u64, data: Vec<u8>) -> VideoFrame {
    VideoFrame {
        timestamp,
        sequence,
        data,
        metadata: FrameMetadata {
            device_id: "cam-1".to_string(),
            location: Some((40_712_800, -74_006_000)),
            resolution: (1920, 1080),
            fps: 30,
            codec: "H.264".to_string(),
        },
    }
}

fn checker() -> VerificationEngine {
    VerificationEngine::new(VerificationConfig {
        strict_mode: false,
        quantum_verification: false,
        hardware_attestation: false,
        min_confirmations: Vec::new(),
    })
}

// Two frames through the pipeline: the first links to the zero hash, the
// second to the first, and the pair verifies clean.
#[test]
fn two_frames_chain_and_verify() -> Result<(), ImmutableEncryptionError> {
    let mut node = RealTimeEncryptionNode::new(crypto_config(), 1000)?;
    let ef1 = node.process_frame(&video_frame(1, 1000, vec![0x01]))?;
    let ef2 = node.process_frame(&video_frame(2, 1001, vec![0x02]))?;

    assert_eq!(ef1.previous_hash, "0".repeat(64));
    assert_eq!(ef2.previous_hash, ef1.hash);
    assert_eq!(ef1.hash.len(), 64);
    assert!(!ef1.ciphertext.is_empty());
    assert_eq!(ef1.nonce.len(), 12);

    let frames = vec![ef1, ef2];
    let v = checker();
    assert!(v.verify_hash_chain(&frames)?);
    assert!(v.detect_tampering(&frames)?.is_none());
    let result = v.verify_integrity(&frames, &vec![], 2000)?;
    assert!(result.is_valid);
    assert_eq!(result.frame_count, 2);
    Ok(())
}

// Changing a stored frame's hash is caught by verification.
#[test]
fn hash_mutation_is_detected() -> Result<(), ImmutableEncryptionError> {
    let mut node = RealTimeEncryptionNode::new(crypto_config(), 1000)?;
    let mut ef1 = node.process_frame(&video_frame(1, 1000, vec![0x01]))?;
    let ef2 = node.process_frame(&video_frame(2, 1001, vec![0x02]))?;
    ef1.hash = "e".repeat(64);
    let frames = vec![ef1, ef2];
    let result = checker().verify_integrity(&frames, &vec![], 2000)?;
    assert!(!result.is_valid);
    assert!(result.tamper_evidence.is_some());
    Ok(())
}

// Serialization round-trips a frame record byte for byte.
#[test]
fn frame_codec_round_trip() {
    let frame = EncryptedFrame {
        sequence: 9,
        ciphertext: vec![1, 2, 3, 4, 5],
        hash: "a".repeat(64),
        previous_hash: "0".repeat(64),
        nonce: vec![7; 12],
        timestamp: 1234,
        blockchain_anchors: vec![BlockchainAnchor {
            chain: "bitcoin".to_string(),
            transaction_hash: "tx-1".to_string(),
            block_number: 42,
            timestamp: 1300,
            proof: "bitcoin-proof:tx-1:42".to_string(),
        }],
    };
    let bytes = encode_frame(&frame);
    let decoded = decode_frame(&bytes).expect("an encoding must decode");
    assert_eq!(decoded.sequence, frame.sequence);
    assert_eq!(decoded.ciphertext, frame.ciphertext);
    assert_eq!(decoded.hash, frame.hash);
    assert_eq!(decoded.previous_hash, frame.previous_hash);
    assert_eq!(decoded.nonce, frame.nonce);
    assert_eq!(decoded.timestamp, frame.timestamp);
    assert_eq!(decoded.blockchain_anchors.len(), 1);
    assert_eq!(decoded.blockchain_anchors[0].chain, "bitcoin");
    assert_eq!(decoded.blockchain_anchors[0].transaction_hash, "tx-1");
    assert_eq!(decoded.blockchain_anchors[0].block_number, 42);
    // The round trip is exact: re-encoding gives the same bytes.
    assert_eq!(encode_frame(&decoded), bytes);
}

#[test]
fn truncated_encoding_is_rejected() {
    let frame = EncryptedFrame {
        sequence: 9,
        ciphertext: vec![1, 2, 3],
        hash: "a".repeat(64),
        previous_hash: "0".repeat(64),
        nonce: vec![7; 12],
        timestamp: 1234,
        blockchain_anchors: vec![],
    };
    let bytes = encode_frame(&frame);
    assert!(decode_frame(&bytes[..bytes.len() - 1]).is_none());
    let mut extended = bytes.clone();
    extended.push(0);
    assert!(decode_frame(&extended).is_none());
}

// Storage keys follow the documented layout.
#[test]
fn storage_keys_layout() {
    let frame = EncryptedFrame {
        sequence: 7,
        ciphertext: vec![1],
        hash: String::new(),
        previous_hash: String::new(),
        nonce: vec![],
        timestamp: 1234,
        blockchain_anchors: vec![],
    };
    assert_eq!(generate_frame_key(&frame), "frame:7:1234");
    assert_eq!(generate_metadata_key("case-1"), "metadata:case-1");
    assert_eq!(generate_replica_pointer_key("frame:7:1234"), "ipfs:frame:7:1234");
}

// Retrieval falls back to the replica exactly for replica identifiers.
#[test]
fn retrieval_fallback_decision() {
    assert_eq!(fallback_cid("ipfs:QmXxxYyyZzz"), Some("QmXxxYyyZzz".to_string()));
    assert_eq!(fallback_cid("frame:1:1000"), None);
    assert_eq!(fallback_cid("ipfs"), None);
    assert_eq!(fallback_cid("ipfs:"), Some(String::new()));
}

// All chains succeeding yields every anchor; one failure with partial
// results forbidden yields the outcomes instead, and nothing to persist.
#[test]
fn anchoring_aggregation() {
    let bitcoin = make_anchor("bitcoin", "tx-b", 10, 500);
    let outcomes = vec![
        ("bitcoin".to_string(), Some(bitcoin)),
        ("ethereum".to_string(), None),
    ];
    match anchor_to_all(outcomes, false) {
        Err(e) => {
            assert_eq!(e.outcomes.len(), 2);
            assert!(e.outcomes[1].1.is_none());
        }
        Ok(_) => panic!("a failing chain without partial results must fail the attempt"),
    }

    let bitcoin = make_anchor("bitcoin", "tx-b", 10, 500);
    let outcomes = vec![
        ("bitcoin".to_string(), Some(bitcoin)),
        ("ethereum".to_string(), None),
    ];
    let anchors = match anchor_to_all(outcomes, true) {
        Ok(a) => a,
        Err(_) => panic!("partial results are permitted"),
    };
    assert_eq!(anchors.len(), 1);
    assert_eq!(anchors[0].chain, "bitcoin");

    let bitcoin = make_anchor("bitcoin", "tx-b", 10, 500);
    let ethereum = make_anchor("ethereum", "tx-e", 11, 501);
    let outcomes = vec![
        ("bitcoin".to_string(), Some(bitcoin)),
        ("ethereum".to_string(), Some(ethereum)),
    ];
    let anchors = match anchor_to_all(outcomes, false) {
        Ok(a) => a,
        Err(_) => panic!("all chains succeeded"),
    };
    assert_eq!(anchors.len(), 2);
    assert_eq!(anchors[1].chain, "ethereum");
    assert_eq!(anchors[1].proof, "ethereum-proof:tx-e:11");
}

// Anchor verification dispatches known chains and rejects unknown ones.
#[test]
fn anchor_verification_dispatch() {
    let anchors = vec![
        make_anchor("bitcoin", "tx-b", 10, 500),
        make_anchor("ethereum", "tx-e", 11, 501),
        make_anchor("sidechain", "tx-s", 12, 502),
    ];
    let results = verify_all_anchors(&anchors, &vec![true, false, true]);
    assert_eq!(
        results,
        vec![
            ("bitcoin".to_string(), true),
            ("ethereum".to_string(), false),
            ("sidechain".to_string(), false),
        ]
    );
}

#[test]
fn bitcoin_payload_layout() {
    assert_eq!(
        bitcoin_anchor_payload("deadbeef", "cam-1", 99),
        "ANCHOR:deadbeef:cam-1:99"
    );
}

// Batches are sorted by sequence before anchoring, and anchor results
// attach by index.
#[test]
fn batch_sort_and_attach() {
    let mk = |seq: u64| EncryptedFrame {
        sequence: seq,
        ciphertext: vec![1],
        hash: format!("{:064}", seq),
        previous_hash: "0".repeat(64),
        nonce: vec![0; 12],
        timestamp: seq,
        blockchain_anchors: vec![],
    };
    let mut frames = vec![mk(3), mk(1), mk(2)];
    sort_frames_by_sequence(&mut frames);
    assert_eq!(frames[0].sequence, 1);
    assert_eq!(frames[1].sequence, 2);
    assert_eq!(frames[2].sequence, 3);

    let results = vec![
        Some(vec![make_anchor("bitcoin", "tx-1", 10, 500)]),
        None,
        Some(vec![make_anchor("ethereum", "tx-3", 11, 501)]),
    ];
    attach_anchor_results(&mut frames, &results);
    assert_eq!(frames[0].blockchain_anchors.len(), 1);
    assert_eq!(frames[0].blockchain_anchors[0].transaction_hash, "tx-1");
    assert!(frames[1].blockchain_anchors.is_empty());
    assert_eq!(frames[2].blockchain_anchors[0].transaction_hash, "tx-3");
}

// Out-of-order input is the producer's fault; the pipeline refuses to
// process it only through its contract, so the embedding program checks
// order first. Frames arriving in order always chain.
#[test]
fn long_ordered_run_stays_valid() -> Result<(), ImmutableEncryptionError> {
    let mut node = RealTimeEncryptionNode::new(crypto_config(), 1000)?;
    let mut frames = Vec::new();
    for i in 0..20u64 {
        frames.push(node.process_frame(&video_frame(i + 1, 1000 + i, vec![i as u8]))?);
    }
    let v = checker();
    assert!(v.verify_hash_chain(&frames)?);
    assert!(v.detect_tampering(&frames)?.is_none());
    Ok(())
}

use immutable_encryption::config::Config;
use immutable_encryption::error::ImmutableEncryptionError;
use immutable_encryption::verification::{VerificationConfig, VerificationEngine, ZeroKnowledgeVerifier};
use immutable_encryption::{BlockchainAnchor, EncryptedFrame};

fn engine() -> VerificationEngine {
    VerificationEngine::new(VerificationConfig {
        strict_mode: true,
        quantum_verification: false,
        hardware_attestation: false,
        min_confirmations: Vec::new(),
    })
}

fn frame(sequence: u64, timestamp: u64, hash: &str, previous_hash: &str) -> EncryptedFrame {
    EncryptedFrame {
        sequence,
        ciphertext: vec![1, 2, 3],
        hash: hash.to_string(),
        previous_hash: previous_hash.to_string(),
        nonce: vec![0; 12],
        timestamp,
        blockchain_anchors: vec![],
    }
}

#[test]
fn test_hash_chain_verification() -> Result<(), ImmutableEncryptionError> {
    let verifier = engine();

    let frames = vec![
        EncryptedFrame {
            sequence: 1,
            ciphertext: vec![1, 2, 3],
            hash: "a".repeat(64),
            previous_hash: "0".repeat(64),
            nonce: vec![0; 12],
            timestamp: 1000,
            blockchain_anchors: vec![],
        },
        EncryptedFrame {
            sequence: 2,
            ciphertext: vec![4, 5, 6],
            hash: "b".repeat(64),
            previous_hash: "a".repeat(64),
            nonce: vec![1; 12],
            timestamp: 1001,
            blockchain_anchors: vec![],
        },
    ];

    let result = verifier.verify_hash_chain(&frames)?;
    assert!(result);

    Ok(())
}

#[test]
fn test_default_config() {
    let config = Config::default();
    assert!(config.validate().is_ok());
}

#[test]
fn invalid_configs_are_rejected() {
    let mut config = Config::default();
    config.server.port = 0;
    match config.validate() {
        Err(ImmutableEncryptionError::Config(_)) => {}
        _ => panic!("a zero port must be rejected"),
    }
    let mut config = Config::default();
    config.storage.database_path = String::new();
    assert!(config.validate().is_err());
}

// A sequence gap is reported with both offending sequence numbers.
#[test]
fn sequence_gap_is_reported() -> Result<(), ImmutableEncryptionError> {
    let verifier = engine();
    let f1 = frame(1, 1000, &"a".repeat(64), &"0".repeat(64));
    let f3 = frame(3, 1002, &"c".repeat(64), &"a".repeat(64));
    let frames = vec![f1, f3];

    let finding = verifier.detect_tampering(&frames)?.expect("a gap must be found");
    assert_eq!(finding, "Sequence gap detected: frame 1 to 3");
    assert!(finding.contains("1"));
    assert!(finding.contains("3"));
    let result = verifier.verify_integrity(&frames, &vec![], 50)?;
    assert!(!result.is_valid);
    Ok(())
}

// A hash-chain break is reported as such.
#[test]
fn hash_chain_break_is_reported() -> Result<(), ImmutableEncryptionError> {
    let verifier = engine();
    let f1 = frame(1, 1000, &"a".repeat(64), &"0".repeat(64));
    let f2 = frame(2, 1001, &"b".repeat(64), &"f".repeat(64));
    let frames = vec![f1, f2];

    assert!(!verifier.verify_hash_chain(&frames)?);
    let finding = verifier.detect_tampering(&frames)?.expect("a break must be found");
    assert_eq!(finding, "Hash chain break between frame 1 and 2");
    Ok(())
}

// A duplicated hash is reported as a replay.
#[test]
fn duplicate_hash_is_reported() -> Result<(), ImmutableEncryptionError> {
    let verifier = engine();
    let f1 = frame(1, 1000, &"a".repeat(64), &"0".repeat(64));
    let f2 = frame(2, 1001, &"a".repeat(64), &"a".repeat(64));
    let frames = vec![f1, f2];

    let finding = verifier.detect_tampering(&frames)?.expect("a duplicate must be found");
    assert!(finding.contains("Duplicate frame detected"));
    let result = verifier.verify_integrity(&frames, &vec![], 60)?;
    assert!(!result.is_valid);
    Ok(())
}

// A single well-formed frame verifies as valid.
#[test]
fn single_frame_sequence_verifies() -> Result<(), ImmutableEncryptionError> {
    let verifier = engine();
    let frames = vec![frame(1, 1000, &"a".repeat(64), &"0".repeat(64))];
    assert!(verifier.verify_hash_chain(&frames)?);
    let result = verifier.verify_integrity(&frames, &vec![], 70)?;
    assert!(result.is_valid);
    assert_eq!(result.frame_count, 1);
    assert!(result.tamper_evidence.is_none());
    Ok(())
}

// Verification is repeatable: the same sequence yields the same verdict,
// count, and finding.
#[test]
fn verification_is_repeatable() -> Result<(), ImmutableEncryptionError> {
    let verifier = engine();
    let f1 = frame(1, 1000, &"a".repeat(64), &"0".repeat(64));
    let f3 = frame(3, 1002, &"c".repeat(64), &"a".repeat(64));
    let frames = vec![f1, f3];
    let r1 = verifier.verify_integrity(&frames, &vec![], 80)?;
    let r2 = verifier.verify_integrity(&frames, &vec![], 80)?;
    assert_eq!(r1.is_valid, r2.is_valid);
    assert_eq!(r1.frame_count, r2.frame_count);
    assert_eq!(r1.tamper_evidence, r2.tamper_evidence);
    Ok(())
}

// Malformed fields fail the cryptographic-integrity check.
#[test]
fn malformed_fields_fail_integrity() -> Result<(), ImmutableEncryptionError> {
    let verifier = engine();
    let mut bad_hash = frame(1, 1000, "zz", &"0".repeat(64));
    bad_hash.hash = "g".repeat(64);
    assert!(!verifier.verify_cryptographic_integrity(&vec![bad_hash])?);

    let mut bad_nonce = frame(1, 1000, &"a".repeat(64), &"0".repeat(64));
    bad_nonce.nonce = vec![0; 11];
    assert!(!verifier.verify_cryptographic_integrity(&vec![bad_nonce])?);

    let mut empty_ct = frame(1, 1000, &"a".repeat(64), &"0".repeat(64));
    empty_ct.ciphertext = Vec::new();
    assert!(!verifier.verify_cryptographic_integrity(&vec![empty_ct])?);

    let good = frame(1, 1000, &"a".repeat(64), &"0".repeat(64));
    assert!(verifier.verify_cryptographic_integrity(&vec![good])?);
    Ok(())
}

// An empty sequence yields a report with empty custody chain, no proofs,
// and the standard compliance attestations.
#[test]
fn empty_sequence_court_report() -> Result<(), ImmutableEncryptionError> {
    let verifier = engine();
    let report = verifier.generate_court_report("case-7".to_string(), &vec![], 90)?;
    assert_eq!(report.evidence_id, "case-7");
    assert!(report.chain_of_custody.is_empty());
    assert!(report.cryptographic_proofs.is_empty());
    assert_eq!(report.generated_at, 90);
    assert_eq!(report.legal_compliance.standards_met.len(), 4);
    assert_eq!(report.legal_compliance.standards_met[0], "ISO/IEC 27037:2012");
    assert_eq!(report.legal_compliance.certifications.len(), 2);
    assert_eq!(report.legal_compliance.jurisdiction_compliance.len(), 3);
    Ok(())
}

// The custody chain and proof strings follow the documented layout.
#[test]
fn court_report_layout() -> Result<(), ImmutableEncryptionError> {
    let verifier = engine();
    let mut f1 = frame(1, 1000, &"a".repeat(64), &"0".repeat(64));
    f1.blockchain_anchors.push(BlockchainAnchor {
        chain: "bitcoin".to_string(),
        transaction_hash: "tx1".to_string(),
        block_number: 5,
        timestamp: 1500,
        proof: "p1".to_string(),
    });
    let f2 = frame(2, 1001, &"b".repeat(64), &"a".repeat(64));
    let frames = vec![f1, f2];
    let report = verifier.generate_court_report("case-9".to_string(), &frames, 95)?;

    assert_eq!(report.chain_of_custody.len(), 2);
    assert_eq!(report.chain_of_custody[0].actor, "capturing_device");
    assert_eq!(report.chain_of_custody[0].action, "initial_capture");
    assert_eq!(report.chain_of_custody[0].signature, "device_signature_1");
    assert_eq!(report.chain_of_custody[0].blockchain_reference, "tx1");
    assert_eq!(report.chain_of_custody[1].actor, "verification_system");
    assert_eq!(report.chain_of_custody[1].action, "blockchain_anchor");
    assert_eq!(report.chain_of_custody[1].blockchain_reference, "tx1");

    assert_eq!(report.cryptographic_proofs.len(), 3);
    let expected_span = format!("hash_chain_{}_to_{}", "a".repeat(64), "b".repeat(64));
    assert_eq!(report.cryptographic_proofs[0], expected_span);
    assert_eq!(report.cryptographic_proofs[1], "blockchain_proof_bitcoin_tx1");
    assert_eq!(report.cryptographic_proofs[2], "timestamp_range_1000_1001");
    Ok(())
}

// Anchors with a non-zero block number are counted per chain.
#[test]
fn blockchain_confirmations_are_counted() -> Result<(), ImmutableEncryptionError> {
    let verifier = VerificationEngine::new(VerificationConfig {
        strict_mode: false,
        quantum_verification: false,
        hardware_attestation: false,
        min_confirmations: Vec::new(),
    });
    let mut f1 = frame(1, 1000, &"a".repeat(64), &"0".repeat(64));
    f1.blockchain_anchors.push(BlockchainAnchor {
        chain: "bitcoin".to_string(),
        transaction_hash: "tx1".to_string(),
        block_number: 5,
        timestamp: 1500,
        proof: "p1".to_string(),
    });
    f1.blockchain_anchors.push(BlockchainAnchor {
        chain: "ethereum".to_string(),
        transaction_hash: "tx2".to_string(),
        block_number: 0,
        timestamp: 1500,
        proof: "p2".to_string(),
    });
    let counts = verifier.verify_blockchain_confirmations(&vec![f1], &vec![])?;
    assert_eq!(counts, vec![("bitcoin".to_string(), 1)]);
    Ok(())
}

// In strict mode an anchor counts only when the chain-reported
// confirmations reach the configured minimum.
#[test]
fn strict_mode_consults_reported_confirmations() -> Result<(), ImmutableEncryptionError> {
    let verifier = VerificationEngine::new(VerificationConfig {
        strict_mode: true,
        quantum_verification: false,
        hardware_attestation: false,
        min_confirmations: vec![("bitcoin".to_string(), 6)],
    });
    let mut f1 = frame(1, 1000, &"a".repeat(64), &"0".repeat(64));
    f1.blockchain_anchors.push(BlockchainAnchor {
        chain: "bitcoin".to_string(),
        transaction_hash: "tx1".to_string(),
        block_number: 5,
        timestamp: 1500,
        proof: "p1".to_string(),
    });
    let too_few = verifier.verify_blockchain_confirmations(
        &vec![frame_with(&f1)],
        &vec![("tx1".to_string(), 3)],
    )?;
    assert!(too_few.is_empty());
    let enough = verifier.verify_blockchain_confirmations(
        &vec![f1],
        &vec![("tx1".to_string(), 6)],
    )?;
    assert_eq!(enough, vec![("bitcoin".to_string(), 1)]);
    Ok(())
}

fn frame_with(f: &EncryptedFrame) -> EncryptedFrame {
    EncryptedFrame {
        sequence: f.sequence,
        ciphertext: f.ciphertext.clone(),
        hash: f.hash.clone(),
        previous_hash: f.previous_hash.clone(),
        nonce: f.nonce.clone(),
        timestamp: f.timestamp,
        blockchain_anchors: f
            .blockchain_anchors
            .iter()
            .map(|a| BlockchainAnchor {
                chain: a.chain.clone(),
                transaction_hash: a.transaction_hash.clone(),
                block_number: a.block_number,
                timestamp: a.timestamp,
                proof: a.proof.clone(),
            })
            .collect(),
    }
}

// The commitment proof has the documented shape and verifies only with
// public inputs present.
#[test]
fn authenticity_proof_round_trip() -> Result<(), ImmutableEncryptionError> {
    let verifier = ZeroKnowledgeVerifier::new(VerificationConfig {
        strict_mode: true,
        quantum_verification: false,
        hardware_attestation: false,
        min_confirmations: Vec::new(),
    });
    let frames = vec![frame(1, 1000, &"a".repeat(64), &"0".repeat(64))];
    let commitment = verifier.generate_authenticity_proof(&frames)?;
    assert!(commitment.starts_with("zk_proof_"));
    assert_eq!(commitment.len(), "zk_proof_".len() + 64);
    assert!(verifier.verify_authenticity_proof(&commitment, &vec!["input".to_string()])?);
    assert!(!verifier.verify_authenticity_proof(&commitment, &vec![])?);
    assert!(!verifier.verify_authenticity_proof(&"bogus".to_string(), &vec!["x".to_string()])?);
    Ok(())
}

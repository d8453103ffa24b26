//! Tamper-evident video frame records: hash-chained encrypted frames,
//! blockchain anchors, redundant storage, and a verification engine that
//! checks a retrieved sequence and synthesizes a court report.

pub mod blockchain;
pub mod bytes;
pub mod codec;
pub mod config;
pub mod crypto;
pub mod error;
pub mod laws;
pub mod primitives;
pub mod quantum;
pub mod storage;
pub mod verification;
pub mod video;

use vstd::prelude::*;

verus! {

/// A raw captured frame, as handed in by a producer.
pub struct VideoFrame {
    pub timestamp: u64,
    pub sequence: u64,
    pub data: Vec<u8>,
    pub metadata: FrameMetadata,
}

/// Capture-device metadata. Coordinates are carried in microdegrees so
/// that the record stays exact and comparable.
pub struct FrameMetadata {
    pub device_id: String,
    pub location: Option<(i64, i64)>,
    pub resolution: (u32, u32),
    pub fps: u32,
    pub codec: String,
}

/// The durable record the pipeline produces for one frame.
pub struct EncryptedFrame {
    pub sequence: u64,
    pub ciphertext: Vec<u8>,
    pub hash: String,
    pub previous_hash: String,
    pub nonce: Vec<u8>,
    pub timestamp: u64,
    pub blockchain_anchors: Vec<BlockchainAnchor>,
}

/// A durable external commitment of a hash to one blockchain.
pub struct BlockchainAnchor {
    pub chain: String,
    pub transaction_hash: String,
    pub block_number: u64,
    pub timestamp: u64,
    pub proof: String,
}

/// The outcome of verifying a retrieved frame sequence.
pub struct VerificationResult {
    pub is_valid: bool,
    pub frame_count: u64,
    pub blockchain_confirmations: Vec<(String, u64)>,
    pub tamper_evidence: Option<String>,
    pub court_report: CourtReport,
}

/// A deterministic forensic summary of a verified sequence.
pub struct CourtReport {
    pub evidence_id: String,
    pub chain_of_custody: Vec<CustodyEntry>,
    pub cryptographic_proofs: Vec<String>,
    pub legal_compliance: LegalCompliance,
    pub generated_at: u64,
}

/// One step in the chain of custody.
pub struct CustodyEntry {
    pub timestamp: u64,
    pub actor: String,
    pub action: String,
    pub signature: String,
    pub blockchain_reference: String,
}

/// Static compliance attestations included in every court report.
pub struct LegalCompliance {
    pub standards_met: Vec<String>,
    pub certifications: Vec<String>,
    pub jurisdiction_compliance: Vec<String>,
}

// Mathematical views of the record types.

#[verifier::ext_equal]
pub ghost struct FrameMetadataView {
    pub device_id: Seq<char>,
    pub location: Option<(i64, i64)>,
    pub resolution: (u32, u32),
    pub fps: u32,
    pub codec: Seq<char>,
}

impl View for FrameMetadata {
    type V = FrameMetadataView;

    open spec fn view(&self) -> FrameMetadataView {
        FrameMetadataView {
            device_id: self.device_id@,
            location: self.location,
            resolution: self.resolution,
            fps: self.fps,
            codec: self.codec@,
        }
    }
}

#[verifier::ext_equal]
pub ghost struct VideoFrameView {
    pub timestamp: u64,
    pub sequence: u64,
    pub data: Seq<u8>,
    pub metadata: FrameMetadataView,
}

impl View for VideoFrame {
    type V = VideoFrameView;

    open spec fn view(&self) -> VideoFrameView {
        VideoFrameView {
            timestamp: self.timestamp,
            sequence: self.sequence,
            data: self.data@,
            metadata: self.metadata@,
        }
    }
}

#[verifier::ext_equal]
pub ghost struct AnchorView {
    pub chain: Seq<char>,
    pub transaction_hash: Seq<char>,
    pub block_number: u64,
    pub timestamp: u64,
    pub proof: Seq<char>,
}

impl View for BlockchainAnchor {
    type V = AnchorView;

    open spec fn view(&self) -> AnchorView {
        AnchorView {
            chain: self.chain@,
            transaction_hash: self.transaction_hash@,
            block_number: self.block_number,
            timestamp: self.timestamp,
            proof: self.proof@,
        }
    }
}

#[verifier::ext_equal]
pub ghost struct EncryptedFrameView {
    pub sequence: u64,
    pub ciphertext: Seq<u8>,
    pub hash: Seq<char>,
    pub previous_hash: Seq<char>,
    pub nonce: Seq<u8>,
    pub timestamp: u64,
    pub blockchain_anchors: Seq<AnchorView>,
}

impl View for EncryptedFrame {
    type V = EncryptedFrameView;

    open spec fn view(&self) -> EncryptedFrameView {
        EncryptedFrameView {
            sequence: self.sequence,
            ciphertext: self.ciphertext@,
            hash: self.hash@,
            previous_hash: self.previous_hash@,
            nonce: self.nonce@,
            timestamp: self.timestamp,
            blockchain_anchors: self.blockchain_anchors@.map_values(|a: BlockchainAnchor| a@),
        }
    }
}

#[verifier::ext_equal]
pub ghost struct CustodyEntryView {
    pub timestamp: u64,
    pub actor: Seq<char>,
    pub action: Seq<char>,
    pub signature: Seq<char>,
    pub blockchain_reference: Seq<char>,
}

impl View for CustodyEntry {
    type V = CustodyEntryView;

    open spec fn view(&self) -> CustodyEntryView {
        CustodyEntryView {
            timestamp: self.timestamp,
            actor: self.actor@,
            action: self.action@,
            signature: self.signature@,
            blockchain_reference: self.blockchain_reference@,
        }
    }
}

#[verifier::ext_equal]
pub ghost struct LegalComplianceView {
    pub standards_met: Seq<Seq<char>>,
    pub certifications: Seq<Seq<char>>,
    pub jurisdiction_compliance: Seq<Seq<char>>,
}

impl View for LegalCompliance {
    type V = LegalComplianceView;

    open spec fn view(&self) -> LegalComplianceView {
        LegalComplianceView {
            standards_met: self.standards_met@.map_values(|s: String| s@),
            certifications: self.certifications@.map_values(|s: String| s@),
            jurisdiction_compliance: self.jurisdiction_compliance@.map_values(|s: String| s@),
        }
    }
}

#[verifier::ext_equal]
pub ghost struct CourtReportView {
    pub evidence_id: Seq<char>,
    pub chain_of_custody: Seq<CustodyEntryView>,
    pub cryptographic_proofs: Seq<Seq<char>>,
    pub legal_compliance: LegalComplianceView,
    pub generated_at: u64,
}

impl View for CourtReport {
    type V = CourtReportView;

    open spec fn view(&self) -> CourtReportView {
        CourtReportView {
            evidence_id: self.evidence_id@,
            chain_of_custody: self.chain_of_custody@.map_values(|e: CustodyEntry| e@),
            cryptographic_proofs: self.cryptographic_proofs@.map_values(|s: String| s@),
            legal_compliance: self.legal_compliance@,
            generated_at: self.generated_at,
        }
    }
}

#[verifier::ext_equal]
pub ghost struct VerificationResultView {
    pub is_valid: bool,
    pub frame_count: u64,
    pub blockchain_confirmations: Seq<(Seq<char>, u64)>,
    pub tamper_evidence: Option<Seq<char>>,
    pub court_report: CourtReportView,
}

impl View for VerificationResult {
    type V = VerificationResultView;

    open spec fn view(&self) -> VerificationResultView {
        VerificationResultView {
            is_valid: self.is_valid,
            frame_count: self.frame_count,
            blockchain_confirmations: self.blockchain_confirmations@.map_values(
                |e: (String, u64)| (e.0@, e.1),
            ),
            tamper_evidence: match self.tamper_evidence {
                Some(m) => Some(m@),
                None => None,
            },
            court_report: self.court_report@,
        }
    }
}

/// The views of a sequence of frames.
pub open spec fn frames_view(frames: Seq<EncryptedFrame>) -> Seq<EncryptedFrameView> {
    frames.map_values(|f: EncryptedFrame| f@)
}

/// Whether `c` is an ASCII hexadecimal digit.
pub open spec fn is_hex_digit_char(c: char) -> bool {
    (48 <= c as u32 && c as u32 <= 57) || (97 <= c as u32 && c as u32 <= 102) || (65 <= c as u32
        && c as u32 <= 70)
}

/// The 64-character all-zero hash that seeds every chain.
pub open spec fn zero_hash() -> Seq<char> {
    Seq::new(64, |i: int| '0')
}

/// Field-format well-formedness of one stored frame: 64-character hex
/// hash, 12-byte nonce, non-empty ciphertext.
pub open spec fn frame_well_formed(f: EncryptedFrameView) -> bool {
    &&& f.hash.len() == 64
    &&& forall|i: int| 0 <= i < 64 ==> is_hex_digit_char(#[trigger] f.hash[i])
    &&& f.nonce.len() == 12
    &&& f.ciphertext.len() > 0
}

/// Hash-chain validity of a frame sequence: consecutive sequence numbers,
/// strictly increasing timestamps, and each frame's `previous_hash` equal
/// to its predecessor's `hash`.
pub open spec fn chain_ok(frames: Seq<EncryptedFrameView>) -> bool {
    forall|i: int|
        0 <= i < frames.len() - 1 ==> {
            &&& (#[trigger] frames[i + 1]).previous_hash == frames[i].hash
            &&& frames[i + 1].sequence == frames[i].sequence + 1
            &&& frames[i + 1].timestamp > frames[i].timestamp
        }
}

/// Returns the canonical 64-character zero hash string.
pub fn zero_hash_string() -> (r: String)
    ensures
        r@ == zero_hash(),
{
    let r = String::from_str(
        "0000000000000000000000000000000000000000000000000000000000000000",
    );
    proof {
        reveal_strlit("0000000000000000000000000000000000000000000000000000000000000000");
        assert(r@ =~= zero_hash());
    }
    r
}

} // verus!

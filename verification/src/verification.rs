//! The verification engine: pure checks over retrieved frame sequences
//! and deterministic court-report synthesis.

use vstd::prelude::*;

use crate::bytes::dec_str;
use crate::bytes::u64_to_dec_string;
use crate::{
    chain_ok, frame_well_formed, frames_view, is_hex_digit_char, AnchorView, CourtReport,
    CourtReportView, CustodyEntry, CustodyEntryView, EncryptedFrame, EncryptedFrameView,
    LegalCompliance, LegalComplianceView, VerificationResult,
};

verus! {

/// Tunables of the verification engine.
pub struct VerificationConfig {
    pub strict_mode: bool,
    pub quantum_verification: bool,
    pub hardware_attestation: bool,
    /// Per-chain minimum confirmation counts, as an association list.
    pub min_confirmations: Vec<(String, u64)>,
}

/// First value bound to `key` in an association list, if any.
pub open spec fn assoc_lookup(entries: Seq<(Seq<char>, u64)>, key: Seq<char>) -> Option<u64>
    decreases entries.len(),
{
    if entries.len() == 0 {
        None
    } else if entries[0].0 == key {
        Some(entries[0].1)
    } else {
        assoc_lookup(entries.drop_first(), key)
    }
}

/// The view of an association list from `String` keys.
pub open spec fn assoc_view(entries: Seq<(String, u64)>) -> Seq<(Seq<char>, u64)> {
    entries.map_values(|e: (String, u64)| (e.0@, e.1))
}

/// Looks `key` up in an association list.
pub fn assoc_get(entries: &Vec<(String, u64)>, key: &String) -> (r: Option<u64>)
    ensures
        r == assoc_lookup(assoc_view(entries@), key@),
{
    let ghost s = assoc_view(entries@);
    proof {
        assert(s.skip(0) =~= s);
    }
    for i in 0..entries.len()
        invariant
            s == assoc_view(entries@),
            s.len() == entries@.len(),
            forall|j: int| 0 <= j < entries@.len() ==> #[trigger] s[j] == (entries@[j].0@, entries@[j].1),
            assoc_lookup(s, key@) == assoc_lookup(s.skip(i as int), key@),
    {
        proof {
            assert(s.skip(i as int)[0] == s[i as int]);
        }
        if entries[i].0 == *key {
            proof {
                assert(assoc_lookup(s.skip(i as int), key@) == Some(s[i as int].1));
            }
            return Some(entries[i].1);
        }
        proof {
            assert(s.skip(i as int).drop_first() =~= s.skip(i as int + 1));
        }
    }
    proof {
        assert(s.skip(entries@.len() as int).len() == 0);
    }
    None
}

/// The verification engine itself: pure logic over frame sequences.
pub struct VerificationEngine {
    pub config: VerificationConfig,
}

impl VerificationEngine {
    pub fn new(config: VerificationConfig) -> (r: Self)
        ensures
            r.config == config,
    {
        VerificationEngine { config }
    }

    /// Checks the hash-chain invariant: consecutive sequence numbers,
    /// strictly increasing timestamps, and each frame linked to its
    /// predecessor's hash. A sequence of fewer than two frames is valid.
    pub fn verify_hash_chain(&self, frames: &Vec<EncryptedFrame>) -> (r: Result<
        bool,
        crate::error::ImmutableEncryptionError,
    >)
        ensures
            r matches Ok(b) && b == chain_ok(frames_view(frames@)),
    {
        let ghost s = frames_view(frames@);
        if frames.len() < 2 {
            return Ok(true);
        }
        for i in 0..frames.len() - 1
            invariant
                s == frames_view(frames@),
                s.len() == frames@.len(),
                frames@.len() >= 2,
                forall|j: int| 0 <= j < frames@.len() ==> #[trigger] s[j] == frames@[j]@,
                forall|j: int|
                    0 <= j < i ==> {
                        &&& (#[trigger] s[j + 1]).previous_hash == s[j].hash
                        &&& s[j + 1].sequence == s[j].sequence + 1
                        &&& s[j + 1].timestamp > s[j].timestamp
                    },
        {
            let linked = frames[i + 1].previous_hash == frames[i].hash;
            let seq_ok = frames[i].sequence < u64::MAX && frames[i + 1].sequence == frames[i].sequence
                + 1;
            let ts_ok = frames[i + 1].timestamp > frames[i].timestamp;
            if !(linked && seq_ok && ts_ok) {
                proof {
                    let j = i as int;
                    assert(s[j + 1] == frames@[j + 1]@ && s[j] == frames@[j]@);
                    assert(!(s[j + 1].previous_hash == s[j].hash && s[j + 1].sequence == s[j].sequence
                        + 1 && s[j + 1].timestamp > s[j].timestamp));
                    assert(!chain_ok(s));
                }
                return Ok(false);
            }
        }
        Ok(true)
    }

    /// Checks per-frame field formats: a 64-character hexadecimal hash, a
    /// 12-byte nonce, and non-empty ciphertext.
    pub fn verify_cryptographic_integrity(&self, frames: &Vec<EncryptedFrame>) -> (r: Result<
        bool,
        crate::error::ImmutableEncryptionError,
    >)
        ensures
            r matches Ok(b) && b == all_frames_well_formed(frames_view(frames@)),
    {
        let ghost s = frames_view(frames@);
        for i in 0..frames.len()
            invariant
                s == frames_view(frames@),
                s.len() == frames@.len(),
                forall|j: int| 0 <= j < frames@.len() ==> #[trigger] s[j] == frames@[j]@,
                forall|j: int| 0 <= j < i ==> frame_well_formed(#[trigger] s[j]),
        {
            if !frame_fields_ok(&frames[i]) {
                proof {
                    assert(!frame_well_formed(s[i as int]));
                }
                return Ok(false);
            }
        }
        Ok(true)
    }
}

/// A sequence-number gap between positions `i` and `i + 1`.
pub open spec fn gap_at(s: Seq<EncryptedFrameView>, i: int) -> bool {
    s[i + 1].sequence != s[i].sequence + 1
}

/// A hash-chain break between positions `i` and `i + 1`.
pub open spec fn break_at(s: Seq<EncryptedFrameView>, i: int) -> bool {
    s[i + 1].previous_hash != s[i].hash
}

/// Whether the hash at position `j` already occurred earlier.
pub open spec fn dup_at(s: Seq<EncryptedFrameView>, j: int) -> bool {
    exists|i: int| 0 <= i < j && s[i].hash == s[j].hash
}

/// The first sequence gap at or after pair index `i`, if any.
pub open spec fn first_gap_from(s: Seq<EncryptedFrameView>, i: int) -> Option<int>
    decreases s.len() - i,
{
    if i < 0 || i >= s.len() - 1 {
        None
    } else if gap_at(s, i) {
        Some(i)
    } else {
        first_gap_from(s, i + 1)
    }
}

/// The first hash-chain break at or after pair index `i`, if any.
pub open spec fn first_break_from(s: Seq<EncryptedFrameView>, i: int) -> Option<int>
    decreases s.len() - i,
{
    if i < 0 || i >= s.len() - 1 {
        None
    } else if break_at(s, i) {
        Some(i)
    } else {
        first_break_from(s, i + 1)
    }
}

/// The first position whose hash repeats an earlier one, at or after `j`.
pub open spec fn first_dup_from(s: Seq<EncryptedFrameView>, j: int) -> Option<int>
    decreases s.len() - j,
{
    if j < 0 || j >= s.len() {
        None
    } else if dup_at(s, j) {
        Some(j)
    } else {
        first_dup_from(s, j + 1)
    }
}

/// The message reported for a sequence gap.
pub open spec fn gap_message(a: u64, b: u64) -> Seq<char> {
    "Sequence gap detected: frame "@ + dec_str(a as nat) + " to "@ + dec_str(b as nat)
}

/// The message reported for a hash-chain break.
pub open spec fn break_message(a: u64, b: u64) -> Seq<char> {
    "Hash chain break between frame "@ + dec_str(a as nat) + " and "@ + dec_str(b as nat)
}

/// The message reported for a duplicated hash.
pub open spec fn dup_message(h: Seq<char>) -> Seq<char> {
    "Duplicate frame detected: hash "@ + h + " appears multiple times"@
}

/// The tamper finding for a sequence: the first sequence gap, else the
/// first hash-chain break, else the first duplicated hash; nothing when
/// the sequence is clean.
pub open spec fn tamper_finding(s: Seq<EncryptedFrameView>) -> Option<Seq<char>> {
    match first_gap_from(s, 0) {
        Some(i) => Some(gap_message(s[i].sequence, s[i + 1].sequence)),
        None => match first_break_from(s, 0) {
            Some(i) => Some(break_message(s[i].sequence, s[i + 1].sequence)),
            None => match first_dup_from(s, 0) {
                Some(j) => Some(dup_message(s[j].hash)),
                None => None,
            },
        },
    }
}

/// The view of an optional message.
pub open spec fn option_string_view(o: Option<String>) -> Option<Seq<char>> {
    match o {
        Some(m) => Some(m@),
        None => None,
    }
}

impl VerificationEngine {
    /// Scans for tamper evidence: a sequence gap, a hash-chain break, or
    /// a duplicated hash, reporting the first finding as a message that
    /// names the offending frames.
    pub fn detect_tampering(&self, frames: &Vec<EncryptedFrame>) -> (r: Result<
        Option<String>,
        crate::error::ImmutableEncryptionError,
    >)
        ensures
            r matches Ok(o) && option_string_view(o) == tamper_finding(frames_view(frames@)),
    {
        let ghost s = frames_view(frames@);
        proof {
            assert(s.len() == frames@.len());
            assert(forall|j: int| 0 <= j < frames@.len() ==> #[trigger] s[j] == frames@[j]@);
        }
        let n = frames.len();
        if n >= 2 {
            for i in 0..n - 1
                invariant
                    s == frames_view(frames@),
                    s.len() == frames@.len(),
                    n == frames@.len(),
                    n >= 2,
                    forall|j: int| 0 <= j < frames@.len() ==> #[trigger] s[j] == frames@[j]@,
                    first_gap_from(s, 0) == first_gap_from(s, i as int),
            {
                let gap = !(frames[i].sequence < u64::MAX && frames[i + 1].sequence
                    == frames[i].sequence + 1);
                if gap {
                    proof {
                        assert(gap_at(s, i as int));
                        assert(first_gap_from(s, i as int) == Some(i as int));
                    }
                    let mut m = String::from_str("Sequence gap detected: frame ");
                    m.append(u64_to_dec_string(frames[i].sequence).as_str());
                    m.append(" to ");
                    m.append(u64_to_dec_string(frames[i + 1].sequence).as_str());
                    proof {
                        assert(m@ =~= gap_message(s[i as int].sequence, s[i as int + 1].sequence));
                    }
                    return Ok(Some(m));
                }
                proof {
                    assert(!gap_at(s, i as int));
                    assert(first_gap_from(s, i as int) == first_gap_from(s, i as int + 1));
                }
            }
        }
        proof {
            if n >= 2 {
                assert(first_gap_from(s, n as int - 1) is None);
            }
            assert(first_gap_from(s, 0) is None);
        }
        if n >= 2 {
            for i in 0..n - 1
                invariant
                    s == frames_view(frames@),
                    s.len() == frames@.len(),
                    n == frames@.len(),
                    n >= 2,
                    forall|j: int| 0 <= j < frames@.len() ==> #[trigger] s[j] == frames@[j]@,
                    first_gap_from(s, 0) is None,
                    first_break_from(s, 0) == first_break_from(s, i as int),
            {
                let broken = frames[i + 1].previous_hash != frames[i].hash;
                if broken {
                    proof {
                        assert(break_at(s, i as int));
                        assert(first_break_from(s, i as int) == Some(i as int));
                    }
                    let mut m = String::from_str("Hash chain break between frame ");
                    m.append(u64_to_dec_string(frames[i].sequence).as_str());
                    m.append(" and ");
                    m.append(u64_to_dec_string(frames[i + 1].sequence).as_str());
                    proof {
                        assert(m@ =~= break_message(
                            s[i as int].sequence,
                            s[i as int + 1].sequence,
                        ));
                    }
                    return Ok(Some(m));
                }
                proof {
                    assert(!break_at(s, i as int));
                    assert(first_break_from(s, i as int) == first_break_from(s, i as int + 1));
                }
            }
        }
        proof {
            if n >= 2 {
                assert(first_break_from(s, n as int - 1) is None);
            }
            assert(first_break_from(s, 0) is None);
        }
        for j in 0..n
            invariant
                s == frames_view(frames@),
                s.len() == frames@.len(),
                n == frames@.len(),
                forall|k: int| 0 <= k < frames@.len() ==> #[trigger] s[k] == frames@[k]@,
                first_gap_from(s, 0) is None,
                first_break_from(s, 0) is None,
                first_dup_from(s, 0) == first_dup_from(s, j as int),
        {
            let mut found = false;
            for i in 0..j
                invariant
                    s == frames_view(frames@),
                    s.len() == frames@.len(),
                    n == frames@.len(),
                    j < n,
                    forall|k: int| 0 <= k < frames@.len() ==> #[trigger] s[k] == frames@[k]@,
                    found ==> dup_at(s, j as int),
                    !found ==> forall|k: int| 0 <= k < i ==> s[k].hash != s[j as int].hash,
            {
                if frames[i].hash == frames[j].hash {
                    proof {
                        assert(s[i as int].hash == s[j as int].hash);
                        assert(dup_at(s, j as int));
                    }
                    found = true;
                }
            }
            if found {
                proof {
                    assert(first_dup_from(s, j as int) == Some(j as int));
                }
                let mut m = String::from_str("Duplicate frame detected: hash ");
                m.append(frames[j].hash.as_str());
                m.append(" appears multiple times");
                proof {
                    assert(m@ =~= dup_message(s[j as int].hash));
                }
                return Ok(Some(m));
            }
            proof {
                assert(!dup_at(s, j as int));
                assert(first_dup_from(s, j as int) == first_dup_from(s, j as int + 1));
            }
        }
        proof {
            assert(first_dup_from(s, n as int) is None);
            assert(first_dup_from(s, 0) is None);
        }
        Ok(None)
    }
}

/// Mapping a function over a sequence commutes with appending one element.
proof fn lemma_map_values_push<A, B>(s: Seq<A>, f: spec_fn(A) -> B, x: A)
    ensures
        s.push(x).map_values(f) =~= s.map_values(f).push(f(x)),
{
}

/// The custody entry recording the initial capture of the first frame.
pub open spec fn initial_custody_entry(f: EncryptedFrameView) -> CustodyEntryView {
    CustodyEntryView {
        timestamp: f.timestamp,
        actor: "capturing_device"@,
        action: "initial_capture"@,
        signature: "device_signature_"@ + dec_str(f.sequence as nat),
        blockchain_reference: if f.blockchain_anchors.len() > 0 {
            f.blockchain_anchors[0].transaction_hash
        } else {
            Seq::<char>::empty()
        },
    }
}

/// The custody entry recording one blockchain anchor.
pub open spec fn anchor_custody_entry(ts: u64, a: AnchorView) -> CustodyEntryView {
    CustodyEntryView {
        timestamp: ts,
        actor: "verification_system"@,
        action: "blockchain_anchor"@,
        signature: "anchor_signature_"@ + a.transaction_hash,
        blockchain_reference: a.transaction_hash,
    }
}

/// The custody entries contributed by one frame's anchors.
pub open spec fn frame_anchor_entries(f: EncryptedFrameView) -> Seq<CustodyEntryView> {
    f.blockchain_anchors.map_values(|a: AnchorView| anchor_custody_entry(f.timestamp, a))
}

/// The custody entries contributed by all frames' anchors, in order.
pub open spec fn anchor_entries(s: Seq<EncryptedFrameView>) -> Seq<CustodyEntryView>
    decreases s.len(),
{
    if s.len() == 0 {
        Seq::<CustodyEntryView>::empty()
    } else {
        anchor_entries(s.drop_last()) + frame_anchor_entries(s.last())
    }
}

/// The whole chain of custody of a sequence.
pub open spec fn custody_of(s: Seq<EncryptedFrameView>) -> Seq<CustodyEntryView> {
    if s.len() == 0 {
        Seq::<CustodyEntryView>::empty()
    } else {
        seq![initial_custody_entry(s[0])] + anchor_entries(s)
    }
}

/// The proof string recorded for one anchor.
pub open spec fn anchor_proof_string(a: AnchorView) -> Seq<char> {
    "blockchain_proof_"@ + a.chain + "_"@ + a.transaction_hash
}

/// The proof strings contributed by one frame's anchors.
pub open spec fn frame_anchor_proofs(f: EncryptedFrameView) -> Seq<Seq<char>> {
    f.blockchain_anchors.map_values(|a: AnchorView| anchor_proof_string(a))
}

/// The proof strings contributed by all frames' anchors, in order.
pub open spec fn anchor_proofs(s: Seq<EncryptedFrameView>) -> Seq<Seq<char>>
    decreases s.len(),
{
    if s.len() == 0 {
        Seq::<Seq<char>>::empty()
    } else {
        anchor_proofs(s.drop_last()) + frame_anchor_proofs(s.last())
    }
}

/// The hash-chain proof string spanning a non-empty sequence.
pub open spec fn hash_chain_proof_string(s: Seq<EncryptedFrameView>) -> Seq<char> {
    "hash_chain_"@ + s[0].hash + "_to_"@ + s[s.len() - 1].hash
}

/// The timestamp-range proof string spanning a non-empty sequence.
pub open spec fn timestamp_range_proof_string(s: Seq<EncryptedFrameView>) -> Seq<char> {
    "timestamp_range_"@ + dec_str(s[0].timestamp as nat) + "_"@ + dec_str(
        s[s.len() - 1].timestamp as nat,
    )
}

/// All cryptographic proof strings of a sequence.
pub open spec fn proofs_of(s: Seq<EncryptedFrameView>) -> Seq<Seq<char>> {
    if s.len() == 0 {
        Seq::<Seq<char>>::empty()
    } else {
        seq![hash_chain_proof_string(s)] + anchor_proofs(s) + seq![
            timestamp_range_proof_string(s),
        ]
    }
}

/// The fixed list of evidence-handling standards attested.
pub open spec fn standards_met_list() -> Seq<Seq<char>> {
    seq!["ISO/IEC 27037:2012"@, "NIST SP 800-101"@, "Daubert Standard"@, "FRE 901(b)"@]
}

/// The fixed list of certifications attested.
pub open spec fn certifications_list() -> Seq<Seq<char>> {
    seq!["ISO 27001"@, "SOC 2 Type II"@]
}

/// The fixed list of jurisdictions attested.
pub open spec fn jurisdictions_list() -> Seq<Seq<char>> {
    seq!["US Federal Rules of Evidence"@, "EU GDPR"@, "UK Criminal Justice Act"@]
}

/// The fixed compliance attestations.
pub open spec fn legal_compliance_spec() -> LegalComplianceView {
    LegalComplianceView {
        standards_met: standards_met_list(),
        certifications: certifications_list(),
        jurisdiction_compliance: jurisdictions_list(),
    }
}

/// The full court report synthesized for a sequence.
pub open spec fn court_report_of(
    evidence_id: Seq<char>,
    s: Seq<EncryptedFrameView>,
    now: u64,
) -> CourtReportView {
    CourtReportView {
        evidence_id: evidence_id,
        chain_of_custody: custody_of(s),
        cryptographic_proofs: proofs_of(s),
        legal_compliance: legal_compliance_spec(),
        generated_at: now,
    }
}

impl VerificationEngine {
    /// Builds the chain of custody: an initial-capture entry for the
    /// first frame, then one entry per anchor of every frame.
    fn generate_chain_of_custody(&self, frames: &Vec<EncryptedFrame>) -> (r: Vec<CustodyEntry>)
        ensures
            r@.map_values(|e: CustodyEntry| e@) == custody_of(frames_view(frames@)),
    {
        let ghost s = frames_view(frames@);
        proof {
            assert(forall|j: int| 0 <= j < frames@.len() ==> #[trigger] s[j] == frames@[j]@);
        }
        let mut out: Vec<CustodyEntry> = Vec::new();
        if frames.len() == 0 {
            proof {
                assert(out@.map_values(|e: CustodyEntry| e@) =~= custody_of(s));
            }
            return out;
        }
        let first = &frames[0];
        let mut sig = String::from_str("device_signature_");
        sig.append(u64_to_dec_string(first.sequence).as_str());
        let reference = if first.blockchain_anchors.len() > 0 {
            first.blockchain_anchors[0].transaction_hash.clone()
        } else {
            String::new()
        };
        let entry = CustodyEntry {
            timestamp: first.timestamp,
            actor: String::from_str("capturing_device"),
            action: String::from_str("initial_capture"),
            signature: sig,
            blockchain_reference: reference,
        };
        proof {
            assert(entry@ =~= initial_custody_entry(s[0]));
        }
        out.push(entry);
        proof {
            assert(out@.map_values(|e: CustodyEntry| e@) =~= seq![initial_custody_entry(s[0])]
                + anchor_entries(s.take(0)));
        }
        for i in 0..frames.len()
            invariant
                s == frames_view(frames@),
                s.len() == frames@.len(),
                s.len() > 0,
                forall|j: int| 0 <= j < frames@.len() ==> #[trigger] s[j] == frames@[j]@,
                out@.map_values(|e: CustodyEntry| e@) == seq![initial_custody_entry(s[0])]
                    + anchor_entries(s.take(i as int)),
        {
            let frame = &frames[i];
            let ghost fv = s[i as int];
            let ghost base = out@.map_values(|e: CustodyEntry| e@);
            for j in 0..frame.blockchain_anchors.len()
                invariant
                    s == frames_view(frames@),
                    s.len() == frames@.len(),
                    forall|k: int| 0 <= k < frames@.len() ==> #[trigger] s[k] == frames@[k]@,
                    0 <= i < frames@.len(),
                    frame == &frames@[i as int],
                    fv == s[i as int],
                    fv.blockchain_anchors.len() == frame.blockchain_anchors@.len(),
                    forall|k: int|
                        0 <= k < frame.blockchain_anchors@.len() ==> #[trigger] fv.blockchain_anchors[k]
                            == frame.blockchain_anchors@[k]@,
                    out@.map_values(|e: CustodyEntry| e@) == base + fv.blockchain_anchors.take(
                        j as int,
                    ).map_values(|a: AnchorView| anchor_custody_entry(fv.timestamp, a)),
            {
                let anchor = &frame.blockchain_anchors[j];
                let mut asig = String::from_str("anchor_signature_");
                asig.append(anchor.transaction_hash.as_str());
                let entry = CustodyEntry {
                    timestamp: frame.timestamp,
                    actor: String::from_str("verification_system"),
                    action: String::from_str("blockchain_anchor"),
                    signature: asig,
                    blockchain_reference: anchor.transaction_hash.clone(),
                };
                proof {
                    assert(entry@ =~= anchor_custody_entry(fv.timestamp, fv.blockchain_anchors[j as int]));
                }
                let ghost out_before = out@;
                out.push(entry);
                proof {
                    let fview = |e: CustodyEntry| e@;
                    let fmk = |a: AnchorView| anchor_custody_entry(fv.timestamp, a);
                    lemma_map_values_push(out_before, fview, entry);
                    lemma_map_values_push(fv.blockchain_anchors.take(j as int), fmk, fv.blockchain_anchors[j as int]);
                    assert(fv.blockchain_anchors.take(j as int + 1) =~= fv.blockchain_anchors.take(
                        j as int,
                    ).push(fv.blockchain_anchors[j as int]));
                    assert(out@.map_values(fview) =~= base + fv.blockchain_anchors.take(
                        j as int + 1,
                    ).map_values(fmk));
                }
            }
            proof {
                assert(fv.blockchain_anchors.take(fv.blockchain_anchors.len() as int) =~= fv
                    .blockchain_anchors);
                assert(s.take(i as int + 1).drop_last() =~= s.take(i as int));
                assert(s.take(i as int + 1).last() == s[i as int]);
                assert(anchor_entries(s.take(i as int + 1)) == anchor_entries(s.take(i as int))
                    + frame_anchor_entries(s[i as int]));
                assert(frame_anchor_entries(fv) =~= fv.blockchain_anchors.map_values(
                    |a: AnchorView| anchor_custody_entry(fv.timestamp, a),
                ));
                assert(out@.map_values(|e: CustodyEntry| e@) =~= seq![initial_custody_entry(s[0])]
                    + anchor_entries(s.take(i as int + 1)));
            }
        }
        proof {
            assert(s.take(s.len() as int) =~= s);
            assert(out@.map_values(|e: CustodyEntry| e@) =~= custody_of(s));
        }
        out
    }

    /// Builds the cryptographic proof strings: the hash-chain span, one
    /// entry per anchor, and the timestamp range.
    fn generate_cryptographic_proofs(&self, frames: &Vec<EncryptedFrame>) -> (r: Vec<String>)
        ensures
            r@.map_values(|p: String| p@) == proofs_of(frames_view(frames@)),
    {
        let ghost s = frames_view(frames@);
        proof {
            assert(forall|j: int| 0 <= j < frames@.len() ==> #[trigger] s[j] == frames@[j]@);
        }
        let mut out: Vec<String> = Vec::new();
        if frames.len() == 0 {
            proof {
                assert(out@.map_values(|p: String| p@) =~= proofs_of(s));
            }
            return out;
        }
        let n = frames.len();
        let mut chain_proof = String::from_str("hash_chain_");
        chain_proof.append(frames[0].hash.as_str());
        chain_proof.append("_to_");
        chain_proof.append(frames[n - 1].hash.as_str());
        proof {
            assert(chain_proof@ =~= hash_chain_proof_string(s));
        }
        out.push(chain_proof);
        proof {
            assert(out@.map_values(|p: String| p@) =~= seq![hash_chain_proof_string(s)]
                + anchor_proofs(s.take(0)));
        }
        for i in 0..n
            invariant
                s == frames_view(frames@),
                s.len() == frames@.len(),
                s.len() > 0,
                n == frames@.len(),
                forall|j: int| 0 <= j < frames@.len() ==> #[trigger] s[j] == frames@[j]@,
                out@.map_values(|p: String| p@) == seq![hash_chain_proof_string(s)]
                    + anchor_proofs(s.take(i as int)),
        {
            let frame = &frames[i];
            let ghost fv = s[i as int];
            let ghost base = out@.map_values(|p: String| p@);
            for j in 0..frame.blockchain_anchors.len()
                invariant
                    s == frames_view(frames@),
                    s.len() == frames@.len(),
                    forall|k: int| 0 <= k < frames@.len() ==> #[trigger] s[k] == frames@[k]@,
                    0 <= i < frames@.len(),
                    frame == &frames@[i as int],
                    fv == s[i as int],
                    fv.blockchain_anchors.len() == frame.blockchain_anchors@.len(),
                    forall|k: int|
                        0 <= k < frame.blockchain_anchors@.len() ==> #[trigger] fv.blockchain_anchors[k]
                            == frame.blockchain_anchors@[k]@,
                    out@.map_values(|p: String| p@) == base + fv.blockchain_anchors.take(
                        j as int,
                    ).map_values(|a: AnchorView| anchor_proof_string(a)),
            {
                let anchor = &frame.blockchain_anchors[j];
                let mut p = String::from_str("blockchain_proof_");
                p.append(anchor.chain.as_str());
                p.append("_");
                p.append(anchor.transaction_hash.as_str());
                proof {
                    assert(p@ =~= anchor_proof_string(fv.blockchain_anchors[j as int]));
                }
                let ghost out_before = out@;
                let ghost pview = p@;
                out.push(p);
                proof {
                    let fview = |p: String| p@;
                    let fmk = |a: AnchorView| anchor_proof_string(a);
                    lemma_map_values_push(out_before, fview, out@.last());
                    lemma_map_values_push(fv.blockchain_anchors.take(j as int), fmk, fv.blockchain_anchors[j as int]);
                    assert(fv.blockchain_anchors.take(j as int + 1) =~= fv.blockchain_anchors.take(
                        j as int,
                    ).push(fv.blockchain_anchors[j as int]));
                    assert(out@.map_values(fview) =~= base + fv.blockchain_anchors.take(
                        j as int + 1,
                    ).map_values(fmk));
                }
            }
            proof {
                assert(fv.blockchain_anchors.take(fv.blockchain_anchors.len() as int) =~= fv
                    .blockchain_anchors);
                assert(s.take(i as int + 1).drop_last() =~= s.take(i as int));
                assert(s.take(i as int + 1).last() == s[i as int]);
                assert(anchor_proofs(s.take(i as int + 1)) == anchor_proofs(s.take(i as int))
                    + frame_anchor_proofs(s[i as int]));
                assert(frame_anchor_proofs(fv) =~= fv.blockchain_anchors.map_values(
                    |a: AnchorView| anchor_proof_string(a),
                ));
                assert(out@.map_values(|p: String| p@) =~= seq![hash_chain_proof_string(s)]
                    + anchor_proofs(s.take(i as int + 1)));
            }
        }
        let mut ts_proof = String::from_str("timestamp_range_");
        ts_proof.append(u64_to_dec_string(frames[0].timestamp).as_str());
        ts_proof.append("_");
        ts_proof.append(u64_to_dec_string(frames[n - 1].timestamp).as_str());
        proof {
            assert(ts_proof@ =~= timestamp_range_proof_string(s));
        }
        out.push(ts_proof);
        proof {
            assert(s.take(s.len() as int) =~= s);
            assert(out@.map_values(|p: String| p@) =~= proofs_of(s));
        }
        out
    }

    /// The fixed compliance attestations included in every report.
    fn assess_legal_compliance(&self) -> (r: LegalCompliance)
        ensures
            r@ == legal_compliance_spec(),
    {
        let mut standards: Vec<String> = Vec::new();
        standards.push(String::from_str("ISO/IEC 27037:2012"));
        standards.push(String::from_str("NIST SP 800-101"));
        standards.push(String::from_str("Daubert Standard"));
        standards.push(String::from_str("FRE 901(b)"));
        let mut certifications: Vec<String> = Vec::new();
        certifications.push(String::from_str("ISO 27001"));
        certifications.push(String::from_str("SOC 2 Type II"));
        let mut jurisdictions: Vec<String> = Vec::new();
        jurisdictions.push(String::from_str("US Federal Rules of Evidence"));
        jurisdictions.push(String::from_str("EU GDPR"));
        jurisdictions.push(String::from_str("UK Criminal Justice Act"));
        let r = LegalCompliance {
            standards_met: standards,
            certifications: certifications,
            jurisdiction_compliance: jurisdictions,
        };
        proof {
            assert(r@.standards_met =~= standards_met_list());
            assert(r@.certifications =~= certifications_list());
            assert(r@.jurisdiction_compliance =~= jurisdictions_list());
            assert(r@ =~= legal_compliance_spec());
        }
        r
    }

    /// Synthesizes the deterministic court report for a sequence, stamped
    /// with the caller-supplied generation time.
    pub fn generate_court_report(
        &self,
        evidence_id: String,
        frames: &Vec<EncryptedFrame>,
        now: u64,
    ) -> (r: Result<CourtReport, crate::error::ImmutableEncryptionError>)
        ensures
            r matches Ok(rep) && rep@ == court_report_of(evidence_id@, frames_view(frames@), now),
    {
        let custody = self.generate_chain_of_custody(frames);
        let proofs = self.generate_cryptographic_proofs(frames);
        let compliance = self.assess_legal_compliance();
        let rep = CourtReport {
            evidence_id: evidence_id,
            chain_of_custody: custody,
            cryptographic_proofs: proofs,
            legal_compliance: compliance,
            generated_at: now,
        };
        proof {
            assert(rep@ =~= court_report_of(rep.evidence_id@, frames_view(frames@), now));
        }
        Ok(rep)
    }
}

/// The anchors of the first `i` frames, in order.
pub open spec fn frames_anchors_prefix(s: Seq<EncryptedFrameView>, i: int) -> Seq<AnchorView>
    decreases i,
{
    if i <= 0 {
        Seq::<AnchorView>::empty()
    } else {
        frames_anchors_prefix(s, i - 1) + s[i - 1].blockchain_anchors
    }
}

/// All anchors of a sequence, in frame order.
pub open spec fn all_anchors(s: Seq<EncryptedFrameView>) -> Seq<AnchorView> {
    frames_anchors_prefix(s, s.len() as int)
}

/// The minimum confirmations configured for a chain; six if unset.
pub open spec fn min_conf_of(entries: Seq<(Seq<char>, u64)>, chain: Seq<char>) -> u64 {
    match assoc_lookup(entries, chain) {
        Some(v) => v,
        None => 6,
    }
}

/// The confirmation count reported for a transaction; zero if unknown.
pub open spec fn queried_conf(queried: Seq<(Seq<char>, u64)>, tx: Seq<char>) -> u64 {
    match assoc_lookup(queried, tx) {
        Some(c) => c,
        None => 0,
    }
}

/// Whether an anchor counts as confirmed: its block number is non-zero,
/// and in strict mode the chain-reported confirmations reach the
/// configured minimum.
pub open spec fn anchor_counted(
    a: AnchorView,
    strict: bool,
    min_conf: Seq<(Seq<char>, u64)>,
    queried: Seq<(Seq<char>, u64)>,
) -> bool {
    a.block_number > 0 && (strict ==> queried_conf(queried, a.transaction_hash) >= min_conf_of(
        min_conf,
        a.chain,
    ))
}

/// How many anchors of `anchors` are confirmed anchors of `chain`.
pub open spec fn chain_count(
    anchors: Seq<AnchorView>,
    chain: Seq<char>,
    strict: bool,
    min_conf: Seq<(Seq<char>, u64)>,
    queried: Seq<(Seq<char>, u64)>,
) -> nat
    decreases anchors.len(),
{
    if anchors.len() == 0 {
        0
    } else {
        chain_count(anchors.drop_last(), chain, strict, min_conf, queried) + if anchors.last().chain
            == chain && anchor_counted(anchors.last(), strict, min_conf, queried) {
            1nat
        } else {
            0nat
        }
    }
}

/// A chain can be counted at most once per anchor.
pub proof fn lemma_chain_count_le_len(
    anchors: Seq<AnchorView>,
    chain: Seq<char>,
    strict: bool,
    min_conf: Seq<(Seq<char>, u64)>,
    queried: Seq<(Seq<char>, u64)>,
)
    ensures
        chain_count(anchors, chain, strict, min_conf, queried) <= anchors.len(),
    decreases anchors.len(),
{
    if anchors.len() > 0 {
        lemma_chain_count_le_len(anchors.drop_last(), chain, strict, min_conf, queried);
    }
}

/// Appending one anchor raises exactly its own chain's count, by one when
/// it is confirmed.
pub proof fn lemma_chain_count_push(
    anchors: Seq<AnchorView>,
    a: AnchorView,
    chain: Seq<char>,
    strict: bool,
    min_conf: Seq<(Seq<char>, u64)>,
    queried: Seq<(Seq<char>, u64)>,
)
    ensures
        chain_count(anchors.push(a), chain, strict, min_conf, queried) == chain_count(
            anchors,
            chain,
            strict,
            min_conf,
            queried,
        ) + if a.chain == chain && anchor_counted(a, strict, min_conf, queried) {
            1nat
        } else {
            0nat
        },
{
    assert(anchors.push(a).drop_last() =~= anchors);
    assert(anchors.push(a).last() == a);
}

/// The prefix of anchors grows with the frame index.
pub proof fn lemma_anchors_prefix_le(s: Seq<EncryptedFrameView>, i: int, k: int)
    requires
        0 <= i <= k <= s.len(),
    ensures
        frames_anchors_prefix(s, i).len() <= frames_anchors_prefix(s, k).len(),
    decreases k - i,
{
    if i < k {
        lemma_anchors_prefix_le(s, i, k - 1);
    }
}

/// What the confirmation summary states: unique chains, each bound to its
/// exact confirmed-anchor count, every confirmed chain present.
pub open spec fn conf_counts_ok(
    r: Seq<(Seq<char>, u64)>,
    s: Seq<EncryptedFrameView>,
    strict: bool,
    min_conf: Seq<(Seq<char>, u64)>,
    queried: Seq<(Seq<char>, u64)>,
) -> bool {
    let all = all_anchors(s);
    &&& forall|p: int, q: int| 0 <= p < q < r.len() ==> (#[trigger] r[p]).0 != (#[trigger] r[q]).0
    &&& forall|p: int|
        0 <= p < r.len() ==> (#[trigger] r[p]).1 == chain_count(all, r[p].0, strict, min_conf, queried)
            && r[p].1 > 0
    &&& forall|chain: Seq<char>|
        chain_count(all, chain, strict, min_conf, queried) > 0 ==> exists|p: int|
            0 <= p < r.len() && (#[trigger] r[p]).0 == chain
}

/// Finds the position of a chain in the summary being built.
fn find_chain(counts: &Vec<(String, u64)>, chain: &String) -> (r: Option<usize>)
    ensures
        match r {
            Some(p) => p < counts@.len() && counts@[p as int].0@ == chain@,
            None => forall|k: int| 0 <= k < counts@.len() ==> (#[trigger] counts@[k]).0@ != chain@,
        },
{
    for p in 0..counts.len()
        invariant
            forall|k: int| 0 <= k < p ==> (#[trigger] counts@[k]).0@ != chain@,
    {
        if counts[p].0 == *chain {
            return Some(p);
        }
    }
    None
}

impl VerificationEngine {
    /// Aggregates, per chain, how many anchors are confirmed. `queried`
    /// carries the confirmation counts reported by the chain adapters per
    /// transaction hash; strict mode holds each anchor to the configured
    /// minimum.
    pub fn verify_blockchain_confirmations(
        &self,
        frames: &Vec<EncryptedFrame>,
        queried: &Vec<(String, u64)>,
    ) -> (r: Result<Vec<(String, u64)>, crate::error::ImmutableEncryptionError>)
        requires
            all_anchors(frames_view(frames@)).len() <= u64::MAX,
        ensures
            r matches Ok(counts) && conf_counts_ok(
                assoc_view(counts@),
                frames_view(frames@),
                self.config.strict_mode,
                assoc_view(self.config.min_confirmations@),
                assoc_view(queried@),
            ),
    {
        let ghost s = frames_view(frames@);
        let ghost strict = self.config.strict_mode;
        let ghost mc = assoc_view(self.config.min_confirmations@);
        let ghost q = assoc_view(queried@);
        proof {
            assert(forall|j: int| 0 <= j < frames@.len() ==> #[trigger] s[j] == frames@[j]@);
        }
        let mut counts: Vec<(String, u64)> = Vec::new();
        let ghost mut processed: Seq<AnchorView> = Seq::<AnchorView>::empty();
        for i in 0..frames.len()
            invariant
                s == frames_view(frames@),
                s.len() == frames@.len(),
                forall|j: int| 0 <= j < frames@.len() ==> #[trigger] s[j] == frames@[j]@,
                strict == self.config.strict_mode,
                mc == assoc_view(self.config.min_confirmations@),
                q == assoc_view(queried@),
                all_anchors(s).len() <= u64::MAX,
                processed == frames_anchors_prefix(s, i as int),
                counts_state_ok(assoc_view(counts@), processed, strict, mc, q),
        {
            let frame = &frames[i];
            let ghost fv = s[i as int];
            for j in 0..frame.blockchain_anchors.len()
                invariant
                    s == frames_view(frames@),
                    s.len() == frames@.len(),
                    forall|k: int| 0 <= k < frames@.len() ==> #[trigger] s[k] == frames@[k]@,
                    strict == self.config.strict_mode,
                    mc == assoc_view(self.config.min_confirmations@),
                    q == assoc_view(queried@),
                    all_anchors(s).len() <= u64::MAX,
                    0 <= i < frames@.len(),
                    frame == &frames@[i as int],
                    fv == s[i as int],
                    fv.blockchain_anchors.len() == frame.blockchain_anchors@.len(),
                    forall|k: int|
                        0 <= k < frame.blockchain_anchors@.len() ==> #[trigger] fv.blockchain_anchors[k]
                            == frame.blockchain_anchors@[k]@,
                    processed == frames_anchors_prefix(s, i as int) + fv.blockchain_anchors.take(
                        j as int,
                    ),
                    counts_state_ok(assoc_view(counts@), processed, strict, mc, q),
            {
                let anchor = &frame.blockchain_anchors[j];
                let ghost av = fv.blockchain_anchors[j as int];
                let confirmed = anchor.block_number > 0;
                let counted = if self.config.strict_mode {
                    let qc = match assoc_get(queried, &anchor.transaction_hash) {
                        Some(c) => c,
                        None => 0,
                    };
                    let need = match assoc_get(&self.config.min_confirmations, &anchor.chain) {
                        Some(v) => v,
                        None => 6,
                    };
                    confirmed && qc >= need
                } else {
                    confirmed
                };
                proof {
                    assert(counted == (av.chain == av.chain && anchor_counted(av, strict, mc, q)));
                    assert(processed.len() < all_anchors(s).len()) by {
                        lemma_anchors_prefix_le(s, i as int + 1, s.len() as int);
                        assert(frames_anchors_prefix(s, i as int + 1) == frames_anchors_prefix(
                            s,
                            i as int,
                        ) + s[i as int].blockchain_anchors);
                    }
                }
                if counted {
                    match find_chain(&counts, &anchor.chain) {
                        Some(p) => {
                            let ghost counts_before = assoc_view(counts@);
                            let ghost vec_before = counts@;
                            let old_val = counts[p].1;
                            proof {
                                assert(counts_before[p as int] == (vec_before[p as int].0@, vec_before[p as int].1));
                                assert(counts_before[p as int].0 == av.chain);
                                assert(old_val == chain_count(processed, av.chain, strict, mc, q));
                                lemma_chain_count_le_len(processed, av.chain, strict, mc, q);
                                assert(old_val < u64::MAX);
                            }
                            let chain_copy = counts[p].0.clone();
                            counts.set(p, (chain_copy, old_val + 1));
                            proof {
                                assert(counts@ == vec_before.update(
                                    p as int,
                                    (chain_copy, (old_val + 1) as u64),
                                ));
                                assert(assoc_view(counts@) =~= counts_before.update(
                                    p as int,
                                    (counts_before[p as int].0, (counts_before[p as int].1
                                        + 1) as u64),
                                ));
                                update_counts_found(
                                    counts_before,
                                    assoc_view(counts@),
                                    processed,
                                    av,
                                    p as int,
                                    strict,
                                    mc,
                                    q,
                                );
                            }
                        },
                        None => {
                            let ghost counts_before = assoc_view(counts@);
                            let ghost vec_before = counts@;
                            counts.push((anchor.chain.clone(), 1));
                            proof {
                                let fpair = |e: (String, u64)| (e.0@, e.1);
                                assert(counts@ == vec_before.push(counts@[counts@.len() - 1]));
                                lemma_map_values_push(
                                    vec_before,
                                    fpair,
                                    counts@[counts@.len() - 1],
                                );
                                assert(assoc_view(counts@) =~= counts_before.push((av.chain, 1u64)));
                                update_counts_new(
                                    counts_before,
                                    assoc_view(counts@),
                                    processed,
                                    av,
                                    strict,
                                    mc,
                                    q,
                                );
                            }
                        },
                    }
                } else {
                    proof {
                        assert forall|c: Seq<char>| #[trigger]
                            chain_count(processed.push(av), c, strict, mc, q) == chain_count(
                                processed,
                                c,
                                strict,
                                mc,
                                q,
                            ) by {
                            lemma_chain_count_push(processed, av, c, strict, mc, q);
                        }
                        assert(counts_state_ok(assoc_view(counts@), processed.push(av), strict, mc, q));
                    }
                }
                proof {
                    processed = processed.push(av);
                    assert(processed =~= frames_anchors_prefix(s, i as int)
                        + fv.blockchain_anchors.take(j as int + 1));
                    assert(counts_state_ok(assoc_view(counts@), processed, strict, mc, q));
                }
            }
            proof {
                assert(fv.blockchain_anchors.take(fv.blockchain_anchors.len() as int) =~= fv
                    .blockchain_anchors);
                assert(frames_anchors_prefix(s, i as int + 1) == frames_anchors_prefix(s, i as int)
                    + s[i as int].blockchain_anchors);
                assert(processed =~= frames_anchors_prefix(s, i as int + 1));
            }
        }
        proof {
            assert(processed == frames_anchors_prefix(s, s.len() as int));
            assert(processed == all_anchors(s));
        }
        Ok(counts)
    }
}

/// The invariant tying the summary being built to the anchors processed
/// so far.
pub open spec fn counts_state_ok(
    r: Seq<(Seq<char>, u64)>,
    processed: Seq<AnchorView>,
    strict: bool,
    min_conf: Seq<(Seq<char>, u64)>,
    queried: Seq<(Seq<char>, u64)>,
) -> bool {
    &&& forall|p: int, q: int| 0 <= p < q < r.len() ==> (#[trigger] r[p]).0 != (#[trigger] r[q]).0
    &&& forall|p: int|
        0 <= p < r.len() ==> (#[trigger] r[p]).1 == chain_count(
            processed,
            r[p].0,
            strict,
            min_conf,
            queried,
        ) && r[p].1 > 0
    &&& forall|chain: Seq<char>|
        chain_count(processed, chain, strict, min_conf, queried) > 0 ==> exists|p: int|
            0 <= p < r.len() && (#[trigger] r[p]).0 == chain
}

/// Incrementing an existing chain's entry keeps the summary exact.
proof fn update_counts_found(
    before: Seq<(Seq<char>, u64)>,
    after: Seq<(Seq<char>, u64)>,
    processed: Seq<AnchorView>,
    av: AnchorView,
    p: int,
    strict: bool,
    min_conf: Seq<(Seq<char>, u64)>,
    queried: Seq<(Seq<char>, u64)>,
)
    requires
        counts_state_ok(before, processed, strict, min_conf, queried),
        0 <= p < before.len(),
        before[p].0 == av.chain,
        av.chain == av.chain && anchor_counted(av, strict, min_conf, queried),
        before[p].1 < u64::MAX,
        after =~= before.update(p, (before[p].0, (before[p].1 + 1) as u64)),
    ensures
        counts_state_ok(after, processed.push(av), strict, min_conf, queried),
{
    assert forall|c: Seq<char>| #[trigger]
        chain_count(processed.push(av), c, strict, min_conf, queried) == chain_count(
            processed,
            c,
            strict,
            min_conf,
            queried,
        ) + if av.chain == c {
            1nat
        } else {
            0nat
        } by {
        lemma_chain_count_push(processed, av, c, strict, min_conf, queried);
    }
    assert forall|k: int| 0 <= k < after.len() implies (#[trigger] after[k]).1 == chain_count(
        processed.push(av),
        after[k].0,
        strict,
        min_conf,
        queried,
    ) && after[k].1 > 0 by {
        if k == p {
            assert(after[k].0 == av.chain);
        } else {
            assert(after[k] == before[k]);
            assert(before[k].0 != before[p].0);
        }
    }
    assert forall|chain: Seq<char>|
        chain_count(processed.push(av), chain, strict, min_conf, queried) > 0 implies exists|k: int|
        0 <= k < after.len() && (#[trigger] after[k]).0 == chain by {
        if chain_count(processed, chain, strict, min_conf, queried) > 0 {
            let k = choose|k: int| 0 <= k < before.len() && (#[trigger] before[k]).0 == chain;
            assert(after[k].0 == chain);
        } else {
            assert(chain == av.chain);
            assert(after[p].0 == chain);
        }
    }
}

/// Appending a first entry for a newly seen chain keeps the summary exact.
proof fn update_counts_new(
    before: Seq<(Seq<char>, u64)>,
    after: Seq<(Seq<char>, u64)>,
    processed: Seq<AnchorView>,
    av: AnchorView,
    strict: bool,
    min_conf: Seq<(Seq<char>, u64)>,
    queried: Seq<(Seq<char>, u64)>,
)
    requires
        counts_state_ok(before, processed, strict, min_conf, queried),
        forall|k: int| 0 <= k < before.len() ==> (#[trigger] before[k]).0 != av.chain,
        av.chain == av.chain && anchor_counted(av, strict, min_conf, queried),
        after =~= before.push((av.chain, 1u64)),
    ensures
        counts_state_ok(after, processed.push(av), strict, min_conf, queried),
{
    assert forall|c: Seq<char>| #[trigger]
        chain_count(processed.push(av), c, strict, min_conf, queried) == chain_count(
            processed,
            c,
            strict,
            min_conf,
            queried,
        ) + if av.chain == c {
            1nat
        } else {
            0nat
        } by {
        lemma_chain_count_push(processed, av, c, strict, min_conf, queried);
    }
    assert(chain_count(processed, av.chain, strict, min_conf, queried) == 0) by {
        if chain_count(processed, av.chain, strict, min_conf, queried) > 0 {
            let k = choose|k: int|
                0 <= k < before.len() && (#[trigger] before[k]).0 == av.chain;
            assert(false);
        }
    }
    assert forall|k: int| 0 <= k < after.len() implies (#[trigger] after[k]).1 == chain_count(
        processed.push(av),
        after[k].0,
        strict,
        min_conf,
        queried,
    ) && after[k].1 > 0 by {
        if k < before.len() {
            assert(after[k] == before[k]);
            assert(before[k].0 != av.chain);
        } else {
            assert(after[k] == (av.chain, 1u64));
        }
    }
    assert forall|chain: Seq<char>|
        chain_count(processed.push(av), chain, strict, min_conf, queried) > 0 implies exists|k: int|
        0 <= k < after.len() && (#[trigger] after[k]).0 == chain by {
        if chain_count(processed, chain, strict, min_conf, queried) > 0 {
            let k = choose|k: int| 0 <= k < before.len() && (#[trigger] before[k]).0 == chain;
            assert(after[k].0 == chain);
        } else {
            assert(chain == av.chain);
            assert(after[after.len() - 1].0 == chain);
        }
    }
}

/// The validity verdict for a sequence: the hash chain holds, every
/// frame is well formed, and no tampering was found.
pub open spec fn verdict_of(s: Seq<EncryptedFrameView>) -> bool {
    chain_ok(s) && all_frames_well_formed(s) && tamper_finding(s) is None
}

/// The evidence identifier minted for an unnamed verification run.
pub open spec fn evidence_id_of(now: u64) -> Seq<char> {
    "evidence_"@ + dec_str(now as nat)
}

impl VerificationEngine {
    /// Composes the full verification: hash chain, field formats,
    /// confirmation counts, tamper scan, and the court report, stamped
    /// with the caller-supplied time. The verdict is valid exactly when
    /// all checks pass and no tampering is found.
    pub fn verify_integrity(
        &self,
        frames: &Vec<EncryptedFrame>,
        queried: &Vec<(String, u64)>,
        now: u64,
    ) -> (r: Result<VerificationResult, crate::error::ImmutableEncryptionError>)
        requires
            all_anchors(frames_view(frames@)).len() <= u64::MAX,
        ensures
            r matches Ok(v) && {
                let s = frames_view(frames@);
                &&& v.is_valid == verdict_of(s)
                &&& v.frame_count == s.len()
                &&& option_string_view(v.tamper_evidence) == tamper_finding(s)
                &&& v.court_report@ == court_report_of(evidence_id_of(now), s, now)
                &&& conf_counts_ok(
                    assoc_view(v.blockchain_confirmations@),
                    s,
                    self.config.strict_mode,
                    assoc_view(self.config.min_confirmations@),
                    assoc_view(queried@),
                )
            },
    {
        let hash_chain_valid = match self.verify_hash_chain(frames) {
            Ok(b) => b,
            Err(e) => {
                return Err(e);
            },
        };
        let crypto_integrity = match self.verify_cryptographic_integrity(frames) {
            Ok(b) => b,
            Err(e) => {
                return Err(e);
            },
        };
        let blockchain_conf = match self.verify_blockchain_confirmations(frames, queried) {
            Ok(c) => c,
            Err(e) => {
                return Err(e);
            },
        };
        let tamper_evidence = match self.detect_tampering(frames) {
            Ok(t) => t,
            Err(e) => {
                return Err(e);
            },
        };
        let is_valid = hash_chain_valid && crypto_integrity && tamper_evidence.is_none();
        let mut evidence_id = String::from_str("evidence_");
        evidence_id.append(u64_to_dec_string(now).as_str());
        proof {
            assert(evidence_id@ =~= evidence_id_of(now));
        }
        let court_report = match self.generate_court_report(evidence_id, frames, now) {
            Ok(rep) => rep,
            Err(e) => {
                return Err(e);
            },
        };
        Ok(
            VerificationResult {
                is_valid,
                frame_count: frames.len() as u64,
                blockchain_confirmations: blockchain_conf,
                tamper_evidence,
                court_report,
            },
        )
    }
}

/// A verifier that commits to a frame sequence and checks commitments.
pub struct ZeroKnowledgeVerifier {
    pub config: VerificationConfig,
}

/// The bytes committed to for a sequence: each frame's hash characters
/// (UTF-8) followed by its sequence number, big endian.
pub open spec fn commitment_msg(s: Seq<EncryptedFrameView>) -> Seq<u8>
    decreases s.len(),
{
    if s.len() == 0 {
        Seq::<u8>::empty()
    } else {
        commitment_msg(s.drop_last()) + vstd::utf8::encode_utf8(s.last().hash)
            + crate::bytes::u64_be_bytes(s.last().sequence)
    }
}

/// The authenticity proof string for a sequence.
pub open spec fn authenticity_proof_of(s: Seq<EncryptedFrameView>) -> Seq<char> {
    "zk_proof_"@ + crate::bytes::hex_of(crate::primitives::blake3_of(commitment_msg(s)))
}

impl ZeroKnowledgeVerifier {
    pub fn new(config: VerificationConfig) -> (r: Self)
        ensures
            r.config == config,
    {
        ZeroKnowledgeVerifier { config }
    }

    /// Produces the commitment-based authenticity proof for a sequence.
    pub fn generate_authenticity_proof(&self, frames: &Vec<EncryptedFrame>) -> (r: Result<
        String,
        crate::error::ImmutableEncryptionError,
    >)
        ensures
            r matches Ok(p) && p@ == authenticity_proof_of(frames_view(frames@)),
    {
        let ghost s = frames_view(frames@);
        proof {
            assert(forall|j: int| 0 <= j < frames@.len() ==> #[trigger] s[j] == frames@[j]@);
        }
        let mut msg: Vec<u8> = Vec::new();
        proof {
            assert(msg@ =~= commitment_msg(s.take(0)));
        }
        for i in 0..frames.len()
            invariant
                s == frames_view(frames@),
                s.len() == frames@.len(),
                forall|j: int| 0 <= j < frames@.len() ==> #[trigger] s[j] == frames@[j]@,
                msg@ == commitment_msg(s.take(i as int)),
        {
            let hash_bytes = frames[i].hash.as_str().as_bytes();
            msg.extend_from_slice(hash_bytes);
            proof {
                assert(msg@ =~= commitment_msg(s.take(i as int)) + vstd::utf8::encode_utf8(
                    s[i as int].hash,
                ));
            }
            crate::bytes::push_u64_be(&mut msg, frames[i].sequence);
            proof {
                assert(s.take(i as int + 1).drop_last() =~= s.take(i as int));
                assert(s.take(i as int + 1).last() == s[i as int]);
                assert(msg@ =~= commitment_msg(s.take(i as int + 1)));
            }
        }
        proof {
            assert(s.take(s.len() as int) =~= s);
        }
        let digest = crate::primitives::blake3_hash(msg.as_slice());
        let digest_hex = crate::primitives::hex_encode(digest.as_slice());
        let mut out = String::from_str("zk_proof_");
        out.append(digest_hex.as_str());
        proof {
            assert(out@ =~= authenticity_proof_of(s));
        }
        Ok(out)
    }

    /// Checks the shape of an authenticity proof: the commitment prefix
    /// must be present and at least one public input supplied.
    pub fn verify_authenticity_proof(&self, commitment: &String, public_inputs: &Vec<String>) -> (r:
        Result<bool, crate::error::ImmutableEncryptionError>)
        ensures
            r matches Ok(b) && b == (commitment@.len() >= 9 && commitment@.subrange(0, 9)
                == "zk_proof_"@ && public_inputs@.len() > 0),
    {
        if public_inputs.len() == 0 {
            return Ok(false);
        }
        let c = commitment.as_str();
        if c.unicode_len() < 9 {
            return Ok(false);
        }
        let prefix = "zk_proof_";
        proof {
            reveal_strlit("zk_proof_");
        }
        for k in 0..9usize
            invariant
                c@ == commitment@,
                c@.len() >= 9,
                prefix@ == "zk_proof_"@,
                prefix@.len() == 9,
                forall|j: int| 0 <= j < k ==> c@[j] == prefix@[j],
        {
            let a = c.get_char(k);
            let b = prefix.get_char(k);
            if a != b {
                proof {
                    assert(c@[k as int] != "zk_proof_"@[k as int]);
                    assert(commitment@.subrange(0, 9) != "zk_proof_"@);
                }
                return Ok(false);
            }
        }
        proof {
            assert(commitment@.subrange(0, 9) =~= "zk_proof_"@);
        }
        Ok(true)
    }
}

/// Whether every frame of a sequence is well formed.
pub open spec fn all_frames_well_formed(s: Seq<EncryptedFrameView>) -> bool {
    forall|i: int| 0 <= i < s.len() ==> frame_well_formed(#[trigger] s[i])
}

/// Checks the field formats of one stored frame.
pub fn frame_fields_ok(frame: &EncryptedFrame) -> (r: bool)
    ensures
        r == frame_well_formed(frame@),
{
    let h = frame.hash.as_str();
    let hlen = h.unicode_len();
    if hlen != 64 {
        return false;
    }
    for i in 0..64usize
        invariant
            h@ == frame@.hash,
            h@.len() == 64,
            forall|j: int| 0 <= j < i ==> is_hex_digit_char(#[trigger] h@[j]),
    {
        let c = h.get_char(i);
        let u = c as u32;
        let hex = (48 <= u && u <= 57) || (97 <= u && u <= 102) || (65 <= u && u <= 70);
        if !hex {
            proof {
                assert(!is_hex_digit_char(frame@.hash[i as int]));
            }
            return false;
        }
    }
    if frame.nonce.len() != 12 {
        return false;
    }
    if frame.ciphertext.len() == 0 {
        return false;
    }
    true
}

} // verus!

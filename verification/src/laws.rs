//! The library's laws: sequence-wide guarantees proved once, over the
//! same specifications the functions' own contracts use.

use vstd::prelude::*;

use crate::verification::{
    break_at, dup_at, first_break_from, first_dup_from, first_gap_from, gap_at, tamper_finding,
    verdict_of,
};
use crate::video::RealTimeEncryptionNode;
use crate::{chain_ok, frame_well_formed, frames_view, EncryptedFrameView, VideoFrameView};

verus! {

/// Every frame sequence the pipeline holds is a valid hash chain: the
/// node's invariant carries the chain through every processed frame.
pub proof fn lemma_pipeline_chain_valid(node: &RealTimeEncryptionNode)
    requires
        node.wf(),
    ensures
        chain_ok(frames_view(node.frame_buffer@)),
{
}

/// Every frame the pipeline emits is well formed: a 64-character
/// hexadecimal hash, a 12-byte nonce, and non-empty ciphertext.
pub proof fn lemma_pipeline_frames_well_formed(node: &RealTimeEncryptionNode)
    requires
        node.wf(),
    ensures
        forall|i: int|
            0 <= i < node.frame_buffer@.len() ==> frame_well_formed(
                #[trigger] frames_view(node.frame_buffer@)[i],
            ),
{
}

/// The frame hash is deterministic: equal frame contents give equal
/// hashes.
pub proof fn lemma_frame_hash_deterministic(a: VideoFrameView, b: VideoFrameView)
    requires
        a == b,
    ensures
        crate::crypto::frame_hash_of(a) == crate::crypto::frame_hash_of(b),
{
}

/// Verification is repeatable: the verdict and the tamper finding are
/// functions of the frame sequence alone.
pub proof fn lemma_verification_deterministic(a: Seq<EncryptedFrameView>, b: Seq<EncryptedFrameView>)
    requires
        a == b,
    ensures
        verdict_of(a) == verdict_of(b),
        tamper_finding(a) == tamper_finding(b),
{
}

/// There is no gap at or after `i` exactly when the scan finds none.
proof fn lemma_first_gap_from_none_iff(s: Seq<EncryptedFrameView>, i: int)
    requires
        0 <= i,
    ensures
        first_gap_from(s, i) is None <==> forall|j: int| i <= j < s.len() - 1 ==> !gap_at(s, j),
    decreases s.len() - i,
{
    if i < s.len() - 1 {
        lemma_first_gap_from_none_iff(s, i + 1);
    }
}

/// There is no break at or after `i` exactly when the scan finds none.
proof fn lemma_first_break_from_none_iff(s: Seq<EncryptedFrameView>, i: int)
    requires
        0 <= i,
    ensures
        first_break_from(s, i) is None <==> forall|j: int| i <= j < s.len() - 1 ==> !break_at(s, j),
    decreases s.len() - i,
{
    if i < s.len() - 1 {
        lemma_first_break_from_none_iff(s, i + 1);
    }
}

/// There is no duplicate at or after `j` exactly when the scan finds
/// none.
proof fn lemma_first_dup_from_none_iff(s: Seq<EncryptedFrameView>, j: int)
    requires
        0 <= j,
    ensures
        first_dup_from(s, j) is None <==> forall|k: int| j <= k < s.len() ==> !dup_at(s, k),
    decreases s.len() - j,
{
    if j < s.len() {
        lemma_first_dup_from_none_iff(s, j + 1);
    }
}

/// A single well-formed frame verifies as valid.
pub proof fn lemma_single_frame_verifies(s: Seq<EncryptedFrameView>)
    requires
        s.len() == 1,
        frame_well_formed(s[0]),
    ensures
        verdict_of(s),
{
    lemma_first_gap_from_none_iff(s, 0);
    lemma_first_break_from_none_iff(s, 0);
    lemma_first_dup_from_none_iff(s, 0);
    assert(forall|k: int| 0 <= k < s.len() ==> !dup_at(s, k));
}

/// Changing the `hash` of any frame but the last one in a valid chain is
/// detected: the verdict turns invalid and the tamper scan reports a
/// finding.
pub proof fn lemma_hash_mutation_detected(
    s: Seq<EncryptedFrameView>,
    i: int,
    new_hash: Seq<char>,
)
    requires
        chain_ok(s),
        0 <= i < s.len() - 1,
        new_hash != s[i].hash,
    ensures
        !verdict_of(s.update(i, (EncryptedFrameView { hash: new_hash, ..s[i] }))),
        tamper_finding(s.update(i, (EncryptedFrameView { hash: new_hash, ..s[i] }))) is Some,
{
    let m = s.update(i, (EncryptedFrameView { hash: new_hash, ..s[i] }));
    assert(break_at(m, i)) by {
        assert(m[i + 1].previous_hash == s[i + 1].previous_hash);
        assert(s[i + 1].previous_hash == s[i].hash);
        assert(m[i].hash == new_hash);
    }
    lemma_first_break_from_none_iff(m, 0);
    assert(first_break_from(m, 0) is Some);
    match first_gap_from(m, 0) {
        Some(g) => {
            assert(tamper_finding(m) is Some);
        },
        None => {
            assert(tamper_finding(m) is Some);
        },
    }
    assert(!chain_ok(m)) by {
        assert(m[i + 1].previous_hash != m[i].hash);
    }
}

/// Changing the `previous_hash` of any frame but the first one in a
/// valid chain is detected.
pub proof fn lemma_previous_hash_mutation_detected(
    s: Seq<EncryptedFrameView>,
    i: int,
    new_prev: Seq<char>,
)
    requires
        chain_ok(s),
        1 <= i < s.len(),
        new_prev != s[i].previous_hash,
    ensures
        !verdict_of(s.update(i, (EncryptedFrameView { previous_hash: new_prev, ..s[i] }))),
        tamper_finding(s.update(i, (EncryptedFrameView { previous_hash: new_prev, ..s[i] })))
            is Some,
{
    let m = s.update(i, (EncryptedFrameView { previous_hash: new_prev, ..s[i] }));
    assert(break_at(m, i - 1)) by {
        assert(s[i].previous_hash == s[i - 1].hash);
        assert(m[i].previous_hash == new_prev);
        assert(m[i - 1].hash == s[i - 1].hash);
    }
    lemma_first_break_from_none_iff(m, 0);
    assert(first_break_from(m, 0) is Some);
    match first_gap_from(m, 0) {
        Some(g) => {
            assert(tamper_finding(m) is Some);
        },
        None => {
            assert(tamper_finding(m) is Some);
        },
    }
    assert(!chain_ok(m)) by {
        assert(m[i].previous_hash != m[i - 1].hash);
    }
}

/// Changing the `sequence` of any frame of a valid chain of at least two
/// frames is detected.
pub proof fn lemma_sequence_mutation_detected(s: Seq<EncryptedFrameView>, i: int, new_seq: u64)
    requires
        chain_ok(s),
        s.len() >= 2,
        0 <= i < s.len(),
        new_seq != s[i].sequence,
    ensures
        !verdict_of(s.update(i, (EncryptedFrameView { sequence: new_seq, ..s[i] }))),
        tamper_finding(s.update(i, (EncryptedFrameView { sequence: new_seq, ..s[i] }))) is Some,
{
    let m = s.update(i, (EncryptedFrameView { sequence: new_seq, ..s[i] }));
    if i < s.len() - 1 {
        assert(gap_at(m, i)) by {
            assert(s[i + 1].sequence == s[i].sequence + 1);
            assert(m[i].sequence == new_seq && m[i + 1].sequence == s[i + 1].sequence);
        }
        lemma_first_gap_from_none_iff(m, 0);
        assert(first_gap_from(m, 0) is Some);
        assert(tamper_finding(m) is Some);
        assert(!chain_ok(m)) by {
            assert(m[i + 1].sequence != m[i].sequence + 1);
        }
    } else {
        assert(gap_at(m, i - 1)) by {
            assert(s[(i - 1) + 1].sequence == s[i - 1].sequence + 1);
            assert(s[i].sequence == s[i - 1].sequence + 1);
            assert(m[i].sequence == new_seq && m[i - 1].sequence == s[i - 1].sequence);
        }
        lemma_first_gap_from_none_iff(m, 0);
        assert(first_gap_from(m, 0) is Some);
        assert(tamper_finding(m) is Some);
        assert(!chain_ok(m)) by {
            assert(m[i].sequence != m[i - 1].sequence + 1);
        }
    }
}

/// Emptying a stored frame's ciphertext turns the verdict invalid.
pub proof fn lemma_ciphertext_emptied_detected(s: Seq<EncryptedFrameView>, i: int)
    requires
        0 <= i < s.len(),
    ensures
        !verdict_of(
            s.update(i, (EncryptedFrameView { ciphertext: Seq::<u8>::empty(), ..s[i] })),
        ),
{
    let m = s.update(i, (EncryptedFrameView { ciphertext: Seq::<u8>::empty(), ..s[i] }));
    assert(!frame_well_formed(m[i]));
    assert(!crate::verification::all_frames_well_formed(m));
}

/// An empty sequence yields an empty custody chain and no proofs; the
/// compliance attestations are the fixed ones.
pub proof fn lemma_empty_report()
    ensures
        crate::verification::custody_of(Seq::<EncryptedFrameView>::empty()) == Seq::<
            crate::CustodyEntryView,
        >::empty(),
        crate::verification::proofs_of(Seq::<EncryptedFrameView>::empty()) == Seq::<
            Seq<char>,
        >::empty(),
{
}

} // verus!

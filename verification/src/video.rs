//! The pipeline node: turns raw frames into hash-chained encrypted
//! records, maintains the in-memory frame buffer, and prepares batches
//! for anchoring and storage.

use vstd::prelude::*;

use crate::crypto::{
    bucket_of, chain_link_of, frame_hash_of, CryptoConfig, EncryptionEngine,
};
use crate::error::ImmutableEncryptionError;
use crate::{
    chain_ok, frame_well_formed, frames_view, zero_hash, zero_hash_string, AnchorView,
    BlockchainAnchor, EncryptedFrame, EncryptedFrameView, VideoFrame,
};

verus! {

/// The frames handed to the pipeline must arrive in order: consecutive
/// sequence numbers and strictly increasing timestamps relative to the
/// last buffered frame.
pub open spec fn frame_in_order(buffer: Seq<EncryptedFrameView>, f: crate::VideoFrameView) -> bool {
    buffer.len() > 0 ==> {
        &&& f.sequence == buffer.last().sequence + 1
        &&& f.timestamp > buffer.last().timestamp
    }
}

/// The pipeline node: the encryption engine plus the ordered log of
/// recently produced frames, which seeds each new frame's chain link.
pub struct RealTimeEncryptionNode {
    pub encryption_engine: EncryptionEngine,
    pub frame_buffer: Vec<EncryptedFrame>,
}

impl RealTimeEncryptionNode {
    /// The node's invariant: the engine is well formed, the buffer is a
    /// valid hash chain, and every buffered frame is well formed.
    pub open spec fn wf(&self) -> bool {
        &&& self.encryption_engine.wf()
        &&& chain_ok(frames_view(self.frame_buffer@))
        &&& forall|i: int|
            0 <= i < self.frame_buffer@.len() ==> frame_well_formed(
                #[trigger] frames_view(self.frame_buffer@)[i],
            )
    }

    /// Builds a node with an empty frame buffer, keyed from `now`.
    pub fn new(crypto_config: CryptoConfig, now: u64) -> (r: Result<
        Self,
        ImmutableEncryptionError,
    >)
        ensures
            crypto_config.primary_key@.len() != 32 ==> r is Err,
            r matches Ok(node) ==> node.wf() && node.frame_buffer@.len() == 0,
    {
        let engine = match EncryptionEngine::new(crypto_config, now) {
            Ok(e) => e,
            Err(e) => {
                return Err(e);
            },
        };
        Ok(RealTimeEncryptionNode { encryption_engine: engine, frame_buffer: Vec::new() })
    }

    /// Processes one frame: computes its content hash, links it to the
    /// last buffered frame (or the zero hash), encrypts the payload, and
    /// appends the record to the buffer. The buffer remains a valid,
    /// well-formed hash chain; on failure it is unchanged.
    pub fn process_frame(&mut self, frame: &VideoFrame) -> (r: Result<
        EncryptedFrame,
        ImmutableEncryptionError,
    >)
        requires
            old(self).wf(),
            frame_in_order(frames_view(old(self).frame_buffer@), frame@),
        ensures
            final(self).wf(),
            final(self).encryption_engine == old(self).encryption_engine,
            r matches Ok(ef) ==> {
                let prev = if old(self).frame_buffer@.len() == 0 {
                    zero_hash()
                } else {
                    frames_view(old(self).frame_buffer@).last().hash
                };
                let b = bucket_of(
                    frame.timestamp,
                    old(self).encryption_engine.config.key_rotation_interval,
                );
                &&& final(self).frame_buffer@.len() == old(self).frame_buffer@.len() + 1
                &&& forall|i: int|
                    0 <= i < old(self).frame_buffer@.len()
                        ==> #[trigger] final(self).frame_buffer@[i] == old(self).frame_buffer@[i]
                &&& final(self).frame_buffer@.last()@ == ef@
                &&& ef.sequence == frame.sequence
                &&& ef.timestamp == frame.timestamp
                &&& ef.previous_hash@ == prev
                &&& ef.hash@ == chain_link_of(frame_hash_of(frame@), prev, frame.sequence)
                &&& ef.nonce@.len() == 12
                &&& ef.ciphertext@ == crate::primitives::aead_seal_of(
                    old(self).encryption_engine.key_schedule@[b]@,
                    ef.nonce@,
                    frame.data@,
                )
                &&& ef.ciphertext@.len() == frame.data@.len() + 16
                &&& ef.blockchain_anchors@.len() == 0
                &&& frame_well_formed(ef@)
            },
            r is Err ==> final(self).frame_buffer == old(self).frame_buffer,
            !old(self).encryption_engine.key_schedule@.contains_key(
                bucket_of(
                    frame.timestamp,
                    old(self).encryption_engine.config.key_rotation_interval,
                ),
            ) ==> r is Err,
    {
        proof {
            let ov = frames_view(self.frame_buffer@);
            assert(forall|k: int|
                0 <= k < self.frame_buffer@.len() ==> #[trigger] ov[k] == self.frame_buffer@[k]@);
        }
        let frame_hash = match self.encryption_engine.generate_frame_hash(frame) {
            Ok(h) => h,
            Err(e) => {
                return Err(e);
            },
        };
        let previous_hash = if self.frame_buffer.len() == 0 {
            zero_hash_string()
        } else {
            self.frame_buffer[self.frame_buffer.len() - 1].hash.clone()
        };
        let chain_hash = match self.encryption_engine.create_hash_chain_link(
            frame_hash.as_str(),
            previous_hash.as_str(),
            frame.sequence,
        ) {
            Ok(h) => h,
            Err(e) => {
                return Err(e);
            },
        };
        let (ciphertext, nonce) = match self.encryption_engine.encrypt_data(
            frame.data.as_slice(),
            frame.timestamp,
        ) {
            Ok(p) => p,
            Err(e) => {
                return Err(e);
            },
        };
        let encrypted_frame = EncryptedFrame {
            sequence: frame.sequence,
            ciphertext,
            hash: chain_hash,
            previous_hash,
            nonce,
            timestamp: frame.timestamp,
            blockchain_anchors: Vec::new(),
        };
        let ghost old_views = frames_view(self.frame_buffer@);
        let result = clone_frame(&encrypted_frame);
        self.frame_buffer.push(encrypted_frame);
        proof {
            let views = frames_view(self.frame_buffer@);
            assert(views =~= old_views.push(self.frame_buffer@.last()@));
            assert(forall|i: int|
                0 <= i < old_views.len() ==> #[trigger] views[i] == old_views[i]);
            assert(frame_well_formed(views.last()));
            assert forall|i: int| 0 <= i < views.len() - 1 implies {
                &&& (#[trigger] views[i + 1]).previous_hash == views[i].hash
                &&& views[i + 1].sequence == views[i].sequence + 1
                &&& views[i + 1].timestamp > views[i].timestamp
            } by {
                if i < old_views.len() - 1 {
                    assert(chain_ok(old_views));
                    assert(views[i + 1] == old_views[i + 1] && views[i] == old_views[i]);
                } else {
                    assert(views[i] == old_views.last());
                }
            }
            assert(chain_ok(views));
            let prev = if old(self).frame_buffer@.len() == 0 {
                zero_hash()
            } else {
                frames_view(old(self).frame_buffer@).last().hash
            };
            let b = bucket_of(
                frame.timestamp,
                old(self).encryption_engine.config.key_rotation_interval,
            );
            assert(self.frame_buffer@.len() == old(self).frame_buffer@.len() + 1);
            assert(self.frame_buffer@.last()@ == result@);
            assert(result.sequence == frame.sequence);
            assert(result.timestamp == frame.timestamp);
            assert(result.previous_hash@ == prev);
            assert(result.hash@ == chain_link_of(frame_hash_of(frame@), prev, frame.sequence));
            assert(result.nonce@.len() == 12);
            assert(result.ciphertext@ == crate::primitives::aead_seal_of(
                old(self).encryption_engine.key_schedule@[b]@,
                result.nonce@,
                frame.data@,
            ));
            assert(result@.blockchain_anchors.len() == 0);
            assert(result.blockchain_anchors@.map_values(|a: BlockchainAnchor| a@).len()
                == result.blockchain_anchors@.len());
            assert(result.blockchain_anchors@.len() == 0);
            assert(frame_well_formed(result@));
        }
        Ok(result)
    }
}

/// Copies a frame record field by field.
pub fn clone_frame(f: &EncryptedFrame) -> (r: EncryptedFrame)
    ensures
        r@ == f@,
{
    let mut anchors: Vec<BlockchainAnchor> = Vec::new();
    for i in 0..f.blockchain_anchors.len()
        invariant
            anchors@.len() == i,
            forall|j: int| 0 <= j < i ==> (#[trigger] anchors@[j])@ == f.blockchain_anchors@[j]@,
    {
        let a = &f.blockchain_anchors[i];
        anchors.push(
            BlockchainAnchor {
                chain: a.chain.clone(),
                transaction_hash: a.transaction_hash.clone(),
                block_number: a.block_number,
                timestamp: a.timestamp,
                proof: a.proof.clone(),
            },
        );
    }
    let r = EncryptedFrame {
        sequence: f.sequence,
        ciphertext: f.ciphertext.clone(),
        hash: f.hash.clone(),
        previous_hash: f.previous_hash.clone(),
        nonce: f.nonce.clone(),
        timestamp: f.timestamp,
        blockchain_anchors: anchors,
    };
    proof {
        assert(r@.blockchain_anchors =~= f@.blockchain_anchors);
        assert(r@.ciphertext =~= f@.ciphertext);
        assert(r@.nonce =~= f@.nonce);
        assert(r@ =~= f@);
    }
    r
}

/// Whether a frame sequence is ordered by sequence number.
pub open spec fn sorted_by_sequence(s: Seq<EncryptedFrameView>) -> bool {
    forall|p: int, q: int| 0 <= p < q < s.len() ==> (#[trigger] s[p]).sequence <= (#[trigger] s[q]).sequence
}

/// Sorts a batch of frames by sequence number (insertion sort); the
/// result is a permutation of the input.
pub fn sort_frames_by_sequence(frames: &mut Vec<EncryptedFrame>)
    ensures
        sorted_by_sequence(frames_view(final(frames)@)),
        final(frames)@.to_multiset() == old(frames)@.to_multiset(),
{
    broadcast use vstd::seq_lib::to_multiset_remove;
    broadcast use vstd::seq_lib::to_multiset_insert;

    let ghost ms = frames@.to_multiset();
    if frames.len() < 2 {
        return ;
    }
    let n = frames.len();
    let mut i: usize = 1;
    while i < n
        invariant
            n == frames@.len(),
            n >= 2,
            1 <= i <= n,
            frames@.to_multiset() == ms,
            sorted_by_sequence(frames_view(frames@).take(i as int)),
        decreases n - i,
    {
        let ghost pre = frames@;
        let x = frames.remove(i);
        let ghost after_remove = frames@;
        proof {
            assert(after_remove == pre.remove(i as int));
            assert(forall|k: int| 0 <= k < i ==> #[trigger] after_remove[k] == pre[k]);
        }
        let mut j: usize = i;
        while j > 0 && frames[j - 1].sequence > x.sequence
            invariant
                frames@ == after_remove,
                0 <= j <= i,
                i < after_remove.len() + 1,
                forall|k: int| j <= k < i ==> (#[trigger] after_remove[k])@.sequence > x@.sequence,
            decreases j,
        {
            j = j - 1;
        }
        frames.insert(j, x);
        proof {
            assert(frames@ == after_remove.insert(j as int, x));
            // The batch stays a permutation of what it was.
            vstd::seq_lib::to_multiset_remove(pre, i as int);
            vstd::seq_lib::to_multiset_insert(after_remove, j as int, x);
            pre.to_multiset_ensures();
            assert(pre.contains(x)) by {
                assert(pre[i as int] == x);
            }
            assert(pre.to_multiset().count(x) > 0);
            assert(frames@.to_multiset() =~= pre.to_multiset()) by {
                broadcast use vstd::multiset::group_multiset_axioms;

                assert(frames@.to_multiset() == pre.to_multiset().remove(x).insert(x));
            }
            // The sorted prefix grows by one.
            let views = frames_view(frames@);
            assert(forall|k: int| 0 <= k < views.len() ==> #[trigger] views[k] == frames@[k]@);
            let pre_views = frames_view(pre);
            assert(forall|k: int| 0 <= k < pre.len() ==> #[trigger] pre_views[k] == pre[k]@);
            assert(forall|k: int|
                0 <= k < i ==> #[trigger] pre_views.take(i as int)[k] == pre_views[k]);
            assert forall|a: int, b: int| 0 <= a <= b < i implies (#[trigger] pre_views[a]).sequence
                <= (#[trigger] pre_views[b]).sequence by {
                if a < b {
                    assert(pre_views.take(i as int)[a] == pre_views[a]);
                    assert(pre_views.take(i as int)[b] == pre_views[b]);
                    assert(sorted_by_sequence(pre_views.take(i as int)));
                    assert(pre_views.take(i as int)[a].sequence <= pre_views.take(
                        i as int,
                    )[b].sequence);
                }
            }
            assert forall|p: int, q: int| 0 <= p < q < i + 1 implies (#[trigger] views[p]).sequence
                <= (#[trigger] views[q]).sequence by {
                let jj = j as int;
                let ii = i as int;
                if q < jj {
                    assert(frames@[p] == pre[p] && frames@[q] == pre[q]);
                    assert(views[p] == pre_views[p] && views[q] == pre_views[q]);
                    assert(pre_views[p].sequence <= pre_views[q].sequence);
                } else if q == jj {
                    assert(frames@[q] == x);
                    assert(views[q] == x@);
                    if p < jj {
                        assert(frames@[p] == pre[p]);
                        assert(views[p] == pre_views[p]);
                        assert(pre[jj - 1]@.sequence <= x@.sequence);
                        assert(pre_views[jj - 1].sequence <= x@.sequence);
                        assert(pre_views[p].sequence <= pre_views[jj - 1].sequence);
                    }
                } else {
                    assert(frames@[q] == after_remove[q - 1]);
                    assert(after_remove[q - 1] == pre[q - 1]);
                    assert(views[q] == pre_views[q - 1]);
                    if p < jj {
                        assert(frames@[p] == pre[p]);
                        assert(views[p] == pre_views[p]);
                        assert(pre_views[p].sequence <= pre_views[q - 1].sequence);
                    } else if p == jj {
                        assert(frames@[p] == x);
                        assert(views[p] == x@);
                        assert(after_remove[q - 1]@.sequence > x@.sequence);
                    } else {
                        assert(frames@[p] == after_remove[p - 1]);
                        assert(after_remove[p - 1] == pre[p - 1]);
                        assert(views[p] == pre_views[p - 1]);
                        assert(pre_views[p - 1].sequence <= pre_views[q - 1].sequence);
                    }
                }
            }
            assert(sorted_by_sequence(views.take(i as int + 1))) by {
                assert(forall|k: int|
                    0 <= k < i + 1 ==> #[trigger] views.take(i as int + 1)[k] == views[k]);
            }
        }
        i = i + 1;
    }
    proof {
        assert(frames_view(frames@).take(n as int) =~= frames_view(frames@));
    }
}

/// Copies one anchor field by field.
pub fn clone_anchor(a: &BlockchainAnchor) -> (r: BlockchainAnchor)
    ensures
        r@ == a@,
{
    BlockchainAnchor {
        chain: a.chain.clone(),
        transaction_hash: a.transaction_hash.clone(),
        block_number: a.block_number,
        timestamp: a.timestamp,
        proof: a.proof.clone(),
    }
}

/// Copies an anchor list, preserving each anchor's view.
pub fn clone_anchor_list(list: &Vec<BlockchainAnchor>) -> (r: Vec<BlockchainAnchor>)
    ensures
        r@.len() == list@.len(),
        forall|j: int| 0 <= j < list@.len() ==> (#[trigger] r@[j])@ == list@[j]@,
{
    let mut out: Vec<BlockchainAnchor> = Vec::new();
    for i in 0..list.len()
        invariant
            out@.len() == i,
            forall|j: int| 0 <= j < i ==> (#[trigger] out@[j])@ == list@[j]@,
    {
        out.push(clone_anchor(&list[i]));
    }
    out
}

/// The view of a frame with an anchor list attached.
pub open spec fn with_anchors(f: EncryptedFrameView, anchors: Seq<AnchorView>) -> EncryptedFrameView {
    EncryptedFrameView { blockchain_anchors: anchors, ..f }
}

/// Attaches per-frame anchor results to a batch, by index; frames whose
/// anchoring failed keep their previous anchor list.
pub fn attach_anchor_results(
    frames: &mut Vec<EncryptedFrame>,
    results: &Vec<Option<Vec<BlockchainAnchor>>>,
)
    ensures
        final(frames)@.len() == old(frames)@.len(),
        forall|i: int|
            0 <= i < old(frames)@.len() ==> {
                if 0 <= i < results@.len() && results@[i] is Some {
                    (#[trigger] final(frames)@[i])@ == with_anchors(
                        old(frames)@[i]@,
                        results@[i].unwrap()@.map_values(|a: BlockchainAnchor| a@),
                    )
                } else {
                    final(frames)@[i] == old(frames)@[i]
                }
            },
{
    let ghost orig = frames@;
    let n = frames.len();
    for i in 0..n
        invariant
            n == orig.len(),
            frames@.len() == orig.len(),
            forall|k: int| i <= k < orig.len() ==> #[trigger] frames@[k] == orig[k],
            forall|k: int|
                0 <= k < i ==> {
                    if 0 <= k < results@.len() && results@[k] is Some {
                        (#[trigger] frames@[k])@ == with_anchors(
                            orig[k]@,
                            results@[k].unwrap()@.map_values(|a: BlockchainAnchor| a@),
                        )
                    } else {
                        frames@[k] == orig[k]
                    }
                },
    {
        if i < results.len() {
            match &results[i] {
                Some(list) => {
                    let anchors = clone_anchor_list(list);
                    let ghost before = frames@;
                    let mut fr = frames.remove(i);
                    fr.blockchain_anchors = anchors;
                    frames.insert(i, fr);
                    proof {
                        assert(frames@ =~= before.update(i as int, frames@[i as int]));
                        assert(frames@[i as int]@.blockchain_anchors =~= results@[i as int].unwrap()@.map_values(
                            |a: BlockchainAnchor| a@,
                        ));
                        assert(frames@[i as int]@ =~= with_anchors(
                            orig[i as int]@,
                            results@[i as int].unwrap()@.map_values(|a: BlockchainAnchor| a@),
                        ));
                    }
                },
                None => {},
            }
        }
    }
}

} // verus!

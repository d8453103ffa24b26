//! Storage-layer logic: durable key layout, replica pointers, and the
//! retrieval-fallback decision. The byte encoding of records lives in
//! `codec`; the backends that move bytes are outside the library.

use vstd::prelude::*;

use crate::bytes::dec_str;
use crate::bytes::u64_to_dec_string;
use crate::EncryptedFrame;

verus! {

/// Configuration of the storage layer.
pub struct StorageConfig {
    pub database_path: String,
    pub ipfs_enabled: bool,
    pub ipfs_api_url: String,
    pub backup_enabled: bool,
    pub backup_path: String,
    pub compression_enabled: bool,
}

/// The primary key under which a frame is stored.
pub open spec fn frame_key_of(sequence: u64, timestamp: u64) -> Seq<char> {
    "frame:"@ + dec_str(sequence as nat) + ":"@ + dec_str(timestamp as nat)
}

/// The primary key under which a court report is stored.
pub open spec fn metadata_key_of(evidence_id: Seq<char>) -> Seq<char> {
    "metadata:"@ + evidence_id
}

/// The primary key under which a replica pointer is stored.
pub open spec fn replica_pointer_key_of(key: Seq<char>) -> Seq<char> {
    "ipfs:"@ + key
}

/// Builds the primary key for a frame.
pub fn generate_frame_key(frame: &EncryptedFrame) -> (r: String)
    ensures
        r@ == frame_key_of(frame.sequence, frame.timestamp),
{
    let mut out = String::from_str("frame:");
    out.append(u64_to_dec_string(frame.sequence).as_str());
    out.append(":");
    out.append(u64_to_dec_string(frame.timestamp).as_str());
    proof {
        assert(out@ =~= frame_key_of(frame.sequence, frame.timestamp));
    }
    out
}

/// Builds the primary key for a court report.
pub fn generate_metadata_key(evidence_id: &str) -> (r: String)
    ensures
        r@ == metadata_key_of(evidence_id@),
{
    let mut out = String::from_str("metadata:");
    out.append(evidence_id);
    proof {
        assert(out@ =~= metadata_key_of(evidence_id@));
    }
    out
}

/// Builds the key under which a replica pointer is recorded.
pub fn generate_replica_pointer_key(key: &str) -> (r: String)
    ensures
        r@ == replica_pointer_key_of(key@),
{
    let mut out = String::from_str("ipfs:");
    out.append(key);
    proof {
        assert(out@ =~= replica_pointer_key_of(key@));
    }
    out
}

/// Whether an identifier addresses the content-addressed replica.
pub open spec fn is_replica_id(id: Seq<char>) -> bool {
    id.len() >= 5 && id.subrange(0, 5) == "ipfs:"@
}

/// The content identifier carried by a replica identifier.
pub open spec fn replica_cid_of(id: Seq<char>) -> Seq<char> {
    id.skip(5)
}

/// The retrieval-fallback decision: identifiers of the form `ipfs:{cid}`
/// fall back to the replica under `cid`; all others have no fallback.
pub fn fallback_cid(frame_id: &str) -> (r: Option<String>)
    ensures
        match r {
            Some(cid) => is_replica_id(frame_id@) && cid@ == replica_cid_of(frame_id@),
            None => !is_replica_id(frame_id@),
        },
{
    let n = frame_id.unicode_len();
    if n < 5 {
        return None;
    }
    let prefix = "ipfs:";
    proof {
        reveal_strlit("ipfs:");
    }
    for k in 0..5usize
        invariant
            frame_id@.len() == n,
            n >= 5,
            prefix@ == "ipfs:"@,
            prefix@.len() == 5,
            forall|j: int| 0 <= j < k ==> frame_id@[j] == prefix@[j],
    {
        let a = frame_id.get_char(k);
        let b = prefix.get_char(k);
        if a != b {
            proof {
                assert(frame_id@[k as int] != "ipfs:"@[k as int]);
                assert(frame_id@.subrange(0, 5) != "ipfs:"@);
            }
            return None;
        }
    }
    proof {
        assert(frame_id@.subrange(0, 5) =~= "ipfs:"@);
    }
    let cid = frame_id.substring_char(5, n).to_owned();
    proof {
        assert(cid@ =~= replica_cid_of(frame_id@));
    }
    Some(cid)
}

} // verus!

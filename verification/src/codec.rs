//! The self-describing serialization of frame records: length-prefixed
//! fields, big-endian integers, UTF-8 strings. Decoding inverts encoding
//! losslessly.

use vstd::prelude::*;

use crate::bytes::{push_u64_be, read_u64_be, u64_be_bytes, u64_from_be};
use crate::primitives::bytes_to_string;
use crate::{AnchorView, BlockchainAnchor, EncryptedFrame, EncryptedFrameView};
use vstd::utf8::{decode_utf8, encode_utf8, valid_utf8};

verus! {

/// A length-prefixed byte field.
pub open spec fn enc_bytes(b: Seq<u8>) -> Seq<u8> {
    u64_be_bytes(b.len() as u64) + b
}

/// A length-prefixed UTF-8 string field.
pub open spec fn enc_str(s: Seq<char>) -> Seq<u8> {
    enc_bytes(encode_utf8(s))
}

/// The encoding of one anchor.
pub open spec fn enc_anchor(a: AnchorView) -> Seq<u8> {
    enc_str(a.chain) + enc_str(a.transaction_hash) + u64_be_bytes(a.block_number) + u64_be_bytes(
        a.timestamp,
    ) + enc_str(a.proof)
}

/// The encoding of an anchor list, in order.
pub open spec fn enc_anchors(s: Seq<AnchorView>) -> Seq<u8>
    decreases s.len(),
{
    if s.len() == 0 {
        Seq::<u8>::empty()
    } else {
        enc_anchors(s.drop_last()) + enc_anchor(s.last())
    }
}

/// The encoding of one frame record.
pub open spec fn enc_frame(f: EncryptedFrameView) -> Seq<u8> {
    u64_be_bytes(f.sequence) + u64_be_bytes(f.timestamp) + enc_bytes(f.ciphertext) + enc_str(f.hash)
        + enc_str(f.previous_hash) + enc_bytes(f.nonce) + u64_be_bytes(
        f.blockchain_anchors.len() as u64,
    ) + enc_anchors(f.blockchain_anchors)
}

/// Whether a frame's fields are small enough to carry 8-byte length
/// prefixes; every frame held in memory is.
pub open spec fn frame_encodable(f: EncryptedFrameView) -> bool {
    &&& f.ciphertext.len() <= u64::MAX
    &&& encode_utf8(f.hash).len() <= u64::MAX
    &&& encode_utf8(f.previous_hash).len() <= u64::MAX
    &&& f.nonce.len() <= u64::MAX
    &&& f.blockchain_anchors.len() <= u64::MAX
    &&& forall|i: int|
        0 <= i < f.blockchain_anchors.len() ==> anchor_encodable(#[trigger] f.blockchain_anchors[i])
}

/// Whether an anchor's fields are small enough for their prefixes.
pub open spec fn anchor_encodable(a: AnchorView) -> bool {
    &&& encode_utf8(a.chain).len() <= u64::MAX
    &&& encode_utf8(a.transaction_hash).len() <= u64::MAX
    &&& encode_utf8(a.proof).len() <= u64::MAX
}

/// Serializes one anchor.
pub fn encode_anchor_into(out: &mut Vec<u8>, a: &BlockchainAnchor)
    ensures
        final(out)@ == old(out)@ + enc_anchor(a@),
{
    push_str_field(out, a.chain.as_str());
    push_str_field(out, a.transaction_hash.as_str());
    push_u64_be(out, a.block_number);
    push_u64_be(out, a.timestamp);
    push_str_field(out, a.proof.as_str());
    proof {
        assert(out@ =~= old(out)@ + enc_anchor(a@));
    }
}

/// Appends a length-prefixed byte field.
pub fn push_bytes_field(out: &mut Vec<u8>, b: &[u8])
    ensures
        final(out)@ == old(out)@ + enc_bytes(b@),
{
    push_u64_be(out, b.len() as u64);
    out.extend_from_slice(b);
    proof {
        assert(out@ =~= old(out)@ + enc_bytes(b@));
    }
}

/// Appends a length-prefixed string field.
pub fn push_str_field(out: &mut Vec<u8>, s: &str)
    ensures
        final(out)@ == old(out)@ + enc_str(s@),
{
    push_bytes_field(out, s.as_bytes());
}

/// Serializes a frame record.
pub fn encode_frame(f: &EncryptedFrame) -> (r: Vec<u8>)
    ensures
        r@ == enc_frame(f@),
{
    let mut out: Vec<u8> = Vec::new();
    push_u64_be(&mut out, f.sequence);
    push_u64_be(&mut out, f.timestamp);
    push_bytes_field(&mut out, f.ciphertext.as_slice());
    push_str_field(&mut out, f.hash.as_str());
    push_str_field(&mut out, f.previous_hash.as_str());
    push_bytes_field(&mut out, f.nonce.as_slice());
    push_u64_be(&mut out, f.blockchain_anchors.len() as u64);
    let ghost base = out@;
    let ghost anchors_view = f@.blockchain_anchors;
    proof {
        assert(forall|k: int|
            0 <= k < f.blockchain_anchors@.len() ==> #[trigger] anchors_view[k]
                == f.blockchain_anchors@[k]@);
        assert(out@ =~= base + enc_anchors(anchors_view.take(0)));
    }
    for i in 0..f.blockchain_anchors.len()
        invariant
            anchors_view == f@.blockchain_anchors,
            anchors_view.len() == f.blockchain_anchors@.len(),
            forall|k: int|
                0 <= k < f.blockchain_anchors@.len() ==> #[trigger] anchors_view[k]
                    == f.blockchain_anchors@[k]@,
            out@ == base + enc_anchors(anchors_view.take(i as int)),
    {
        encode_anchor_into(&mut out, &f.blockchain_anchors[i]);
        proof {
            assert(anchors_view.take(i as int + 1).drop_last() =~= anchors_view.take(i as int));
            assert(anchors_view.take(i as int + 1).last() == anchors_view[i as int]);
            assert(out@ =~= base + enc_anchors(anchors_view.take(i as int + 1)));
        }
    }
    proof {
        assert(anchors_view.take(anchors_view.len() as int) =~= anchors_view);
        assert(out@ =~= enc_frame(f@));
    }
    out
}

/// Reads the length-prefixed byte field at `pos`, if it lies within `b`.
pub open spec fn parse_bytes(b: Seq<u8>, pos: int) -> Option<(Seq<u8>, int)> {
    if pos < 0 || pos + 8 > b.len() {
        None
    } else {
        let l = u64_from_be(b.subrange(pos, pos + 8)) as int;
        if pos + 8 + l > b.len() {
            None
        } else {
            Some((b.subrange(pos + 8, pos + 8 + l), pos + 8 + l))
        }
    }
}

/// Reads the length-prefixed string field at `pos`, if it is valid UTF-8.
pub open spec fn parse_str(b: Seq<u8>, pos: int) -> Option<(Seq<char>, int)> {
    match parse_bytes(b, pos) {
        Some((bs, p)) => if valid_utf8(bs) {
            Some((decode_utf8(bs), p))
        } else {
            None
        },
        None => None,
    }
}

/// Reads the plain integer field at `pos`.
pub open spec fn parse_u64(b: Seq<u8>, pos: int) -> Option<(u64, int)> {
    if pos < 0 || pos + 8 > b.len() {
        None
    } else {
        Some((u64_from_be(b.subrange(pos, pos + 8)), pos + 8))
    }
}

/// Reads `count` consecutive anchors starting at `pos`.
pub open spec fn parse_anchors(b: Seq<u8>, pos: int, count: nat) -> Option<(Seq<AnchorView>, int)>
    decreases count,
{
    if count == 0 {
        Some((Seq::<AnchorView>::empty(), pos))
    } else {
        match parse_anchor(b, pos) {
            Some((a, p)) => match parse_anchors(b, p, (count - 1) as nat) {
                Some((rest, p2)) => Some((seq![a] + rest, p2)),
                None => None,
            },
            None => None,
        }
    }
}

/// Reads one anchor at `pos`.
pub open spec fn parse_anchor(b: Seq<u8>, pos: int) -> Option<(AnchorView, int)> {
    match parse_str(b, pos) {
        Some((chain, p1)) => match parse_str(b, p1) {
            Some((tx, p2)) => match parse_u64(b, p2) {
                Some((block_number, p3)) => match parse_u64(b, p3) {
                    Some((timestamp, p4)) => match parse_str(b, p4) {
                        Some((proof_str, p5)) => Some(
                            (
                                AnchorView {
                                    chain,
                                    transaction_hash: tx,
                                    block_number,
                                    timestamp,
                                    proof: proof_str,
                                },
                                p5,
                            ),
                        ),
                        None => None,
                    },
                    None => None,
                },
                None => None,
            },
            None => None,
        },
        None => None,
    }
}

/// Reads a whole frame record; the whole input must be consumed.
pub open spec fn dec_frame(b: Seq<u8>) -> Option<EncryptedFrameView> {
    match parse_u64(b, 0) {
        Some((sequence, p0)) => match parse_u64(b, p0) {
            Some((timestamp, p1)) => match parse_bytes(b, p1) {
                Some((ciphertext, p2)) => match parse_str(b, p2) {
                    Some((hash, p3)) => match parse_str(b, p3) {
                        Some((previous_hash, p4)) => match parse_bytes(b, p4) {
                            Some((nonce, p5)) => match parse_u64(b, p5) {
                                Some((count, p6)) => match parse_anchors(b, p6, count as nat) {
                                    Some((anchors, p7)) => if p7 == b.len() {
                                        Some(
                                            (EncryptedFrameView {
                                                sequence,
                                                ciphertext,
                                                hash,
                                                previous_hash,
                                                nonce,
                                                timestamp,
                                                blockchain_anchors: anchors,
                                            }),
                                        )
                                    } else {
                                        None
                                    },
                                    None => None,
                                },
                                None => None,
                            },
                            None => None,
                        },
                        None => None,
                    },
                    None => None,
                },
                None => None,
            },
            None => None,
        },
        None => None,
    }
}

/// Reads a length-prefixed byte field.
fn read_bytes_field(b: &[u8], pos: usize) -> (r: Option<(Vec<u8>, usize)>)
    ensures
        match r {
            Some(p) => parse_bytes(b@, pos as int) == Some((p.0@, p.1 as int)) && p.1 <= b@.len(),
            None => parse_bytes(b@, pos as int) is None,
        },
{
    if pos > b.len() || b.len() - pos < 8 {
        return None;
    }
    let l = read_u64_be(b, pos);
    let avail = b.len() - (pos + 8);
    if l > avail as u64 {
        return None;
    }
    let lu = l as usize;
    let end = pos + 8 + lu;
    let v = vstd::slice::slice_to_vec(vstd::slice::slice_subrange(b, pos + 8, end));
    Some((v, end))
}

/// Reads a length-prefixed UTF-8 string field.
fn read_str_field(b: &[u8], pos: usize) -> (r: Option<(String, usize)>)
    ensures
        match r {
            Some(p) => parse_str(b@, pos as int) == Some((p.0@, p.1 as int)) && p.1 <= b@.len(),
            None => parse_str(b@, pos as int) is None,
        },
{
    let (bytes, end) = match read_bytes_field(b, pos) {
        Some(p) => p,
        None => {
            return None;
        },
    };
    match bytes_to_string(bytes) {
        Some(s) => Some((s, end)),
        None => None,
    }
}

/// Reads a plain integer field.
fn read_u64_field(b: &[u8], pos: usize) -> (r: Option<(u64, usize)>)
    ensures
        match r {
            Some(p) => parse_u64(b@, pos as int) == Some((p.0, p.1 as int)) && p.1 <= b@.len(),
            None => parse_u64(b@, pos as int) is None,
        },
{
    if pos > b.len() || b.len() - pos < 8 {
        return None;
    }
    Some((read_u64_be(b, pos), pos + 8))
}

/// Reads one anchor.
fn read_anchor(b: &[u8], pos: usize) -> (r: Option<(BlockchainAnchor, usize)>)
    ensures
        match r {
            Some(p) => parse_anchor(b@, pos as int) == Some((p.0@, p.1 as int)) && p.1 <= b@.len(),
            None => parse_anchor(b@, pos as int) is None,
        },
{
    let (chain, p1) = match read_str_field(b, pos) {
        Some(p) => p,
        None => {
            return None;
        },
    };
    let (tx, p2) = match read_str_field(b, p1) {
        Some(p) => p,
        None => {
            return None;
        },
    };
    let (block_number, p3) = match read_u64_field(b, p2) {
        Some(p) => p,
        None => {
            return None;
        },
    };
    let (timestamp, p4) = match read_u64_field(b, p3) {
        Some(p) => p,
        None => {
            return None;
        },
    };
    let (proof_field, p5) = match read_str_field(b, p4) {
        Some(p) => p,
        None => {
            return None;
        },
    };
    Some(
        (
            BlockchainAnchor {
                chain,
                transaction_hash: tx,
                block_number,
                timestamp,
                proof: proof_field,
            },
            p5,
        ),
    )
}

/// Deserializes a frame record; fails on anything but a whole, exact
/// encoding.
#[verifier::rlimit(80)]
pub fn decode_frame(b: &[u8]) -> (r: Option<EncryptedFrame>)
    ensures
        match r {
            Some(f) => dec_frame(b@) == Some(f@),
            None => dec_frame(b@) is None,
        },
{
    let (sequence, p0) = match read_u64_field(b, 0) {
        Some(p) => p,
        None => {
            return None;
        },
    };
    let (timestamp, p1) = match read_u64_field(b, p0) {
        Some(p) => p,
        None => {
            return None;
        },
    };
    let (ciphertext, p2) = match read_bytes_field(b, p1) {
        Some(p) => p,
        None => {
            return None;
        },
    };
    let (hash, p3) = match read_str_field(b, p2) {
        Some(p) => p,
        None => {
            return None;
        },
    };
    let (previous_hash, p4) = match read_str_field(b, p3) {
        Some(p) => p,
        None => {
            return None;
        },
    };
    let (nonce, p5) = match read_bytes_field(b, p4) {
        Some(p) => p,
        None => {
            return None;
        },
    };
    let (count, p6) = match read_u64_field(b, p5) {
        Some(p) => p,
        None => {
            return None;
        },
    };
    let mut anchors: Vec<BlockchainAnchor> = Vec::new();
    let mut pos = p6;
    let mut done: u64 = 0;
    proof {
        assert(anchors@.map_values(|a: BlockchainAnchor| a@) =~= Seq::<AnchorView>::empty());
        match parse_anchors(b@, p6 as int, count as nat) {
            Some((rest, pe)) => {
                assert(Seq::<AnchorView>::empty() + rest =~= rest);
            },
            None => {},
        }
    }
    #[verifier::loop_isolation(false)]
    while done < count
        invariant
            pos <= b@.len(),
            done <= count,
            match parse_anchors(b@, pos as int, (count - done) as nat) {
                Some((rest, pe)) => parse_anchors(b@, p6 as int, count as nat) == Some(
                    (anchors@.map_values(|a: BlockchainAnchor| a@) + rest, pe),
                ),
                None => parse_anchors(b@, p6 as int, count as nat) is None,
            },
        decreases count - done,
    {
        let (a, p) = match read_anchor(b, pos) {
            Some(p) => p,
            None => {
                proof {
                    assert(parse_anchors(b@, pos as int, (count - done) as nat) is None);
                    assert(parse_anchors(b@, p6 as int, count as nat) is None);
                    assert(dec_frame(b@) is None);
                }
                return None;
            },
        };
        let ghost prev_views = anchors@.map_values(|x: BlockchainAnchor| x@);
        let ghost av = a@;
        anchors.push(a);
        proof {
            let views = anchors@.map_values(|x: BlockchainAnchor| x@);
            assert(views =~= prev_views.push(av));
            match parse_anchors(b@, p as int, (count - done - 1) as nat) {
                Some((rest2, pe)) => {
                    assert(parse_anchors(b@, pos as int, (count - done) as nat) == Some(
                        (seq![av] + rest2, pe),
                    ));
                    assert(prev_views + (seq![av] + rest2) =~= views + rest2);
                },
                None => {
                    assert(parse_anchors(b@, pos as int, (count - done) as nat) is None);
                },
            }
        }
        pos = p;
        done = done + 1;
    }
    proof {
        assert(parse_anchors(b@, pos as int, 0) == Some(
            (Seq::<AnchorView>::empty(), pos as int),
        ));
        assert(anchors@.map_values(|a: BlockchainAnchor| a@) + Seq::<AnchorView>::empty()
            =~= anchors@.map_values(|a: BlockchainAnchor| a@));
    }
    if pos != b.len() {
        return None;
    }
    let f = EncryptedFrame {
        sequence,
        ciphertext,
        hash,
        previous_hash,
        nonce,
        timestamp,
        blockchain_anchors: anchors,
    };
    proof {
        assert(dec_frame(b@) == Some(f@));
    }
    Some(f)
}

/// Reading back the big-endian encoding embedded in a larger buffer
/// yields the encoded integer.
proof fn lemma_parse_u64_at(b: Seq<u8>, pos: int, x: u64)
    requires
        0 <= pos,
        pos + 8 <= b.len(),
        b.subrange(pos, pos + 8) == u64_be_bytes(x),
    ensures
        parse_u64(b, pos) == Some((x, pos + 8)),
{
    crate::bytes::lemma_u64_be_round_trip(x);
}

/// Reading back a length-prefixed byte field embedded in a larger buffer
/// yields the encoded bytes.
proof fn lemma_parse_bytes_at(b: Seq<u8>, pos: int, data: Seq<u8>)
    requires
        0 <= pos,
        data.len() <= u64::MAX,
        pos + 8 + data.len() <= b.len(),
        b.subrange(pos, pos + 8 + data.len()) == enc_bytes(data),
    ensures
        parse_bytes(b, pos) == Some((data, pos + 8 + data.len())),
{
    assert(b.subrange(pos, pos + 8) =~= enc_bytes(data).subrange(0, 8));
    assert(enc_bytes(data).subrange(0, 8) =~= u64_be_bytes(data.len() as u64));
    crate::bytes::lemma_u64_be_round_trip(data.len() as u64);
    assert(u64_from_be(b.subrange(pos, pos + 8)) == data.len() as u64);
    assert(b.subrange(pos + 8, pos + 8 + data.len()) =~= enc_bytes(data).subrange(
        8,
        8 + data.len() as int,
    ));
    assert(enc_bytes(data).subrange(8, 8 + data.len() as int) =~= data);
    assert(parse_bytes(b, pos) == Some((data, pos + 8 + data.len())));
}

/// Reading back a length-prefixed string field embedded in a larger
/// buffer yields the encoded characters.
proof fn lemma_parse_str_at(b: Seq<u8>, pos: int, s: Seq<char>)
    requires
        0 <= pos,
        encode_utf8(s).len() <= u64::MAX,
        pos + enc_str(s).len() <= b.len(),
        b.subrange(pos, pos + enc_str(s).len()) == enc_str(s),
    ensures
        parse_str(b, pos) == Some((s, pos + enc_str(s).len())),
{
    broadcast use vstd::utf8::encode_utf8_valid_utf8;
    broadcast use vstd::utf8::encode_utf8_decode_utf8;

    lemma_parse_bytes_at(b, pos, encode_utf8(s));
}

/// Reading back one encoded anchor embedded in a larger buffer yields
/// the anchor.
proof fn lemma_parse_anchor_at(b: Seq<u8>, pos: int, a: AnchorView)
    requires
        0 <= pos,
        anchor_encodable(a),
        pos + enc_anchor(a).len() <= b.len(),
        b.subrange(pos, pos + enc_anchor(a).len()) == enc_anchor(a),
    ensures
        parse_anchor(b, pos) == Some((a, pos + enc_anchor(a).len())),
{
    let e = enc_anchor(a);
    let s1 = enc_str(a.chain);
    let s2 = enc_str(a.transaction_hash);
    let s3 = u64_be_bytes(a.block_number);
    let s4 = u64_be_bytes(a.timestamp);
    let s5 = enc_str(a.proof);
    let o1 = s1.len() as int;
    let o2 = o1 + s2.len();
    let o3 = o2 + 8;
    let o4 = o3 + 8;
    let o5 = o4 + s5.len();
    assert(e.len() == o5);
    lemma_segment(b, pos, e, 0, o1);
    assert(e.subrange(0, o1) =~= s1);
    lemma_parse_str_at(b, pos, a.chain);
    lemma_segment(b, pos, e, o1, o2);
    assert(e.subrange(o1, o2) =~= s2);
    lemma_parse_str_at(b, pos + o1, a.transaction_hash);
    lemma_segment(b, pos, e, o2, o3);
    assert(e.subrange(o2, o3) =~= s3);
    lemma_parse_u64_at(b, pos + o2, a.block_number);
    lemma_segment(b, pos, e, o3, o4);
    assert(e.subrange(o3, o4) =~= s4);
    lemma_parse_u64_at(b, pos + o3, a.timestamp);
    lemma_segment(b, pos, e, o4, o5);
    assert(e.subrange(o4, o5) =~= s5);
    lemma_parse_str_at(b, pos + o4, a.proof);
}

/// The suffix of a concatenation is its second operand.
proof fn lemma_concat_suffix(x: Seq<u8>, y: Seq<u8>)
    ensures
        (x + y).subrange(x.len() as int, (x + y).len() as int) == y,
{
    assert((x + y).subrange(x.len() as int, (x + y).len() as int) =~= y);
}

/// A slice that lies within the first operand of a concatenation ignores
/// the second.
proof fn lemma_concat_prefix_slice(x: Seq<u8>, y: Seq<u8>, lo: int, hi: int)
    requires
        0 <= lo <= hi <= x.len(),
    ensures
        (x + y).subrange(lo, hi) == x.subrange(lo, hi),
{
    assert((x + y).subrange(lo, hi) =~= x.subrange(lo, hi));
}

/// A slice of an embedded buffer equals the matching slice of what was
/// embedded.
proof fn lemma_segment(b: Seq<u8>, pos: int, whole: Seq<u8>, lo: int, hi: int)
    requires
        0 <= pos,
        0 <= lo <= hi <= whole.len(),
        pos + whole.len() <= b.len(),
        b.subrange(pos, pos + whole.len()) == whole,
    ensures
        b.subrange(pos + lo, pos + hi) == whole.subrange(lo, hi),
{
    assert forall|k: int| 0 <= k < hi - lo implies b.subrange(pos + lo, pos + hi)[k]
        == whole.subrange(lo, hi)[k] by {
        assert(b.subrange(pos, pos + whole.len())[lo + k] == whole[lo + k]);
    }
    assert(b.subrange(pos + lo, pos + hi) =~= whole.subrange(lo, hi));
}

/// Reading back a run of encoded anchors yields the anchor list.
#[verifier::rlimit(60)]
proof fn lemma_parse_anchors_at(b: Seq<u8>, pos: int, s: Seq<AnchorView>)
    requires
        0 <= pos,
        forall|i: int| 0 <= i < s.len() ==> anchor_encodable(#[trigger] s[i]),
        pos + enc_anchors(s).len() <= b.len(),
        b.subrange(pos, pos + enc_anchors(s).len()) == enc_anchors(s),
    ensures
        parse_anchors(b, pos, s.len()) == Some((s, pos + enc_anchors(s).len())),
    decreases s.len(),
{
    if s.len() == 0 {
        assert(parse_anchors(b, pos, 0) == Some((Seq::<AnchorView>::empty(), pos)));
        assert(s =~= Seq::<AnchorView>::empty());
    } else {
        lemma_enc_anchors_cons(s);
        let first = s.first();
        let rest = s.drop_first();
        let e1 = enc_anchor(first);
        let whole = enc_anchors(s);
        assert(whole =~= e1 + enc_anchors(rest));
        lemma_segment(b, pos, whole, 0, e1.len() as int);
        assert(whole.subrange(0, e1.len() as int) =~= e1);
        lemma_parse_anchor_at(b, pos, first);
        let p1 = pos + e1.len();
        lemma_segment(b, pos, whole, e1.len() as int, whole.len() as int);
        assert(whole.subrange(e1.len() as int, whole.len() as int) =~= enc_anchors(rest));
        assert(forall|i: int| 0 <= i < rest.len() ==> anchor_encodable(#[trigger] rest[i])) by {
            assert(forall|i: int| 0 <= i < rest.len() ==> rest[i] == s[i + 1]);
        }
        lemma_parse_anchors_at(b, p1, rest);
        assert(seq![first] + rest =~= s);
        assert(pos + enc_anchors(s).len() == p1 + enc_anchors(rest).len());
    }
}

/// The anchor-list encoding can also be peeled from the front.
proof fn lemma_enc_anchors_cons(s: Seq<AnchorView>)
    requires
        s.len() > 0,
    ensures
        enc_anchors(s) == enc_anchor(s.first()) + enc_anchors(s.drop_first()),
    decreases s.len(),
{
    if s.len() == 1 {
        assert(s.drop_last() =~= Seq::<AnchorView>::empty());
        assert(s.drop_first() =~= Seq::<AnchorView>::empty());
        assert(s.last() == s.first());
        assert(enc_anchors(s) =~= enc_anchor(s.first()) + enc_anchors(s.drop_first()));
    } else {
        let body = s.drop_last();
        lemma_enc_anchors_cons(body);
        assert(body.first() == s.first());
        assert(body.drop_first() =~= s.drop_first().drop_last());
        assert(s.drop_first().last() == s.last());
        assert(enc_anchors(s.drop_first()) == enc_anchors(s.drop_first().drop_last()) + enc_anchor(
            s.last(),
        ));
        assert(enc_anchors(s) =~= enc_anchor(s.first()) + enc_anchors(s.drop_first()));
    }
}

/// Decoding inverts encoding: a well-formed frame's encoding reads back
/// as exactly that frame.
#[verifier::rlimit(100)]
pub proof fn lemma_dec_enc_frame(f: EncryptedFrameView)
    requires
        frame_encodable(f),
    ensures
        dec_frame(enc_frame(f)) == Some(f),
{
    let b = enc_frame(f);
    let s1 = u64_be_bytes(f.sequence);
    let s2 = u64_be_bytes(f.timestamp);
    let s3 = enc_bytes(f.ciphertext);
    let s4 = enc_str(f.hash);
    let s5 = enc_str(f.previous_hash);
    let s6 = enc_bytes(f.nonce);
    let s7 = u64_be_bytes(f.blockchain_anchors.len() as u64);
    let s8 = enc_anchors(f.blockchain_anchors);
    let t1 = s1;
    let t2 = t1 + s2;
    let t3 = t2 + s3;
    let t4 = t3 + s4;
    let t5 = t4 + s5;
    let t6 = t5 + s6;
    let t7 = t6 + s7;
    let t8 = t7 + s8;
    let o1 = 8int;
    let o2 = o1 + 8;
    let o3 = o2 + s3.len();
    let o4 = o3 + s4.len();
    let o5 = o4 + s5.len();
    let o6 = o5 + s6.len();
    let o7 = o6 + 8;
    let o8 = o7 + s8.len();
    assert(b =~= t8);
    assert(b.len() == o8);
    assert(b.subrange(0, o1) == s1) by {
        lemma_concat_prefix_slice(t7, s8, 0, o1);
        lemma_concat_prefix_slice(t6, s7, 0, o1);
        lemma_concat_prefix_slice(t5, s6, 0, o1);
        lemma_concat_prefix_slice(t4, s5, 0, o1);
        lemma_concat_prefix_slice(t3, s4, 0, o1);
        lemma_concat_prefix_slice(t2, s3, 0, o1);
        lemma_concat_prefix_slice(t1, s2, 0, o1);
        assert(t1.subrange(0, o1) =~= s1);
    }
    lemma_parse_u64_at(b, 0, f.sequence);
    assert(b.subrange(o1, o2) == s2) by {
        lemma_concat_prefix_slice(t7, s8, o1, o2);
        lemma_concat_prefix_slice(t6, s7, o1, o2);
        lemma_concat_prefix_slice(t5, s6, o1, o2);
        lemma_concat_prefix_slice(t4, s5, o1, o2);
        lemma_concat_prefix_slice(t3, s4, o1, o2);
        lemma_concat_prefix_slice(t2, s3, o1, o2);
        lemma_concat_suffix(t1, s2);
    }
    lemma_parse_u64_at(b, o1, f.timestamp);
    assert(b.subrange(o2, o3) == s3) by {
        lemma_concat_prefix_slice(t7, s8, o2, o3);
        lemma_concat_prefix_slice(t6, s7, o2, o3);
        lemma_concat_prefix_slice(t5, s6, o2, o3);
        lemma_concat_prefix_slice(t4, s5, o2, o3);
        lemma_concat_prefix_slice(t3, s4, o2, o3);
        lemma_concat_suffix(t2, s3);
    }
    lemma_parse_bytes_at(b, o2, f.ciphertext);
    assert(b.subrange(o3, o4) == s4) by {
        lemma_concat_prefix_slice(t7, s8, o3, o4);
        lemma_concat_prefix_slice(t6, s7, o3, o4);
        lemma_concat_prefix_slice(t5, s6, o3, o4);
        lemma_concat_prefix_slice(t4, s5, o3, o4);
        lemma_concat_suffix(t3, s4);
    }
    lemma_parse_str_at(b, o3, f.hash);
    assert(b.subrange(o4, o5) == s5) by {
        lemma_concat_prefix_slice(t7, s8, o4, o5);
        lemma_concat_prefix_slice(t6, s7, o4, o5);
        lemma_concat_prefix_slice(t5, s6, o4, o5);
        lemma_concat_suffix(t4, s5);
    }
    lemma_parse_str_at(b, o4, f.previous_hash);
    assert(b.subrange(o5, o6) == s6) by {
        lemma_concat_prefix_slice(t7, s8, o5, o6);
        lemma_concat_prefix_slice(t6, s7, o5, o6);
        lemma_concat_suffix(t5, s6);
    }
    lemma_parse_bytes_at(b, o5, f.nonce);
    assert(b.subrange(o6, o7) == s7) by {
        lemma_concat_prefix_slice(t7, s8, o6, o7);
        lemma_concat_suffix(t6, s7);
    }
    lemma_parse_u64_at(b, o6, f.blockchain_anchors.len() as u64);
    assert(b.subrange(o7, o8) == s8) by {
        lemma_concat_suffix(t7, s8);
    }
    lemma_parse_anchors_at(b, o7, f.blockchain_anchors);
    assert((f.blockchain_anchors.len() as u64) as nat == f.blockchain_anchors.len());
    assert(dec_frame(b) == Some(
        (EncryptedFrameView {
            sequence: f.sequence,
            ciphertext: f.ciphertext,
            hash: f.hash,
            previous_hash: f.previous_hash,
            nonce: f.nonce,
            timestamp: f.timestamp,
            blockchain_anchors: f.blockchain_anchors,
        }),
    ));
    assert(EncryptedFrameView {
        sequence: f.sequence,
        ciphertext: f.ciphertext,
        hash: f.hash,
        previous_hash: f.previous_hash,
        nonce: f.nonce,
        timestamp: f.timestamp,
        blockchain_anchors: f.blockchain_anchors,
    } =~= f);
}

} // verus!

//! Blockchain-anchoring logic: the stable anchor payloads, anchor record
//! construction, the all-or-nothing aggregation over per-chain outcomes,
//! and anchor-verification dispatch. The RPC calls that carry these
//! values to chain nodes are outside the library.

use vstd::prelude::*;

use crate::bytes::dec_str;
use crate::bytes::u64_to_dec_string;
use crate::video::clone_anchor;
use crate::{AnchorView, BlockchainAnchor};

verus! {

/// Endpoints of the configured chains.
pub struct BlockchainConfig {
    pub ethereum_rpc_url: String,
    pub bitcoin_rpc_url: String,
    pub private_chain_rpc: String,
    pub opentimestamps_url: String,
}

/// The stable payload committed in a Bitcoin transaction's data output.
pub open spec fn bitcoin_payload_of(hash: Seq<char>, device_id: Seq<char>, timestamp: u64) -> Seq<
    char,
> {
    "ANCHOR:"@ + hash + ":"@ + device_id + ":"@ + dec_str(timestamp as nat)
}

/// Builds the Bitcoin anchor payload.
pub fn bitcoin_anchor_payload(hash: &str, device_id: &str, timestamp: u64) -> (r: String)
    ensures
        r@ == bitcoin_payload_of(hash@, device_id@, timestamp),
{
    let mut out = String::from_str("ANCHOR:");
    out.append(hash);
    out.append(":");
    out.append(device_id);
    out.append(":");
    out.append(u64_to_dec_string(timestamp).as_str());
    proof {
        assert(out@ =~= bitcoin_payload_of(hash@, device_id@, timestamp));
    }
    out
}

/// The proof string recorded for an anchor of a named chain.
pub open spec fn chain_proof_of(chain: Seq<char>, tx_hash: Seq<char>, block_number: u64) -> Seq<
    char,
> {
    chain + "-proof:"@ + tx_hash + ":"@ + dec_str(block_number as nat)
}

/// Builds the anchor record for a confirmed transaction of one chain.
pub fn make_anchor(chain: &str, tx_hash: &str, block_number: u64, timestamp: u64) -> (r:
    BlockchainAnchor)
    ensures
        r@.chain == chain@,
        r@.transaction_hash == tx_hash@,
        r@.block_number == block_number,
        r@.timestamp == timestamp,
        r@.proof == chain_proof_of(chain@, tx_hash@, block_number),
{
    let mut proof_string = String::from_str(chain);
    proof_string.append("-proof:");
    proof_string.append(tx_hash);
    proof_string.append(":");
    proof_string.append(u64_to_dec_string(block_number).as_str());
    proof {
        assert(proof_string@ =~= chain_proof_of(chain@, tx_hash@, block_number));
    }
    BlockchainAnchor {
        chain: String::from_str(chain),
        transaction_hash: String::from_str(tx_hash),
        block_number,
        timestamp,
        proof: proof_string,
    }
}

/// The per-chain outcomes of one anchoring attempt, kept when the
/// attempt fails as a whole.
pub struct PartialAnchorError {
    pub outcomes: Vec<(String, Option<BlockchainAnchor>)>,
}

/// The view of a list of per-chain outcomes.
pub open spec fn outcomes_view(v: Seq<(String, Option<BlockchainAnchor>)>) -> Seq<
    (Seq<char>, Option<AnchorView>),
> {
    v.map_values(
        |p: (String, Option<BlockchainAnchor>)|
            (
                p.0@,
                match p.1 {
                    Some(a) => Some(a@),
                    None => None,
                },
            ),
    )
}

/// Whether every configured chain produced an anchor.
pub open spec fn all_chains_ok(outcomes: Seq<(Seq<char>, Option<AnchorView>)>) -> bool {
    forall|i: int| 0 <= i < outcomes.len() ==> (#[trigger] outcomes[i]).1 is Some
}

/// The anchors of the successful outcomes, in order.
pub open spec fn successful_anchors(outcomes: Seq<(Seq<char>, Option<AnchorView>)>) -> Seq<
    AnchorView,
>
    decreases outcomes.len(),
{
    if outcomes.len() == 0 {
        Seq::<AnchorView>::empty()
    } else {
        successful_anchors(outcomes.drop_last()) + (match outcomes.last().1 {
            Some(a) => seq![a],
            None => Seq::<AnchorView>::empty(),
        })
    }
}

/// Aggregates the per-chain outcomes of one anchoring attempt. The
/// attempt succeeds with the collected anchors exactly when every chain
/// produced one, or when partial results are permitted; otherwise the
/// outcomes are surfaced whole, and nothing is to be persisted.
pub fn anchor_to_all(
    outcomes: Vec<(String, Option<BlockchainAnchor>)>,
    partial_ok: bool,
) -> (r: Result<Vec<BlockchainAnchor>, PartialAnchorError>)
    ensures
        r is Ok <==> (partial_ok || all_chains_ok(outcomes_view(outcomes@))),
        r matches Ok(anchors) ==> anchors@.map_values(|a: BlockchainAnchor| a@)
            == successful_anchors(outcomes_view(outcomes@)),
        r matches Err(e) ==> !partial_ok && !all_chains_ok(outcomes_view(outcomes@))
            && outcomes_view(e.outcomes@) == outcomes_view(outcomes@),
{
    let ghost ov = outcomes_view(outcomes@);
    proof {
        assert(forall|k: int|
            0 <= k < outcomes@.len() ==> (#[trigger] ov[k]).1 == (match outcomes@[k].1 {
                Some(a) => Some(a@),
                None => None,
            }));
    }
    let mut any_failed = false;
    for i in 0..outcomes.len()
        invariant
            ov == outcomes_view(outcomes@),
            ov.len() == outcomes@.len(),
            forall|k: int|
                0 <= k < outcomes@.len() ==> (#[trigger] ov[k]).1 == (match outcomes@[k].1 {
                    Some(a) => Some(a@),
                    None => None,
                }),
            any_failed ==> !all_chains_ok(ov),
            !any_failed ==> forall|k: int| 0 <= k < i ==> (#[trigger] ov[k]).1 is Some,
    {
        if outcomes[i].1.is_none() {
            proof {
                assert(ov[i as int].1 is None);
            }
            any_failed = true;
        }
    }
    if any_failed && !partial_ok {
        return Err(PartialAnchorError { outcomes });
    }
    let mut anchors: Vec<BlockchainAnchor> = Vec::new();
    proof {
        assert(anchors@.map_values(|a: BlockchainAnchor| a@) =~= successful_anchors(ov.take(0)));
    }
    for i in 0..outcomes.len()
        invariant
            ov == outcomes_view(outcomes@),
            ov.len() == outcomes@.len(),
            forall|k: int|
                0 <= k < outcomes@.len() ==> (#[trigger] ov[k]).1 == (match outcomes@[k].1 {
                    Some(a) => Some(a@),
                    None => None,
                }),
            anchors@.map_values(|a: BlockchainAnchor| a@) == successful_anchors(ov.take(i as int)),
    {
        let ghost before = anchors@.map_values(|a: BlockchainAnchor| a@);
        match &outcomes[i].1 {
            Some(a) => {
                anchors.push(clone_anchor(a));
                proof {
                    assert(anchors@.map_values(|a: BlockchainAnchor| a@) =~= before.push(
                        ov[i as int].1.unwrap(),
                    ));
                }
            },
            None => {},
        }
        proof {
            assert(ov.take(i as int + 1).drop_last() =~= ov.take(i as int));
            assert(ov.take(i as int + 1).last() == ov[i as int]);
            assert(anchors@.map_values(|a: BlockchainAnchor| a@) =~= successful_anchors(
                ov.take(i as int + 1),
            ));
        }
    }
    proof {
        assert(ov.take(ov.len() as int) =~= ov);
    }
    Ok(anchors)
}

/// Whether a chain name is one the system dispatches to an adapter.
pub open spec fn known_chain(chain: Seq<char>) -> bool {
    chain == "bitcoin"@ || chain == "ethereum"@
}

/// Inserts or replaces a chain's verdict in a verification summary.
pub open spec fn upsert_verdict(
    m: Seq<(Seq<char>, bool)>,
    chain: Seq<char>,
    verdict: bool,
) -> Seq<(Seq<char>, bool)>
    decreases m.len(),
{
    if m.len() == 0 {
        seq![(chain, verdict)]
    } else if m[0].0 == chain {
        seq![(chain, verdict)] + m.drop_first()
    } else {
        seq![m[0]] + upsert_verdict(m.drop_first(), chain, verdict)
    }
}

/// The verification summary over a list of anchors, given the adapters'
/// per-anchor verdicts: known chains take the adapter's verdict, unknown
/// chains are rejected; a later anchor of a chain overrides an earlier
/// one.
pub open spec fn verify_map_prefix(
    anchors: Seq<AnchorView>,
    verdicts: Seq<bool>,
    i: int,
) -> Seq<(Seq<char>, bool)>
    decreases i,
{
    if i <= 0 {
        Seq::<(Seq<char>, bool)>::empty()
    } else {
        let a = anchors[i - 1];
        let v = known_chain(a.chain) && 0 <= i - 1 < verdicts.len() && verdicts[i - 1];
        upsert_verdict(verify_map_prefix(anchors, verdicts, i - 1), a.chain, v)
    }
}

/// Inserts or replaces a chain's verdict in the summary being built.
fn upsert_verdict_exec(m: &mut Vec<(String, bool)>, chain: &String, verdict: bool)
    ensures
        final(m)@.map_values(|p: (String, bool)| (p.0@, p.1)) == upsert_verdict(
            old(m)@.map_values(|p: (String, bool)| (p.0@, p.1)),
            chain@,
            verdict,
        ),
{
    let ghost mv = m@.map_values(|p: (String, bool)| (p.0@, p.1));
    proof {
        assert(forall|k: int|
            0 <= k < m@.len() ==> #[trigger] mv[k] == (m@[k].0@, m@[k].1));
        assert(mv.skip(0) =~= mv);
        assert(mv.take(0) + upsert_verdict(mv.skip(0), chain@, verdict) =~= upsert_verdict(
            mv,
            chain@,
            verdict,
        ));
    }
    let n = m.len();
    let mut i: usize = 0;
    while i < n
        invariant
            mv == old(m)@.map_values(|p: (String, bool)| (p.0@, p.1)),
            m@ == old(m)@,
            n == m@.len(),
            0 <= i <= n,
            mv.len() == m@.len(),
            forall|k: int| 0 <= k < m@.len() ==> #[trigger] mv[k] == (m@[k].0@, m@[k].1),
            forall|k: int| 0 <= k < i ==> (#[trigger] mv[k]).0 != chain@,
            upsert_verdict(mv, chain@, verdict) == mv.take(i as int) + upsert_verdict(
                mv.skip(i as int),
                chain@,
                verdict,
            ),
        decreases n - i,
    {
        if m[i].0 == *chain {
            let ghost before = m@;
            m.set(i, (m[i].0.clone(), verdict));
            proof {
                let newv = m@.map_values(|p: (String, bool)| (p.0@, p.1));
                assert(mv.skip(i as int)[0] == mv[i as int]);
                assert(upsert_verdict(mv.skip(i as int), chain@, verdict) =~= seq![
                    (chain@, verdict),
                ] + mv.skip(i as int).drop_first());
                assert(mv.skip(i as int).drop_first() =~= mv.skip(i as int + 1));
                assert(newv =~= mv.take(i as int) + (seq![(chain@, verdict)] + mv.skip(
                    i as int + 1,
                )));
            }
            return ;
        }
        proof {
            assert(mv.skip(i as int)[0] == mv[i as int]);
            assert(mv.skip(i as int).drop_first() =~= mv.skip(i as int + 1));
            assert(upsert_verdict(mv.skip(i as int), chain@, verdict) == seq![mv[i as int]]
                + upsert_verdict(mv.skip(i as int + 1), chain@, verdict));
            assert(mv.take(i as int) + (seq![mv[i as int]] + upsert_verdict(
                mv.skip(i as int + 1),
                chain@,
                verdict,
            )) =~= mv.take(i as int + 1) + upsert_verdict(mv.skip(i as int + 1), chain@, verdict));
        }
        i = i + 1;
    }
    let ghost before_push = m@;
    m.push((chain.clone(), verdict));
    proof {
        let newv = m@.map_values(|p: (String, bool)| (p.0@, p.1));
        assert(mv.skip(mv.len() as int).len() == 0);
        assert(upsert_verdict(mv.skip(mv.len() as int), chain@, verdict) =~= seq![
            (chain@, verdict),
        ]);
        assert(mv.take(mv.len() as int) =~= mv);
        assert(newv =~= mv + seq![(chain@, verdict)]);
        assert(mv + seq![(chain@, verdict)] =~= mv.take(mv.len() as int) + upsert_verdict(
            mv.skip(mv.len() as int),
            chain@,
            verdict,
        ));
    }
}

/// Builds the verification summary for a list of anchors from the
/// adapters' per-anchor verdicts; anchors of unknown chains are marked
/// invalid.
pub fn verify_all_anchors(anchors: &Vec<BlockchainAnchor>, verdicts: &Vec<bool>) -> (r: Vec<
    (String, bool),
>)
    ensures
        r@.map_values(|p: (String, bool)| (p.0@, p.1)) == verify_map_prefix(
            anchors@.map_values(|a: BlockchainAnchor| a@),
            verdicts@,
            anchors@.len() as int,
        ),
{
    let ghost av = anchors@.map_values(|a: BlockchainAnchor| a@);
    proof {
        assert(forall|k: int| 0 <= k < anchors@.len() ==> #[trigger] av[k] == anchors@[k]@);
    }
    let bitcoin = String::from_str("bitcoin");
    let ethereum = String::from_str("ethereum");
    let mut out: Vec<(String, bool)> = Vec::new();
    for i in 0..anchors.len()
        invariant
            av == anchors@.map_values(|a: BlockchainAnchor| a@),
            av.len() == anchors@.len(),
            forall|k: int| 0 <= k < anchors@.len() ==> #[trigger] av[k] == anchors@[k]@,
            bitcoin@ == "bitcoin"@,
            ethereum@ == "ethereum"@,
            out@.map_values(|p: (String, bool)| (p.0@, p.1)) == verify_map_prefix(
                av,
                verdicts@,
                i as int,
            ),
    {
        let anchor = &anchors[i];
        let known = anchor.chain == bitcoin || anchor.chain == ethereum;
        let verdict = known && i < verdicts.len() && verdicts[i];
        proof {
            assert(known == known_chain(av[i as int].chain));
        }
        upsert_verdict_exec(&mut out, &anchor.chain, verdict);
    }
    out
}

} // verus!

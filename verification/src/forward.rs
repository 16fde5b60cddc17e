//! The delivery model of the fan-out engine.
//!
//! One forwarding pass takes the next inbound packet and writes it to the
//! outbound track of every registered consumer whose kind matches — the
//! target list that `SFURouter::fanout_targets` computes. A run of passes
//! is modelled here packet by packet: what one consumer receives over a run
//! is a function of the run and of that consumer's own write failures alone,
//! so a failed write skips one packet for one consumer and touches nothing
//! else.

use vstd::prelude::*;

use crate::media::MediaKind;

verus! {

/// A packet as the relay models it: the kind of the track it arrived on and
/// a payload identifier. The relay never decodes payloads; it only
/// duplicates them, so the payload is opaque here.
#[derive(Clone, Copy, PartialEq, Eq, Structural, Debug)]
pub struct Packet {
    pub kind: MediaKind,
    pub payload: u64,
}

/// What one consumer of kind `k` receives over a run of fan-out passes for
/// the packets of `packets`, given the set `failed` of indices at which that
/// consumer's own write failed: the packets whose kind matches `k` and whose
/// write succeeded, in arrival order.
pub open spec fn delivered(packets: Seq<Packet>, k: MediaKind, failed: Set<int>) -> Seq<Packet>
    decreases packets.len(),
{
    if packets.len() == 0 {
        Seq::empty()
    } else {
        let rest = delivered(packets.drop_last(), k, failed);
        if packets.last().kind == k && !failed.contains(packets.len() - 1) {
            rest.push(packets.last())
        } else {
            rest
        }
    }
}

/// Law: fan-out is complete and in order. A consumer whose kind matches
/// every packet of the run, and none of whose writes fail, receives the
/// whole run exactly, in arrival order.
pub proof fn lemma_fanout_delivers_all(packets: Seq<Packet>, k: MediaKind)
    requires
        forall|i: int| 0 <= i < packets.len() ==> packets[i].kind == k,
    ensures
        delivered(packets, k, Set::empty()) == packets,
    decreases packets.len(),
{
    if packets.len() > 0 {
        assert(forall|i: int|
            0 <= i < packets.drop_last().len() ==> packets.drop_last()[i] == packets[i]);
        lemma_fanout_delivers_all(packets.drop_last(), k);
        assert(delivered(packets, k, Set::empty()) =~= packets);
    }
}

/// Law: fan-out is kind-filtered. A consumer whose kind matches no packet
/// of the run receives nothing, whatever its write outcomes.
pub proof fn lemma_fanout_delivers_none(packets: Seq<Packet>, k: MediaKind, failed: Set<int>)
    requires
        forall|i: int| 0 <= i < packets.len() ==> packets[i].kind != k,
    ensures
        delivered(packets, k, failed) == Seq::<Packet>::empty(),
    decreases packets.len(),
{
    if packets.len() > 0 {
        assert(forall|i: int|
            0 <= i < packets.drop_last().len() ==> packets.drop_last()[i] == packets[i]);
        lemma_fanout_delivers_none(packets.drop_last(), k, failed);
    }
}

/// Law: fault isolation. A consumer's deliveries depend on its own write
/// failures alone: every packet whose kind matches and whose own write
/// succeeded is received, however many writes failed at other indices — and
/// another consumer's failures do not appear in this model at all.
pub proof fn lemma_fault_isolation(packets: Seq<Packet>, k: MediaKind, failed: Set<int>, j: int)
    requires
        0 <= j < packets.len(),
        packets[j].kind == k,
        !failed.contains(j),
    ensures
        delivered(packets, k, failed).contains(packets[j]),
    decreases packets.len(),
{
    let d = delivered(packets, k, failed);
    if j == packets.len() - 1 {
        assert(d[d.len() - 1] == packets[j]);
    } else {
        assert(packets.drop_last()[j] == packets[j]);
        lemma_fault_isolation(packets.drop_last(), k, failed, j);
        let d0 = delivered(packets.drop_last(), k, failed);
        let w = choose|w: int| 0 <= w < d0.len() && d0[w] == packets[j];
        assert(d[w] == packets[j]);
    }
}

} // verus!

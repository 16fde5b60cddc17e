//! The Router: the registry of consumers, the single producer binding, and
//! the kind-filtered fan-out decision.
//!
//! The registry maps each viewing participant's identifier to a consumer
//! entry holding that participant's outbound track. At most one producer
//! binding is authoritative at a time; a new one silently replaces the old.
//! Registration is an idempotent keyed upsert, removal of an absent key is a
//! no-op, and fan-out addresses exactly the consumers whose track kind
//! matches the inbound packet's kind, in registry order.

use vstd::prelude::*;

use crate::media::MediaKind;
use crate::transport::new_local_track;
use std::sync::Arc;
use webrtc::peer_connection::RTCPeerConnection;
use webrtc::track::track_local::track_local_static_rtp::TrackLocalStaticRTP;

verus! {

/// One viewing participant: its identifier (the registry key), the kind of
/// its outbound track, and the track handle forwarded packets are written to.
pub struct ConsumerEntry {
    pub peer_id: String,
    pub kind: MediaKind,
    pub track: Arc<TrackLocalStaticRTP>,
}

/// Whether no two entries of `s` share a participant identifier.
pub open spec fn unique_peers(s: Seq<ConsumerEntry>) -> bool {
    forall|i: int, j: int|
        0 <= i < j < s.len() ==> s[i].peer_id@ != s[j].peer_id@
}

/// The registry sequence read as a map from participant identifier to entry.
/// A later entry for the same identifier shadows an earlier one; under
/// `unique_peers` there is nothing to shadow.
pub open spec fn entry_map(s: Seq<ConsumerEntry>) -> Map<Seq<char>, ConsumerEntry>
    decreases s.len(),
{
    if s.len() == 0 {
        Map::empty()
    } else {
        entry_map(s.drop_last()).insert(s.last().peer_id@, s.last())
    }
}

/// The outbound tracks of the entries of `s` whose kind is `k`, in registry
/// order: the targets of one fan-out pass for a packet of kind `k`.
pub open spec fn matching_tracks(s: Seq<ConsumerEntry>, k: MediaKind) -> Seq<
    Arc<TrackLocalStaticRTP>,
>
    decreases s.len(),
{
    if s.len() == 0 {
        Seq::empty()
    } else {
        let rest = matching_tracks(s.drop_last(), k);
        if s.last().kind == k {
            rest.push(s.last().track)
        } else {
            rest
        }
    }
}

/// A key that no entry of `s` carries is not in the map read from `s`.
proof fn lemma_entry_map_absent(s: Seq<ConsumerEntry>, k: Seq<char>)
    requires
        forall|i: int| 0 <= i < s.len() ==> s[i].peer_id@ != k,
    ensures
        !entry_map(s).dom().contains(k),
    decreases s.len(),
{
    if s.len() > 0 {
        lemma_entry_map_absent(s.drop_last(), k);
    }
}

/// A key is in the map read from `s` exactly when some entry carries it.
proof fn lemma_entry_map_contains(s: Seq<ConsumerEntry>, k: Seq<char>)
    ensures
        entry_map(s).dom().contains(k) <==> exists|i: int|
            0 <= i < s.len() && s[i].peer_id@ == k,
    decreases s.len(),
{
    if s.len() > 0 {
        lemma_entry_map_contains(s.drop_last(), k);
        if entry_map(s).dom().contains(k) {
            if s.last().peer_id@ == k {
                assert(s[s.len() - 1].peer_id@ == k);
            } else {
                let i = choose|i: int| 0 <= i < s.drop_last().len() && s.drop_last()[i].peer_id@ == k;
                assert(s[i].peer_id@ == k);
            }
        } else {
            assert(forall|i: int| 0 <= i < s.len() - 1 ==> s.drop_last()[i] == s[i]);
        }
    }
}

/// Removing the one entry that carries a key removes exactly that key from
/// the map read from the sequence.
proof fn lemma_entry_map_remove(s: Seq<ConsumerEntry>, i: int)
    requires
        0 <= i < s.len(),
        unique_peers(s),
    ensures
        entry_map(s.remove(i)) =~= entry_map(s).remove(s[i].peer_id@),
    decreases s.len(),
{
    let k = s[i].peer_id@;
    if i == s.len() - 1 {
        assert(s.remove(i) =~= s.drop_last());
        assert(forall|j: int| 0 <= j < s.drop_last().len() ==> s.drop_last()[j].peer_id@ != k);
        lemma_entry_map_absent(s.drop_last(), k);
        assert(entry_map(s.drop_last()).insert(k, s.last()).remove(k) =~= entry_map(
            s.drop_last(),
        ));
    } else {
        assert(s.remove(i).drop_last() =~= s.drop_last().remove(i));
        assert(s.remove(i).last() == s.last());
        assert(unique_peers(s.drop_last())) by {
            assert(forall|p: int, q: int|
                0 <= p < q < s.drop_last().len() ==> s.drop_last()[p] == s[p]
                    && s.drop_last()[q] == s[q]);
        }
        lemma_entry_map_remove(s.drop_last(), i);
        assert(s.drop_last()[i] == s[i]);
        assert(s.last().peer_id@ != k);
        assert(entry_map(s.drop_last()).remove(k).insert(s.last().peer_id@, s.last()) =~= entry_map(
            s.drop_last(),
        ).insert(s.last().peer_id@, s.last()).remove(k));
    }
}

/// Replacing the one entry that carries a key by another entry with the same
/// key is, on the map read from the sequence, an insert at that key.
proof fn lemma_entry_map_update(s: Seq<ConsumerEntry>, i: int, e: ConsumerEntry)
    requires
        0 <= i < s.len(),
        unique_peers(s),
        e.peer_id@ == s[i].peer_id@,
    ensures
        entry_map(s.update(i, e)) =~= entry_map(s).insert(s[i].peer_id@, e),
    decreases s.len(),
{
    let k = s[i].peer_id@;
    if i == s.len() - 1 {
        assert(s.update(i, e).drop_last() =~= s.drop_last());
        assert(s.update(i, e).last() == e);
    } else {
        assert(s.update(i, e).drop_last() =~= s.drop_last().update(i, e));
        assert(s.update(i, e).last() == s.last());
        assert(unique_peers(s.drop_last())) by {
            assert(forall|p: int, q: int|
                0 <= p < q < s.drop_last().len() ==> s.drop_last()[p] == s[p]
                    && s.drop_last()[q] == s[q]);
        }
        assert(s.drop_last()[i] == s[i]);
        lemma_entry_map_update(s.drop_last(), i, e);
        assert(s.last().peer_id@ != k);
        assert(entry_map(s.drop_last()).insert(k, e).insert(s.last().peer_id@, s.last())
            =~= entry_map(s.drop_last()).insert(s.last().peer_id@, s.last()).insert(k, e));
    }
}

/// The single-producer, multi-consumer packet router. It owns the registry
/// of consumer entries and the at-most-one producer binding, decides which
/// outbound tracks each inbound packet is written to, and emits the
/// best-effort keyframe request owed to a late-joining viewer.
pub struct SFURouter {
    consumers: Vec<ConsumerEntry>,
    producer: Option<Arc<RTCPeerConnection>>,
    generation: u64,
}

impl SFURouter {
    /// The registry's entries, in registration order.
    pub closed spec fn consumers_seq(self) -> Seq<ConsumerEntry> {
        self.consumers@
    }

    /// The registry read as a map from participant identifier to entry.
    pub open spec fn consumer_map(self) -> Map<Seq<char>, ConsumerEntry> {
        entry_map(self.consumers_seq())
    }

    /// The producer binding: the session keyframe requests are addressed to,
    /// if one is known.
    pub closed spec fn producer_binding(self) -> Option<Arc<RTCPeerConnection>> {
        self.producer
    }

    /// The generation of the producer binding: it advances each time a new
    /// producer is installed, so forwarding work bound to a replaced
    /// producer can recognise that it is stale and stop deterministically
    /// rather than run until its source happens to fail.
    pub closed spec fn producer_generation(self) -> u64 {
        self.generation
    }

    /// Well-formedness: no two entries share a participant identifier.
    pub open spec fn wf(self) -> bool {
        unique_peers(self.consumers_seq())
    }

    /// A router with no consumers and no producer binding.
    pub fn new() -> (r: SFURouter)
        ensures
            r.wf(),
            r.consumer_map() == Map::<Seq<char>, ConsumerEntry>::empty(),
            r.consumers_seq() == Seq::<ConsumerEntry>::empty(),
            r.producer_binding() is None,
            r.producer_generation() == 0,
    {
        SFURouter { consumers: Vec::new(), producer: None, generation: 0 }
    }

    /// The index of the entry for `peer_id`, if one is registered.
    fn find_consumer(&self, peer_id: &String) -> (r: Option<usize>)
        ensures
            match r {
                Some(i) => i < self.consumers_seq().len() && self.consumers_seq()[i as int].peer_id@
                    == peer_id@,
                None => forall|i: int|
                    0 <= i < self.consumers_seq().len() ==> self.consumers_seq()[i].peer_id@
                        != peer_id@,
            },
    {
        let mut i: usize = 0;
        while i < self.consumers.len()
            invariant
                i <= self.consumers@.len(),
                forall|j: int| 0 <= j < i ==> self.consumers@[j].peer_id@ != peer_id@,
            decreases self.consumers@.len() - i,
        {
            if self.consumers[i].peer_id == *peer_id {
                return Some(i);
            }
            i = i + 1;
        }
        None
    }

    /// Whether an entry for `peer_id` is registered.
    pub fn has_consumer(&self, peer_id: &String) -> (r: bool)
        ensures
            r == self.consumer_map().dom().contains(peer_id@),
    {
        proof {
            lemma_entry_map_contains(self.consumers_seq(), peer_id@);
        }
        self.find_consumer(peer_id).is_some()
    }

    /// How many consumers are registered; under `wf` one per participant.
    pub fn consumer_count(&self) -> (r: usize)
        ensures
            r == self.consumers_seq().len(),
    {
        self.consumers.len()
    }

    /// Whether a producer binding is currently set.
    pub fn producer_bound(&self) -> (r: bool)
        ensures
            r == (self.producer_binding() is Some),
    {
        self.producer.is_some()
    }

    /// Installs `session` as the producer binding, silently replacing any
    /// previous one, and returns the new binding's generation. Consumers
    /// are untouched. The caller launches the forwarding work for the new
    /// producer's track under the returned generation; work holding an
    /// older generation is stale and stops itself (`is_current_producer`).
    pub fn add_producer(&mut self, session: Arc<RTCPeerConnection>) -> (generation: u64)
        requires
            old(self).producer_generation() < u64::MAX,
        ensures
            final(self).producer_binding() == Some(session),
            final(self).consumers_seq() == old(self).consumers_seq(),
            generation == old(self).producer_generation() + 1,
            final(self).producer_generation() == generation,
    {
        self.producer = Some(session);
        self.generation = self.generation + 1;
        self.generation
    }

    /// Whether forwarding work holding `generation` still serves the
    /// current producer binding, or has been replaced and is to stop.
    pub fn is_current_producer(&self, generation: u64) -> (r: bool)
        ensures
            r == (generation == self.producer_generation()),
    {
        generation == self.generation
    }

    /// The current binding generation; `add_producer` advances it by one.
    pub fn current_generation(&self) -> (r: u64)
        ensures
            r == self.producer_generation(),
    {
        self.generation
    }

    /// Registers (or re-registers) a viewing participant: synthesizes a
    /// fresh outbound track of the relay's fixed codec identity, upserts the
    /// entry keyed by `peer_id`, and returns the track together with the
    /// producer session a keyframe refresh is owed to — the current binding
    /// if one exists, none otherwise. Re-registration replaces the entry in
    /// place and never duplicates it; every other entry is left as it was.
    pub fn add_consumer(&mut self, peer_id: String) -> (r: (
        Arc<TrackLocalStaticRTP>,
        Option<Arc<RTCPeerConnection>>,
    ))
        requires
            old(self).wf(),
        ensures
            final(self).wf(),
            final(self).producer_binding() == old(self).producer_binding(),
            final(self).producer_generation() == old(self).producer_generation(),
            r.1 == old(self).producer_binding(),
            final(self).consumer_map() == old(self).consumer_map().insert(
                peer_id@,
                (ConsumerEntry { peer_id: peer_id, kind: MediaKind::Video, track: r.0 }),
            ),
            old(self).consumer_map().dom().contains(peer_id@) ==> {
                &&& final(self).consumers_seq().len() == old(self).consumers_seq().len()
                &&& forall|j: int|
                    0 <= j < old(self).consumers_seq().len()
                        ==> final(self).consumers_seq()[j] == (if old(
                        self,
                    ).consumers_seq()[j].peer_id@ == peer_id@ {
                        (ConsumerEntry { peer_id: peer_id, kind: MediaKind::Video, track: r.0 })
                    } else {
                        old(self).consumers_seq()[j]
                    })
            },
            !old(self).consumer_map().dom().contains(peer_id@) ==> final(self).consumers_seq()
                == old(self).consumers_seq().push(
                (ConsumerEntry { peer_id: peer_id, kind: MediaKind::Video, track: r.0 }),
            ),
    {
        let track = new_local_track("video/vp8", "video", "rust-webrtc");
        let entry = ConsumerEntry {
            peer_id,
            kind: MediaKind::Video,
            track: track.clone(),
        };
        let keyframe: Option<Arc<RTCPeerConnection>> = match &self.producer {
            Some(pc) => Some(pc.clone()),
            None => None,
        };
        let found = self.find_consumer(&entry.peer_id);
        proof {
            lemma_entry_map_contains(self.consumers_seq(), entry.peer_id@);
        }
        match found {
            Some(i) => {
                proof {
                    lemma_entry_map_update(self.consumers@, i as int, entry);
                    assert(forall|p: int, q: int|
                        0 <= p < q < self.consumers@.update(i as int, entry).len()
                            ==> self.consumers@.update(i as int, entry)[p].peer_id@
                            == self.consumers@[p].peer_id@ && self.consumers@.update(
                            i as int,
                            entry,
                        )[q].peer_id@ == self.consumers@[q].peer_id@);
                }
                self.consumers.set(i, entry);
            },
            None => {
                proof {
                    lemma_entry_map_absent(self.consumers@, entry.peer_id@);
                    assert(self.consumers@.push(entry).drop_last() =~= self.consumers@);
                }
                self.consumers.push(entry);
            },
        }
        (track, keyframe)
    }

    /// Removes the entry for `peer_id` if one is registered; a no-op, not an
    /// error, if none is. Every other entry keeps its place, and the
    /// producer binding is untouched.
    pub fn remove_consumer(&mut self, peer_id: String)
        requires
            old(self).wf(),
        ensures
            final(self).wf(),
            final(self).producer_binding() == old(self).producer_binding(),
            final(self).producer_generation() == old(self).producer_generation(),
            final(self).consumer_map() == old(self).consumer_map().remove(peer_id@),
            !old(self).consumer_map().dom().contains(peer_id@) ==> final(self).consumers_seq()
                == old(self).consumers_seq(),
            old(self).consumer_map().dom().contains(peer_id@) ==> exists|i: int|
                0 <= i < old(self).consumers_seq().len() && old(self).consumers_seq()[i].peer_id@
                    == peer_id@ && final(self).consumers_seq() == old(self).consumers_seq().remove(
                    i,
                ),
    {
        let found = self.find_consumer(&peer_id);
        proof {
            lemma_entry_map_contains(self.consumers_seq(), peer_id@);
        }
        match found {
            Some(i) => {
                proof {
                    lemma_entry_map_remove(self.consumers@, i as int);
                    assert(forall|p: int|
                        0 <= p < self.consumers@.remove(i as int).len()
                            ==> #[trigger] self.consumers@.remove(i as int)[p] == (if p < i as int {
                            self.consumers@[p]
                        } else {
                            self.consumers@[p + 1]
                        }));
                }
                self.consumers.remove(i);
            },
            None => {
                proof {
                    lemma_entry_map_absent(self.consumers@, peer_id@);
                    assert(entry_map(self.consumers@).remove(peer_id@) =~= entry_map(
                        self.consumers@,
                    ));
                }
            },
        }
    }

    /// The targets of one fan-out pass: the outbound tracks of exactly the
    /// registered consumers whose kind matches the inbound packet's kind, in
    /// registry order. Reading the targets never changes the registry, so a
    /// failed write to one target affects no other and drops no consumer.
    pub fn fanout_targets(&self, kind: MediaKind) -> (r: Vec<Arc<TrackLocalStaticRTP>>)
        ensures
            r@ == matching_tracks(self.consumers_seq(), kind),
    {
        let mut out: Vec<Arc<TrackLocalStaticRTP>> = Vec::new();
        let mut i: usize = 0;
        while i < self.consumers.len()
            invariant
                i <= self.consumers@.len(),
                out@ == matching_tracks(self.consumers@.take(i as int), kind),
            decreases self.consumers@.len() - i,
        {
            proof {
                assert(self.consumers@.take(i as int + 1).drop_last() =~= self.consumers@.take(
                    i as int,
                ));
                assert(self.consumers@.take(i as int + 1).last() == self.consumers@[i as int]);
            }
            if self.consumers[i].kind == kind {
                out.push(self.consumers[i].track.clone());
            }
            i = i + 1;
        }
        proof {
            assert(self.consumers@.take(self.consumers@.len() as int) =~= self.consumers@);
        }
        out
    }
}

/// A best-effort keyframe request as the relay addresses it: to all of the
/// producer's streams at once, so both the sender and the media stream
/// identifiers are zero rather than naming one stream.
pub struct KeyframeRequest {
    pub sender_ssrc: u32,
    pub media_ssrc: u32,
}

/// The one keyframe request the relay ever sends: addressed to all streams.
pub fn keyframe_request() -> (r: KeyframeRequest)
    ensures
        r.sender_ssrc == 0,
        r.media_ssrc == 0,
{
    KeyframeRequest { sender_ssrc: 0, media_ssrc: 0 }
}

/// Law: a fan-out pass skips no matching consumer. The outbound track of
/// every entry whose kind matches the inbound packet's kind is among the
/// pass's targets, whatever becomes of the writes to the other targets.
pub proof fn lemma_fanout_complete(s: Seq<ConsumerEntry>, k: MediaKind, i: int)
    requires
        0 <= i < s.len(),
        s[i].kind == k,
    ensures
        matching_tracks(s, k).contains(s[i].track),
    decreases s.len(),
{
    if i == s.len() - 1 {
        let m = matching_tracks(s, k);
        assert(m[m.len() - 1] == s[i].track);
    } else {
        assert(s.drop_last()[i] == s[i]);
        lemma_fanout_complete(s.drop_last(), k, i);
        let m0 = matching_tracks(s.drop_last(), k);
        let w = choose|w: int| 0 <= w < m0.len() && m0[w] == s[i].track;
        assert(matching_tracks(s, k)[w] == s[i].track);
    }
}

/// Law: a fan-out pass addresses only matching consumers. Every target of
/// the pass is the outbound track of some entry whose kind matches the
/// inbound packet's kind; a packet is never written to the other kind.
pub proof fn lemma_fanout_only_matching(s: Seq<ConsumerEntry>, k: MediaKind, w: int)
    requires
        0 <= w < matching_tracks(s, k).len(),
    ensures
        exists|i: int| 0 <= i < s.len() && s[i].kind == k && s[i].track == matching_tracks(s, k)[w],
    decreases s.len(),
{
    let m0 = matching_tracks(s.drop_last(), k);
    if s.last().kind == k && w == m0.len() {
        let i = s.len() - 1;
        assert(s[i].kind == k && s[i].track == matching_tracks(s, k)[w]);
    } else {
        lemma_fanout_only_matching(s.drop_last(), k, w);
        let i = choose|i: int|
            0 <= i < s.drop_last().len() && s.drop_last()[i].kind == k && s.drop_last()[i].track
                == m0[w];
        assert(s[i] == s.drop_last()[i]);
        assert(s[i].kind == k && s[i].track == matching_tracks(s, k)[w]);
    }
}

/// Law: registering a participant and then removing it leaves the registry
/// with no entry for it, and removing it once more changes nothing — a
/// repeated removal is a no-op, not an error. `add_consumer` takes the
/// registry map `m` to `m.insert(k, e)` and `remove_consumer` takes it to
/// its `.remove(k)`, so this is every add-then-remove sequence.
pub proof fn lemma_register_then_remove(
    m: Map<Seq<char>, ConsumerEntry>,
    k: Seq<char>,
    e: ConsumerEntry,
)
    ensures
        !m.insert(k, e).remove(k).dom().contains(k),
        m.insert(k, e).remove(k) == m.remove(k),
        m.insert(k, e).remove(k).remove(k) == m.insert(k, e).remove(k),
{
    assert(m.insert(k, e).remove(k) =~= m.remove(k));
    assert(m.remove(k).remove(k) =~= m.remove(k));
}

/// Law: registering the same participant identifier twice keeps exactly one
/// entry for that identifier — the second registration replaces the first
/// and never duplicates it — and every other identifier's entry is exactly
/// what it was.
pub proof fn lemma_reregister_replaces(
    m: Map<Seq<char>, ConsumerEntry>,
    k: Seq<char>,
    e1: ConsumerEntry,
    e2: ConsumerEntry,
)
    ensures
        m.insert(k, e1).insert(k, e2) == m.insert(k, e2),
        m.insert(k, e1).insert(k, e2).dom() == m.dom().insert(k),
        m.insert(k, e1).insert(k, e2)[k] == e2,
        forall|k2: Seq<char>|
            k2 != k && m.dom().contains(k2) ==> m.insert(k, e1).insert(k, e2)[k2] == m[k2],
{
    assert(m.insert(k, e1).insert(k, e2) =~= m.insert(k, e2));
    assert(m.insert(k, e1).insert(k, e2).dom() =~= m.dom().insert(k));
}

} // verus!

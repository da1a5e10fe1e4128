//! The per-peer metrics store: a mapping from peer identifier to one pair of
//! sliding windows (ping round trips, per-byte transmission rates).
//!
//! At most one entry exists per peer; an entry is created lazily on the
//! first observation for that peer and lives for the store's lifetime.
//! Updates are modelled as atomic steps on the store's contents: each step
//! touches exactly one peer's entry and leaves every other entry unchanged,
//! which is stated below as a `Map` insert.

use crate::window::{mean_of, window_push, SlidingWindow};
use vstd::arithmetic::div_mod::lemma_div_nonincreasing;
use vstd::prelude::*;

verus! {

/// Spec-level contents of one peer's entry: ping samples and transmission
/// rate samples, oldest first.
pub struct PeerView {
    pub ping: Seq<u64>,
    pub tx: Seq<u64>,
}

/// The entry a peer starts with: two empty windows.
pub open spec fn empty_peer() -> PeerView {
    PeerView { ping: Seq::empty(), tx: Seq::empty() }
}

/// `pv` after one ping round trip of `rtt` nanoseconds is recorded.
pub open spec fn pinged(pv: PeerView, rtt: u64, cap: nat) -> PeerView {
    PeerView { ping: window_push(pv.ping, cap, rtt), tx: pv.tx }
}

/// `pv` after one transmission rate of `rate` nanoseconds per byte is
/// recorded.
pub open spec fn rated(pv: PeerView, rate: u64, cap: nat) -> PeerView {
    PeerView { ping: pv.ping, tx: window_push(pv.tx, cap, rate) }
}

/// Whether `entries` holds an entry for peer `k`.
pub open spec fn has_key(entries: Seq<(Seq<char>, PeerView)>, k: Seq<char>) -> bool {
    exists|i: int| 0 <= i < entries.len() && entries[i].0 == k
}

/// The position of peer `k`'s entry (meaningful only under `unique_keys`
/// when `has_key` holds).
pub open spec fn key_index(entries: Seq<(Seq<char>, PeerView)>, k: Seq<char>) -> int {
    choose|i: int| 0 <= i < entries.len() && entries[i].0 == k
}

/// At most one entry per peer.
pub open spec fn unique_keys(entries: Seq<(Seq<char>, PeerView)>) -> bool {
    forall|i: int, j: int| 0 <= i < j < entries.len() ==> entries[i].0 != entries[j].0
}

/// The peer identifiers of `entries`, in entry order.
pub open spec fn keys_of(entries: Seq<(Seq<char>, PeerView)>) -> Seq<Seq<char>> {
    entries.map(|i: int, e: (Seq<char>, PeerView)| e.0)
}

/// `entries` read as a mapping from peer identifier to entry contents.
pub open spec fn as_map(entries: Seq<(Seq<char>, PeerView)>) -> Map<Seq<char>, PeerView> {
    Map::new(|k: Seq<char>| has_key(entries, k), |k: Seq<char>| entries[key_index(entries, k)].1)
}

/// Peer `k`'s current entry, or the starting entry if `k` has none yet.
pub open spec fn peer_or_empty(entries: Seq<(Seq<char>, PeerView)>, k: Seq<char>) -> PeerView {
    if has_key(entries, k) {
        entries[key_index(entries, k)].1
    } else {
        empty_peer()
    }
}

/// Replaces peer `k`'s entry with `v`, creating the entry if absent.
pub open spec fn upsert(entries: Seq<(Seq<char>, PeerView)>, k: Seq<char>, v: PeerView) -> Seq<
    (Seq<char>, PeerView),
> {
    if has_key(entries, k) {
        entries.update(key_index(entries, k), (k, v))
    } else {
        entries.push((k, v))
    }
}

/// The store's contents after `record_ping(k, rtt)`.
pub open spec fn ping_step(
    entries: Seq<(Seq<char>, PeerView)>,
    k: Seq<char>,
    rtt: u64,
    cap: nat,
) -> Seq<(Seq<char>, PeerView)> {
    upsert(entries, k, pinged(peer_or_empty(entries, k), rtt, cap))
}

/// The store's contents after a successful `record_transmission` with rate
/// `rate`.
pub open spec fn rate_step(
    entries: Seq<(Seq<char>, PeerView)>,
    k: Seq<char>,
    rate: u64,
    cap: nat,
) -> Seq<(Seq<char>, PeerView)> {
    upsert(entries, k, rated(peer_or_empty(entries, k), rate, cap))
}

/// Under unique keys, an entry's position is the one `key_index` picks.
pub proof fn lemma_key_index(entries: Seq<(Seq<char>, PeerView)>, i: int)
    requires
        unique_keys(entries),
        0 <= i < entries.len(),
    ensures
        has_key(entries, entries[i].0),
        key_index(entries, entries[i].0) == i,
{
    let k = entries[i].0;
    assert(has_key(entries, k));
    let j = key_index(entries, k);
    if j != i {
        if j < i {
            assert(entries[j].0 != entries[i].0);
        } else {
            assert(entries[i].0 != entries[j].0);
        }
    }
}

/// An upsert is an insert on the mapping view: the named peer gets the new
/// contents and every other peer's entry is unchanged; entry order is
/// preserved, with a new peer appended at the end.
pub proof fn lemma_upsert(entries: Seq<(Seq<char>, PeerView)>, k: Seq<char>, v: PeerView)
    requires
        unique_keys(entries),
    ensures
        unique_keys(upsert(entries, k, v)),
        as_map(upsert(entries, k, v)) =~= as_map(entries).insert(k, v),
        keys_of(upsert(entries, k, v)) =~= if has_key(entries, k) {
            keys_of(entries)
        } else {
            keys_of(entries).push(k)
        },
        upsert(entries, k, v).len() == entries.len() + if has_key(entries, k) {
            0int
        } else {
            1int
        },
{
    let r = upsert(entries, k, v);
    if has_key(entries, k) {
        let i = key_index(entries, k);
        assert(0 <= i < entries.len() && entries[i].0 == k);
        assert(forall|j: int| 0 <= j < r.len() ==> r[j].0 == entries[j].0);
        assert(unique_keys(r));
        assert forall|k2: Seq<char>| has_key(r, k2) == has_key(entries, k2) by {
            if has_key(r, k2) {
                let w = choose|w: int| 0 <= w < r.len() && r[w].0 == k2;
                assert(entries[w].0 == k2);
            }
            if has_key(entries, k2) {
                let w = choose|w: int| 0 <= w < entries.len() && entries[w].0 == k2;
                assert(r[w].0 == k2);
            }
        }
        assert forall|k2: Seq<char>| has_key(r, k2) implies as_map(r)[k2] == as_map(
            entries,
        ).insert(k, v)[k2] by {
            let w = choose|w: int| 0 <= w < entries.len() && entries[w].0 == k2;
            assert(r[w].0 == k2);
            lemma_key_index(r, w);
            lemma_key_index(entries, w);
            if k2 == k {
                assert(w == i);
            }
        }
    } else {
        assert(forall|j: int| 0 <= j < entries.len() ==> r[j] == entries[j]);
        assert(r[entries.len() as int].0 == k);
        assert forall|i: int, j: int| 0 <= i < j < r.len() implies r[i].0 != r[j].0 by {
            if j == entries.len() {
                assert(r[i].0 != k);
            }
        }
        assert forall|k2: Seq<char>| has_key(r, k2) == (has_key(entries, k2) || k2 == k) by {
            if has_key(r, k2) {
                let w = choose|w: int| 0 <= w < r.len() && r[w].0 == k2;
                if w < entries.len() {
                    assert(entries[w].0 == k2);
                }
            }
            if has_key(entries, k2) {
                let w = choose|w: int| 0 <= w < entries.len() && entries[w].0 == k2;
                assert(r[w].0 == k2);
            }
            if k2 == k {
                assert(r[entries.len() as int].0 == k2);
            }
        }
        assert forall|k2: Seq<char>| has_key(r, k2) implies as_map(r)[k2] == as_map(
            entries,
        ).insert(k, v)[k2] by {
            assert(unique_keys(r));
            if k2 == k {
                lemma_key_index(r, entries.len() as int);
            } else {
                let w = choose|w: int| 0 <= w < entries.len() && entries[w].0 == k2;
                assert(r[w].0 == k2);
                lemma_key_index(r, w);
                lemma_key_index(entries, w);
            }
        }
    }
}

/// A key is present exactly when it occurs among the entry keys.
pub proof fn lemma_has_key_keys_of(entries: Seq<(Seq<char>, PeerView)>, k: Seq<char>)
    ensures
        has_key(entries, k) <==> keys_of(entries).contains(k),
{
    if has_key(entries, k) {
        let i = choose|i: int| 0 <= i < entries.len() && entries[i].0 == k;
        assert(keys_of(entries)[i] == k);
    }
    if keys_of(entries).contains(k) {
        let i = choose|i: int| 0 <= i < keys_of(entries).len() && keys_of(entries)[i] == k;
        assert(entries[i].0 == k);
    }
}

/// Ping recordings for two distinct peers do not interfere: applied in
/// either order they leave every peer's entry the same.
pub proof fn lemma_ping_steps_commute(
    entries: Seq<(Seq<char>, PeerView)>,
    p1: Seq<char>,
    rtt1: u64,
    p2: Seq<char>,
    rtt2: u64,
    cap: nat,
)
    requires
        unique_keys(entries),
        p1 != p2,
    ensures
        as_map(ping_step(ping_step(entries, p1, rtt1, cap), p2, rtt2, cap)) =~= as_map(
            ping_step(ping_step(entries, p2, rtt2, cap), p1, rtt1, cap),
        ),
{
    let v1 = pinged(peer_or_empty(entries, p1), rtt1, cap);
    let v2 = pinged(peer_or_empty(entries, p2), rtt2, cap);
    let a1 = ping_step(entries, p1, rtt1, cap);
    let a2 = ping_step(entries, p2, rtt2, cap);
    lemma_upsert(entries, p1, v1);
    lemma_upsert(entries, p2, v2);
    lemma_peer_or_empty_as_map(entries, p1);
    lemma_peer_or_empty_as_map(entries, p2);
    lemma_peer_or_empty_as_map(a1, p2);
    lemma_peer_or_empty_as_map(a2, p1);
    lemma_upsert(a1, p2, pinged(peer_or_empty(a1, p2), rtt2, cap));
    lemma_upsert(a2, p1, pinged(peer_or_empty(a2, p1), rtt1, cap));
    assert(peer_or_empty(a1, p2) == peer_or_empty(entries, p2));
    assert(peer_or_empty(a2, p1) == peer_or_empty(entries, p1));
}

/// `peer_or_empty` agrees with the mapping view.
pub proof fn lemma_peer_or_empty_as_map(entries: Seq<(Seq<char>, PeerView)>, k: Seq<char>)
    ensures
        peer_or_empty(entries, k) == if as_map(entries).dom().contains(k) {
            as_map(entries)[k]
        } else {
            empty_peer()
        },
{
}

/// The key sequence `k, k, ..., k` of length `n`.
pub open spec fn repeat_key(k: Seq<char>, n: nat) -> Seq<Seq<char>> {
    Seq::new(n, |i: int| k)
}

/// The store contents after a sequence of ping recordings, the `i`-th for
/// peer `peers[i]` with round trip `rtts[i]`, applied in order.
pub open spec fn ping_fold(
    entries: Seq<(Seq<char>, PeerView)>,
    peers: Seq<Seq<char>>,
    rtts: Seq<u64>,
    cap: nat,
) -> Seq<(Seq<char>, PeerView)>
    recommends
        peers.len() == rtts.len(),
    decreases peers.len(),
{
    if peers.len() == 0 || rtts.len() == 0 {
        entries
    } else {
        ping_step(
            ping_fold(entries, peers.drop_last(), rtts.drop_last(), cap),
            peers.last(),
            rtts.last(),
            cap,
        )
    }
}

/// Ping recordings for pairwise distinct, previously unseen peers never
/// overwrite or merge one another: afterwards the store holds one new entry
/// per peer, in recording order, each holding exactly its own sample, and
/// every pre-existing entry is unchanged.
pub proof fn lemma_distinct_peers_ping(
    entries: Seq<(Seq<char>, PeerView)>,
    peers: Seq<Seq<char>>,
    rtts: Seq<u64>,
    cap: nat,
)
    requires
        unique_keys(entries),
        peers.len() == rtts.len(),
        forall|i: int, j: int| 0 <= i < j < peers.len() ==> peers[i] != peers[j],
        forall|i: int| 0 <= i < peers.len() ==> !has_key(entries, #[trigger] peers[i]),
    ensures
        unique_keys(ping_fold(entries, peers, rtts, cap)),
        keys_of(ping_fold(entries, peers, rtts, cap)) =~= keys_of(entries) + peers,
        forall|i: int|
            0 <= i < peers.len() ==> as_map(ping_fold(entries, peers, rtts, cap))[#[trigger] peers[i]]
                == pinged(empty_peer(), rtts[i], cap),
        forall|k: Seq<char>|
            has_key(entries, k) ==> as_map(ping_fold(entries, peers, rtts, cap))[k] == as_map(
                entries,
            )[k],
    decreases peers.len(),
{
    if peers.len() == 0 {
        assert(keys_of(ping_fold(entries, peers, rtts, cap)) =~= keys_of(entries) + peers);
    } else {
        let hd_peers = peers.drop_last();
        let hd_rtts = rtts.drop_last();
        let p = peers.last();
        let prev = ping_fold(entries, hd_peers, hd_rtts, cap);
        lemma_distinct_peers_ping(entries, hd_peers, hd_rtts, cap);
        lemma_has_key_keys_of(prev, p);
        lemma_has_key_keys_of(entries, p);
        assert(!keys_of(entries).contains(p));
        assert(!hd_peers.contains(p)) by {
            if hd_peers.contains(p) {
                let i = choose|i: int| 0 <= i < hd_peers.len() && hd_peers[i] == p;
                assert(peers[i] == peers[peers.len() - 1]);
            }
        }
        assert(!keys_of(prev).contains(p));
        assert(peer_or_empty(prev, p) == empty_peer());
        lemma_upsert(prev, p, pinged(empty_peer(), rtts.last(), cap));
        assert(keys_of(ping_fold(entries, peers, rtts, cap)) =~= keys_of(entries) + peers);
        assert forall|i: int| 0 <= i < peers.len() implies as_map(
            ping_fold(entries, peers, rtts, cap),
        )[#[trigger] peers[i]] == pinged(empty_peer(), rtts[i], cap) by {
            if i < peers.len() - 1 {
                lemma_has_key_keys_of(prev, peers[i]);
                assert(hd_peers[i] == peers[i] && hd_rtts[i] == rtts[i]);
            }
        }
        assert forall|k: Seq<char>| has_key(entries, k) implies as_map(
            ping_fold(entries, peers, rtts, cap),
        )[k] == as_map(entries)[k] by {
            lemma_has_key_keys_of(entries, k);
            assert(k != p);
        }
    }
}

/// Repeated ping recordings for one previously unseen peer lose nothing:
/// after the whole sequence is applied, the peer's single entry holds the
/// window that results from pushing every sample in order, and every other
/// entry is unchanged.
pub proof fn lemma_same_peer_ping(
    entries: Seq<(Seq<char>, PeerView)>,
    peer: Seq<char>,
    rtts: Seq<u64>,
    cap: nat,
)
    requires
        unique_keys(entries),
        !has_key(entries, peer),
        rtts.len() > 0,
    ensures
        unique_keys(ping_fold(entries, repeat_key(peer, rtts.len()), rtts, cap)),
        keys_of(ping_fold(entries, repeat_key(peer, rtts.len()), rtts, cap)) =~= keys_of(
            entries,
        ).push(peer),
        as_map(ping_fold(entries, repeat_key(peer, rtts.len()), rtts, cap)) =~= as_map(
            entries,
        ).insert(
            peer,
            PeerView { ping: crate::window::window_after(cap, rtts), tx: Seq::empty() },
        ),
    decreases rtts.len(),
{
    let peers = repeat_key(peer, rtts.len());
    let r = ping_fold(entries, peers, rtts, cap);
    if rtts.len() == 1 {
        assert(ping_fold(entries, peers.drop_last(), rtts.drop_last(), cap) == entries);
        lemma_upsert(entries, peer, pinged(empty_peer(), rtts.last(), cap));
        assert(crate::window::window_after(cap, rtts.drop_last()) =~= Seq::<u64>::empty());
        assert(pinged(empty_peer(), rtts.last(), cap) == PeerView {
            ping: crate::window::window_after(cap, rtts),
            tx: Seq::<u64>::empty(),
        });
    } else {
        let hd = rtts.drop_last();
        assert(peers.drop_last() =~= repeat_key(peer, hd.len()));
        lemma_same_peer_ping(entries, peer, hd, cap);
        let prev = ping_fold(entries, repeat_key(peer, hd.len()), rtts.drop_last(), cap);
        assert(ping_fold(entries, peers.drop_last(), rtts.drop_last(), cap) == prev);
        lemma_has_key_keys_of(prev, peer);
        assert(keys_of(prev).contains(peer)) by {
            assert(keys_of(prev)[keys_of(prev).len() - 1] == peer);
        }
        lemma_peer_or_empty_as_map(prev, peer);
        assert(peer_or_empty(prev, peer) == PeerView {
            ping: crate::window::window_after(cap, hd),
            tx: Seq::<u64>::empty(),
        });
        lemma_upsert(prev, peer, pinged(peer_or_empty(prev, peer), rtts.last(), cap));
        assert(keys_of(r) =~= keys_of(entries).push(peer));
        assert(as_map(r) =~= as_map(entries).insert(
            peer,
            PeerView { ping: crate::window::window_after(cap, rtts), tx: Seq::<u64>::empty() },
        ));
    }
}

/// No update is lost: after `M` ping recordings for one previously unseen
/// peer, with `M` at most the window capacity, that peer's window length is
/// exactly `M` and it holds exactly the `M` samples, in recording order.
pub proof fn lemma_no_lost_updates(
    entries: Seq<(Seq<char>, PeerView)>,
    peer: Seq<char>,
    rtts: Seq<u64>,
    cap: nat,
)
    requires
        unique_keys(entries),
        !has_key(entries, peer),
        0 < rtts.len() <= cap,
    ensures
        as_map(ping_fold(entries, repeat_key(peer, rtts.len()), rtts, cap))[peer].ping == rtts,
{
    lemma_same_peer_ping(entries, peer, rtts, cap);
    crate::window::lemma_window_after_keeps_last(cap, rtts);
    assert(rtts.skip(0) =~= rtts);
}

/// The per-byte transmission rate: elapsed time divided by payload size,
/// truncated to whole nanoseconds per byte (meaningful only for a non-zero
/// payload).
pub open spec fn rate_of(elapsed_nanos: u64, byte_count: u32) -> u64 {
    ((elapsed_nanos as int) / (byte_count as int)) as u64
}

/// Why an ingestion update was skipped. The update is dropped and the
/// affected window left unchanged; nothing is fatal.
#[derive(Clone, Copy, PartialEq, Eq, Structural, Debug)]
pub enum IngestError {
    /// A transmission event carried a zero-length payload, so no per-byte
    /// rate can be derived from it.
    ZeroByteCount,
}

/// One peer's pair of sliding windows.
pub struct PeerMetrics {
    ping_window: SlidingWindow,
    transmission_window: SlidingWindow,
}

impl View for PeerMetrics {
    type V = PeerView;

    closed spec fn view(&self) -> PeerView {
        PeerView { ping: self.ping_window@, tx: self.transmission_window@ }
    }
}

impl PeerMetrics {
    /// The common capacity of the two windows.
    pub closed spec fn cap(&self) -> nat {
        self.ping_window.cap()
    }

    pub closed spec fn well_formed(&self) -> bool {
        &&& self.ping_window.well_formed()
        &&& self.transmission_window.well_formed()
        &&& self.transmission_window.cap() == self.ping_window.cap()
    }

    /// Two empty windows of capacity `window_size`.
    pub fn new(window_size: usize) -> (m: PeerMetrics)
        ensures
            m@ == empty_peer(),
            m.cap() == window_size,
            m.well_formed(),
    {
        PeerMetrics {
            ping_window: SlidingWindow::new(window_size),
            transmission_window: SlidingWindow::new(window_size),
        }
    }

    /// Records one ping round trip of `rtt_nanos` nanoseconds.
    pub fn push_ping(&mut self, rtt_nanos: u64)
        requires
            old(self).well_formed(),
        ensures
            final(self).well_formed(),
            final(self).cap() == old(self).cap(),
            final(self)@ == pinged(old(self)@, rtt_nanos, old(self).cap()),
    {
        self.ping_window.push(rtt_nanos);
    }

    /// Records one transmission rate of `rate_nanos` nanoseconds per byte.
    pub fn push_transmission(&mut self, rate_nanos: u64)
        requires
            old(self).well_formed(),
        ensures
            final(self).well_formed(),
            final(self).cap() == old(self).cap(),
            final(self)@ == rated(old(self)@, rate_nanos, old(self).cap()),
    {
        self.transmission_window.push(rate_nanos);
    }

    /// A copy of the retained ping samples, oldest first.
    pub fn ping_samples(&self) -> (v: Vec<u64>)
        ensures
            v@ == self@.ping,
    {
        self.ping_window.samples()
    }

    /// A copy of the retained transmission-rate samples, oldest first.
    pub fn transmission_samples(&self) -> (v: Vec<u64>)
        ensures
            v@ == self@.tx,
    {
        self.transmission_window.samples()
    }

    /// The mean ping round trip, or `None` without ping samples.
    pub fn ping_average(&self) -> (r: Option<u64>)
        ensures
            r == mean_of(self@.ping),
    {
        self.ping_window.average()
    }

    /// The mean per-byte transmission rate, or `None` without transmission
    /// samples.
    pub fn transmission_average(&self) -> (r: Option<u64>)
        ensures
            r == mean_of(self@.tx),
    {
        self.transmission_window.average()
    }
}

/// One peer's line in a point-in-time summary.
pub struct PeerSummary {
    pub peer: String,
    pub ping_average: Option<u64>,
    pub transmission_average: Option<u64>,
}

/// A derived, immutable point-in-time view of the whole store: for each
/// peer, the mean of each of its two windows (`None` where a window is
/// empty). Computed fresh on every call, never cached.
pub struct StatsSummary {
    pub peers: Vec<PeerSummary>,
}

/// The mapping from peer identifier to that peer's two sample windows.
///
/// At most one entry exists per peer; entries are created lazily on first
/// observation and kept in creation order.
pub struct MetricsStore {
    window_size: usize,
    entries: Vec<(String, PeerMetrics)>,
}

impl View for MetricsStore {
    type V = Seq<(Seq<char>, PeerView)>;

    closed spec fn view(&self) -> Seq<(Seq<char>, PeerView)> {
        self.entries@.map(|i: int, e: (String, PeerMetrics)| (e.0@, e.1@))
    }
}

impl MetricsStore {
    /// The window capacity every entry is created with, fixed at store
    /// construction time.
    pub closed spec fn spec_window_size(&self) -> nat {
        self.window_size as nat
    }

    pub closed spec fn well_formed(&self) -> bool {
        &&& unique_keys(self@)
        &&& forall|i: int|
            0 <= i < self.entries@.len() ==> (#[trigger] self.entries@[i]).1.well_formed()
                && self.entries@[i].1.cap() == self.window_size as nat
    }

    /// An empty store whose entries will retain `window_size` samples per
    /// window.
    pub fn new(window_size: usize) -> (s: MetricsStore)
        ensures
            s.well_formed(),
            s@ =~= Seq::<(Seq<char>, PeerView)>::empty(),
            s.spec_window_size() == window_size,
    {
        let s = MetricsStore { window_size, entries: Vec::new() };
        proof {
            assert(s@ =~= Seq::<(Seq<char>, PeerView)>::empty());
        }
        s
    }

    /// The number of peers with an entry.
    pub fn len(&self) -> (n: usize)
        ensures
            n == self@.len(),
    {
        self.entries.len()
    }

    pub fn window_size(&self) -> (n: usize)
        ensures
            n == self.spec_window_size(),
    {
        self.window_size
    }

    /// The position of `peer`'s entry, if it has one.
    fn find(&self, peer: &String) -> (r: Option<usize>)
        ensures
            match r {
                Some(i) => i < self@.len() && self@[i as int].0 == peer@,
                None => !has_key(self@, peer@),
            },
    {
        let n = self.entries.len();
        let mut i: usize = 0;
        while i < n
            invariant
                i <= n,
                n == self@.len(),
                forall|j: int| 0 <= j < i ==> self@[j].0 != peer@,
            decreases n - i,
        {
            if self.entries[i].0 == *peer {
                return Some(i);
            }
            i = i + 1;
        }
        None
    }

    /// Records a ping round trip of `rtt_nanos` nanoseconds for `peer`,
    /// creating `peer`'s entry (two empty windows) first if it has none.
    /// Exactly one peer's entry changes; every other entry is untouched.
    pub fn record_ping(&mut self, peer: String, rtt_nanos: u64)
        requires
            old(self).well_formed(),
        ensures
            final(self).well_formed(),
            final(self).spec_window_size() == old(self).spec_window_size(),
            final(self)@ =~= ping_step(
                old(self)@,
                peer@,
                rtt_nanos,
                old(self).spec_window_size(),
            ),
            as_map(final(self)@) =~= as_map(old(self)@).insert(
                peer@,
                pinged(peer_or_empty(old(self)@, peer@), rtt_nanos, old(self).spec_window_size()),
            ),
            keys_of(final(self)@) =~= if has_key(old(self)@, peer@) {
                keys_of(old(self)@)
            } else {
                keys_of(old(self)@).push(peer@)
            },
    {
        let ghost prev = self@;
        let ghost cap = self.window_size as nat;
        let ghost target = pinged(peer_or_empty(prev, peer@), rtt_nanos, cap);
        match self.find(&peer) {
            Some(i) => {
                proof {
                    lemma_key_index(prev, i as int);
                }
                let entry = &mut self.entries[i];
                entry.1.push_ping(rtt_nanos);
                proof {
                    assert(self@ =~= prev.update(i as int, (peer@, target)));
                    lemma_upsert(prev, peer@, target);
                    assert(self@ =~= ping_step(prev, peer@, rtt_nanos, cap));
                }
            },
            None => {
                let mut m = PeerMetrics::new(self.window_size);
                m.push_ping(rtt_nanos);
                self.entries.push((peer, m));
                proof {
                    assert(self@ =~= prev.push((peer@, target)));
                    lemma_upsert(prev, peer@, target);
                    assert(self@ =~= ping_step(prev, peer@, rtt_nanos, cap));
                }
            },
        }
    }

    /// Records a transmission of `byte_count` bytes that took
    /// `elapsed_nanos` nanoseconds end to end, for `peer`: the derived
    /// per-byte rate is pushed onto `peer`'s transmission window, creating
    /// `peer`'s entry first if it has none. A zero `byte_count` admits no
    /// per-byte rate: the update is skipped, the store left entirely
    /// unchanged, and the condition reported.
    pub fn record_transmission(&mut self, peer: String, elapsed_nanos: u64, byte_count: u32) -> (r:
        Result<(), IngestError>)
        requires
            old(self).well_formed(),
        ensures
            final(self).well_formed(),
            final(self).spec_window_size() == old(self).spec_window_size(),
            byte_count == 0 ==> r == Err::<(), IngestError>(IngestError::ZeroByteCount)
                && final(self)@ == old(self)@,
            byte_count != 0 ==> r == Ok::<(), IngestError>(()) && final(self)@ =~= rate_step(
                old(self)@,
                peer@,
                rate_of(elapsed_nanos, byte_count),
                old(self).spec_window_size(),
            ),
            byte_count != 0 ==> as_map(final(self)@) =~= as_map(old(self)@).insert(
                peer@,
                rated(
                    peer_or_empty(old(self)@, peer@),
                    rate_of(elapsed_nanos, byte_count),
                    old(self).spec_window_size(),
                ),
            ),
            keys_of(final(self)@) =~= if has_key(old(self)@, peer@) || byte_count == 0 {
                keys_of(old(self)@)
            } else {
                keys_of(old(self)@).push(peer@)
            },
    {
        if byte_count == 0 {
            return Err(IngestError::ZeroByteCount);
        }
        proof {
            lemma_div_nonincreasing(elapsed_nanos as int, byte_count as int);
        }
        let rate: u64 = elapsed_nanos / (byte_count as u64);
        let ghost prev = self@;
        let ghost cap = self.window_size as nat;
        let ghost target = rated(peer_or_empty(prev, peer@), rate, cap);
        match self.find(&peer) {
            Some(i) => {
                proof {
                    lemma_key_index(prev, i as int);
                }
                let entry = &mut self.entries[i];
                entry.1.push_transmission(rate);
                proof {
                    assert(self@ =~= prev.update(i as int, (peer@, target)));
                    lemma_upsert(prev, peer@, target);
                    assert(self@ =~= rate_step(prev, peer@, rate, cap));
                }
            },
            None => {
                let mut m = PeerMetrics::new(self.window_size);
                m.push_transmission(rate);
                self.entries.push((peer, m));
                proof {
                    assert(self@ =~= prev.push((peer@, target)));
                    lemma_upsert(prev, peer@, target);
                    assert(self@ =~= rate_step(prev, peer@, rate, cap));
                }
            },
        }
        Ok(())
    }

    /// The identifier of the `i`-th peer, in entry-creation order.
    pub fn peer_name_at(&self, i: usize) -> (p: &String)
        requires
            i < self@.len(),
        ensures
            p@ == self@[i as int].0,
    {
        &self.entries[i].0
    }

    /// The mean ping round trip of the `i`-th peer.
    pub fn ping_average_at(&self, i: usize) -> (r: Option<u64>)
        requires
            i < self@.len(),
        ensures
            r == mean_of(self@[i as int].1.ping),
    {
        self.entries[i].1.ping_average()
    }

    /// The mean per-byte transmission rate of the `i`-th peer.
    pub fn transmission_average_at(&self, i: usize) -> (r: Option<u64>)
        requires
            i < self@.len(),
        ensures
            r == mean_of(self@[i as int].1.tx),
    {
        self.entries[i].1.transmission_average()
    }

    /// The retained ping samples of the `i`-th peer, oldest first.
    pub fn ping_samples_at(&self, i: usize) -> (v: Vec<u64>)
        requires
            i < self@.len(),
        ensures
            v@ == self@[i as int].1.ping,
    {
        self.entries[i].1.ping_samples()
    }

    /// The retained transmission-rate samples of the `i`-th peer, oldest
    /// first.
    pub fn transmission_samples_at(&self, i: usize) -> (v: Vec<u64>)
        requires
            i < self@.len(),
        ensures
            v@ == self@[i as int].1.tx,
    {
        self.entries[i].1.transmission_samples()
    }

    /// A point-in-time summary: for every peer, in entry order, the mean of
    /// each of its two windows.
    pub fn snapshot(&self) -> (summary: StatsSummary)
        ensures
            summary.peers@.len() == self@.len(),
            forall|i: int|
                0 <= i < self@.len() ==> {
                    &&& (#[trigger] summary.peers@[i]).peer@ == self@[i].0
                    &&& summary.peers@[i].ping_average == mean_of(self@[i].1.ping)
                    &&& summary.peers@[i].transmission_average == mean_of(self@[i].1.tx)
                },
    {
        let n = self.entries.len();
        let mut peers: Vec<PeerSummary> = Vec::new();
        let mut i: usize = 0;
        while i < n
            invariant
                i <= n,
                n == self@.len(),
                peers@.len() == i,
                forall|j: int|
                    0 <= j < i ==> {
                        &&& (#[trigger] peers@[j]).peer@ == self@[j].0
                        &&& peers@[j].ping_average == mean_of(self@[j].1.ping)
                        &&& peers@[j].transmission_average == mean_of(self@[j].1.tx)
                    },
            decreases n - i,
        {
            let name = self.peer_name_at(i).clone();
            let line = PeerSummary {
                peer: name,
                ping_average: self.ping_average_at(i),
                transmission_average: self.transmission_average_at(i),
            };
            peers.push(line);
            i = i + 1;
        }
        StatsSummary { peers }
    }
}

} // verus!

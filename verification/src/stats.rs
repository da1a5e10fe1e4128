//! The aggregator façade: receives ingestion events, updates the per-peer
//! store, and renders point-in-time summaries in a stable textual form.
//!
//! Rendering is a pure function of the aggregator's state, so the same state
//! always yields byte-identical text, whether the text is printed to a
//! console or persisted to a file.

use crate::codec::{
    elapsed_millis, elapsed_val, fits_in_nanos, has_elapsed, millis_to_nanos, nanos_val,
    wf_wire, wire_payload, wire_sent_millis, DecodeError, PendingTxMessage,
};
use crate::store::{
    as_map, peer_or_empty, ping_step, pinged, rate_of, rate_step, rated, IngestError,
    MetricsStore, PeerView, StatsSummary,
};
use crate::text::{dec_chars, u64_to_string};
use crate::window::{lemma_mean_of_val, mean_of, mean_val};
use vstd::prelude::*;
use vstd::string::StringExecFns;

verus! {

/// What became of one received wire message.
#[derive(Clone, Copy, PartialEq, Eq, Structural, Debug)]
pub enum WireIngestOutcome {
    /// A per-byte rate sample was recorded for the sending peer.
    Recorded,
    /// Dropped: the bytes are no valid message encoding.
    Undecodable(DecodeError),
    /// Dropped: the embedded timestamp admits no usable elapsed time (the
    /// receiver's clock is at or behind the sender's, or the span is out of
    /// range).
    NoUsableElapsed,
    /// Dropped: the payload is too large for its bytes to be counted.
    OversizePayload,
    /// Dropped and reported: the ingestion input was malformed.
    Rejected(IngestError),
}

/// What a wire message received at clock reading `now_millis` contributes:
/// either a rate sample for its sender, or the reason it is dropped.
pub open spec fn wire_ingest_spec(bytes: Seq<u8>, now_millis: u128) -> WireIngestOutcome {
    if !wf_wire(bytes) {
        WireIngestOutcome::Undecodable(
            if bytes.len() < 24 {
                DecodeError::TooShort
            } else {
                DecodeError::LengthMismatch
            },
        )
    } else if wire_payload(bytes).len() > u32::MAX {
        WireIngestOutcome::OversizePayload
    } else if !has_elapsed(now_millis, wire_sent_millis(bytes)) {
        WireIngestOutcome::NoUsableElapsed
    } else if !fits_in_nanos(elapsed_val(now_millis, wire_sent_millis(bytes))) {
        WireIngestOutcome::NoUsableElapsed
    } else if wire_payload(bytes).len() == 0 {
        WireIngestOutcome::Rejected(IngestError::ZeroByteCount)
    } else {
        WireIngestOutcome::Recorded
    }
}

/// The rate sample a recorded wire message contributes: its end-to-end
/// latency in nanoseconds divided by its payload size (meaningful only
/// where `wire_ingest_spec` is `Recorded`).
pub open spec fn wire_rate_spec(bytes: Seq<u8>, now_millis: u128) -> u64 {
    rate_of(
        nanos_val(elapsed_val(now_millis, wire_sent_millis(bytes))),
        wire_payload(bytes).len() as u32,
    )
}

/// The summary line for one peer's ping window: nothing for a peer without
/// ping samples, otherwise the peer's identifier and its mean round trip.
pub open spec fn ping_line(e: (Seq<char>, PeerView)) -> Seq<char> {
    if e.1.ping.len() == 0 {
        Seq::empty()
    } else {
        e.0 + ": "@ + dec_chars(mean_val(e.1.ping)) + "\n"@
    }
}

/// The summary line for one peer's transmission window.
pub open spec fn tx_line(e: (Seq<char>, PeerView)) -> Seq<char> {
    if e.1.tx.len() == 0 {
        Seq::empty()
    } else {
        e.0 + ": "@ + dec_chars(mean_val(e.1.tx)) + "\n"@
    }
}

/// The ping section body: one line per peer with ping samples, in entry
/// order.
pub open spec fn ping_lines(entries: Seq<(Seq<char>, PeerView)>) -> Seq<char>
    decreases entries.len(),
{
    if entries.len() == 0 {
        Seq::empty()
    } else {
        ping_lines(entries.drop_last()) + ping_line(entries.last())
    }
}

/// The transmission section body.
pub open spec fn tx_lines(entries: Seq<(Seq<char>, PeerView)>) -> Seq<char>
    decreases entries.len(),
{
    if entries.len() == 0 {
        Seq::empty()
    } else {
        tx_lines(entries.drop_last()) + tx_line(entries.last())
    }
}

/// Everything the summary text holds before the ping section body.
pub open spec fn render_head(name: Seq<char>) -> Seq<char> {
    "Stats for node "@ + name + "\n"@ + "Ping round trip (ns):\n"@
}

/// The complete summary text for node `name` over store contents `entries`:
/// a header naming the node, then one section per metric, each listing only
/// the peers that have samples for that metric.
pub open spec fn render_spec(name: Seq<char>, entries: Seq<(Seq<char>, PeerView)>) -> Seq<char> {
    render_head(name) + ping_lines(entries) + "Transmission rate (ns/byte):\n"@ + tx_lines(entries)
}

/// The aggregator: a named per-peer metrics store together with the
/// rendering of its summaries.
pub struct Stats {
    node_name: String,
    store: MetricsStore,
}

impl View for Stats {
    type V = Seq<(Seq<char>, PeerView)>;

    closed spec fn view(&self) -> Seq<(Seq<char>, PeerView)> {
        self.store@
    }
}

impl Stats {
    /// The display name of the local node, fixed at construction.
    pub closed spec fn spec_name(&self) -> Seq<char> {
        self.node_name@
    }

    pub closed spec fn spec_window_size(&self) -> nat {
        self.store.spec_window_size()
    }

    pub closed spec fn well_formed(&self) -> bool {
        self.store.well_formed()
    }

    /// An aggregator with no observations yet, whose windows will retain
    /// `window_size` samples each.
    pub fn new(window_size: usize, node_name: String) -> (s: Stats)
        ensures
            s.well_formed(),
            s@ =~= Seq::<(Seq<char>, PeerView)>::empty(),
            s.spec_name() == node_name@,
            s.spec_window_size() == window_size,
    {
        Stats { node_name, store: MetricsStore::new(window_size) }
    }

    /// Records a ping round trip for `peer_id`; updates in-memory state
    /// only.
    pub fn add_ping(&mut self, peer_id: String, rtt_nanos: u64)
        requires
            old(self).well_formed(),
        ensures
            final(self).well_formed(),
            final(self).spec_name() == old(self).spec_name(),
            final(self).spec_window_size() == old(self).spec_window_size(),
            final(self)@ =~= ping_step(
                old(self)@,
                peer_id@,
                rtt_nanos,
                old(self).spec_window_size(),
            ),
            as_map(final(self)@) =~= as_map(old(self)@).insert(
                peer_id@,
                pinged(
                    peer_or_empty(old(self)@, peer_id@),
                    rtt_nanos,
                    old(self).spec_window_size(),
                ),
            ),
    {
        self.store.record_ping(peer_id, rtt_nanos);
    }

    /// Records a transmission of `byte_count` bytes that took
    /// `elapsed_nanos` nanoseconds for `peer_id`; a zero `byte_count` is
    /// reported and leaves the state unchanged.
    pub fn add_transmission(&mut self, peer_id: String, elapsed_nanos: u64, byte_count: u32) -> (r:
        Result<(), IngestError>)
        requires
            old(self).well_formed(),
        ensures
            final(self).well_formed(),
            final(self).spec_name() == old(self).spec_name(),
            final(self).spec_window_size() == old(self).spec_window_size(),
            byte_count == 0 ==> r == Err::<(), IngestError>(IngestError::ZeroByteCount)
                && final(self)@ == old(self)@,
            byte_count != 0 ==> r == Ok::<(), IngestError>(()) && final(self)@ =~= rate_step(
                old(self)@,
                peer_id@,
                rate_of(elapsed_nanos, byte_count),
                old(self).spec_window_size(),
            ),
            byte_count != 0 ==> as_map(final(self)@) =~= as_map(old(self)@).insert(
                peer_id@,
                rated(
                    peer_or_empty(old(self)@, peer_id@),
                    rate_of(elapsed_nanos, byte_count),
                    old(self).spec_window_size(),
                ),
            ),
    {
        self.store.record_transmission(peer_id, elapsed_nanos, byte_count)
    }

    /// Ingests one received wire message whole: decodes it, derives the
    /// end-to-end latency from its embedded send timestamp and the receive
    /// time `now_millis`, and records the per-byte rate for `peer_id`.
    /// Whatever is wrong with the message — an invalid encoding, a
    /// timestamp that admits no usable elapsed time, an uncountable or
    /// empty payload — drops the event, leaves the state unchanged, and
    /// names the reason; nothing is fatal.
    pub fn ingest_wire_transmission(&mut self, peer_id: String, wire: &[u8], now_millis: u128) -> (r:
        WireIngestOutcome)
        requires
            old(self).well_formed(),
        ensures
            final(self).well_formed(),
            final(self).spec_name() == old(self).spec_name(),
            final(self).spec_window_size() == old(self).spec_window_size(),
            r == wire_ingest_spec(wire@, now_millis),
            r == WireIngestOutcome::Recorded ==> final(self)@ =~= rate_step(
                old(self)@,
                peer_id@,
                wire_rate_spec(wire@, now_millis),
                old(self).spec_window_size(),
            ),
            r != WireIngestOutcome::Recorded ==> final(self)@ == old(self)@,
    {
        let msg = match PendingTxMessage::decode(wire) {
            Ok(m) => m,
            Err(e) => {
                return WireIngestOutcome::Undecodable(e);
            },
        };
        if msg.data.len() > u32::MAX as usize {
            return WireIngestOutcome::OversizePayload;
        }
        let elapsed = match elapsed_millis(now_millis, msg.sent_time_millis) {
            Some(ms) => ms,
            None => {
                return WireIngestOutcome::NoUsableElapsed;
            },
        };
        let elapsed_nanos = match millis_to_nanos(elapsed) {
            Some(ns) => ns,
            None => {
                return WireIngestOutcome::NoUsableElapsed;
            },
        };
        match self.add_transmission(peer_id, elapsed_nanos, msg.data.len() as u32) {
            Ok(()) => WireIngestOutcome::Recorded,
            Err(e) => WireIngestOutcome::Rejected(e),
        }
    }

    /// A point-in-time summary of every peer's averages, in entry order.
    pub fn snapshot(&self) -> (summary: StatsSummary)
        ensures
            summary.peers@.len() == self@.len(),
            forall|i: int|
                0 <= i < self@.len() ==> {
                    &&& (#[trigger] summary.peers@[i]).peer@ == self@[i].0
                    &&& summary.peers@[i].ping_average == mean_of(self@[i].1.ping)
                    &&& summary.peers@[i].transmission_average == mean_of(self@[i].1.tx)
                },
    {
        self.store.snapshot()
    }

    /// The number of peers with an entry.
    pub fn peer_count(&self) -> (n: usize)
        ensures
            n == self@.len(),
    {
        self.store.len()
    }

    /// The deterministic, human-readable summary text. The same state
    /// always renders to the same bytes, so printing it and persisting it
    /// write identical text.
    pub fn render(&self) -> (s: String)
        ensures
            s@ == render_spec(self.spec_name(), self@),
    {
        let ghost entries = self@;
        let mut s = String::new();
        s.append("Stats for node ");
        s.append(self.node_name.as_str());
        s.append("\n");
        s.append("Ping round trip (ns):\n");
        proof {
            assert(s@ =~= render_head(self.spec_name()));
        }
        let n = self.store.len();
        let mut i: usize = 0;
        while i < n
            invariant
                i <= n,
                n == entries.len(),
                entries == self@,
                self.store@ == self@,
                s@ == render_head(self.spec_name()) + ping_lines(entries.take(i as int)),
            decreases n - i,
        {
            let ghost done = entries.take(i as int);
            match self.store.ping_average_at(i) {
                Some(avg) => {
                    proof {
                        lemma_mean_of_val(entries[i as int].1.ping);
                    }
                    s.append(self.store.peer_name_at(i).as_str());
                    s.append(": ");
                    let num = u64_to_string(avg);
                    s.append(num.as_str());
                    s.append("\n");
                    proof {
                        assert(s@ =~= render_head(self.spec_name()) + (ping_lines(done)
                            + ping_line(entries[i as int])));
                    }
                },
                None => {
                    proof {
                        assert(ping_line(entries[i as int]) =~= Seq::<char>::empty());
                        assert(s@ =~= render_head(self.spec_name()) + (ping_lines(done)
                            + ping_line(entries[i as int])));
                    }
                },
            }
            proof {
                assert(entries.take(i + 1).drop_last() =~= done);
                assert(entries.take(i + 1).last() == entries[i as int]);
                assert(ping_lines(entries.take(i + 1)) == ping_lines(done) + ping_line(
                    entries[i as int],
                ));
                assert(render_head(self.spec_name()) + (ping_lines(done) + ping_line(
                    entries[i as int],
                )) =~= (render_head(self.spec_name()) + ping_lines(done)) + ping_line(
                    entries[i as int],
                ));
            }
            i = i + 1;
        }
        proof {
            assert(entries.take(n as int) =~= entries);
        }
        s.append("Transmission rate (ns/byte):\n");
        let ghost mid = render_head(self.spec_name()) + ping_lines(entries)
            + "Transmission rate (ns/byte):\n"@;
        proof {
            assert(s@ =~= mid);
        }
        let mut i: usize = 0;
        while i < n
            invariant
                i <= n,
                n == entries.len(),
                entries == self@,
                self.store@ == self@,
                mid == render_head(self.spec_name()) + ping_lines(entries)
                    + "Transmission rate (ns/byte):\n"@,
                s@ == mid + tx_lines(entries.take(i as int)),
            decreases n - i,
        {
            let ghost done = entries.take(i as int);
            match self.store.transmission_average_at(i) {
                Some(avg) => {
                    proof {
                        lemma_mean_of_val(entries[i as int].1.tx);
                    }
                    s.append(self.store.peer_name_at(i).as_str());
                    s.append(": ");
                    let num = u64_to_string(avg);
                    s.append(num.as_str());
                    s.append("\n");
                    proof {
                        assert(s@ =~= mid + (tx_lines(done) + tx_line(entries[i as int])));
                    }
                },
                None => {
                    proof {
                        assert(tx_line(entries[i as int]) =~= Seq::<char>::empty());
                        assert(s@ =~= mid + (tx_lines(done) + tx_line(entries[i as int])));
                    }
                },
            }
            proof {
                assert(entries.take(i + 1).drop_last() =~= done);
                assert(entries.take(i + 1).last() == entries[i as int]);
                assert(tx_lines(entries.take(i + 1)) == tx_lines(done) + tx_line(
                    entries[i as int],
                ));
                assert(mid + (tx_lines(done) + tx_line(entries[i as int])) =~= (mid + tx_lines(
                    done,
                )) + tx_line(entries[i as int]));
            }
            i = i + 1;
        }
        proof {
            assert(entries.take(n as int) =~= entries);
            assert(s@ =~= render_spec(self.spec_name(), self@));
        }
        s
    }
}

/// Rendering is a pure function of the node name and the store contents:
/// two renderings of the same state are byte-identical.
pub proof fn lemma_render_deterministic(
    name: Seq<char>,
    entries: Seq<(Seq<char>, PeerView)>,
    r1: Seq<char>,
    r2: Seq<char>,
)
    requires
        r1 == render_spec(name, entries),
        r2 == render_spec(name, entries),
    ensures
        r1 == r2,
{
}

} // verus!

//! The node lifecycle: `Running` → `Draining` → `Terminated`, never
//! backward.
//!
//! The controller around the aggregator guarantees the one-shot terminal
//! snapshot: leaving `Running` is atomic with rendering the final summary,
//! so exactly one terminal summary is ever produced, however often the
//! timer signal is delivered, and no ingestion is accepted afterwards.

use crate::stats::{render_spec, wire_ingest_spec, wire_rate_spec, Stats, WireIngestOutcome};
use crate::store::{
    as_map, peer_or_empty, ping_step, pinged, rate_of, rate_step, rated, IngestError, PeerView,
};
use vstd::prelude::*;

verus! {

/// The lifecycle phase of the node.
#[derive(Clone, Copy, PartialEq, Eq, Structural, Debug)]
pub enum LifecycleState {
    /// Ingesting and answering summary requests.
    Running,
    /// The time-to-live elapsed and the terminal summary was rendered; its
    /// persistence is pending.
    Draining,
    /// The terminal summary was handed off; nothing mutates any more.
    Terminated,
}

/// An event the lifecycle controller reacts to.
#[derive(Clone, Copy, PartialEq, Eq, Structural, Debug)]
pub enum LifecycleEvent {
    /// A measurement arrived (from the network or the synthetic timer).
    Ingest,
    /// An operator asked for the current summary.
    StatsRequested,
    /// The node's time-to-live elapsed.
    TtlExpired,
    /// The single persistence attempt of the terminal summary finished
    /// (successfully or reported).
    PersistHandled,
}

/// How far along the one-way lifecycle a state is.
pub open spec fn state_rank(s: LifecycleState) -> nat {
    match s {
        LifecycleState::Running => 0,
        LifecycleState::Draining => 1,
        LifecycleState::Terminated => 2,
    }
}

/// The lifecycle transition function: the time-to-live moves `Running` to
/// `Draining`, completed persistence moves `Draining` to `Terminated`, and
/// every other combination changes nothing.
pub open spec fn lifecycle_next(s: LifecycleState, e: LifecycleEvent) -> LifecycleState {
    match (s, e) {
        (LifecycleState::Running, LifecycleEvent::TtlExpired) => LifecycleState::Draining,
        (LifecycleState::Draining, LifecycleEvent::PersistHandled) => LifecycleState::Terminated,
        _ => s,
    }
}

/// Whether handling `e` in state `s` emits the terminal snapshot.
pub open spec fn emits_terminal_snapshot(s: LifecycleState, e: LifecycleEvent) -> bool {
    s == LifecycleState::Running && e == LifecycleEvent::TtlExpired
}

/// How many terminal snapshots are emitted when the events of `es` are
/// handled in order, starting from state `s`.
pub open spec fn terminal_snapshot_count(s: LifecycleState, es: Seq<LifecycleEvent>) -> nat
    decreases es.len(),
{
    if es.len() == 0 {
        0
    } else {
        (if emits_terminal_snapshot(s, es.first()) {
            1nat
        } else {
            0nat
        }) + terminal_snapshot_count(lifecycle_next(s, es.first()), es.drop_first())
    }
}

/// No transition moves the lifecycle backward; in particular nothing ever
/// returns to `Running`.
pub proof fn lemma_lifecycle_monotone(s: LifecycleState, e: LifecycleEvent)
    ensures
        state_rank(lifecycle_next(s, e)) >= state_rank(s),
        s != LifecycleState::Running ==> lifecycle_next(s, e) != LifecycleState::Running,
{
}

/// However many times the timer signal is delivered, and whatever else
/// happens in between, the terminal snapshot is emitted at most once; a node
/// that already left `Running` never emits one.
pub proof fn lemma_terminal_snapshot_at_most_once(s: LifecycleState, es: Seq<LifecycleEvent>)
    ensures
        terminal_snapshot_count(s, es) <= 1,
        s != LifecycleState::Running ==> terminal_snapshot_count(s, es) == 0,
    decreases es.len(),
{
    if es.len() > 0 {
        lemma_terminal_snapshot_at_most_once(lifecycle_next(s, es.first()), es.drop_first());
    }
}

/// A running node whose time-to-live fires at least once emits the terminal
/// snapshot exactly once.
pub proof fn lemma_terminal_snapshot_exactly_once(s: LifecycleState, es: Seq<LifecycleEvent>)
    requires
        s == LifecycleState::Running,
        es.contains(LifecycleEvent::TtlExpired),
    ensures
        terminal_snapshot_count(s, es) == 1,
    decreases es.len(),
{
    if es.first() == LifecycleEvent::TtlExpired {
        lemma_terminal_snapshot_at_most_once(lifecycle_next(s, es.first()), es.drop_first());
    } else {
        assert(es.drop_first().contains(LifecycleEvent::TtlExpired)) by {
            let i = choose|i: int| 0 <= i < es.len() && es[i] == LifecycleEvent::TtlExpired;
            assert(es.drop_first()[i - 1] == LifecycleEvent::TtlExpired);
        }
        lemma_terminal_snapshot_exactly_once(s, es.drop_first());
    }
}

/// The lifecycle controller around one aggregator.
pub struct Node {
    stats: Stats,
    state: LifecycleState,
}

impl Node {
    pub closed spec fn spec_state(&self) -> LifecycleState {
        self.state
    }

    /// The aggregator's store contents.
    pub closed spec fn spec_stats(&self) -> Seq<(Seq<char>, PeerView)> {
        self.stats@
    }

    pub closed spec fn spec_name(&self) -> Seq<char> {
        self.stats.spec_name()
    }

    pub closed spec fn spec_window_size(&self) -> nat {
        self.stats.spec_window_size()
    }

    pub closed spec fn well_formed(&self) -> bool {
        self.stats.well_formed()
    }

    /// A freshly started node: running, with no observations.
    pub fn new(window_size: usize, node_name: String) -> (n: Node)
        ensures
            n.well_formed(),
            n.spec_state() == LifecycleState::Running,
            n.spec_stats() =~= Seq::<(Seq<char>, PeerView)>::empty(),
            n.spec_name() == node_name@,
            n.spec_window_size() == window_size,
    {
        Node { stats: Stats::new(window_size, node_name), state: LifecycleState::Running }
    }

    pub fn state(&self) -> (s: LifecycleState)
        ensures
            s == self.spec_state(),
    {
        self.state
    }

    /// Records a ping round trip, but only while the node is running: once
    /// the terminal snapshot has been taken, no window mutation can be
    /// observed any more, so the event is dropped and `false` returned.
    pub fn ingest_ping(&mut self, peer_id: String, rtt_nanos: u64) -> (accepted: bool)
        requires
            old(self).well_formed(),
        ensures
            final(self).well_formed(),
            final(self).spec_state() == old(self).spec_state(),
            final(self).spec_name() == old(self).spec_name(),
            final(self).spec_window_size() == old(self).spec_window_size(),
            accepted <==> old(self).spec_state() == LifecycleState::Running,
            accepted ==> final(self).spec_stats() =~= ping_step(
                old(self).spec_stats(),
                peer_id@,
                rtt_nanos,
                old(self).spec_window_size(),
            ),
            accepted ==> as_map(final(self).spec_stats()) =~= as_map(
                old(self).spec_stats(),
            ).insert(
                peer_id@,
                pinged(
                    peer_or_empty(old(self).spec_stats(), peer_id@),
                    rtt_nanos,
                    old(self).spec_window_size(),
                ),
            ),
            !accepted ==> final(self).spec_stats() == old(self).spec_stats(),
    {
        match self.state {
            LifecycleState::Running => {
                self.stats.add_ping(peer_id, rtt_nanos);
                true
            },
            _ => false,
        }
    }

    /// Records a transmission, but only while the node is running. A zero
    /// `byte_count` is reported and recorded nowhere; an event arriving
    /// after the node left `Running` is dropped with `Ok(false)`.
    pub fn ingest_transmission(
        &mut self,
        peer_id: String,
        elapsed_nanos: u64,
        byte_count: u32,
    ) -> (r: Result<bool, IngestError>)
        requires
            old(self).well_formed(),
        ensures
            final(self).well_formed(),
            final(self).spec_state() == old(self).spec_state(),
            final(self).spec_name() == old(self).spec_name(),
            final(self).spec_window_size() == old(self).spec_window_size(),
            old(self).spec_state() != LifecycleState::Running ==> r == Ok::<bool, IngestError>(
                false,
            ) && final(self).spec_stats() == old(self).spec_stats(),
            old(self).spec_state() == LifecycleState::Running && byte_count == 0 ==> r == Err::<
                bool,
                IngestError,
            >(IngestError::ZeroByteCount) && final(self).spec_stats() == old(self).spec_stats(),
            old(self).spec_state() == LifecycleState::Running && byte_count != 0 ==> r == Ok::<
                bool,
                IngestError,
            >(true) && final(self).spec_stats() =~= rate_step(
                old(self).spec_stats(),
                peer_id@,
                rate_of(elapsed_nanos, byte_count),
                old(self).spec_window_size(),
            ) && as_map(final(self).spec_stats()) =~= as_map(old(self).spec_stats()).insert(
                peer_id@,
                rated(
                    peer_or_empty(old(self).spec_stats(), peer_id@),
                    rate_of(elapsed_nanos, byte_count),
                    old(self).spec_window_size(),
                ),
            ),
    {
        match self.state {
            LifecycleState::Running => {
                match self.stats.add_transmission(peer_id, elapsed_nanos, byte_count) {
                    Ok(()) => Ok(true),
                    Err(e) => Err(e),
                }
            },
            _ => Ok(false),
        }
    }

    /// Ingests one received wire message whole (see
    /// `Stats::ingest_wire_transmission`), but only while the node is
    /// running: afterwards the event is dropped untouched and `None`
    /// returned.
    pub fn ingest_wire_transmission(&mut self, peer_id: String, wire: &[u8], now_millis: u128) -> (r:
        Option<WireIngestOutcome>)
        requires
            old(self).well_formed(),
        ensures
            final(self).well_formed(),
            final(self).spec_state() == old(self).spec_state(),
            final(self).spec_name() == old(self).spec_name(),
            final(self).spec_window_size() == old(self).spec_window_size(),
            r is Some <==> old(self).spec_state() == LifecycleState::Running,
            r matches Some(outcome) ==> outcome == wire_ingest_spec(wire@, now_millis),
            r == Some(WireIngestOutcome::Recorded) ==> final(self).spec_stats() =~= rate_step(
                old(self).spec_stats(),
                peer_id@,
                wire_rate_spec(wire@, now_millis),
                old(self).spec_window_size(),
            ),
            r != Some(WireIngestOutcome::Recorded) ==> final(self).spec_stats() == old(
                self,
            ).spec_stats(),
    {
        match self.state {
            LifecycleState::Running => Some(
                self.stats.ingest_wire_transmission(peer_id, wire, now_millis),
            ),
            _ => None,
        }
    }

    /// The interactive summary: renders the current state without altering
    /// the lifecycle; may be called arbitrarily often, in any state.
    pub fn handle_stats_request(&self) -> (s: String)
        ensures
            s@ == render_spec(self.spec_name(), self.spec_stats()),
    {
        self.stats.render()
    }

    /// The time-to-live fired. Leaving `Running` is atomic with rendering
    /// the terminal summary: the first call returns it, every later call
    /// returns `None`, and the store can no longer change, so the returned
    /// text reflects exactly the ingestion events accepted before this
    /// instant.
    pub fn fire_ttl(&mut self) -> (snapshot: Option<String>)
        requires
            old(self).well_formed(),
        ensures
            final(self).well_formed(),
            final(self).spec_stats() == old(self).spec_stats(),
            final(self).spec_name() == old(self).spec_name(),
            final(self).spec_window_size() == old(self).spec_window_size(),
            final(self).spec_state() == lifecycle_next(
                old(self).spec_state(),
                LifecycleEvent::TtlExpired,
            ),
            snapshot is Some <==> emits_terminal_snapshot(
                old(self).spec_state(),
                LifecycleEvent::TtlExpired,
            ),
            snapshot matches Some(text) ==> text@ == render_spec(
                old(self).spec_name(),
                old(self).spec_stats(),
            ),
    {
        match self.state {
            LifecycleState::Running => {
                let text = self.stats.render();
                self.state = LifecycleState::Draining;
                Some(text)
            },
            _ => None,
        }
    }

    /// The single persistence attempt of the terminal summary finished
    /// (whether it succeeded or its failure was reported): the node is
    /// terminated.
    pub fn persist_handled(&mut self)
        requires
            old(self).well_formed(),
        ensures
            final(self).well_formed(),
            final(self).spec_stats() == old(self).spec_stats(),
            final(self).spec_name() == old(self).spec_name(),
            final(self).spec_window_size() == old(self).spec_window_size(),
            final(self).spec_state() == lifecycle_next(
                old(self).spec_state(),
                LifecycleEvent::PersistHandled,
            ),
    {
        match self.state {
            LifecycleState::Draining => {
                self.state = LifecycleState::Terminated;
            },
            _ => {},
        }
    }
}

} // verus!

//! The telemetry engine: a registry of nodes and directed per-class edges
//! that is fed register, unregister and data packets and renders analytics
//! and topology snapshots on demand.
//!
//! Monotonic times are microseconds since the engine was created; the
//! caller supplies them. Wall-clock times are microseconds since the Unix
//! epoch.

use vstd::prelude::*;
use std::collections::hash_map::DefaultHasher;
use std::hash::Hasher;
use crate::protocol::{
    ids_equal, now_timestamp_us, AckPacket, DataPacket, EdgeId, NodeDomain, NodeId, PeerAddr,
    RegisterNodePacket, TrafficClass, UnregisterNodePacket,
};
use crate::snapshot::{
    AnalyticsSnapshot, ClassStats, ClientStats, EdgeSnapshot, GlobalStats, NodeSnapshot, Ratio,
    RouteStats, TopologySnapshot,
};
use crate::tracker::{
    abs_diff, latency_metrics_from_stats, loss_metrics_from_trackers, tracker_views, LatencyStats,
    LossEvent, RateCalculator, RateCalculatorView, SequenceTracker, MICROS_PER_SECOND,
};
use crate::engine_model::{
    activity_ttl_us, bumped, edge_id_of, edges_avoiding, ewma, fresh_edges, inferred_domain,
    key_writes, placeholder_desc, route_slot, salt_bytes, sample_ns, stale, stale_edge_ids,
    stale_node_ids, sum4, touching_ids, EdgeKey, EdgeView, EngineView, NodeView, ACTIVITY_WINDOWS,
    NANOS_PER_MICRO,
};
use crate::engine_laws::{
    lemma_after_topology, lemma_counted, lemma_drop_stale_edges, lemma_edge_at, lemma_ensure_node,
    lemma_ingest, lemma_node_at, lemma_remove_node, lemma_with_edge, lemma_with_endpoints,
    lemma_with_source,
};

verus! {

// ---------------------------------------------------------------------------
// Plain rules
// ---------------------------------------------------------------------------

/// Domain of a node known only by its id.
pub fn infer_domain(node_id: NodeId) -> (domain: NodeDomain)
    ensures
        domain == inferred_domain(node_id),
{
    if node_id[0] == 112 && node_id[1] == 101 && node_id[2] == 101 && node_id[3] == 114
        && node_id[4] == 101 {
        NodeDomain::External
    } else {
        NodeDomain::Internal
    }
}

/// Description of a node created as the target of a data packet.
pub fn domain_desc(domain: NodeDomain) -> (desc: [u8; 16])
    ensures
        desc == placeholder_desc(domain),
{
    let desc: [u8; 16] = match domain {
        NodeDomain::Internal => [
            105u8, 110u8, 116u8, 101u8, 114u8, 110u8, 97u8, 108u8,
            45u8, 110u8, 111u8, 100u8, 101u8, 45u8, 45u8, 45u8,
        ],
        NodeDomain::External => [
            101u8, 120u8, 116u8, 101u8, 114u8, 110u8, 97u8, 108u8,
            45u8, 110u8, 111u8, 100u8, 101u8, 45u8, 45u8, 45u8,
        ],
    };
    assert(desc =~= placeholder_desc(domain));
    desc
}

/// Slot of the route from a node of `src_domain` to one of `dst_domain`.
pub fn route_index(src_domain: NodeDomain, dst_domain: NodeDomain) -> (slot: usize)
    ensures
        slot == route_slot(src_domain, dst_domain),
        slot < 4,
{
    match (src_domain, dst_domain) {
        (NodeDomain::Internal, NodeDomain::Internal) => 0,
        (NodeDomain::Internal, NodeDomain::External) => 1,
        (NodeDomain::External, NodeDomain::Internal) => 2,
        (NodeDomain::External, NodeDomain::External) => 3,
    }
}

fn bump(counts: &mut [u64; 4], slot: usize, by: u64)
    requires
        slot < 4,
    ensures
        *final(counts) == bumped(*old(counts), slot as int, by),
{
    counts[slot] = counts[slot].saturating_add(by);
    assert(*counts =~= bumped(*old(counts), slot as int, by));
}

fn sum_counts(counts: &[u64; 4]) -> (total: u64)
    ensures
        total == sum4(*counts),
{
    counts[0].saturating_add(counts[1]).saturating_add(counts[2]).saturating_add(counts[3])
}

fn byte_of(value: u64, shift: u64) -> (byte: u8)
    requires
        shift < 64,
    ensures
        byte == ((value >> shift) & 0xff) as u8,
{
    ((value >> shift) & 0xff) as u8
}

/// The stable id of the edge with key `key`.
pub fn edge_id_from_key(key: EdgeKey) -> (id: EdgeId)
    ensures
        id == edge_id_of(key),
{
    let class_byte: [u8; 1] = [key.class.index() as u8];
    let salt: [u8; 8] = [0x15u8, 0x7Cu8, 0x4Au8, 0x7Fu8, 0xB9u8, 0x79u8, 0x37u8, 0x9Eu8];

    let mut first = DefaultHasher::new();
    first.write(key.src_node_id.as_slice());
    first.write(key.dst_node_id.as_slice());
    first.write(class_byte.as_slice());
    let first_hash = first.finish();

    let mut second = DefaultHasher::new();
    second.write(salt.as_slice());
    second.write(key.src_node_id.as_slice());
    second.write(key.dst_node_id.as_slice());
    second.write(class_byte.as_slice());
    let second_hash = second.finish();

    proof {
        assert(class_byte@ =~= seq![key.class.ordinal() as u8]);
        assert(salt@ =~= salt_bytes());
        assert(first@ =~= key_writes(key));
        assert(second@ =~= seq![salt_bytes()] + key_writes(key));
    }
    let id: EdgeId = [
        byte_of(first_hash, 56), byte_of(first_hash, 48), byte_of(first_hash, 40),
        byte_of(first_hash, 32), byte_of(first_hash, 24), byte_of(first_hash, 16),
        byte_of(first_hash, 8), byte_of(first_hash, 0),
        byte_of(second_hash, 56), byte_of(second_hash, 48), byte_of(second_hash, 40),
        byte_of(second_hash, 32), byte_of(second_hash, 24), byte_of(second_hash, 16),
        byte_of(second_hash, 8), byte_of(second_hash, 0),
    ];
    assert(id =~= edge_id_of(key));
    id
}

fn to_nanos(sample_us: u64) -> (nanos: u64)
    ensures
        nanos == sample_ns(sample_us),
{
    if sample_us > u64::MAX / NANOS_PER_MICRO {
        u64::MAX
    } else {
        sample_us * NANOS_PER_MICRO
    }
}

fn smooth(average: u64, sample: u64) -> (next: u64)
    ensures
        next == ewma(average, sample),
{
    if average == 0 {
        sample
    } else {
        ((sample as u128 + 4 * (average as u128)) / 5) as u64
    }
}

// ---------------------------------------------------------------------------
// Nodes
// ---------------------------------------------------------------------------

struct NodeState {
    node_id: NodeId,
    desc: [u8; 16],
    domain: NodeDomain,
    addr: PeerAddr,
    first_seen: u64,
    last_seen: u64,
    seq_trackers: [SequenceTracker; 4],
    packets_by_class: [u64; 4],
    bytes_by_class: [u64; 4],
    route_packets: [u64; 4],
    route_bytes: [u64; 4],
    latency_stats: LatencyStats,
    rate_calculators: [RateCalculator; 4],
}

spec fn rate_views(calculators: [RateCalculator; 4]) -> Seq<RateCalculatorView> {
    Seq::new(4, |i: int| calculators[i]@)
}

impl View for NodeState {
    type V = NodeView;

    closed spec fn view(&self) -> NodeView {
        NodeView {
            node_id: self.node_id,
            desc: self.desc,
            domain: self.domain,
            addr: self.addr,
            first_seen: self.first_seen,
            last_seen: self.last_seen,
            seq_trackers: tracker_views(self.seq_trackers),
            packets_by_class: self.packets_by_class,
            bytes_by_class: self.bytes_by_class,
            route_packets: self.route_packets,
            route_bytes: self.route_bytes,
            latency: self.latency_stats@,
            rates: rate_views(self.rate_calculators),
        }
    }
}

impl NodeState {
    fn new(
        node_id: NodeId,
        desc: [u8; 16],
        domain: NodeDomain,
        addr: PeerAddr,
        now: u64,
        window_secs: u32,
    ) -> (node: NodeState)
        ensures
            node@ == NodeView::fresh(node_id, desc, domain, addr, now, window_secs),
    {
        let node = NodeState {
            node_id,
            desc,
            domain,
            addr,
            first_seen: now,
            last_seen: now,
            seq_trackers: [
                SequenceTracker::new(),
                SequenceTracker::new(),
                SequenceTracker::new(),
                SequenceTracker::new(),
            ],
            packets_by_class: [0; 4],
            bytes_by_class: [0; 4],
            route_packets: [0; 4],
            route_bytes: [0; 4],
            latency_stats: LatencyStats::new(),
            rate_calculators: [
                RateCalculator::new(window_secs),
                RateCalculator::new(window_secs),
                RateCalculator::new(window_secs),
                RateCalculator::new(window_secs),
            ],
        };
        proof {
            let fresh = NodeView::fresh(node_id, desc, domain, addr, now, window_secs);
            assert(node@.seq_trackers =~= fresh.seq_trackers);
            assert(node@.rates =~= fresh.rates);
            assert(node.packets_by_class =~= fresh.packets_by_class);
            assert(node.bytes_by_class =~= fresh.bytes_by_class);
            assert(node.route_packets =~= fresh.route_packets);
            assert(node.route_bytes =~= fresh.route_bytes);
        }
        node
    }

    /// Accounts for a packet this node sent over the route in slot `route`.
    fn record_sent(&mut self, packet: &DataPacket, addr: PeerAddr, now: u64, route: usize)
        requires
            route < 4,
        ensures
            final(self)@ == old(self)@.sent(*packet, addr, now, route as int),
    {
        let class = packet.class.index();
        let bytes = packet.declared_bytes as u64;
        self.last_seen = now;
        self.addr = addr;
        self.desc = packet.desc;
        bump(&mut self.packets_by_class, class, 1);
        bump(&mut self.bytes_by_class, class, bytes);
        bump(&mut self.route_packets, route, 1);
        bump(&mut self.route_bytes, route, bytes);
        let _ = self.seq_trackers[class].process_sequence(packet.class_seq, now);
        self.rate_calculators[class].record_packet(now, packet.declared_bytes);
        proof {
            let expected = old(self)@.sent(*packet, addr, now, route as int);
            assert(self@.seq_trackers =~= expected.seq_trackers);
            assert(self@.rates =~= expected.rates);
        }
    }

    /// Packet and byte rates at `now`, all classes together.
    fn total_rate(&self, now: u64) -> (rate: (Ratio, Ratio))
        ensures
            rate.0 == self@.total_pps(now),
            rate.1 == self@.total_bps(now),
    {
        let r0 = self.rate_calculators[0].calculate_rate(now);
        let r1 = self.rate_calculators[1].calculate_rate(now);
        let r2 = self.rate_calculators[2].calculate_rate(now);
        let r3 = self.rate_calculators[3].calculate_rate(now);
        (
            Ratio {
                numerator: r0.0.numerator.saturating_add(r1.0.numerator).saturating_add(
                    r2.0.numerator,
                ).saturating_add(r3.0.numerator),
                denominator: r0.0.denominator,
            },
            Ratio {
                numerator: r0.1.numerator.saturating_add(r1.1.numerator).saturating_add(
                    r2.1.numerator,
                ).saturating_add(r3.1.numerator),
                denominator: r0.1.denominator,
            },
        )
    }

    fn snapshot(&self, now: u64, activity_ttl: u64) -> (shot: NodeSnapshot)
        ensures
            shot == self@.snapshot(now, activity_ttl),
    {
        let rate = self.total_rate(now);
        NodeSnapshot {
            node_id: self.node_id,
            desc: self.desc,
            domain: self.domain,
            first_seen_us: self.first_seen,
            last_seen_us: self.last_seen,
            active: now.saturating_sub(self.last_seen) < activity_ttl,
            total_packets: sum_counts(&self.packets_by_class),
            total_bytes: sum_counts(&self.bytes_by_class),
            total_pps: rate.0,
            total_bps: rate.1,
            latency: latency_metrics_from_stats(&self.latency_stats),
            loss: loss_metrics_from_trackers(&self.seq_trackers),
        }
    }

    fn class_stats(&self, class: usize, now: u64) -> (stats: ClassStats)
        requires
            class < 4,
        ensures
            stats == self@.class_stats(class as int, now),
    {
        let rate = self.rate_calculators[class].calculate_rate(now);
        ClassStats {
            packets: self.packets_by_class[class],
            bytes: self.bytes_by_class[class],
            packets_per_second: rate.0,
            bytes_per_second: rate.1,
        }
    }

    fn route_stats(&self, route: usize) -> (stats: RouteStats)
        requires
            route < 4,
        ensures
            stats == self@.route_stats(route as int),
    {
        RouteStats { packets: self.route_packets[route], bytes: self.route_bytes[route] }
    }

    fn client_stats(&self, now: u64) -> (stats: ClientStats)
        ensures
            stats == self@.client_stats(now),
    {
        let stats = ClientStats {
            node_id: self.node_id,
            desc: self.desc,
            addr: self.addr,
            first_seen_us: self.first_seen,
            last_seen_us: self.last_seen,
            session_duration_us: self.last_seen.saturating_sub(self.first_seen),
            class_stats: [
                self.class_stats(0, now),
                self.class_stats(1, now),
                self.class_stats(2, now),
                self.class_stats(3, now),
            ],
            latency: latency_metrics_from_stats(&self.latency_stats),
            loss: loss_metrics_from_trackers(&self.seq_trackers),
            route_stats: [
                self.route_stats(0),
                self.route_stats(1),
                self.route_stats(2),
                self.route_stats(3),
            ],
        };
        proof {
            let expected = self@.client_stats(now);
            assert(stats.class_stats =~= expected.class_stats);
            assert(stats.route_stats =~= expected.route_stats);
        }
        stats
    }
}

// ---------------------------------------------------------------------------
// Edges
// ---------------------------------------------------------------------------

struct EdgeState {
    edge_id: EdgeId,
    src_node_id: NodeId,
    dst_node_id: NodeId,
    class: TrafficClass,
    last_seen: u64,
    packets: u64,
    bytes: u64,
    rate_calculator: RateCalculator,
    seq_tracker: SequenceTracker,
    prev_packets_per_second: Ratio,
    prev_bytes_per_second: Ratio,
    latency_ewma_ns: u64,
    jitter_ewma_ns: u64,
    latency_delta_ns: i128,
    last_latency_sample_ns: Option<u64>,
    window_packets: u64,
    window_missing: u64,
}

impl View for EdgeState {
    type V = EdgeView;

    closed spec fn view(&self) -> EdgeView {
        EdgeView {
            edge_id: self.edge_id,
            src_node_id: self.src_node_id,
            dst_node_id: self.dst_node_id,
            class: self.class,
            last_seen: self.last_seen,
            packets: self.packets,
            bytes: self.bytes,
            rate: self.rate_calculator@,
            seq: self.seq_tracker@,
            prev_packets_per_second: self.prev_packets_per_second,
            prev_bytes_per_second: self.prev_bytes_per_second,
            latency_ewma_ns: self.latency_ewma_ns,
            jitter_ewma_ns: self.jitter_ewma_ns,
            latency_delta_ns: self.latency_delta_ns,
            last_latency_sample_ns: self.last_latency_sample_ns,
            window_packets: self.window_packets,
            window_missing: self.window_missing,
        }
    }
}

impl EdgeState {
    fn new(key: EdgeKey, now: u64, window_secs: u32) -> (edge: EdgeState)
        ensures
            edge@ == EdgeView::fresh(key, now, window_secs),
    {
        EdgeState {
            edge_id: edge_id_from_key(key),
            src_node_id: key.src_node_id,
            dst_node_id: key.dst_node_id,
            class: key.class,
            last_seen: now,
            packets: 0,
            bytes: 0,
            rate_calculator: RateCalculator::new(window_secs),
            seq_tracker: SequenceTracker::new(),
            prev_packets_per_second: Ratio { numerator: 0, denominator: window_secs as u64 },
            prev_bytes_per_second: Ratio { numerator: 0, denominator: window_secs as u64 },
            latency_ewma_ns: 0,
            jitter_ewma_ns: 0,
            latency_delta_ns: 0,
            last_latency_sample_ns: None,
            window_packets: 0,
            window_missing: 0,
        }
    }

    fn matches(&self, key: &EdgeKey) -> (same: bool)
        ensures
            same == (self@.key() == *key),
    {
        ids_equal(&self.src_node_id, &key.src_node_id) && ids_equal(
            &self.dst_node_id,
            &key.dst_node_id,
        ) && self.class == key.class
    }

    fn touches(&self, id: &NodeId) -> (touching: bool)
        ensures
            touching == self@.key().touches(*id),
    {
        ids_equal(&self.src_node_id, id) || ids_equal(&self.dst_node_id, id)
    }

    /// Accounts for a packet that travelled over this edge.
    fn record_hit(&mut self, packet: &DataPacket, now: u64)
        ensures
            final(self)@ == old(self)@.hit(*packet, now),
    {
        self.last_seen = now;
        self.packets = self.packets.saturating_add(1);
        self.bytes = self.bytes.saturating_add(packet.declared_bytes as u64);
        self.window_packets = self.window_packets.saturating_add(1);
        self.rate_calculator.record_packet(now, packet.declared_bytes);
        let event = self.seq_tracker.process_sequence(packet.class_seq, now);
        if let LossEvent::Loss { count } = event {
            self.window_missing = self.window_missing.saturating_add(count);
        }
    }

    /// Feeds one latency sample into the smoothed latency and jitter.
    fn update_latency(&mut self, latency_us: u64)
        ensures
            final(self)@ == old(self)@.sampled(latency_us),
    {
        let sample = to_nanos(latency_us);
        self.latency_ewma_ns = smooth(self.latency_ewma_ns, sample);
        if let Some(previous) = self.last_latency_sample_ns {
            let jitter_sample = abs_diff(sample, previous);
            self.jitter_ewma_ns = smooth(self.jitter_ewma_ns, jitter_sample);
        }
        self.latency_delta_ns = sample as i128 - self.latency_ewma_ns as i128;
        self.last_latency_sample_ns = Some(sample);
    }

    /// Renders the edge for a topology snapshot taken at `now` and starts
    /// its next reporting window.
    fn report(&mut self, now: u64, activity_ttl: u64) -> (shot: EdgeSnapshot)
        ensures
            shot == old(self)@.snapshot(now, activity_ttl),
            final(self)@ == old(self)@.reported(now),
    {
        let rate = self.rate_calculator.calculate_rate(now);
        let delta_pps = rate.0.difference(self.prev_packets_per_second);
        let delta_bps = rate.1.difference(self.prev_bytes_per_second);
        self.prev_packets_per_second = rate.0;
        self.prev_bytes_per_second = rate.1;
        let loss_rate_window = if self.window_packets == 0 {
            Ratio { numerator: 0, denominator: 1 }
        } else {
            Ratio { numerator: self.window_missing, denominator: self.window_packets }
        };
        self.window_packets = 0;
        self.window_missing = 0;
        EdgeSnapshot {
            edge_id: self.edge_id,
            src_node_id: self.src_node_id,
            dst_node_id: self.dst_node_id,
            class: self.class,
            packets: self.packets,
            bytes: self.bytes,
            packets_per_second: rate.0,
            bytes_per_second: rate.1,
            delta_packets_per_second: delta_pps,
            delta_bytes_per_second: delta_bps,
            latency_ewma_ns: self.latency_ewma_ns,
            latency_delta_ns: self.latency_delta_ns,
            jitter_ewma_ns: self.jitter_ewma_ns,
            loss_rate_window,
            active: now.saturating_sub(self.last_seen) < activity_ttl,
        }
    }
}

// ---------------------------------------------------------------------------
// Lists of nodes and edges
// ---------------------------------------------------------------------------

spec fn node_views(nodes: Seq<NodeState>) -> Seq<NodeView> {
    Seq::new(nodes.len(), |i: int| nodes[i]@)
}

spec fn edge_views(edges: Seq<EdgeState>) -> Seq<EdgeView> {
    Seq::new(edges.len(), |i: int| edges[i]@)
}

fn find_node(nodes: &Vec<NodeState>, id: &NodeId) -> (found: Option<usize>)
    ensures
        match found {
            Some(i) => i < nodes.len() && nodes[i as int]@.node_id == *id,
            None => forall|k: int| 0 <= k < nodes.len() ==> (#[trigger] nodes[k])@.node_id != *id,
        },
{
    let mut i: usize = 0;
    while i < nodes.len()
        invariant
            i <= nodes.len(),
            forall|k: int| 0 <= k < i ==> (#[trigger] nodes[k])@.node_id != *id,
        decreases nodes.len() - i,
    {
        if ids_equal(&nodes[i].node_id, id) {
            return Some(i);
        }
        i += 1;
    }
    None
}

fn find_edge(edges: &Vec<EdgeState>, key: &EdgeKey) -> (found: Option<usize>)
    ensures
        match found {
            Some(i) => i < edges.len() && edges[i as int]@.key() == *key,
            None => forall|k: int| 0 <= k < edges.len() ==> (#[trigger] edges[k])@.key() != *key,
        },
{
    let mut i: usize = 0;
    while i < edges.len()
        invariant
            i <= edges.len(),
            forall|k: int| 0 <= k < i ==> (#[trigger] edges[k])@.key() != *key,
        decreases edges.len() - i,
    {
        if edges[i].matches(key) {
            return Some(i);
        }
        i += 1;
    }
    None
}

fn contains_id(ids: &Vec<EdgeId>, id: &EdgeId) -> (found: bool)
    ensures
        found == ids@.contains(*id),
{
    let mut i: usize = 0;
    while i < ids.len()
        invariant
            i <= ids.len(),
            forall|k: int| 0 <= k < i ==> ids[k] != *id,
        decreases ids.len() - i,
    {
        if ids_equal(&ids[i], id) {
            return true;
        }
        i += 1;
    }
    false
}

/// Removes the edges that touch node `id` and returns their ids, each once.
fn remove_touching(edges: &mut Vec<EdgeState>, id: &NodeId) -> (removed: Vec<EdgeId>)
    ensures
        edge_views(final(edges)@) == edges_avoiding(edge_views(old(edges)@), *id),
        removed@ == touching_ids(edge_views(old(edges)@), *id),
{
    let ghost original = edge_views(edges@);
    let mut removed: Vec<EdgeId> = Vec::new();
    let mut kept: usize = 0;
    let ghost mut seen: int = 0;
    while kept < edges.len()
        invariant
            0 <= seen <= original.len(),
            kept <= edges.len(),
            edges.len() - kept == original.len() - seen,
            edge_views(edges@).take(kept as int) =~= edges_avoiding(original.take(seen), *id),
            forall|k: int|
                kept <= k < edges.len() ==> (#[trigger] edge_views(edges@)[k]) == original[k - kept
                    + seen],
            removed@ =~= touching_ids(original.take(seen), *id),
        decreases original.len() - seen,
    {
        let ghost current = edge_views(edges@);
        let leaving = edges[kept].touches(id);
        proof {
            assert(original.take(seen + 1).drop_last() =~= original.take(seen));
            assert(current[kept as int] == original[seen]);
        }
        if leaving {
            let gone = edges.remove(kept);
            if !contains_id(&removed, &gone.edge_id) {
                removed.push(gone.edge_id);
            }
            proof {
                let after = edge_views(edges@);
                assert(after.take(kept as int) =~= current.take(kept as int));
                assert forall|k: int| kept <= k < after.len() implies (#[trigger] after[k])
                    == original[k - kept + seen + 1] by {
                    assert(after[k] == current[k + 1]);
                }
            }
        } else {
            proof {
                assert(current.take(kept + 1) =~= current.take(kept as int).push(current[kept as int]));
            }
            kept += 1;
        }
        proof {
            seen = seen + 1;
        }
    }
    proof {
        assert(original.take(seen) =~= original);
        assert(edge_views(edges@).take(kept as int) =~= edge_views(edges@));
    }
    removed
}

/// Removes the edges that are stale at `now` and returns their ids.
fn remove_stale(edges: &mut Vec<EdgeState>, now: u64, ttl: u64) -> (removed: Vec<EdgeId>)
    ensures
        edge_views(final(edges)@) == fresh_edges(edge_views(old(edges)@), now, ttl),
        removed@ == stale_edge_ids(edge_views(old(edges)@), now, ttl),
{
    let ghost original = edge_views(edges@);
    let mut removed: Vec<EdgeId> = Vec::new();
    let mut kept: usize = 0;
    let ghost mut seen: int = 0;
    while kept < edges.len()
        invariant
            0 <= seen <= original.len(),
            kept <= edges.len(),
            edges.len() - kept == original.len() - seen,
            edge_views(edges@).take(kept as int) =~= fresh_edges(original.take(seen), now, ttl),
            forall|k: int|
                kept <= k < edges.len() ==> (#[trigger] edge_views(edges@)[k]) == original[k - kept
                    + seen],
            removed@ =~= stale_edge_ids(original.take(seen), now, ttl),
        decreases original.len() - seen,
    {
        let ghost current = edge_views(edges@);
        let leaving = now.saturating_sub(edges[kept].last_seen) >= ttl;
        proof {
            assert(original.take(seen + 1).drop_last() =~= original.take(seen));
            assert(current[kept as int] == original[seen]);
        }
        if leaving {
            let gone = edges.remove(kept);
            removed.push(gone.edge_id);
            proof {
                let after = edge_views(edges@);
                assert(after.take(kept as int) =~= current.take(kept as int));
                assert forall|k: int| kept <= k < after.len() implies (#[trigger] after[k])
                    == original[k - kept + seen + 1] by {
                    assert(after[k] == current[k + 1]);
                }
            }
        } else {
            proof {
                assert(current.take(kept + 1) =~= current.take(kept as int).push(current[kept as int]));
            }
            kept += 1;
        }
        proof {
            seen = seen + 1;
        }
    }
    proof {
        assert(original.take(seen) =~= original);
        assert(edge_views(edges@).take(kept as int) =~= edge_views(edges@));
    }
    removed
}

/// Ids of the nodes that are stale at `now`, in order.
fn collect_stale(nodes: &Vec<NodeState>, now: u64, ttl: u64) -> (ids: Vec<NodeId>)
    ensures
        ids@ == stale_node_ids(node_views(nodes@), now, ttl),
{
    let ghost views = node_views(nodes@);
    let mut ids: Vec<NodeId> = Vec::new();
    let mut i: usize = 0;
    while i < nodes.len()
        invariant
            i <= nodes.len(),
            views == node_views(nodes@),
            ids@ =~= stale_node_ids(views.take(i as int), now, ttl),
        decreases nodes.len() - i,
    {
        proof {
            assert(views.take(i + 1).drop_last() =~= views.take(i as int));
            assert(views.take(i + 1).last() == nodes[i as int]@);
        }
        if now.saturating_sub(nodes[i].last_seen) >= ttl {
            ids.push(nodes[i].node_id);
        }
        i += 1;
    }
    proof {
        assert(views.take(i as int) =~= views);
    }
    ids
}

fn snapshot_nodes(nodes: &Vec<NodeState>, now: u64, activity_ttl: u64) -> (shots: Vec<NodeSnapshot>)
    ensures
        shots@.len() == nodes.len(),
        forall|i: int|
            0 <= i < nodes.len() ==> shots[i] == (#[trigger] nodes[i])@.snapshot(now, activity_ttl),
{
    let mut shots: Vec<NodeSnapshot> = Vec::new();
    let mut i: usize = 0;
    while i < nodes.len()
        invariant
            i <= nodes.len(),
            shots@.len() == i,
            forall|k: int|
                0 <= k < i ==> shots[k] == (#[trigger] nodes[k])@.snapshot(now, activity_ttl),
        decreases nodes.len() - i,
    {
        shots.push(nodes[i].snapshot(now, activity_ttl));
        i += 1;
    }
    shots
}

fn snapshot_clients(nodes: &Vec<NodeState>, now: u64) -> (stats: Vec<ClientStats>)
    ensures
        stats@.len() == nodes.len(),
        forall|i: int| 0 <= i < nodes.len() ==> stats[i] == (#[trigger] nodes[i])@.client_stats(now),
{
    let mut stats: Vec<ClientStats> = Vec::new();
    let mut i: usize = 0;
    while i < nodes.len()
        invariant
            i <= nodes.len(),
            stats@.len() == i,
            forall|k: int| 0 <= k < i ==> stats[k] == (#[trigger] nodes[k])@.client_stats(now),
        decreases nodes.len() - i,
    {
        stats.push(nodes[i].client_stats(now));
        i += 1;
    }
    stats
}

fn report_edges(edges: &mut Vec<EdgeState>, now: u64, activity_ttl: u64) -> (shots: Vec<
    EdgeSnapshot,
>)
    ensures
        final(edges).len() == old(edges).len(),
        shots@.len() == old(edges).len(),
        forall|i: int|
            0 <= i < old(edges).len() ==> shots[i] == (#[trigger] old(edges)[i])@.snapshot(
                now,
                activity_ttl,
            ),
        forall|i: int|
            0 <= i < old(edges).len() ==> (#[trigger] final(edges)[i])@ == old(edges)[i]@.reported(
                now,
            ),
{
    let mut shots: Vec<EdgeSnapshot> = Vec::new();
    let mut i: usize = 0;
    while i < edges.len()
        invariant
            i <= edges.len(),
            edges.len() == old(edges).len(),
            shots@.len() == i,
            forall|k: int|
                0 <= k < i ==> shots[k] == (#[trigger] old(edges)[k])@.snapshot(now, activity_ttl),
            forall|k: int| 0 <= k < i ==> (#[trigger] edges[k])@ == old(edges)[k]@.reported(now),
            forall|k: int| i <= k < edges.len() ==> (#[trigger] edges[k]) == old(edges)[k],
        decreases edges.len() - i,
    {
        let shot = edges[i].report(now, activity_ttl);
        shots.push(shot);
        i += 1;
    }
    shots
}

// ---------------------------------------------------------------------------
// The engine
// ---------------------------------------------------------------------------

/// The telemetry engine. Its content is an [`EngineView`].
pub struct AnalyticsManager {
    nodes: Vec<NodeState>,
    edges: Vec<EdgeState>,
    total_packets: u64,
    total_bytes: u64,
    packets_by_class: [u64; 4],
    bytes_by_class: [u64; 4],
    route_packets: [u64; 4],
    route_bytes: [u64; 4],
    rate_window_secs: u32,
    max_nodes: usize,
    snapshot_seq: u64,
    last_topology_epoch_us: u64,
    removed_nodes_since_last_snapshot: Vec<NodeId>,
    removed_edges_since_last_snapshot: Vec<EdgeId>,
}

impl View for AnalyticsManager {
    type V = EngineView;

    closed spec fn view(&self) -> EngineView {
        EngineView {
            nodes: node_views(self.nodes@),
            edges: edge_views(self.edges@),
            total_packets: self.total_packets,
            total_bytes: self.total_bytes,
            packets_by_class: self.packets_by_class,
            bytes_by_class: self.bytes_by_class,
            route_packets: self.route_packets,
            route_bytes: self.route_bytes,
            rate_window_secs: self.rate_window_secs,
            max_nodes: self.max_nodes,
            snapshot_seq: self.snapshot_seq,
            last_topology_epoch_us: self.last_topology_epoch_us,
            removed_nodes: self.removed_nodes_since_last_snapshot@,
            removed_edges: self.removed_edges_since_last_snapshot@,
        }
    }
}

impl AnalyticsManager {
    /// An empty engine whose rates are taken over `window_secs` seconds and
    /// that holds at most `max_nodes` nodes. The wall clock is read once,
    /// as the time of the "previous" topology snapshot.
    pub fn new(window_secs: u32, max_nodes: usize) -> (engine: AnalyticsManager)
        ensures
            engine@ == EngineView::fresh(window_secs, max_nodes, engine@.last_topology_epoch_us),
            engine@.wf(),
    {
        Self::new_at(window_secs, max_nodes, now_timestamp_us())
    }

    /// An empty engine created while the wall clock reads `epoch_us`.
    pub fn new_at(window_secs: u32, max_nodes: usize, epoch_us: u64) -> (engine: AnalyticsManager)
        ensures
            engine@ == EngineView::fresh(window_secs, max_nodes, epoch_us),
            engine@.wf(),
    {
        let engine = AnalyticsManager {
            nodes: Vec::new(),
            edges: Vec::new(),
            total_packets: 0,
            total_bytes: 0,
            packets_by_class: [0; 4],
            bytes_by_class: [0; 4],
            route_packets: [0; 4],
            route_bytes: [0; 4],
            rate_window_secs: window_secs,
            max_nodes,
            snapshot_seq: 0,
            last_topology_epoch_us: epoch_us,
            removed_nodes_since_last_snapshot: Vec::new(),
            removed_edges_since_last_snapshot: Vec::new(),
        };
        proof {
            let fresh = EngineView::fresh(window_secs, max_nodes, epoch_us);
            assert(engine@.nodes =~= fresh.nodes);
            assert(engine@.edges =~= fresh.edges);
            assert(engine.packets_by_class =~= fresh.packets_by_class);
            assert(engine.bytes_by_class =~= fresh.bytes_by_class);
            assert(engine.route_packets =~= fresh.route_packets);
            assert(engine.route_bytes =~= fresh.route_bytes);
        }
        engine
    }

    fn locate_node(&self, id: &NodeId) -> (found: Option<usize>)
        requires
            self@.wf(),
        ensures
            match found {
                Some(i) => i < self.nodes.len() && self@.has_node(*id) && self@.node_index(*id)
                    == i,
                None => !self@.has_node(*id),
            },
    {
        let found = find_node(&self.nodes, id);
        proof {
            match found {
                Some(i) => {
                    assert(self@.nodes[i as int].node_id == *id);
                    lemma_node_at(self@, i as int);
                },
                None => {
                    if self@.has_node(*id) {
                        let k = self@.node_index(*id);
                        assert(self.nodes[k]@.node_id == *id);
                    }
                },
            }
        }
        found
    }

    fn locate_edge(&self, key: &EdgeKey) -> (found: Option<usize>)
        requires
            self@.wf(),
        ensures
            match found {
                Some(i) => i < self.edges.len() && self@.has_edge(*key) && self@.edge_index(*key)
                    == i,
                None => !self@.has_edge(*key),
            },
    {
        let found = find_edge(&self.edges, key);
        proof {
            match found {
                Some(i) => {
                    assert(self@.edges[i as int].key() == *key);
                    lemma_edge_at(self@, i as int);
                },
                None => {
                    if self@.has_edge(*key) {
                        let k = self@.edge_index(*key);
                        assert(self.edges[k]@.key() == *key);
                    }
                },
            }
        }
        found
    }

    /// Create-or-touch of one node.
    fn ensure_node(
        &mut self,
        node_id: NodeId,
        desc: [u8; 16],
        domain: NodeDomain,
        addr: PeerAddr,
        now: u64,
        refresh_desc: bool,
        refresh_domain: bool,
    )
        requires
            old(self)@.wf(),
        ensures
            final(self)@ == old(self)@.ensure_node(
                node_id,
                desc,
                domain,
                addr,
                now,
                refresh_desc,
                refresh_domain,
            ),
            final(self)@.wf(),
    {
        proof {
            lemma_ensure_node(
                self@,
                node_id,
                desc,
                domain,
                addr,
                now,
                refresh_desc,
                refresh_domain,
            );
        }
        match self.locate_node(&node_id) {
            Some(i) => {
                if refresh_desc {
                    self.nodes[i].desc = desc;
                }
                if refresh_domain {
                    self.nodes[i].domain = domain;
                }
                self.nodes[i].addr = addr;
                self.nodes[i].last_seen = now;
                proof {
                    assert(self@.nodes =~= old(self)@.nodes.update(
                        i as int,
                        old(self)@.nodes[i as int].touched(
                            desc,
                            domain,
                            addr,
                            now,
                            refresh_desc,
                            refresh_domain,
                        ),
                    ));
                    assert(self@.edges =~= old(self)@.edges);
                }
            },
            None => {
                if self.nodes.len() < self.max_nodes {
                    let node = NodeState::new(
                        node_id,
                        desc,
                        domain,
                        addr,
                        now,
                        self.rate_window_secs,
                    );
                    self.nodes.push(node);
                    proof {
                        assert(self@.nodes =~= old(self)@.nodes.push(
                            NodeView::fresh(
                                node_id,
                                desc,
                                domain,
                                addr,
                                now,
                                old(self)@.rate_window_secs,
                            ),
                        ));
                        assert(self@.edges =~= old(self)@.edges);
                    }
                }
            },
        }
    }

    /// Handles a register packet that arrived from `src` at `now`: the node
    /// is created, or refreshed if known, or turned away if the cap is
    /// reached.
    pub fn on_node_registered(&mut self, packet: &RegisterNodePacket, src: PeerAddr, now: u64)
        requires
            old(self)@.wf(),
        ensures
            final(self)@ == old(self)@.register(*packet, src, now),
            final(self)@.wf(),
    {
        self.ensure_node(packet.node_id, packet.desc, packet.domain, src, now, true, true);
    }

    /// Handles an unregister packet: the node leaves with every edge that
    /// touches it.
    pub fn on_node_unregistered(&mut self, packet: &UnregisterNodePacket, _now: u64)
        requires
            old(self)@.wf(),
        ensures
            final(self)@ == old(self)@.remove_node(packet.node_id),
            final(self)@.wf(),
    {
        self.remove_node_and_edges(packet.node_id);
    }

    /// Removes a node and, with it, every edge that touches it.
    fn remove_node_and_edges(&mut self, node_id: NodeId)
        requires
            old(self)@.wf(),
        ensures
            final(self)@ == old(self)@.remove_node(node_id),
            final(self)@.wf(),
    {
        proof {
            lemma_remove_node(self@, node_id);
        }
        match self.locate_node(&node_id) {
            None => {},
            Some(i) => {
                let _ = self.nodes.remove(i);
                self.removed_nodes_since_last_snapshot.push(node_id);
                let mut removed = remove_touching(&mut self.edges, &node_id);
                self.removed_edges_since_last_snapshot.append(&mut removed);
                proof {
                    assert(self@.nodes =~= old(self)@.nodes.remove(i as int));
                }
            },
        }
    }

    /// Removes every node not seen for `node_ttl` microseconds, each with
    /// its edges, and then every remaining edge not seen for `edge_ttl`
    /// microseconds.
    pub fn cleanup_stale(&mut self, node_ttl: u64, edge_ttl: u64, now: u64)
        requires
            old(self)@.wf(),
        ensures
            final(self)@ == old(self)@.cleanup(node_ttl, edge_ttl, now),
            final(self)@.wf(),
    {
        let stale_nodes = collect_stale(&self.nodes, now, node_ttl);
        let mut i: usize = 0;
        while i < stale_nodes.len()
            invariant
                i <= stale_nodes.len(),
                self@.wf(),
                self@ == old(self)@.remove_nodes(stale_nodes@.take(i as int)),
            decreases stale_nodes.len() - i,
        {
            proof {
                assert(stale_nodes@.take(i + 1).drop_last() =~= stale_nodes@.take(i as int));
            }
            self.remove_node_and_edges(stale_nodes[i]);
            i += 1;
        }
        proof {
            assert(stale_nodes@.take(i as int) =~= stale_nodes@);
            lemma_drop_stale_edges(self@, now, edge_ttl);
        }
        let mut removed = remove_stale(&mut self.edges, now, edge_ttl);
        self.removed_edges_since_last_snapshot.append(&mut removed);
    }

    /// [`Self::cleanup_stale`] with one time-to-live for nodes and edges.
    pub fn cleanup_stale_clients(&mut self, timeout: u64, now: u64)
        requires
            old(self)@.wf(),
        ensures
            final(self)@ == old(self)@.cleanup(timeout, timeout, now),
            final(self)@.wf(),
    {
        self.cleanup_stale(timeout, timeout, now);
    }

    /// Handles a data packet that arrived from `src` at monotonic time
    /// `now`. The wall clock is read once; the acknowledgement carries the
    /// value read, and the engine changes as [`EngineView::ingest`] says for
    /// that value.
    pub fn on_packet_received(&mut self, src: PeerAddr, packet: &DataPacket, now: u64) -> (ack:
        AckPacket)
        requires
            old(self)@.wf(),
        ensures
            final(self)@ == old(self)@.ingest(*packet, src, now, ack.server_timestamp_us),
            final(self)@.wf(),
            ack.original_seq == packet.global_seq,
            ack.server_processing_us == 0,
    {
        let server_timestamp_us = now_timestamp_us();
        self.on_packet_received_at(src, packet, now, server_timestamp_us)
    }

    /// Whether the cap leaves room for the nodes that `packet` needs.
    fn has_room_for(&self, packet: &DataPacket) -> (accepted: bool)
        requires
            self@.wf(),
        ensures
            accepted == self@.accepts(*packet),
    {
        let src_known = self.locate_node(&packet.src_node_id).is_some();
        let dst_known = self.locate_node(&packet.dst_node_id).is_some() || ids_equal(
            &packet.dst_node_id,
            &packet.src_node_id,
        );
        let needed: usize = if src_known {
            0
        } else {
            1
        } + if dst_known {
            0
        } else {
            1
        };
        assert(needed == self@.nodes_needed(*packet));
        needed == 0 || (self.max_nodes >= needed && self.nodes.len() <= self.max_nodes - needed)
    }

    /// Ensures both endpoints of an accepted packet and returns the route
    /// slot between them.
    fn ensure_endpoints(&mut self, packet: &DataPacket, src: PeerAddr, now: u64) -> (route: usize)
        requires
            old(self)@.wf(),
            old(self)@.accepts(*packet),
        ensures
            final(self)@ == old(self)@.with_endpoints(*packet, src, now),
            final(self)@.wf(),
            final(self)@.has_node(packet.src_node_id),
            final(self)@.has_node(packet.dst_node_id),
            route == final(self)@.route_of(*packet),
            route < 4,
    {
        proof {
            lemma_with_endpoints(self@, *packet, src, now);
        }
        self.ensure_node(
            packet.src_node_id,
            packet.desc,
            infer_domain(packet.src_node_id),
            src,
            now,
            true,
            false,
        );
        let dst_domain = infer_domain(packet.dst_node_id);
        self.ensure_node(
            packet.dst_node_id,
            domain_desc(dst_domain),
            dst_domain,
            src,
            now,
            false,
            false,
        );
        let source = self.locate_node(&packet.src_node_id).unwrap();
        let target = self.locate_node(&packet.dst_node_id).unwrap();
        let route = route_index(self.nodes[source].domain, self.nodes[target].domain);
        proof {
            assert(self@.nodes[source as int].domain == self.nodes[source as int].domain);
            assert(self@.nodes[target as int].domain == self.nodes[target as int].domain);
        }
        route
    }

    /// Adds a packet to the global counters.
    fn count_packet(&mut self, packet: &DataPacket, route: usize)
        requires
            old(self)@.wf(),
            route < 4,
        ensures
            final(self)@ == old(self)@.counted(*packet, route as int),
            final(self)@.wf(),
    {
        proof {
            lemma_counted(self@, *packet, route as int);
        }
        let bytes = packet.declared_bytes as u64;
        let class = packet.class.index();
        self.total_packets = self.total_packets.saturating_add(1);
        self.total_bytes = self.total_bytes.saturating_add(bytes);
        bump(&mut self.packets_by_class, class, 1);
        bump(&mut self.bytes_by_class, class, bytes);
        bump(&mut self.route_packets, route, 1);
        bump(&mut self.route_bytes, route, bytes);
        proof {
            assert(self@.nodes =~= old(self)@.nodes);
            assert(self@.edges =~= old(self)@.edges);
        }
    }

    /// Accounts a packet on its source node.
    fn record_on_source(&mut self, packet: &DataPacket, src: PeerAddr, now: u64, route: usize)
        requires
            old(self)@.wf(),
            old(self)@.has_node(packet.src_node_id),
            route < 4,
        ensures
            final(self)@ == old(self)@.with_source(*packet, src, now, route as int),
            final(self)@.wf(),
            forall|x: NodeId| old(self)@.has_node(x) == final(self)@.has_node(x),
    {
        proof {
            lemma_with_source(self@, *packet, src, now, route as int);
        }
        let source = self.locate_node(&packet.src_node_id).unwrap();
        self.nodes[source].record_sent(packet, src, now, route);
        proof {
            assert(self@.nodes =~= old(self)@.nodes.update(
                source as int,
                old(self)@.nodes[source as int].sent(*packet, src, now, route as int),
            ));
            assert(self@.edges =~= old(self)@.edges);
        }
    }

    /// Accounts a packet on its edge, creating the edge where it is new.
    fn record_on_edge(&mut self, packet: &DataPacket, now: u64)
        requires
            old(self)@.wf(),
            old(self)@.has_node(packet.src_node_id),
            old(self)@.has_node(packet.dst_node_id),
        ensures
            final(self)@ == old(self)@.with_edge(*packet, now),
            final(self)@.wf(),
            final(self)@.has_edge(EngineView::edge_key(*packet)),
            forall|x: NodeId| old(self)@.has_node(x) == final(self)@.has_node(x),
    {
        proof {
            lemma_with_edge(self@, *packet, now);
        }
        let key = EdgeKey {
            src_node_id: packet.src_node_id,
            dst_node_id: packet.dst_node_id,
            class: packet.class,
        };
        match self.locate_edge(&key) {
            Some(slot) => {
                self.edges[slot].record_hit(packet, now);
                proof {
                    assert(self@.edges =~= old(self)@.edges.update(
                        slot as int,
                        old(self)@.edges[slot as int].hit(*packet, now),
                    ));
                }
            },
            None => {
                let mut edge = EdgeState::new(key, now, self.rate_window_secs);
                edge.record_hit(packet, now);
                self.edges.push(edge);
                proof {
                    assert(self@.edges =~= old(self)@.edges.push(
                        EdgeView::fresh(key, now, old(self)@.rate_window_secs).hit(*packet, now),
                    ));
                }
            },
        }
        proof {
            assert(self@.nodes =~= old(self)@.nodes);
        }
    }

    /// Accounts a latency sample on the source node and the edge of a
    /// packet.
    fn record_latency(&mut self, packet: &DataPacket, latency_us: u64)
        requires
            old(self)@.wf(),
            old(self)@.has_node(packet.src_node_id),
            old(self)@.has_edge(EngineView::edge_key(*packet)),
        ensures
            final(self)@ == old(self)@.with_latency(*packet, latency_us),
    {
        let key = EdgeKey {
            src_node_id: packet.src_node_id,
            dst_node_id: packet.dst_node_id,
            class: packet.class,
        };
        let source = self.locate_node(&packet.src_node_id).unwrap();
        let slot = self.locate_edge(&key).unwrap();
        self.nodes[source].latency_stats.add_rtt_sample(latency_us);
        self.edges[slot].update_latency(latency_us);
        proof {
            assert(self@.nodes =~= old(self)@.nodes.update(
                source as int,
                old(self)@.nodes[source as int].sampled(latency_us),
            ));
            assert(self@.edges =~= old(self)@.edges.update(
                slot as int,
                old(self)@.edges[slot as int].sampled(latency_us),
            ));
        }
    }

    /// Handles a data packet that arrived from `src` at monotonic time
    /// `now` while the wall clock read `server_timestamp_us`.
    pub fn on_packet_received_at(
        &mut self,
        src: PeerAddr,
        packet: &DataPacket,
        now: u64,
        server_timestamp_us: u64,
    ) -> (ack: AckPacket)
        requires
            old(self)@.wf(),
        ensures
            final(self)@ == old(self)@.ingest(*packet, src, now, server_timestamp_us),
            final(self)@.wf(),
            ack == (AckPacket {
                original_seq: packet.global_seq,
                server_timestamp_us,
                server_processing_us: 0,
            }),
    {
        let ack = AckPacket {
            original_seq: packet.global_seq,
            server_timestamp_us,
            server_processing_us: 0,
        };
        proof {
            lemma_ingest(self@, *packet, src, now, server_timestamp_us);
        }
        if !self.has_room_for(packet) {
            return ack;
        }
        let route = self.ensure_endpoints(packet, src, now);
        self.count_packet(packet, route);
        proof {
            lemma_counted(old(self)@.with_endpoints(*packet, src, now), *packet, route as int);
        }
        self.record_on_source(packet, src, now, route);
        self.record_on_edge(packet, now);
        if server_timestamp_us >= packet.timestamp_us {
            self.record_latency(packet, server_timestamp_us - packet.timestamp_us);
        }
        ack
    }

    fn global_stats(&self) -> (stats: GlobalStats)
        ensures
            stats == self@.global_stats(),
    {
        let stats = GlobalStats {
            total_packets: self.total_packets,
            total_bytes: self.total_bytes,
            packets_by_class: self.packets_by_class,
            bytes_by_class: self.bytes_by_class,
            route_stats: [
                RouteStats { packets: self.route_packets[0], bytes: self.route_bytes[0] },
                RouteStats { packets: self.route_packets[1], bytes: self.route_bytes[1] },
                RouteStats { packets: self.route_packets[2], bytes: self.route_bytes[2] },
                RouteStats { packets: self.route_packets[3], bytes: self.route_bytes[3] },
            ],
            unique_clients: self.nodes.len(),
        };
        proof {
            assert(stats.route_stats =~= self@.global_stats().route_stats);
        }
        stats
    }

    /// Renders the topology snapshot at monotonic time `now`. The wall
    /// clock is read once; the snapshot carries the value read.
    pub fn export_topology_snapshot(&mut self, now: u64) -> (snapshot: TopologySnapshot)
        requires
            old(self)@.wf(),
        ensures
            snapshot@ == old(self)@.topology(now, snapshot.snapshot_timestamp_epoch_us),
            final(self)@ == old(self)@.after_topology(now, snapshot.snapshot_timestamp_epoch_us),
            final(self)@.wf(),
    {
        let epoch_us = now_timestamp_us();
        self.export_topology_snapshot_at(now, epoch_us)
    }

    /// Renders the topology snapshot at monotonic time `now` while the wall
    /// clock reads `epoch_us`, hands out the pending removals, and starts
    /// every edge's next reporting window.
    pub fn export_topology_snapshot_at(&mut self, now: u64, epoch_us: u64) -> (snapshot:
        TopologySnapshot)
        requires
            old(self)@.wf(),
        ensures
            snapshot@ == old(self)@.topology(now, epoch_us),
            final(self)@ == old(self)@.after_topology(now, epoch_us),
            final(self)@.wf(),
    {
        proof {
            lemma_after_topology(self@, now, epoch_us);
        }
        self.snapshot_seq = self.snapshot_seq.saturating_add(1);
        let snapshot_interval_us = epoch_us.saturating_sub(self.last_topology_epoch_us);
        self.last_topology_epoch_us = epoch_us;
        let activity_ttl: u64 = self.rate_window_secs as u64 * ACTIVITY_WINDOWS * MICROS_PER_SECOND;
        assert(activity_ttl == activity_ttl_us(self.rate_window_secs));

        let global_stats = self.global_stats();
        let nodes = snapshot_nodes(&self.nodes, now, activity_ttl);
        let edges = report_edges(&mut self.edges, now, activity_ttl);
        let mut removed_nodes: Vec<NodeId> = Vec::new();
        let mut removed_edges: Vec<EdgeId> = Vec::new();
        std::mem::swap(&mut removed_nodes, &mut self.removed_nodes_since_last_snapshot);
        std::mem::swap(&mut removed_edges, &mut self.removed_edges_since_last_snapshot);

        let snapshot = TopologySnapshot {
            snapshot_seq: self.snapshot_seq,
            snapshot_timestamp_epoch_us: epoch_us,
            snapshot_interval_us,
            nodes,
            edges,
            removed_nodes,
            removed_edges,
            global_stats,
        };
        proof {
            let expected = old(self)@.topology(now, epoch_us);
            let after = old(self)@.after_topology(now, epoch_us);
            assert(snapshot@.nodes =~= expected.nodes);
            assert(snapshot@.edges =~= expected.edges);
            assert(self@.nodes =~= after.nodes);
            assert(self@.edges =~= after.edges);
            assert(self@.removed_nodes =~= after.removed_nodes);
            assert(self@.removed_edges =~= after.removed_edges);
        }
        snapshot
    }

    /// Renders the flat per-client analytics snapshot at monotonic time
    /// `now`.
    pub fn export_snapshot(&self, now: u64) -> (snapshot: AnalyticsSnapshot)
        ensures
            snapshot@ == self@.analytics(now),
    {
        let snapshot = AnalyticsSnapshot {
            snapshot_timestamp_us: now,
            server_uptime_us: now,
            global_stats: self.global_stats(),
            per_client_stats: snapshot_clients(&self.nodes, now),
        };
        proof {
            assert(snapshot@.per_client_stats =~= self@.analytics(now).per_client_stats);
        }
        snapshot
    }
}

} // verus!

//! Mathematical model of the telemetry engine: what a node, an edge and
//! the whole registry are, and how each operation changes them.
//!
//! Monotonic times are microseconds since the engine was created.

use vstd::prelude::*;
use vstd::std_specs::hash::DefaultHasherAdditionalSpecFns;
use std::collections::hash_map::DefaultHasher;
use crate::protocol::{
    DataPacket, EdgeId, NodeDomain, NodeId, PeerAddr, RegisterNodePacket, TrafficClass,
};
use crate::snapshot::{
    AnalyticsSnapshotView, ClassStats, ClientStats, EdgeSnapshot, GlobalStats, NodeSnapshot, Ratio,
    RouteStats, TopologySnapshotView,
};
use crate::tracker::{
    elapsed, distance, loss_metrics_of, LatencyStatsView, LossEvent, RateCalculatorView,
    SequenceTrackerView, MICROS_PER_SECOND,
};

verus! {

/// Nanoseconds in a microsecond: smoothed latencies are kept in nanoseconds.
pub const NANOS_PER_MICRO: u64 = 1000;

/// A node or an edge counts as active while it was seen within this many
/// rate windows.
pub const ACTIVITY_WINDOWS: u64 = 3;

/// Salt mixed into the second half of an edge id.
pub const EDGE_ID_SALT: u64 = 0x9E37_79B9_7F4A_7C15;

/// What identifies an edge: its two endpoints and its traffic class.
#[derive(Clone, Copy, Debug)]
pub struct EdgeKey {
    pub src_node_id: NodeId,
    pub dst_node_id: NodeId,
    pub class: TrafficClass,
}

impl EdgeKey {
    pub open spec fn touches(self, id: NodeId) -> bool {
        self.src_node_id == id || self.dst_node_id == id
    }
}

// ---------------------------------------------------------------------------
// Plain rules
// ---------------------------------------------------------------------------

/// Domain of a node that was never registered, read off its id: ids that
/// start with the ASCII text `peere` are external, all others internal.
pub open spec fn inferred_domain(id: NodeId) -> NodeDomain {
    if id[0] == 112 && id[1] == 101 && id[2] == 101 && id[3] == 114 && id[4] == 101 {
        NodeDomain::External
    } else {
        NodeDomain::Internal
    }
}

/// Description given to a node created as the target of a data packet: the
/// ASCII text `internal-node---` or `external-node---`.
pub open spec fn placeholder_desc(domain: NodeDomain) -> [u8; 16] {
    match domain {
        NodeDomain::Internal => [
            105u8, 110u8, 116u8, 101u8, 114u8, 110u8, 97u8, 108u8,
            45u8, 110u8, 111u8, 100u8, 101u8, 45u8, 45u8, 45u8,
        ],
        NodeDomain::External => [
            101u8, 120u8, 116u8, 101u8, 114u8, 110u8, 97u8, 108u8,
            45u8, 110u8, 111u8, 100u8, 101u8, 45u8, 45u8, 45u8,
        ],
    }
}

/// Slot of a route in per-route arrays: internal to internal, internal to
/// external, external to internal, external to external.
pub open spec fn route_slot(src: NodeDomain, dst: NodeDomain) -> int {
    (if src.is_external() {
        2int
    } else {
        0int
    }) + (if dst.is_external() {
        1int
    } else {
        0int
    })
}

/// `counts` with `by` added, saturating, at `slot`.
pub open spec fn bumped(counts: [u64; 4], slot: int, by: u64) -> [u64; 4] {
    [
        if slot == 0 {
            counts[0].saturating_add(by)
        } else {
            counts[0]
        },
        if slot == 1 {
            counts[1].saturating_add(by)
        } else {
            counts[1]
        },
        if slot == 2 {
            counts[2].saturating_add(by)
        } else {
            counts[2]
        },
        if slot == 3 {
            counts[3].saturating_add(by)
        } else {
            counts[3]
        },
    ]
}

/// Saturating sum of four counters.
pub open spec fn sum4(counts: [u64; 4]) -> u64 {
    counts[0].saturating_add(counts[1]).saturating_add(counts[2]).saturating_add(counts[3])
}

/// Byte `i` (0 is the most significant) of `value`.
pub open spec fn be_byte(value: u64, i: int) -> u8 {
    ((value >> ((8 * (7 - i)) as u64)) & 0xff) as u8
}

/// The bytes an edge key contributes to its id: source, destination, and
/// the class ordinal.
pub open spec fn key_writes(key: EdgeKey) -> Seq<Seq<u8>> {
    seq![key.src_node_id@, key.dst_node_id@, seq![key.class.ordinal() as u8]]
}

/// The eight bytes of [`EDGE_ID_SALT`], least significant first.
pub open spec fn salt_bytes() -> Seq<u8> {
    seq![0x15u8, 0x7Cu8, 0x4Au8, 0x7Fu8, 0xB9u8, 0x79u8, 0x37u8, 0x9Eu8]
}

/// The stable id of the edge with key `key`: the standard library's
/// default hash of the key, followed by the hash of the salt and the key,
/// each most significant byte first.
pub open spec fn edge_id_of(key: EdgeKey) -> EdgeId {
    let first = DefaultHasher::spec_finish(key_writes(key));
    let second = DefaultHasher::spec_finish(seq![salt_bytes()] + key_writes(key));
    [
        be_byte(first, 0), be_byte(first, 1), be_byte(first, 2), be_byte(first, 3),
        be_byte(first, 4), be_byte(first, 5), be_byte(first, 6), be_byte(first, 7),
        be_byte(second, 0), be_byte(second, 1), be_byte(second, 2), be_byte(second, 3),
        be_byte(second, 4), be_byte(second, 5), be_byte(second, 6), be_byte(second, 7),
    ]
}

/// A latency sample in nanoseconds, saturating.
pub open spec fn sample_ns(sample_us: u64) -> u64 {
    if sample_us > u64::MAX / NANOS_PER_MICRO {
        u64::MAX
    } else {
        (sample_us * NANOS_PER_MICRO) as u64
    }
}

/// Exponentially weighted moving average with weight one fifth on the new
/// sample, rounded down. An average of zero counts as "not started" and is
/// replaced by the sample.
pub open spec fn ewma(average: u64, sample: u64) -> u64 {
    if average == 0 {
        sample
    } else {
        ((sample + 4 * average) / 5) as u64
    }
}

/// How long after its last sighting a node or an edge stops counting as
/// active.
pub open spec fn activity_ttl_us(window_secs: u32) -> u64 {
    (window_secs * ACTIVITY_WINDOWS * MICROS_PER_SECOND) as u64
}

// ---------------------------------------------------------------------------
// Nodes
// ---------------------------------------------------------------------------

/// Mathematical content of a node.
pub struct NodeView {
    pub node_id: NodeId,
    pub desc: [u8; 16],
    pub domain: NodeDomain,
    pub addr: PeerAddr,
    pub first_seen: u64,
    pub last_seen: u64,
    /// One tracker per traffic class.
    pub seq_trackers: Seq<SequenceTrackerView>,
    pub packets_by_class: [u64; 4],
    pub bytes_by_class: [u64; 4],
    pub route_packets: [u64; 4],
    pub route_bytes: [u64; 4],
    pub latency: LatencyStatsView,
    /// One rate calculator per traffic class.
    pub rates: Seq<RateCalculatorView>,
}

impl NodeView {
    pub open spec fn fresh(
        node_id: NodeId,
        desc: [u8; 16],
        domain: NodeDomain,
        addr: PeerAddr,
        now: u64,
        window_secs: u32,
    ) -> NodeView {
        NodeView {
            node_id,
            desc,
            domain,
            addr,
            first_seen: now,
            last_seen: now,
            seq_trackers: Seq::new(4, |i: int| SequenceTrackerView::fresh()),
            packets_by_class: [0, 0, 0, 0],
            bytes_by_class: [0, 0, 0, 0],
            route_packets: [0, 0, 0, 0],
            route_bytes: [0, 0, 0, 0],
            latency: LatencyStatsView::fresh(),
            rates: Seq::new(4, |i: int| RateCalculatorView::fresh(window_secs)),
        }
    }

    pub open spec fn wf(self, window_secs: u32) -> bool {
        &&& self.seq_trackers.len() == 4
        &&& self.rates.len() == 4
        &&& forall|i: int| 0 <= i < 4 ==> (#[trigger] self.rates[i]).window_secs == window_secs
        &&& self.latency.wf()
        &&& self.latency.max_samples > 0
    }

    /// The node after it was seen again.
    pub open spec fn touched(
        self,
        desc: [u8; 16],
        domain: NodeDomain,
        addr: PeerAddr,
        now: u64,
        refresh_desc: bool,
        refresh_domain: bool,
    ) -> NodeView {
        NodeView {
            desc: if refresh_desc {
                desc
            } else {
                self.desc
            },
            domain: if refresh_domain {
                domain
            } else {
                self.domain
            },
            addr,
            last_seen: now,
            ..self
        }
    }

    /// The node after it sent `packet` over the route in slot `route`.
    pub open spec fn sent(self, packet: DataPacket, addr: PeerAddr, now: u64, route: int) -> NodeView {
        let class = packet.class.ordinal();
        let bytes = packet.declared_bytes as u64;
        NodeView {
            last_seen: now,
            addr,
            desc: packet.desc,
            packets_by_class: bumped(self.packets_by_class, class, 1),
            bytes_by_class: bumped(self.bytes_by_class, class, bytes),
            route_packets: bumped(self.route_packets, route, 1),
            route_bytes: bumped(self.route_bytes, route, bytes),
            seq_trackers: self.seq_trackers.update(
                class,
                self.seq_trackers[class].step(packet.class_seq, now),
            ),
            rates: self.rates.update(class, self.rates[class].record(now, packet.declared_bytes)),
            ..self
        }
    }

    /// The node after a latency sample was taken on one of its packets.
    pub open spec fn sampled(self, latency_us: u64) -> NodeView {
        NodeView { latency: self.latency.add(latency_us), ..self }
    }

    /// Packets per second at `now`, all classes together.
    pub open spec fn total_pps(self, now: u64) -> Ratio {
        Ratio {
            numerator: self.rates[0].packet_rate(now).numerator.saturating_add(
                self.rates[1].packet_rate(now).numerator,
            ).saturating_add(self.rates[2].packet_rate(now).numerator).saturating_add(
                self.rates[3].packet_rate(now).numerator,
            ),
            denominator: self.rates[0].window_secs as u64,
        }
    }

    /// Bytes per second at `now`, all classes together.
    pub open spec fn total_bps(self, now: u64) -> Ratio {
        Ratio {
            numerator: self.rates[0].byte_rate(now).numerator.saturating_add(
                self.rates[1].byte_rate(now).numerator,
            ).saturating_add(self.rates[2].byte_rate(now).numerator).saturating_add(
                self.rates[3].byte_rate(now).numerator,
            ),
            denominator: self.rates[0].window_secs as u64,
        }
    }

    /// The node as a topology snapshot shows it.
    pub open spec fn snapshot(self, now: u64, activity_ttl: u64) -> NodeSnapshot {
        NodeSnapshot {
            node_id: self.node_id,
            desc: self.desc,
            domain: self.domain,
            first_seen_us: self.first_seen,
            last_seen_us: self.last_seen,
            active: elapsed(now, self.last_seen) < activity_ttl,
            total_packets: sum4(self.packets_by_class),
            total_bytes: sum4(self.bytes_by_class),
            total_pps: self.total_pps(now),
            total_bps: self.total_bps(now),
            latency: self.latency.metrics(),
            loss: loss_metrics_of(self.seq_trackers),
        }
    }

    pub open spec fn class_stats(self, class: int, now: u64) -> ClassStats {
        ClassStats {
            packets: self.packets_by_class[class],
            bytes: self.bytes_by_class[class],
            packets_per_second: self.rates[class].packet_rate(now),
            bytes_per_second: self.rates[class].byte_rate(now),
        }
    }

    pub open spec fn route_stats(self, route: int) -> RouteStats {
        RouteStats { packets: self.route_packets[route], bytes: self.route_bytes[route] }
    }

    /// The node as an analytics snapshot shows it.
    pub open spec fn client_stats(self, now: u64) -> ClientStats {
        ClientStats {
            node_id: self.node_id,
            desc: self.desc,
            addr: self.addr,
            first_seen_us: self.first_seen,
            last_seen_us: self.last_seen,
            session_duration_us: elapsed(self.last_seen, self.first_seen),
            class_stats: [
                self.class_stats(0, now),
                self.class_stats(1, now),
                self.class_stats(2, now),
                self.class_stats(3, now),
            ],
            latency: self.latency.metrics(),
            loss: loss_metrics_of(self.seq_trackers),
            route_stats: [
                self.route_stats(0),
                self.route_stats(1),
                self.route_stats(2),
                self.route_stats(3),
            ],
        }
    }
}

// ---------------------------------------------------------------------------
// Edges
// ---------------------------------------------------------------------------

/// Mathematical content of an edge.
pub struct EdgeView {
    pub edge_id: EdgeId,
    pub src_node_id: NodeId,
    pub dst_node_id: NodeId,
    pub class: TrafficClass,
    pub last_seen: u64,
    pub packets: u64,
    pub bytes: u64,
    pub rate: RateCalculatorView,
    pub seq: SequenceTrackerView,
    /// Rates reported by the previous topology snapshot.
    pub prev_packets_per_second: Ratio,
    pub prev_bytes_per_second: Ratio,
    pub latency_ewma_ns: u64,
    pub jitter_ewma_ns: u64,
    pub latency_delta_ns: i128,
    pub last_latency_sample_ns: Option<u64>,
    /// Packets seen since the previous topology snapshot.
    pub window_packets: u64,
    /// Sequence numbers missed since the previous topology snapshot.
    pub window_missing: u64,
}

impl EdgeView {
    pub open spec fn key(self) -> EdgeKey {
        EdgeKey { src_node_id: self.src_node_id, dst_node_id: self.dst_node_id, class: self.class }
    }

    pub open spec fn fresh(key: EdgeKey, now: u64, window_secs: u32) -> EdgeView {
        EdgeView {
            edge_id: edge_id_of(key),
            src_node_id: key.src_node_id,
            dst_node_id: key.dst_node_id,
            class: key.class,
            last_seen: now,
            packets: 0,
            bytes: 0,
            rate: RateCalculatorView::fresh(window_secs),
            seq: SequenceTrackerView::fresh(),
            prev_packets_per_second: Ratio { numerator: 0, denominator: window_secs as u64 },
            prev_bytes_per_second: Ratio { numerator: 0, denominator: window_secs as u64 },
            latency_ewma_ns: 0,
            jitter_ewma_ns: 0,
            latency_delta_ns: 0,
            last_latency_sample_ns: None,
            window_packets: 0,
            window_missing: 0,
        }
    }

    pub open spec fn wf(self, window_secs: u32) -> bool {
        &&& self.edge_id == edge_id_of(self.key())
        &&& self.rate.window_secs == window_secs
    }

    /// The edge after `packet` travelled over it.
    pub open spec fn hit(self, packet: DataPacket, now: u64) -> EdgeView {
        EdgeView {
            last_seen: now,
            packets: self.packets.saturating_add(1),
            bytes: self.bytes.saturating_add(packet.declared_bytes as u64),
            window_packets: self.window_packets.saturating_add(1),
            rate: self.rate.record(now, packet.declared_bytes),
            seq: self.seq.step(packet.class_seq, now),
            window_missing: match self.seq.classify(packet.class_seq) {
                LossEvent::Loss { count } => self.window_missing.saturating_add(count),
                _ => self.window_missing,
            },
            ..self
        }
    }

    /// The edge after a latency sample of `latency_us` microseconds.
    pub open spec fn sampled(self, latency_us: u64) -> EdgeView {
        let sample = sample_ns(latency_us);
        let latency = ewma(self.latency_ewma_ns, sample);
        EdgeView {
            latency_ewma_ns: latency,
            jitter_ewma_ns: match self.last_latency_sample_ns {
                Some(previous) => ewma(self.jitter_ewma_ns, distance(sample, previous)),
                None => self.jitter_ewma_ns,
            },
            latency_delta_ns: (sample - latency) as i128,
            last_latency_sample_ns: Some(sample),
            ..self
        }
    }

    /// Missed sequence numbers over packets seen since the previous
    /// topology snapshot; zero where no packet was seen.
    pub open spec fn loss_rate(self) -> Ratio {
        if self.window_packets == 0 {
            Ratio::zero()
        } else {
            Ratio { numerator: self.window_missing, denominator: self.window_packets }
        }
    }

    /// The edge as a topology snapshot taken at `now` shows it.
    pub open spec fn snapshot(self, now: u64, activity_ttl: u64) -> EdgeSnapshot {
        EdgeSnapshot {
            edge_id: self.edge_id,
            src_node_id: self.src_node_id,
            dst_node_id: self.dst_node_id,
            class: self.class,
            packets: self.packets,
            bytes: self.bytes,
            packets_per_second: self.rate.packet_rate(now),
            bytes_per_second: self.rate.byte_rate(now),
            delta_packets_per_second: self.rate.packet_rate(now).minus(self.prev_packets_per_second),
            delta_bytes_per_second: self.rate.byte_rate(now).minus(self.prev_bytes_per_second),
            latency_ewma_ns: self.latency_ewma_ns,
            latency_delta_ns: self.latency_delta_ns,
            jitter_ewma_ns: self.jitter_ewma_ns,
            loss_rate_window: self.loss_rate(),
            active: elapsed(now, self.last_seen) < activity_ttl,
        }
    }

    /// The edge after a topology snapshot was taken at `now`: the rates
    /// just reported become the previous ones and the window counters
    /// start again.
    pub open spec fn reported(self, now: u64) -> EdgeView {
        EdgeView {
            prev_packets_per_second: self.rate.packet_rate(now),
            prev_bytes_per_second: self.rate.byte_rate(now),
            window_packets: 0,
            window_missing: 0,
            ..self
        }
    }
}

// ---------------------------------------------------------------------------
// Sequences of nodes and edges
// ---------------------------------------------------------------------------

/// No two nodes of `nodes` share an id.
pub open spec fn nodes_distinct(nodes: Seq<NodeView>) -> bool {
    forall|i: int, j: int|
        0 <= i < j < nodes.len() ==> (#[trigger] nodes[i]).node_id != (#[trigger] nodes[j]).node_id
}

/// No two edges of `edges` share a key.
pub open spec fn edges_distinct(edges: Seq<EdgeView>) -> bool {
    forall|i: int, j: int|
        0 <= i < j < edges.len() ==> (#[trigger] edges[i]).key() != (#[trigger] edges[j]).key()
}

/// Edges of `edges` that do not touch node `id`, in order.
pub open spec fn edges_avoiding(edges: Seq<EdgeView>, id: NodeId) -> Seq<EdgeView>
    decreases edges.len(),
{
    if edges.len() == 0 {
        edges
    } else if edges.last().key().touches(id) {
        edges_avoiding(edges.drop_last(), id)
    } else {
        edges_avoiding(edges.drop_last(), id).push(edges.last())
    }
}

/// Ids of the edges of `edges` that touch node `id`, in order, each id once.
pub open spec fn touching_ids(edges: Seq<EdgeView>, id: NodeId) -> Seq<EdgeId>
    decreases edges.len(),
{
    if edges.len() == 0 {
        Seq::empty()
    } else {
        let before = touching_ids(edges.drop_last(), id);
        if edges.last().key().touches(id) && !before.contains(edges.last().edge_id) {
            before.push(edges.last().edge_id)
        } else {
            before
        }
    }
}

/// A node or an edge last seen at `last_seen` has outlived `ttl` at `now`.
pub open spec fn stale(last_seen: u64, now: u64, ttl: u64) -> bool {
    elapsed(now, last_seen) >= ttl
}

/// Ids of the nodes of `nodes` that are stale at `now`, in order.
pub open spec fn stale_node_ids(nodes: Seq<NodeView>, now: u64, ttl: u64) -> Seq<NodeId>
    decreases nodes.len(),
{
    if nodes.len() == 0 {
        Seq::empty()
    } else if stale(nodes.last().last_seen, now, ttl) {
        stale_node_ids(nodes.drop_last(), now, ttl).push(nodes.last().node_id)
    } else {
        stale_node_ids(nodes.drop_last(), now, ttl)
    }
}

/// Edges of `edges` that are not stale at `now`, in order.
pub open spec fn fresh_edges(edges: Seq<EdgeView>, now: u64, ttl: u64) -> Seq<EdgeView>
    decreases edges.len(),
{
    if edges.len() == 0 {
        edges
    } else if stale(edges.last().last_seen, now, ttl) {
        fresh_edges(edges.drop_last(), now, ttl)
    } else {
        fresh_edges(edges.drop_last(), now, ttl).push(edges.last())
    }
}

/// Ids of the edges of `edges` that are stale at `now`, in order.
pub open spec fn stale_edge_ids(edges: Seq<EdgeView>, now: u64, ttl: u64) -> Seq<EdgeId>
    decreases edges.len(),
{
    if edges.len() == 0 {
        Seq::empty()
    } else if stale(edges.last().last_seen, now, ttl) {
        stale_edge_ids(edges.drop_last(), now, ttl).push(edges.last().edge_id)
    } else {
        stale_edge_ids(edges.drop_last(), now, ttl)
    }
}

/// One data packet as the engine meets it.
pub struct Arrival {
    pub packet: DataPacket,
    /// Address the packet came from.
    pub addr: PeerAddr,
    /// Monotonic time of arrival.
    pub now: u64,
    /// Wall clock at arrival.
    pub server_timestamp_us: u64,
}

/// Number of arrivals of `arrivals` that travel over the edge `key`.
pub open spec fn packets_on(arrivals: Seq<Arrival>, key: EdgeKey) -> nat
    decreases arrivals.len(),
{
    if arrivals.len() == 0 {
        0
    } else {
        packets_on(arrivals.drop_last(), key) + (if EngineView::edge_key(arrivals.last().packet)
            == key {
            1nat
        } else {
            0nat
        })
    }
}

/// Bytes declared by the arrivals of `arrivals` that travel over the edge
/// `key`.
pub open spec fn bytes_on(arrivals: Seq<Arrival>, key: EdgeKey) -> nat
    decreases arrivals.len(),
{
    if arrivals.len() == 0 {
        0
    } else {
        bytes_on(arrivals.drop_last(), key) + (if EngineView::edge_key(arrivals.last().packet)
            == key {
            arrivals.last().packet.declared_bytes as nat
        } else {
            0nat
        })
    }
}

// ---------------------------------------------------------------------------
// The engine
// ---------------------------------------------------------------------------

/// Mathematical content of the telemetry engine.
pub struct EngineView {
    /// Live nodes, oldest first.
    pub nodes: Seq<NodeView>,
    /// Live edges, oldest first.
    pub edges: Seq<EdgeView>,
    pub total_packets: u64,
    pub total_bytes: u64,
    pub packets_by_class: [u64; 4],
    pub bytes_by_class: [u64; 4],
    pub route_packets: [u64; 4],
    pub route_bytes: [u64; 4],
    pub rate_window_secs: u32,
    pub max_nodes: usize,
    pub snapshot_seq: u64,
    pub last_topology_epoch_us: u64,
    /// Ids of nodes removed since the last topology snapshot.
    pub removed_nodes: Seq<NodeId>,
    /// Ids of edges removed since the last topology snapshot.
    pub removed_edges: Seq<EdgeId>,
}

impl EngineView {
    pub open spec fn fresh(window_secs: u32, max_nodes: usize, epoch_us: u64) -> EngineView {
        EngineView {
            nodes: Seq::empty(),
            edges: Seq::empty(),
            total_packets: 0,
            total_bytes: 0,
            packets_by_class: [0, 0, 0, 0],
            bytes_by_class: [0, 0, 0, 0],
            route_packets: [0, 0, 0, 0],
            route_bytes: [0, 0, 0, 0],
            rate_window_secs: window_secs,
            max_nodes,
            snapshot_seq: 0,
            last_topology_epoch_us: epoch_us,
            removed_nodes: Seq::empty(),
            removed_edges: Seq::empty(),
        }
    }

    pub open spec fn has_node(self, id: NodeId) -> bool {
        exists|i: int| 0 <= i < self.nodes.len() && (#[trigger] self.nodes[i]).node_id == id
    }

    /// Position of the node with id `id`; meaningful where `has_node(id)`.
    pub open spec fn node_index(self, id: NodeId) -> int {
        choose|i: int| 0 <= i < self.nodes.len() && (#[trigger] self.nodes[i]).node_id == id
    }

    pub open spec fn node(self, id: NodeId) -> NodeView {
        self.nodes[self.node_index(id)]
    }

    pub open spec fn has_edge(self, key: EdgeKey) -> bool {
        exists|i: int| 0 <= i < self.edges.len() && (#[trigger] self.edges[i]).key() == key
    }

    /// Position of the edge with key `key`; meaningful where `has_edge(key)`.
    pub open spec fn edge_index(self, key: EdgeKey) -> int {
        choose|i: int| 0 <= i < self.edges.len() && (#[trigger] self.edges[i]).key() == key
    }

    pub open spec fn edge(self, key: EdgeKey) -> EdgeView {
        self.edges[self.edge_index(key)]
    }

    /// The registry is consistent: ids and keys are unique, every edge
    /// joins two live nodes, and the node count respects the cap.
    pub open spec fn wf(self) -> bool {
        &&& self.nodes.len() <= self.max_nodes
        &&& nodes_distinct(self.nodes)
        &&& edges_distinct(self.edges)
        &&& forall|i: int|
            0 <= i < self.nodes.len() ==> (#[trigger] self.nodes[i]).wf(self.rate_window_secs)
        &&& forall|i: int|
            0 <= i < self.edges.len() ==> (#[trigger] self.edges[i]).wf(self.rate_window_secs)
        &&& forall|i: int|
            0 <= i < self.edges.len() ==> self.has_node((#[trigger] self.edges[i]).src_node_id)
                && self.has_node(self.edges[i].dst_node_id)
    }

    // -- registration --------------------------------------------------------

    /// Create-or-touch: a known node is refreshed, an unknown one is created
    /// unless the cap is reached, in which case nothing changes.
    pub open spec fn ensure_node(
        self,
        id: NodeId,
        desc: [u8; 16],
        domain: NodeDomain,
        addr: PeerAddr,
        now: u64,
        refresh_desc: bool,
        refresh_domain: bool,
    ) -> EngineView {
        if self.has_node(id) {
            let i = self.node_index(id);
            EngineView {
                nodes: self.nodes.update(
                    i,
                    self.nodes[i].touched(desc, domain, addr, now, refresh_desc, refresh_domain),
                ),
                ..self
            }
        } else if self.nodes.len() >= self.max_nodes {
            self
        } else {
            EngineView {
                nodes: self.nodes.push(
                    NodeView::fresh(id, desc, domain, addr, now, self.rate_window_secs),
                ),
                ..self
            }
        }
    }

    /// The engine after a register packet arrived from `addr` at `now`.
    pub open spec fn register(self, packet: RegisterNodePacket, addr: PeerAddr, now: u64) -> EngineView {
        self.ensure_node(packet.node_id, packet.desc, packet.domain, addr, now, true, true)
    }

    /// A register packet for `id` is turned away: the node is unknown and
    /// the cap is reached.
    pub open spec fn rejects_node(self, id: NodeId) -> bool {
        !self.has_node(id) && self.nodes.len() >= self.max_nodes
    }

    // -- removal -------------------------------------------------------------

    /// The engine after node `id` was removed together with every edge that
    /// touches it. Removing an unknown node changes nothing.
    pub open spec fn remove_node(self, id: NodeId) -> EngineView {
        if !self.has_node(id) {
            self
        } else {
            EngineView {
                nodes: self.nodes.remove(self.node_index(id)),
                edges: edges_avoiding(self.edges, id),
                removed_nodes: self.removed_nodes.push(id),
                removed_edges: self.removed_edges + touching_ids(self.edges, id),
                ..self
            }
        }
    }

    /// The engine after the nodes `ids` were removed one after the other.
    pub open spec fn remove_nodes(self, ids: Seq<NodeId>) -> EngineView
        decreases ids.len(),
    {
        if ids.len() == 0 {
            self
        } else {
            self.remove_nodes(ids.drop_last()).remove_node(ids.last())
        }
    }

    /// The engine after every edge that is stale at `now` was removed.
    pub open spec fn drop_stale_edges(self, now: u64, ttl: u64) -> EngineView {
        EngineView {
            edges: fresh_edges(self.edges, now, ttl),
            removed_edges: self.removed_edges + stale_edge_ids(self.edges, now, ttl),
            ..self
        }
    }

    /// The engine after stale nodes were removed, each with its edges, and
    /// then the stale edges among those left.
    pub open spec fn cleanup(self, node_ttl: u64, edge_ttl: u64, now: u64) -> EngineView {
        self.remove_nodes(stale_node_ids(self.nodes, now, node_ttl)).drop_stale_edges(
            now,
            edge_ttl,
        )
    }

    // -- data ingest ---------------------------------------------------------

    /// How many nodes `packet` needs that are not there yet.
    pub open spec fn nodes_needed(self, packet: DataPacket) -> int {
        (if self.has_node(packet.src_node_id) {
            0int
        } else {
            1int
        }) + (if self.has_node(packet.dst_node_id) || packet.dst_node_id == packet.src_node_id {
            0int
        } else {
            1int
        })
    }

    /// Whether `packet` is applied: both endpoints are known, or the cap
    /// leaves room for those that are not.
    pub open spec fn accepts(self, packet: DataPacket) -> bool {
        self.nodes_needed(packet) == 0 || self.nodes.len() + self.nodes_needed(packet)
            <= self.max_nodes
    }

    pub open spec fn edge_key(packet: DataPacket) -> EdgeKey {
        EdgeKey {
            src_node_id: packet.src_node_id,
            dst_node_id: packet.dst_node_id,
            class: packet.class,
        }
    }

    /// The engine with both endpoints of `packet` ensured.
    pub open spec fn with_endpoints(self, packet: DataPacket, addr: PeerAddr, now: u64) -> EngineView {
        self.ensure_node(
            packet.src_node_id,
            packet.desc,
            inferred_domain(packet.src_node_id),
            addr,
            now,
            true,
            false,
        ).ensure_node(
            packet.dst_node_id,
            placeholder_desc(inferred_domain(packet.dst_node_id)),
            inferred_domain(packet.dst_node_id),
            addr,
            now,
            false,
            false,
        )
    }

    /// Route slot of `packet`, from the domains of its two endpoint nodes.
    pub open spec fn route_of(self, packet: DataPacket) -> int {
        route_slot(self.node(packet.src_node_id).domain, self.node(packet.dst_node_id).domain)
    }

    /// The engine with `packet` added to the global counters.
    pub open spec fn counted(self, packet: DataPacket, route: int) -> EngineView {
        let class = packet.class.ordinal();
        let bytes = packet.declared_bytes as u64;
        EngineView {
            total_packets: self.total_packets.saturating_add(1),
            total_bytes: self.total_bytes.saturating_add(bytes),
            packets_by_class: bumped(self.packets_by_class, class, 1),
            bytes_by_class: bumped(self.bytes_by_class, class, bytes),
            route_packets: bumped(self.route_packets, route, 1),
            route_bytes: bumped(self.route_bytes, route, bytes),
            ..self
        }
    }

    /// The engine with `packet` accounted on its source node.
    pub open spec fn with_source(self, packet: DataPacket, addr: PeerAddr, now: u64, route: int) -> EngineView {
        let i = self.node_index(packet.src_node_id);
        EngineView { nodes: self.nodes.update(i, self.nodes[i].sent(packet, addr, now, route)), ..self }
    }

    /// The engine with `packet` accounted on its edge, which is created
    /// first where it does not exist.
    pub open spec fn with_edge(self, packet: DataPacket, now: u64) -> EngineView {
        let key = Self::edge_key(packet);
        if self.has_edge(key) {
            let i = self.edge_index(key);
            EngineView { edges: self.edges.update(i, self.edges[i].hit(packet, now)), ..self }
        } else {
            EngineView {
                edges: self.edges.push(
                    EdgeView::fresh(key, now, self.rate_window_secs).hit(packet, now),
                ),
                ..self
            }
        }
    }

    /// The engine with a latency sample accounted on the source node and
    /// the edge of `packet`.
    pub open spec fn with_latency(self, packet: DataPacket, latency_us: u64) -> EngineView {
        let n = self.node_index(packet.src_node_id);
        let e = self.edge_index(Self::edge_key(packet));
        EngineView {
            nodes: self.nodes.update(n, self.nodes[n].sampled(latency_us)),
            edges: self.edges.update(e, self.edges[e].sampled(latency_us)),
            ..self
        }
    }

    /// The engine after `packet` arrived from `addr` at monotonic time `now`
    /// while the wall clock read `server_timestamp_us`.
    ///
    /// A packet that needs a node the cap does not allow changes nothing.
    /// A latency sample is taken only where the sender's timestamp is not
    /// ahead of the wall clock.
    pub open spec fn ingest(
        self,
        packet: DataPacket,
        addr: PeerAddr,
        now: u64,
        server_timestamp_us: u64,
    ) -> EngineView {
        if !self.accepts(packet) {
            self
        } else {
            let ensured = self.with_endpoints(packet, addr, now);
            let route = ensured.route_of(packet);
            let counted = ensured.counted(packet, route).with_source(packet, addr, now, route).with_edge(
                packet,
                now,
            );
            if server_timestamp_us >= packet.timestamp_us {
                counted.with_latency(packet, (server_timestamp_us - packet.timestamp_us) as u64)
            } else {
                counted
            }
        }
    }

    /// The engine after every arrival of `arrivals` was ingested in order.
    pub open spec fn ingest_all(self, arrivals: Seq<Arrival>) -> EngineView
        decreases arrivals.len(),
    {
        if arrivals.len() == 0 {
            self
        } else {
            self.ingest_all(arrivals.drop_last()).ingest(
                arrivals.last().packet,
                arrivals.last().addr,
                arrivals.last().now,
                arrivals.last().server_timestamp_us,
            )
        }
    }

    /// Every arrival of `arrivals` is accepted when its turn comes.
    pub open spec fn accepts_all(self, arrivals: Seq<Arrival>) -> bool {
        forall|i: int|
            0 <= i < arrivals.len() ==> self.ingest_all(arrivals.take(i)).accepts(
                (#[trigger] arrivals[i]).packet,
            )
    }

    // -- snapshots -----------------------------------------------------------

    pub open spec fn global_stats(self) -> GlobalStats {
        self.global_stats_at(self.nodes.len())
    }

    /// The global statistics with `unique_clients` given as the number of
    /// live nodes.
    pub open spec fn global_stats_at(self, unique_clients: nat) -> GlobalStats {
        GlobalStats {
            total_packets: self.total_packets,
            total_bytes: self.total_bytes,
            packets_by_class: self.packets_by_class,
            bytes_by_class: self.bytes_by_class,
            route_stats: [
                RouteStats { packets: self.route_packets[0], bytes: self.route_bytes[0] },
                RouteStats { packets: self.route_packets[1], bytes: self.route_bytes[1] },
                RouteStats { packets: self.route_packets[2], bytes: self.route_bytes[2] },
                RouteStats { packets: self.route_packets[3], bytes: self.route_bytes[3] },
            ],
            unique_clients: unique_clients as usize,
        }
    }

    /// The topology snapshot taken at monotonic time `now` while the wall
    /// clock reads `epoch_us`.
    pub open spec fn topology(self, now: u64, epoch_us: u64) -> TopologySnapshotView {
        let ttl = activity_ttl_us(self.rate_window_secs);
        TopologySnapshotView {
            snapshot_seq: self.snapshot_seq.saturating_add(1),
            snapshot_timestamp_epoch_us: epoch_us,
            snapshot_interval_us: epoch_us.saturating_sub(self.last_topology_epoch_us),
            nodes: Seq::new(self.nodes.len(), |i: int| self.nodes[i].snapshot(now, ttl)),
            edges: Seq::new(self.edges.len(), |i: int| self.edges[i].snapshot(now, ttl)),
            removed_nodes: self.removed_nodes,
            removed_edges: self.removed_edges,
            global_stats: self.global_stats(),
        }
    }

    /// The engine after the topology snapshot of [`Self::topology`] was
    /// taken: the pending removals are handed out, and every edge starts a
    /// new reporting window.
    pub open spec fn after_topology(self, now: u64, epoch_us: u64) -> EngineView {
        EngineView {
            snapshot_seq: self.snapshot_seq.saturating_add(1),
            last_topology_epoch_us: epoch_us,
            edges: Seq::new(self.edges.len(), |i: int| self.edges[i].reported(now)),
            removed_nodes: Seq::empty(),
            removed_edges: Seq::empty(),
            ..self
        }
    }

    /// The analytics snapshot taken at monotonic time `now`.
    pub open spec fn analytics(self, now: u64) -> AnalyticsSnapshotView {
        AnalyticsSnapshotView {
            snapshot_timestamp_us: now,
            server_uptime_us: now,
            global_stats: self.global_stats(),
            per_client_stats: Seq::new(self.nodes.len(), |i: int| self.nodes[i].client_stats(now)),
        }
    }
}

} // verus!

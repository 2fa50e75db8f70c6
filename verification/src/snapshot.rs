//! Point-in-time renderings of the telemetry engine's state.
//!
//! Rates, means and loss fractions are carried as exact quotients of two
//! integers; smoothed latencies are carried in whole nanoseconds. A consumer
//! that wants a decimal figure divides at the edge.

use vstd::prelude::*;
use crate::protocol::{EdgeId, NodeDomain, NodeId, PeerAddr, TrafficClass};

verus! {

/// The non-negative quotient `numerator / denominator`.
#[derive(Debug, Clone, Copy)]
pub struct Ratio {
    pub numerator: u64,
    pub denominator: u64,
}

/// The signed quotient `numerator / denominator`.
#[derive(Debug, Clone, Copy)]
pub struct SignedRatio {
    pub numerator: i128,
    pub denominator: u64,
}

impl Ratio {
    /// The quotient that stands for "no data": zero over one.
    pub open spec fn zero() -> Ratio {
        Ratio { numerator: 0, denominator: 1 }
    }

    /// `self - earlier`, for two quotients over the same denominator.
    pub open spec fn minus(self, earlier: Ratio) -> SignedRatio {
        SignedRatio {
            numerator: (self.numerator - earlier.numerator) as i128,
            denominator: self.denominator,
        }
    }

    pub fn difference(self, earlier: Ratio) -> (delta: SignedRatio)
        ensures
            delta == self.minus(earlier),
    {
        SignedRatio {
            numerator: self.numerator as i128 - earlier.numerator as i128,
            denominator: self.denominator,
        }
    }
}

/// Graph-first snapshot for force-directed topology visualisers.
#[derive(Debug, Clone)]
pub struct TopologySnapshot {
    /// Counter that lets consumers detect dropped snapshots.
    pub snapshot_seq: u64,
    /// Wall clock at snapshot time, microseconds since the Unix epoch.
    pub snapshot_timestamp_epoch_us: u64,
    /// Wall-clock time since the previous snapshot, in microseconds.
    pub snapshot_interval_us: u64,
    pub nodes: Vec<NodeSnapshot>,
    pub edges: Vec<EdgeSnapshot>,
    /// Nodes removed since the previous topology snapshot.
    pub removed_nodes: Vec<NodeId>,
    /// Edges removed since the previous topology snapshot.
    pub removed_edges: Vec<EdgeId>,
    pub global_stats: GlobalStats,
}

/// Mathematical content of a [`TopologySnapshot`].
pub struct TopologySnapshotView {
    pub snapshot_seq: u64,
    pub snapshot_timestamp_epoch_us: u64,
    pub snapshot_interval_us: u64,
    pub nodes: Seq<NodeSnapshot>,
    pub edges: Seq<EdgeSnapshot>,
    pub removed_nodes: Seq<NodeId>,
    pub removed_edges: Seq<EdgeId>,
    pub global_stats: GlobalStats,
}

impl View for TopologySnapshot {
    type V = TopologySnapshotView;

    open spec fn view(&self) -> TopologySnapshotView {
        TopologySnapshotView {
            snapshot_seq: self.snapshot_seq,
            snapshot_timestamp_epoch_us: self.snapshot_timestamp_epoch_us,
            snapshot_interval_us: self.snapshot_interval_us,
            nodes: self.nodes@,
            edges: self.edges@,
            removed_nodes: self.removed_nodes@,
            removed_edges: self.removed_edges@,
            global_stats: self.global_stats,
        }
    }
}

#[derive(Debug, Clone, Copy)]
pub struct NodeSnapshot {
    pub node_id: NodeId,
    pub desc: [u8; 16],
    pub domain: NodeDomain,
    pub first_seen_us: u64,
    pub last_seen_us: u64,
    pub active: bool,
    pub total_packets: u64,
    pub total_bytes: u64,
    /// Packets per second over the rate window, all classes together.
    pub total_pps: Ratio,
    /// Bytes per second over the rate window, all classes together.
    pub total_bps: Ratio,
    pub latency: LatencyMetrics,
    pub loss: LossMetrics,
}

#[derive(Debug, Clone, Copy)]
pub struct EdgeSnapshot {
    pub edge_id: EdgeId,
    pub src_node_id: NodeId,
    pub dst_node_id: NodeId,
    pub class: TrafficClass,
    pub packets: u64,
    pub bytes: u64,
    pub packets_per_second: Ratio,
    pub bytes_per_second: Ratio,
    /// Change of `packets_per_second` since the previous topology snapshot.
    pub delta_packets_per_second: SignedRatio,
    /// Change of `bytes_per_second` since the previous topology snapshot.
    pub delta_bytes_per_second: SignedRatio,
    /// Smoothed one-way latency, nanoseconds.
    pub latency_ewma_ns: u64,
    /// Last latency sample minus the smoothed latency, nanoseconds.
    pub latency_delta_ns: i128,
    /// Smoothed latency variation, nanoseconds.
    pub jitter_ewma_ns: u64,
    /// Sequence numbers missed over packets seen since the previous
    /// topology snapshot.
    pub loss_rate_window: Ratio,
    pub active: bool,
}

/// Flat, per-client analytics snapshot.
#[derive(Debug, Clone)]
pub struct AnalyticsSnapshot {
    pub snapshot_timestamp_us: u64,
    pub server_uptime_us: u64,
    pub global_stats: GlobalStats,
    pub per_client_stats: Vec<ClientStats>,
}

/// Mathematical content of an [`AnalyticsSnapshot`].
pub struct AnalyticsSnapshotView {
    pub snapshot_timestamp_us: u64,
    pub server_uptime_us: u64,
    pub global_stats: GlobalStats,
    pub per_client_stats: Seq<ClientStats>,
}

impl View for AnalyticsSnapshot {
    type V = AnalyticsSnapshotView;

    open spec fn view(&self) -> AnalyticsSnapshotView {
        AnalyticsSnapshotView {
            snapshot_timestamp_us: self.snapshot_timestamp_us,
            server_uptime_us: self.server_uptime_us,
            global_stats: self.global_stats,
            per_client_stats: self.per_client_stats@,
        }
    }
}

#[derive(Debug, Clone, Copy)]
pub struct GlobalStats {
    pub total_packets: u64,
    pub total_bytes: u64,
    /// Packets by traffic class, in ordinal order.
    pub packets_by_class: [u64; 4],
    /// Bytes by traffic class, in ordinal order.
    pub bytes_by_class: [u64; 4],
    /// Packets and bytes by route: internal to internal, internal to
    /// external, external to internal, external to external.
    pub route_stats: [RouteStats; 4],
    /// Number of live nodes.
    pub unique_clients: usize,
}

#[derive(Debug, Clone, Copy)]
pub struct ClientStats {
    pub node_id: [u8; 16],
    pub desc: [u8; 16],
    pub addr: PeerAddr,
    pub first_seen_us: u64,
    pub last_seen_us: u64,
    pub session_duration_us: u64,
    pub class_stats: [ClassStats; 4],
    pub latency: LatencyMetrics,
    pub loss: LossMetrics,
    pub route_stats: [RouteStats; 4],
}

#[derive(Debug, Clone, Copy)]
pub struct RouteStats {
    pub packets: u64,
    pub bytes: u64,
}

impl Default for RouteStats {
    fn default() -> (stats: RouteStats)
        ensures
            stats == (RouteStats { packets: 0, bytes: 0 }),
    {
        RouteStats { packets: 0, bytes: 0 }
    }
}

#[derive(Debug, Clone, Copy)]
pub struct ClassStats {
    pub packets: u64,
    pub bytes: u64,
    pub packets_per_second: Ratio,
    pub bytes_per_second: Ratio,
}

#[derive(Debug, Clone, Copy)]
pub struct LatencyMetrics {
    /// Smallest sample, or `u64::MAX` while there is none.
    pub min_rtt_us: u64,
    pub max_rtt_us: u64,
    pub mean_rtt_us: Ratio,
    /// Mean absolute difference between consecutive samples.
    pub mean_jitter_us: Ratio,
    pub samples: u64,
}

#[derive(Debug, Clone, Copy)]
pub struct LossMetrics {
    /// Sequence numbers that never arrived.
    pub missing_sequences: u64,
    pub out_of_order: u64,
    pub duplicates: u64,
    /// Number of gaps; one gap may cover many sequence numbers.
    pub total_gaps: usize,
}

impl Default for LossMetrics {
    fn default() -> (metrics: LossMetrics)
        ensures
            metrics == (LossMetrics {
                missing_sequences: 0,
                out_of_order: 0,
                duplicates: 0,
                total_gaps: 0,
            }),
    {
        LossMetrics { missing_sequences: 0, out_of_order: 0, duplicates: 0, total_gaps: 0 }
    }
}

} // verus!

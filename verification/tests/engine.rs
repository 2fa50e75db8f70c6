use traffic_telemetry::engine::{
    domain_desc, edge_id_from_key, infer_domain, route_index, AnalyticsManager,
};
use traffic_telemetry::engine_model::EdgeKey;
use traffic_telemetry::protocol::{
    make_data_packet_with_endpoints, make_register_node_packet, make_unregister_node_packet,
    now_timestamp_us, DataPacket, EndpointDomain, IpAddress, NodeDomain, NodeId, PeerAddr,
    TrafficClass,
};
use traffic_telemetry::protocol::WireMessage;
use traffic_telemetry::snapshot::{EdgeSnapshot, TopologySnapshot};
use traffic_telemetry::wire_message::{decode_message, encode_message};

const SECOND: u64 = 1_000_000;
const MILLI: u64 = 1_000;

fn id(text: &str) -> NodeId {
    let mut out = [0u8; 16];
    out.copy_from_slice(text.as_bytes());
    out
}

fn test_addr() -> PeerAddr {
    PeerAddr { ip: IpAddress::V4([127, 0, 0, 1]), port: 41001 }
}

fn register_node(analytics: &mut AnalyticsManager, node_id: NodeId, domain: NodeDomain, now: u64) {
    let desc = if domain == NodeDomain::External {
        id("node-external---")
    } else {
        id("node-internal---")
    };
    let register = make_register_node_packet(node_id, desc, domain);
    analytics.on_node_registered(&register, test_addr(), now);
}

fn data_packet(
    src: NodeId,
    dst: NodeId,
    global_seq: u32,
    class_seq: u32,
    class: TrafficClass,
    declared_bytes: u32,
    desc: [u8; 16],
) -> DataPacket {
    make_data_packet_with_endpoints(
        src,
        dst,
        src,
        global_seq,
        class_seq,
        class,
        declared_bytes,
        EndpointDomain::Internal,
        EndpointDomain::External,
        desc,
    )
}

fn find_edge<'a>(
    snapshot: &'a TopologySnapshot,
    src: NodeId,
    dst: NodeId,
    class: TrafficClass,
) -> Option<&'a EdgeSnapshot> {
    snapshot
        .edges
        .iter()
        .find(|edge| edge.src_node_id == src && edge.dst_node_id == dst && edge.class == class)
}

#[test]
fn register_creates_node_with_stable_domain() {
    let mut analytics = AnalyticsManager::new(5, 100);
    let now: u64 = SECOND;
    let src_node_id: NodeId = id("NODE-ALPHA-00001");
    let dst_node_id: NodeId = id("NODE-BRAVO-00002");
    let addr = test_addr();

    let src_desc = id("probe-node------");
    let dst_desc = id("target-node-----");
    let src_register = make_register_node_packet(src_node_id, src_desc, NodeDomain::External);
    let dst_register = make_register_node_packet(dst_node_id, dst_desc, NodeDomain::Internal);
    analytics.on_node_registered(&src_register, addr, now);
    analytics.on_node_registered(&dst_register, addr, now);

    let packet = data_packet(src_node_id, dst_node_id, 1, 1, TrafficClass::Api, 1200, src_desc);
    analytics.on_packet_received(addr, &packet, now + 10 * MILLI);

    let snapshot = analytics.export_topology_snapshot(now + 20 * MILLI);
    let src = snapshot
        .nodes
        .iter()
        .find(|node| node.node_id == src_node_id)
        .expect("source node should exist");
    assert_eq!(src.domain, NodeDomain::External);
}

#[test]
fn data_packet_creates_or_updates_edge() {
    let mut analytics = AnalyticsManager::new(5, 100);
    let now: u64 = SECOND;
    let src_node_id: NodeId = id("NODE-EDGEA-00001");
    let dst_node_id: NodeId = id("NODE-EDGEB-00002");
    let src_desc = id("src-node--------");
    let addr = test_addr();

    register_node(&mut analytics, src_node_id, NodeDomain::Internal, now);
    register_node(&mut analytics, dst_node_id, NodeDomain::External, now);

    let packet1 = data_packet(src_node_id, dst_node_id, 10, 1, TrafficClass::Api, 1000, src_desc);
    let ack1 = analytics.on_packet_received(addr, &packet1, now + 10 * MILLI);
    assert_eq!(ack1.original_seq, 10);

    let packet2 = data_packet(src_node_id, dst_node_id, 11, 2, TrafficClass::Api, 2000, src_desc);
    let ack2 = analytics.on_packet_received(addr, &packet2, now + 20 * MILLI);
    assert_eq!(ack2.original_seq, 11);

    let packet3 =
        data_packet(src_node_id, dst_node_id, 12, 1, TrafficClass::HealthCheck, 300, src_desc);
    analytics.on_packet_received(addr, &packet3, now + 30 * MILLI);

    let snapshot = analytics.export_topology_snapshot(now + 40 * MILLI);
    let api_edge = find_edge(&snapshot, src_node_id, dst_node_id, TrafficClass::Api)
        .expect("api edge should exist");
    assert_eq!(api_edge.packets, 2);
    assert_eq!(api_edge.bytes, 3000);

    let health_edge = find_edge(&snapshot, src_node_id, dst_node_id, TrafficClass::HealthCheck)
        .expect("health edge should exist");
    assert_eq!(health_edge.packets, 1);
}

#[test]
fn cleanup_expires_nodes_and_edges_and_emits_removed_ids() {
    let mut analytics = AnalyticsManager::new(5, 100);
    let now: u64 = SECOND;
    let src_node_id: NodeId = id("NODE-CLEAN-00001");
    let dst_node_id: NodeId = id("NODE-CLEAN-00002");
    let src_desc = id("cleanup-source--");
    let addr = test_addr();

    register_node(&mut analytics, src_node_id, NodeDomain::Internal, now);
    register_node(&mut analytics, dst_node_id, NodeDomain::External, now);

    let packet =
        data_packet(src_node_id, dst_node_id, 1, 1, TrafficClass::Background, 1200, src_desc);
    analytics.on_packet_received(addr, &packet, now + 10 * MILLI);

    let cleanup_time = now + 2 * SECOND;
    analytics.cleanup_stale(SECOND, SECOND, cleanup_time);
    let snapshot = analytics.export_topology_snapshot(cleanup_time);

    assert!(snapshot.nodes.is_empty());
    assert!(snapshot.edges.is_empty());
    assert_eq!(snapshot.removed_nodes.len(), 2);
    assert!(snapshot.removed_nodes.contains(&src_node_id));
    assert!(snapshot.removed_nodes.contains(&dst_node_id));
    assert_eq!(snapshot.removed_edges.len(), 1);
}

#[test]
fn snapshot_contains_delta_rates_and_latency_trends() {
    let mut analytics = AnalyticsManager::new(5, 100);
    let now: u64 = SECOND;
    let src_node_id: NodeId = id("NODE-LATEN-00001");
    let dst_node_id: NodeId = id("NODE-LATEN-00002");
    let src_desc = id("latency-source--");
    let addr = test_addr();

    register_node(&mut analytics, src_node_id, NodeDomain::Internal, now);
    register_node(&mut analytics, dst_node_id, NodeDomain::External, now);

    let mut packet1 =
        data_packet(src_node_id, dst_node_id, 1, 1, TrafficClass::Api, 1200, src_desc);
    packet1.timestamp_us = now_timestamp_us().saturating_sub(100_000);
    analytics.on_packet_received(addr, &packet1, now + 10 * MILLI);

    let snapshot1 = analytics.export_topology_snapshot(now + 100 * MILLI);
    let edge1 = find_edge(&snapshot1, src_node_id, dst_node_id, TrafficClass::Api)
        .expect("edge should exist in snapshot1");
    assert!(edge1.packets_per_second.numerator > 0);
    assert!(edge1.packets_per_second.denominator > 0);
    assert!(edge1.latency_ewma_ns > 0);

    let mut packet2 =
        data_packet(src_node_id, dst_node_id, 2, 2, TrafficClass::Api, 1200, src_desc);
    packet2.timestamp_us = now_timestamp_us().saturating_sub(1_000);
    analytics.on_packet_received(addr, &packet2, now + 900 * MILLI);

    let snapshot2 = analytics.export_topology_snapshot(now + SECOND);
    let edge2 = find_edge(&snapshot2, src_node_id, dst_node_id, TrafficClass::Api)
        .expect("edge should exist in snapshot2");
    assert_ne!(edge2.delta_packets_per_second.numerator, 0);
    assert_ne!(edge2.latency_delta_ns, 0);
    assert!(edge2.jitter_ewma_ns > 0);
}

#[test]
fn basic_ack_and_topology() {
    let a = id("NODE-ALPHA-00001");
    let b = id("NODE-BRAVO-00002");
    let mut analytics = AnalyticsManager::new_at(5, 100, 1_000);
    register_node(&mut analytics, a, NodeDomain::Internal, 0);
    register_node(&mut analytics, b, NodeDomain::External, 0);
    let mut packet = data_packet(a, b, 1, 1, TrafficClass::Api, 1200, id("probe-node------"));
    packet.timestamp_us = 5_000;
    let ack = analytics.on_packet_received_at(test_addr(), &packet, 10 * MILLI, 9_000);
    assert_eq!(ack.original_seq, 1);
    assert_eq!(ack.server_timestamp_us, 9_000);
    assert_eq!(ack.server_processing_us, 0);

    let snapshot = analytics.export_topology_snapshot_at(20 * MILLI, 21_000);
    assert_eq!(snapshot.snapshot_seq, 1);
    assert_eq!(snapshot.snapshot_timestamp_epoch_us, 21_000);
    assert_eq!(snapshot.snapshot_interval_us, 20_000);
    assert!(snapshot.nodes.iter().any(|n| n.domain == NodeDomain::External));
    assert_eq!(snapshot.nodes.len(), 2);
    assert_eq!(snapshot.edges.len(), 1);
    let edge = &snapshot.edges[0];
    assert_eq!(edge.src_node_id, a);
    assert_eq!(edge.dst_node_id, b);
    assert_eq!(edge.class, TrafficClass::Api);
    assert_eq!(edge.packets, 1);
    assert_eq!(edge.bytes, 1200);
    assert_eq!(edge.packets_per_second.numerator, 1);
    assert_eq!(edge.packets_per_second.denominator, 5);
    assert_eq!(edge.bytes_per_second.numerator, 1200);
    assert_eq!(edge.delta_packets_per_second.numerator, 1);
    assert_eq!(edge.latency_ewma_ns, 4_000_000);
    assert_eq!(edge.latency_delta_ns, 0);
    assert_eq!(edge.jitter_ewma_ns, 0);
    assert_eq!(edge.loss_rate_window.numerator, 0);
    assert!(edge.active);
    assert_eq!(edge.edge_id, edge_id_from_key(EdgeKey { src_node_id: a, dst_node_id: b, class: TrafficClass::Api }));

    let global = snapshot.global_stats;
    assert_eq!(global.total_packets, 1);
    assert_eq!(global.total_bytes, 1200);
    assert_eq!(global.packets_by_class, [1, 0, 0, 0]);
    assert_eq!(global.bytes_by_class, [1200, 0, 0, 0]);
    assert_eq!(global.route_stats[1].packets, 1);
    assert_eq!(global.route_stats[1].bytes, 1200);
    assert_eq!(global.route_stats[0].packets, 0);
    assert_eq!(global.unique_clients, 2);

    let source = snapshot.nodes.iter().find(|n| n.node_id == a).unwrap();
    assert_eq!(source.total_packets, 1);
    assert_eq!(source.total_bytes, 1200);
    assert_eq!(source.first_seen_us, 0);
    assert_eq!(source.last_seen_us, 10 * MILLI);
    assert_eq!(source.latency.samples, 1);
    assert_eq!(source.latency.min_rtt_us, 4_000);
    assert_eq!(source.latency.max_rtt_us, 4_000);
    assert_eq!(source.latency.mean_rtt_us.numerator, 4_000);
    assert_eq!(source.latency.mean_rtt_us.denominator, 1);
    assert_eq!(source.desc, id("probe-node------"));
    let target = snapshot.nodes.iter().find(|n| n.node_id == b).unwrap();
    assert_eq!(target.last_seen_us, 10 * MILLI);
    assert_eq!(target.total_packets, 0);
    assert_eq!(target.latency.samples, 0);
    assert_eq!(target.latency.min_rtt_us, u64::MAX);
    assert_eq!(target.desc, id("node-external---"));
}

#[test]
fn mixed_classes_make_one_edge_each() {
    let a = id("NODE-ALPHA-00001");
    let b = id("NODE-BRAVO-00002");
    let mut analytics = AnalyticsManager::new_at(5, 100, 0);
    register_node(&mut analytics, a, NodeDomain::Internal, 0);
    register_node(&mut analytics, b, NodeDomain::External, 0);
    let classes = [
        TrafficClass::Api,
        TrafficClass::HeavyCompute,
        TrafficClass::Background,
        TrafficClass::HealthCheck,
    ];
    for (i, class) in classes.iter().enumerate() {
        let packet = data_packet(a, b, i as u32, 0, *class, 1200, id("probe-node------"));
        analytics.on_packet_received_at(test_addr(), &packet, 1_000, 0);
    }
    let snapshot = analytics.export_topology_snapshot_at(2_000, 0);
    assert_eq!(snapshot.edges.len(), 4);
    for class in classes.iter() {
        let edge = find_edge(&snapshot, a, b, *class).expect("one edge per class");
        assert_eq!(edge.packets, 1);
        assert_eq!(edge.bytes, 1200);
    }
    assert_eq!(snapshot.global_stats.packets_by_class, [1, 1, 1, 1]);
}

#[test]
fn gap_then_recovery_shows_in_loss_metrics() {
    let a = id("NODE-ALPHA-00001");
    let b = id("NODE-BRAVO-00002");
    let mut analytics = AnalyticsManager::new_at(5, 100, 0);
    for (i, seq) in [1u32, 2, 5, 6].iter().enumerate() {
        let packet = data_packet(a, b, i as u32, *seq, TrafficClass::Api, 100, id("gap-node--------"));
        analytics.on_packet_received_at(test_addr(), &packet, 1_000 * i as u64, 0);
    }
    let snapshot = analytics.export_topology_snapshot_at(10_000, 0);
    let source = snapshot.nodes.iter().find(|n| n.node_id == a).unwrap();
    assert_eq!(source.loss.missing_sequences, 2);
    assert_eq!(source.loss.total_gaps, 1);
    assert_eq!(source.loss.out_of_order, 0);
    assert_eq!(source.loss.duplicates, 0);
    let edge = find_edge(&snapshot, a, b, TrafficClass::Api).unwrap();
    assert_eq!(edge.loss_rate_window.numerator, 2);
    assert_eq!(edge.loss_rate_window.denominator, 4);

    let again = analytics.export_topology_snapshot_at(11_000, 0);
    let edge = find_edge(&again, a, b, TrafficClass::Api).unwrap();
    assert_eq!(edge.loss_rate_window.numerator, 0);
    assert_eq!(edge.loss_rate_window.denominator, 1);
    assert_eq!(edge.delta_packets_per_second.numerator, 0);
}

#[test]
fn removal_is_reported_in_exactly_one_snapshot() {
    let a = id("NODE-ALPHA-00001");
    let b = id("NODE-BRAVO-00002");
    let mut analytics = AnalyticsManager::new_at(5, 100, 0);
    register_node(&mut analytics, a, NodeDomain::Internal, 0);
    register_node(&mut analytics, b, NodeDomain::External, 0);
    let packet = data_packet(a, b, 1, 1, TrafficClass::Api, 1200, id("probe-node------"));
    analytics.on_packet_received_at(test_addr(), &packet, 1_000, 0);

    let first = analytics.export_topology_snapshot_at(2_000, 10);
    assert_eq!(first.nodes.len(), 2);
    assert_eq!(first.edges.len(), 1);
    assert!(first.removed_nodes.is_empty());
    assert!(first.removed_edges.is_empty());
    let edge_id = first.edges[0].edge_id;

    analytics.on_node_unregistered(&make_unregister_node_packet(a), 3_000);

    let second = analytics.export_topology_snapshot_at(4_000, 20);
    assert_eq!(second.removed_nodes, vec![a]);
    assert_eq!(second.removed_edges, vec![edge_id]);
    assert!(second.edges.iter().all(|e| e.src_node_id != a));
    assert!(second.edges.is_empty());
    assert_eq!(second.nodes.len(), 1);
    assert_eq!(second.snapshot_seq, 2);

    let third = analytics.export_topology_snapshot_at(5_000, 30);
    assert!(third.removed_nodes.is_empty());
    assert!(third.removed_edges.is_empty());
    assert_eq!(third.snapshot_seq, 3);
    assert_eq!(third.snapshot_interval_us, 10);
}

#[test]
fn unregistering_an_unknown_node_changes_nothing() {
    let mut analytics = AnalyticsManager::new_at(5, 100, 0);
    register_node(&mut analytics, id("NODE-ALPHA-00001"), NodeDomain::Internal, 0);
    analytics.on_node_unregistered(&make_unregister_node_packet(id("NODE-OTHER-00009")), 1);
    let snapshot = analytics.export_topology_snapshot_at(2, 0);
    assert_eq!(snapshot.nodes.len(), 1);
    assert!(snapshot.removed_nodes.is_empty());
}

#[test]
fn stale_expiry_at_two_seconds() {
    let a = id("NODE-ALPHA-00001");
    let b = id("NODE-BRAVO-00002");
    let mut analytics = AnalyticsManager::new_at(5, 100, 0);
    register_node(&mut analytics, a, NodeDomain::Internal, 0);
    register_node(&mut analytics, b, NodeDomain::External, 0);
    let packet = data_packet(a, b, 1, 1, TrafficClass::Api, 1200, id("probe-node------"));
    analytics.on_packet_received_at(test_addr(), &packet, 0, 0);
    analytics.cleanup_stale(SECOND, SECOND, 2 * SECOND);
    let snapshot = analytics.export_topology_snapshot_at(2 * SECOND, 0);
    assert!(snapshot.nodes.is_empty());
    assert!(snapshot.edges.is_empty());
    assert_eq!(snapshot.removed_nodes, vec![a, b]);
    assert_eq!(snapshot.removed_edges.len(), 1);
}

#[test]
fn cleanup_keeps_what_is_fresh_and_drops_stale_edges_alone() {
    let a = id("NODE-ALPHA-00001");
    let b = id("NODE-BRAVO-00002");
    let c = id("NODE-CHARL-00003");
    let mut analytics = AnalyticsManager::new_at(5, 100, 0);
    let early = data_packet(a, b, 1, 1, TrafficClass::Api, 10, id("probe-node------"));
    analytics.on_packet_received_at(test_addr(), &early, 0, 0);
    // A and B are seen again through another edge; the first edge is not.
    let late = data_packet(a, b, 2, 1, TrafficClass::Background, 10, id("probe-node------"));
    analytics.on_packet_received_at(test_addr(), &late, 3 * SECOND, 0);
    register_node(&mut analytics, c, NodeDomain::Internal, 0);

    analytics.cleanup_stale_clients(2 * SECOND, 4 * SECOND);
    let snapshot = analytics.export_topology_snapshot_at(4 * SECOND, 0);
    assert_eq!(snapshot.nodes.len(), 2);
    assert_eq!(snapshot.removed_nodes, vec![c]);
    assert_eq!(snapshot.edges.len(), 1);
    assert_eq!(snapshot.edges[0].class, TrafficClass::Background);
    assert_eq!(
        snapshot.removed_edges,
        vec![edge_id_from_key(EdgeKey { src_node_id: a, dst_node_id: b, class: TrafficClass::Api })]
    );
}

#[test]
fn cap_turns_new_nodes_away_but_not_known_ones() {
    let a = id("NODE-ALPHA-00001");
    let b = id("NODE-BRAVO-00002");
    let c = id("NODE-CHARL-00003");
    let mut analytics = AnalyticsManager::new_at(5, 2, 0);
    register_node(&mut analytics, a, NodeDomain::Internal, 0);
    register_node(&mut analytics, b, NodeDomain::External, 0);
    register_node(&mut analytics, c, NodeDomain::External, 0);
    let snapshot = analytics.export_topology_snapshot_at(1, 0);
    assert_eq!(snapshot.nodes.len(), 2);
    assert!(snapshot.nodes.iter().all(|n| n.node_id != c));
    assert_eq!(snapshot.global_stats.unique_clients, 2);

    // A packet that needs a third node is dropped whole.
    let dropped = data_packet(a, c, 7, 1, TrafficClass::Api, 500, id("probe-node------"));
    let ack = analytics.on_packet_received_at(test_addr(), &dropped, 10, 0);
    assert_eq!(ack.original_seq, 7);
    let snapshot = analytics.export_topology_snapshot_at(11, 0);
    assert_eq!(snapshot.nodes.len(), 2);
    assert!(snapshot.edges.is_empty());
    assert_eq!(snapshot.global_stats.total_packets, 0);

    // Known nodes keep accepting packets at the cap.
    let kept = data_packet(a, b, 8, 1, TrafficClass::Api, 500, id("probe-node------"));
    analytics.on_packet_received_at(test_addr(), &kept, 20, 0);
    let snapshot = analytics.export_topology_snapshot_at(21, 0);
    assert_eq!(snapshot.edges.len(), 1);
    assert_eq!(snapshot.global_stats.total_packets, 1);

    // Registering a known node again refreshes it.
    let again = make_register_node_packet(a, id("renamed---------"), NodeDomain::External);
    analytics.on_node_registered(&again, test_addr(), 30);
    let snapshot = analytics.export_topology_snapshot_at(31, 0);
    let node = snapshot.nodes.iter().find(|n| n.node_id == a).unwrap();
    assert_eq!(node.desc, id("renamed---------"));
    assert_eq!(node.domain, NodeDomain::External);
    assert_eq!(node.first_seen_us, 0);
    assert_eq!(node.last_seen_us, 30);
}

#[test]
fn implicit_nodes_get_inferred_domain_and_placeholder_desc() {
    let src = id("peere-xyz-000001");
    let dst = id("peeri-xyz-000002");
    let mut analytics = AnalyticsManager::new_at(5, 100, 0);
    let packet = data_packet(src, dst, 1, 1, TrafficClass::HeavyCompute, 64, id("implicit-source-"));
    analytics.on_packet_received_at(test_addr(), &packet, 5, 0);
    let snapshot = analytics.export_topology_snapshot_at(6, 0);
    let source = snapshot.nodes.iter().find(|n| n.node_id == src).unwrap();
    let target = snapshot.nodes.iter().find(|n| n.node_id == dst).unwrap();
    assert_eq!(source.domain, NodeDomain::External);
    assert_eq!(source.desc, id("implicit-source-"));
    assert_eq!(target.domain, NodeDomain::Internal);
    assert_eq!(target.desc, id("internal-node---"));
    // External to internal is route slot 2.
    assert_eq!(snapshot.global_stats.route_stats[2].packets, 1);
    assert_eq!(snapshot.global_stats.route_stats[2].bytes, 64);
}

#[test]
fn plain_rules() {
    assert_eq!(infer_domain(id("peere-----------")), NodeDomain::External);
    assert_eq!(infer_domain(id("peeri-----------")), NodeDomain::Internal);
    assert_eq!(infer_domain(id("peerx-----------")), NodeDomain::Internal);
    assert_eq!(infer_domain(id("NODE-ALPHA-00001")), NodeDomain::Internal);
    assert_eq!(domain_desc(NodeDomain::Internal), id("internal-node---"));
    assert_eq!(domain_desc(NodeDomain::External), id("external-node---"));
    assert_eq!(route_index(NodeDomain::Internal, NodeDomain::Internal), 0);
    assert_eq!(route_index(NodeDomain::Internal, NodeDomain::External), 1);
    assert_eq!(route_index(NodeDomain::External, NodeDomain::Internal), 2);
    assert_eq!(route_index(NodeDomain::External, NodeDomain::External), 3);
}

#[test]
fn edge_ids_are_stable_and_tell_keys_apart() {
    let a = id("NODE-ALPHA-00001");
    let b = id("NODE-BRAVO-00002");
    let key = EdgeKey { src_node_id: a, dst_node_id: b, class: TrafficClass::Api };
    let same = EdgeKey { src_node_id: a, dst_node_id: b, class: TrafficClass::Api };
    let reversed = EdgeKey { src_node_id: b, dst_node_id: a, class: TrafficClass::Api };
    let other_class = EdgeKey { src_node_id: a, dst_node_id: b, class: TrafficClass::Background };
    assert_eq!(edge_id_from_key(key), edge_id_from_key(same));
    assert_ne!(edge_id_from_key(key), edge_id_from_key(reversed));
    assert_ne!(edge_id_from_key(key), edge_id_from_key(other_class));
    let id = edge_id_from_key(key);
    assert_ne!(&id[..8], &id[8..]);
}

#[test]
fn delta_rates_and_latency_across_snapshots() {
    let a = id("NODE-ALPHA-00001");
    let b = id("NODE-BRAVO-00002");
    let mut analytics = AnalyticsManager::new_at(5, 100, 0);
    let mut first = data_packet(a, b, 1, 1, TrafficClass::Api, 1200, id("probe-node------"));
    first.timestamp_us = 1_000_000;
    analytics.on_packet_received_at(test_addr(), &first, 10 * MILLI, 1_100_000);
    let one = analytics.export_topology_snapshot_at(100 * MILLI, 0);
    let edge = find_edge(&one, a, b, TrafficClass::Api).unwrap();
    assert_eq!(edge.packets_per_second.numerator, 1);
    assert_eq!(edge.latency_ewma_ns, 100_000_000);

    let mut second = data_packet(a, b, 2, 2, TrafficClass::Api, 1200, id("probe-node------"));
    second.timestamp_us = 2_000_000;
    analytics.on_packet_received_at(test_addr(), &second, 900 * MILLI, 2_001_000);
    let two = analytics.export_topology_snapshot_at(SECOND, 0);
    let edge = find_edge(&two, a, b, TrafficClass::Api).unwrap();
    assert_eq!(edge.packets_per_second.numerator, 2);
    assert_eq!(edge.delta_packets_per_second.numerator, 1);
    assert_eq!(edge.delta_bytes_per_second.numerator, 1200);
    assert_eq!(edge.delta_packets_per_second.denominator, 5);
    // (1_000_000 + 4 * 100_000_000) / 5
    assert_eq!(edge.latency_ewma_ns, 80_200_000);
    assert_eq!(edge.jitter_ewma_ns, 99_000_000);
    assert_eq!(edge.latency_delta_ns, 1_000_000 - 80_200_000);

    // A sender whose clock is ahead yields no sample.
    let mut skewed = data_packet(a, b, 3, 3, TrafficClass::Api, 1200, id("probe-node------"));
    skewed.timestamp_us = 9_000_000;
    analytics.on_packet_received_at(test_addr(), &skewed, 950 * MILLI, 2_002_000);
    let three = analytics.export_topology_snapshot_at(SECOND, 0);
    let edge = find_edge(&three, a, b, TrafficClass::Api).unwrap();
    assert_eq!(edge.latency_ewma_ns, 80_200_000);
    let source = three.nodes.iter().find(|n| n.node_id == a).unwrap();
    assert_eq!(source.latency.samples, 2);
    assert_eq!(source.latency.mean_jitter_us.numerator, 99_000);
    assert_eq!(source.latency.mean_jitter_us.denominator, 1);
}

#[test]
fn activity_flag_follows_three_windows() {
    let a = id("NODE-ALPHA-00001");
    let mut analytics = AnalyticsManager::new_at(2, 100, 0);
    register_node(&mut analytics, a, NodeDomain::Internal, 0);
    let active = analytics.export_topology_snapshot_at(6 * SECOND - 1, 0);
    assert!(active.nodes[0].active);
    let idle = analytics.export_topology_snapshot_at(6 * SECOND, 0);
    assert!(!idle.nodes[0].active);
}

#[test]
fn analytics_snapshot_lists_clients() {
    let a = id("NODE-ALPHA-00001");
    let b = id("NODE-BRAVO-00002");
    let mut analytics = AnalyticsManager::new_at(5, 100, 0);
    register_node(&mut analytics, a, NodeDomain::Internal, 100);
    let mut packet = data_packet(a, b, 1, 1, TrafficClass::Background, 700, id("probe-node------"));
    packet.timestamp_us = 0;
    analytics.on_packet_received_at(test_addr(), &packet, 400, 50);
    let snapshot = analytics.export_snapshot(1_000);
    assert_eq!(snapshot.snapshot_timestamp_us, 1_000);
    assert_eq!(snapshot.server_uptime_us, 1_000);
    assert_eq!(snapshot.global_stats.total_packets, 1);
    assert_eq!(snapshot.global_stats.unique_clients, 2);
    assert_eq!(snapshot.per_client_stats.len(), 2);
    let client = &snapshot.per_client_stats[0];
    assert_eq!(client.node_id, a);
    assert_eq!(client.first_seen_us, 100);
    assert_eq!(client.last_seen_us, 400);
    assert_eq!(client.session_duration_us, 300);
    assert_eq!(client.addr.port, 41001);
    assert_eq!(client.class_stats[2].packets, 1);
    assert_eq!(client.class_stats[2].bytes, 700);
    assert_eq!(client.class_stats[2].packets_per_second.numerator, 1);
    assert_eq!(client.class_stats[2].packets_per_second.denominator, 5);
    assert_eq!(client.class_stats[0].packets, 0);
    assert_eq!(client.route_stats[0].packets, 1);
    assert_eq!(client.latency.samples, 1);
    assert_eq!(client.latency.min_rtt_us, 50);
    assert_eq!(client.loss.total_gaps, 0);
}

#[test]
fn request_topology_wire_roundtrip_includes_graph_state() {
    let mut analytics = AnalyticsManager::new(5, 100);
    let now: u64 = SECOND;
    let node_id = id("NODE-ALPHA-00001");
    let dst_node_id = id("NODE-BRAVO-00002");
    let desc = id("probe-node------");
    let addr = test_addr();

    let register = make_register_node_packet(node_id, desc, NodeDomain::Internal);
    analytics.on_node_registered(&register, addr, now);
    register_node(&mut analytics, dst_node_id, NodeDomain::External, now);

    let packet = data_packet(node_id, dst_node_id, 1, 1, TrafficClass::Api, 1200, desc);
    let ack = analytics.on_packet_received(addr, &packet, now);
    assert_eq!(ack.original_seq, 1);

    let req_bytes = encode_message(&WireMessage::RequestTopology).expect("request should encode");
    let req = decode_message(&req_bytes).expect("request should decode");
    let response = match req {
        WireMessage::RequestTopology => {
            WireMessage::Topology(analytics.export_topology_snapshot(now + 1))
        }
        _ => panic!("expected topology request"),
    };

    let res_bytes = encode_message(&response).expect("response should encode");
    let decoded = decode_message(&res_bytes).expect("response should decode");
    match decoded {
        WireMessage::Topology(snapshot) => {
            assert!(snapshot.snapshot_seq >= 1);
            assert_eq!(snapshot.global_stats.total_packets, 1);
            assert!(snapshot.nodes.iter().any(|n| n.node_id == node_id));
            assert!(!snapshot.edges.is_empty());
            assert!(snapshot
                .edges
                .iter()
                .any(|e| e.src_node_id == node_id && e.class == TrafficClass::Api));
        }
        _ => panic!("expected topology response"),
    }
}

#[test]
fn staleness_starts_exactly_at_the_time_to_live() {
    let a = id("NODE-ALPHA-00001");
    let mut analytics = AnalyticsManager::new_at(5, 100, 0);
    register_node(&mut analytics, a, NodeDomain::Internal, 500);
    analytics.cleanup_stale(SECOND, SECOND, 500 + SECOND - 1);
    assert_eq!(analytics.export_topology_snapshot_at(0, 0).nodes.len(), 1);
    analytics.cleanup_stale(SECOND, SECOND, 500 + SECOND);
    let snapshot = analytics.export_topology_snapshot_at(0, 0);
    assert!(snapshot.nodes.is_empty());
    assert_eq!(snapshot.removed_nodes, vec![a]);
    // A clock that runs behind the last sighting removes nothing.
    register_node(&mut analytics, a, NodeDomain::Internal, 10 * SECOND);
    analytics.cleanup_stale(1, 1, 0);
    assert_eq!(analytics.export_topology_snapshot_at(0, 0).nodes.len(), 1);
    // A time to live of zero removes everything.
    analytics.cleanup_stale(0, 0, 0);
    assert!(analytics.export_topology_snapshot_at(0, 0).nodes.is_empty());
}

#[test]
fn a_node_may_send_to_itself() {
    let a = id("NODE-ALPHA-00001");
    let mut analytics = AnalyticsManager::new_at(5, 1, 0);
    let packet = data_packet(a, a, 1, 1, TrafficClass::Api, 10, id("loop-node-------"));
    analytics.on_packet_received_at(test_addr(), &packet, 5, 0);
    let snapshot = analytics.export_topology_snapshot_at(6, 0);
    assert_eq!(snapshot.nodes.len(), 1);
    assert_eq!(snapshot.edges.len(), 1);
    assert_eq!(snapshot.edges[0].src_node_id, a);
    assert_eq!(snapshot.edges[0].dst_node_id, a);
    assert_eq!(snapshot.global_stats.route_stats[0].packets, 1);
    analytics.on_node_unregistered(&make_unregister_node_packet(a), 7);
    let snapshot = analytics.export_topology_snapshot_at(8, 0);
    assert_eq!(snapshot.removed_nodes, vec![a]);
    assert_eq!(snapshot.removed_edges.len(), 1);
    assert!(snapshot.edges.is_empty());
}

#[test]
fn a_packet_that_needs_two_nodes_needs_room_for_both() {
    let a = id("NODE-ALPHA-00001");
    let b = id("NODE-BRAVO-00002");
    let mut analytics = AnalyticsManager::new_at(5, 1, 0);
    let packet = data_packet(a, b, 1, 1, TrafficClass::Api, 10, id("probe-node------"));
    analytics.on_packet_received_at(test_addr(), &packet, 5, 0);
    let snapshot = analytics.export_topology_snapshot_at(6, 0);
    assert!(snapshot.nodes.is_empty());
    assert!(snapshot.edges.is_empty());
    assert_eq!(snapshot.global_stats.total_packets, 0);
    assert_eq!(snapshot.global_stats.unique_clients, 0);
}

#[test]
fn smoothed_latency_rounds_down() {
    let a = id("NODE-ALPHA-00001");
    let b = id("NODE-BRAVO-00002");
    let mut analytics = AnalyticsManager::new_at(5, 100, 0);
    // Samples of 3, 1, 1, 2 and 2 us: 3000, 2600, 2280, 2224 and, rounded
    // down from 2179.2, 2179 nanoseconds.
    for (seq, latency) in [(1u32, 3u64), (2, 1), (3, 1), (4, 2), (5, 2)] {
        let mut packet = data_packet(a, b, seq, seq, TrafficClass::Api, 10, id("probe-node------"));
        packet.timestamp_us = 100;
        analytics.on_packet_received_at(test_addr(), &packet, seq as u64, 100 + latency);
    }
    let snapshot = analytics.export_topology_snapshot_at(10, 0);
    let edge = &snapshot.edges[0];
    assert_eq!(edge.latency_ewma_ns, 2_179);
    assert_eq!(edge.latency_delta_ns, 2_000 - 2_179);
    // Jitter samples 2000, 0, 1000 and 0: 2000, 1600, 1480, 1184.
    assert_eq!(edge.jitter_ewma_ns, 1_184);
    // A sample larger than nanoseconds can say saturates.
    let mut packet = data_packet(a, b, 6, 6, TrafficClass::Api, 10, id("probe-node------"));
    packet.timestamp_us = 0;
    analytics.on_packet_received_at(test_addr(), &packet, 11, u64::MAX);
    let snapshot = analytics.export_topology_snapshot_at(12, 0);
    let edge = &snapshot.edges[0];
    assert_eq!(edge.latency_ewma_ns, ((u64::MAX as u128 + 4 * 2_179) / 5) as u64);
    let source = snapshot.nodes.iter().find(|n| n.node_id == a).unwrap();
    assert_eq!(source.latency.max_rtt_us, u64::MAX);
    assert_eq!(source.latency.mean_rtt_us.numerator, u64::MAX);
}

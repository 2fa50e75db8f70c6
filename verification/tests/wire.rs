use traffic_telemetry::engine::AnalyticsManager;
use traffic_telemetry::protocol::{
    make_data_packet, make_data_packet_with_endpoints, make_register_node_packet,
    make_unregister_node_packet, synthetic_domain_node_id, AckPacket, DataPacket, EdgeId,
    EndpointDomain, IpAddress, NodeDomain, NodeId, PeerAddr, TrafficClass, WireMessage,
};
use traffic_telemetry::snapshot::{
    AnalyticsSnapshot, ClassStats, ClientStats, EdgeSnapshot, GlobalStats, LatencyMetrics,
    LossMetrics, NodeSnapshot, Ratio, RouteStats, SignedRatio, TopologySnapshot,
};
use traffic_telemetry::wire_message::{decode_message, encode_message, WireError};

fn id(text: &str) -> NodeId {
    let mut out = [0u8; 16];
    out.copy_from_slice(text.as_bytes());
    out
}

fn test_addr() -> PeerAddr {
    PeerAddr { ip: IpAddress::V4([127, 0, 0, 1]), port: 59090 }
}

fn data_packet(
    src: NodeId,
    dst: NodeId,
    global_seq: u32,
    class_seq: u32,
    class: TrafficClass,
    declared_bytes: u32,
    desc: [u8; 16],
) -> DataPacket {
    make_data_packet_with_endpoints(
        src,
        dst,
        src,
        global_seq,
        class_seq,
        class,
        declared_bytes,
        EndpointDomain::Internal,
        EndpointDomain::External,
        desc,
    )
}

#[test]
fn round_trip_data_message() {
    let node_id: NodeId = id("ABCDEFGHIJLMNOPQ");
    let desc: [u8; 16] = id("test-node-------");
    let msg = WireMessage::Data(make_data_packet(
        node_id,
        10,
        5,
        TrafficClass::Background,
        1200,
        EndpointDomain::External,
        EndpointDomain::Internal,
        desc,
    ));
    let bytes = encode_message(&msg).expect("should encode");
    let decoded = decode_message(&bytes).expect("should decode");
    match decoded {
        WireMessage::Data(packet) => {
            assert_eq!(packet.src_node_id, node_id);
            assert_eq!(packet.dst_node_id, synthetic_domain_node_id(EndpointDomain::Internal));
            assert_eq!(packet.node_id, node_id);
            assert_eq!(packet.global_seq, 10);
            assert_eq!(packet.class_seq, 5);
            assert_eq!(packet.class, TrafficClass::Background);
            assert_eq!(packet.declared_bytes, 1200);
            assert_eq!(packet.src_domain, EndpointDomain::External);
            assert_eq!(packet.dst_domain, EndpointDomain::Internal);
            assert_eq!(packet.desc, desc);
        }
        _ => panic!("expected data message"),
    }
}

#[test]
fn round_trip_register_node_message() {
    let node_id: NodeId = id("ABCDEFGHIJLMNOPQ");
    let desc: [u8; 16] = id("test-node-------");
    let msg =
        WireMessage::RegisterNode(make_register_node_packet(node_id, desc, NodeDomain::Internal));
    let bytes = encode_message(&msg).expect("should encode");
    let decoded = decode_message(&bytes).expect("should decode");
    match decoded {
        WireMessage::RegisterNode(packet) => {
            assert_eq!(packet.node_id, node_id);
            assert_eq!(packet.desc, desc);
            assert_eq!(packet.domain, NodeDomain::Internal);
        }
        _ => panic!("expected register-node message"),
    }
}

fn sample_topology() -> TopologySnapshot {
    let node_id: NodeId = id("ABCDEFGHIJLMNOPQ");
    let edge_id: EdgeId = id("QRSTUVWXYZABCDEF");
    TopologySnapshot {
        snapshot_seq: 1,
        snapshot_timestamp_epoch_us: 123_456,
        snapshot_interval_us: 10_000,
        nodes: vec![NodeSnapshot {
            node_id,
            desc: id("test-node-------"),
            domain: NodeDomain::Internal,
            first_seen_us: 10,
            last_seen_us: 20,
            active: true,
            total_packets: 1,
            total_bytes: 1200,
            total_pps: Ratio { numerator: 1, denominator: 5 },
            total_bps: Ratio { numerator: 1200, denominator: 5 },
            latency: LatencyMetrics {
                min_rtt_us: 100,
                max_rtt_us: 100,
                mean_rtt_us: Ratio { numerator: 100, denominator: 1 },
                mean_jitter_us: Ratio { numerator: 0, denominator: 1 },
                samples: 1,
            },
            loss: LossMetrics { missing_sequences: 0, out_of_order: 0, duplicates: 0, total_gaps: 0 },
        }],
        edges: vec![EdgeSnapshot {
            edge_id,
            src_node_id: node_id,
            dst_node_id: synthetic_domain_node_id(EndpointDomain::Internal),
            class: TrafficClass::Api,
            packets: 1,
            bytes: 1200,
            packets_per_second: Ratio { numerator: 1, denominator: 5 },
            bytes_per_second: Ratio { numerator: 1200, denominator: 5 },
            delta_packets_per_second: SignedRatio { numerator: 1, denominator: 5 },
            delta_bytes_per_second: SignedRatio { numerator: 1200, denominator: 5 },
            latency_ewma_ns: 100_000,
            latency_delta_ns: 0,
            jitter_ewma_ns: 0,
            loss_rate_window: Ratio { numerator: 0, denominator: 1 },
            active: true,
        }],
        removed_nodes: Vec::new(),
        removed_edges: Vec::new(),
        global_stats: GlobalStats {
            total_packets: 1,
            total_bytes: 1200,
            packets_by_class: [1, 0, 0, 0],
            bytes_by_class: [1200, 0, 0, 0],
            route_stats: [
                RouteStats { packets: 0, bytes: 0 },
                RouteStats { packets: 0, bytes: 0 },
                RouteStats { packets: 1, bytes: 1200 },
                RouteStats { packets: 0, bytes: 0 },
            ],
            unique_clients: 1,
        },
    }
}

#[test]
fn round_trip_topology_message() {
    let edge_id: EdgeId = id("QRSTUVWXYZABCDEF");
    let msg = WireMessage::Topology(sample_topology());
    let bytes = encode_message(&msg).expect("should encode");
    let decoded = decode_message(&bytes).expect("should decode");
    match decoded {
        WireMessage::Topology(decoded_snapshot) => {
            assert_eq!(decoded_snapshot.snapshot_seq, 1);
            assert_eq!(decoded_snapshot.nodes.len(), 1);
            assert_eq!(decoded_snapshot.edges.len(), 1);
            assert_eq!(decoded_snapshot.edges[0].edge_id, edge_id);
        }
        _ => panic!("expected topology message"),
    }
}

#[test]
fn topology_round_trip_keeps_every_field() {
    let mut snapshot = sample_topology();
    snapshot.removed_nodes = vec![id("REMOVED-NODE-001"), id("REMOVED-NODE-002")];
    snapshot.removed_edges = vec![id("REMOVED-EDGE-001")];
    snapshot.edges[0].latency_delta_ns = -79_200_000;
    snapshot.edges[0].delta_packets_per_second = SignedRatio { numerator: -3, denominator: 5 };
    snapshot.edges[0].delta_bytes_per_second =
        SignedRatio { numerator: i128::MIN, denominator: u64::MAX };
    snapshot.edges[0].active = false;
    snapshot.nodes[0].domain = NodeDomain::External;
    snapshot.nodes[0].loss =
        LossMetrics { missing_sequences: 7, out_of_order: 8, duplicates: 9, total_gaps: 10 };
    let bytes = encode_message(&WireMessage::Topology(snapshot.clone())).unwrap();
    // tag, head of 176 bytes, one node, one edge, four counts, three ids
    assert_eq!(bytes.len(), 1 + 176 + 186 + 194 + 4 * 4 + 3 * 16);
    assert_eq!(bytes[0], 5);
    let decoded = match decode_message(&bytes).unwrap() {
        WireMessage::Topology(decoded) => decoded,
        _ => panic!("expected topology message"),
    };
    assert_eq!(format!("{:?}", decoded), format!("{:?}", snapshot));
    assert_eq!(encode_message(&WireMessage::Topology(decoded)).unwrap(), bytes);
}

#[test]
fn analytics_round_trip_keeps_every_field() {
    let client = ClientStats {
        node_id: id("CLIENT-NODE-0001"),
        desc: id("client-desc-----"),
        addr: PeerAddr {
            ip: IpAddress::V6([1, 2, 3, 4, 5, 6, 7, 8, 9, 10, 11, 12, 13, 14, 15, 16]),
            port: 4242,
        },
        first_seen_us: 1,
        last_seen_us: 2,
        session_duration_us: 1,
        class_stats: [
            ClassStats {
                packets: 1,
                bytes: 2,
                packets_per_second: Ratio { numerator: 3, denominator: 4 },
                bytes_per_second: Ratio { numerator: 5, denominator: 6 },
            },
            ClassStats {
                packets: 7,
                bytes: 8,
                packets_per_second: Ratio { numerator: 9, denominator: 10 },
                bytes_per_second: Ratio { numerator: 11, denominator: 12 },
            },
            ClassStats {
                packets: 0,
                bytes: 0,
                packets_per_second: Ratio { numerator: 0, denominator: 5 },
                bytes_per_second: Ratio { numerator: 0, denominator: 5 },
            },
            ClassStats {
                packets: u64::MAX,
                bytes: u64::MAX,
                packets_per_second: Ratio { numerator: u64::MAX, denominator: 1 },
                bytes_per_second: Ratio { numerator: 1, denominator: u64::MAX },
            },
        ],
        latency: LatencyMetrics {
            min_rtt_us: u64::MAX,
            max_rtt_us: 0,
            mean_rtt_us: Ratio { numerator: 0, denominator: 1 },
            mean_jitter_us: Ratio { numerator: 0, denominator: 1 },
            samples: 0,
        },
        loss: LossMetrics { missing_sequences: 1, out_of_order: 2, duplicates: 3, total_gaps: 4 },
        route_stats: [
            RouteStats { packets: 1, bytes: 10 },
            RouteStats { packets: 2, bytes: 20 },
            RouteStats { packets: 3, bytes: 30 },
            RouteStats { packets: 4, bytes: 40 },
        ],
    };
    let mut second = client;
    second.addr = test_addr();
    let snapshot = AnalyticsSnapshot {
        snapshot_timestamp_us: 77,
        server_uptime_us: 78,
        global_stats: sample_topology().global_stats,
        per_client_stats: vec![client, second],
    };
    let bytes = encode_message(&WireMessage::Analytics(snapshot.clone())).unwrap();
    assert_eq!(bytes.len(), 1 + 168 + 4 + 2 * 419);
    assert_eq!(bytes[0], 7);
    let decoded = match decode_message(&bytes).unwrap() {
        WireMessage::Analytics(decoded) => decoded,
        _ => panic!("expected analytics message"),
    };
    assert_eq!(format!("{:?}", decoded), format!("{:?}", snapshot));
}

#[test]
fn small_messages_have_a_fixed_layout() {
    let ack = AckPacket { original_seq: 0x0403_0201, server_timestamp_us: 5, server_processing_us: 6 };
    let bytes = encode_message(&WireMessage::Ack(ack)).unwrap();
    assert_eq!(bytes, vec![3, 1, 2, 3, 4, 5, 0, 0, 0, 0, 0, 0, 0, 6, 0, 0, 0]);
    match decode_message(&bytes).unwrap() {
        WireMessage::Ack(read) => {
            assert_eq!(read.original_seq, 0x0403_0201);
            assert_eq!(read.server_timestamp_us, 5);
            assert_eq!(read.server_processing_us, 6);
        }
        _ => panic!("expected an acknowledgement"),
    }
    assert_eq!(encode_message(&WireMessage::RequestTopology).unwrap(), vec![4]);
    assert_eq!(encode_message(&WireMessage::RequestAnalytics).unwrap(), vec![6]);
    assert!(matches!(decode_message(&[4]), Ok(WireMessage::RequestTopology)));
    assert!(matches!(decode_message(&[6]), Ok(WireMessage::RequestAnalytics)));

    let mut unregister = make_unregister_node_packet(id("ABCDEFGHIJLMNOPQ"));
    unregister.timestamp_us = 0x0102;
    let bytes = encode_message(&WireMessage::UnregisterNode(unregister)).unwrap();
    assert_eq!(bytes.len(), 25);
    assert_eq!(bytes[0], 1);
    assert_eq!(&bytes[1..17], b"ABCDEFGHIJLMNOPQ");
    assert_eq!(&bytes[17..], &[2, 1, 0, 0, 0, 0, 0, 0]);
    match decode_message(&bytes).unwrap() {
        WireMessage::UnregisterNode(read) => {
            assert_eq!(read.node_id, id("ABCDEFGHIJLMNOPQ"));
            assert_eq!(read.timestamp_us, 0x0102);
        }
        _ => panic!("expected an unregister message"),
    }

    let register = make_register_node_packet(id("ABCDEFGHIJLMNOPQ"), id("d---------------"), NodeDomain::External);
    let bytes = encode_message(&WireMessage::RegisterNode(register)).unwrap();
    assert_eq!(bytes.len(), 42);
    assert_eq!(bytes[0], 0);
    assert_eq!(bytes[33], 1);
    let data = data_packet(id("ABCDEFGHIJLMNOPQ"), id("QRSTUVWXYZABCDEF"), 1, 2, TrafficClass::HealthCheck, 3, id("d---------------"));
    let bytes = encode_message(&WireMessage::Data(data)).unwrap();
    assert_eq!(bytes.len(), 88);
    assert_eq!(bytes[0], 2);
    assert_eq!(bytes[57], 3);
}

#[test]
fn malformed_bytes_are_turned_down() {
    assert_eq!(decode_message(&[]).err(), Some(WireError::Malformed));
    assert_eq!(decode_message(&[8]).err(), Some(WireError::Malformed));
    assert_eq!(decode_message(&[255, 0, 0]).err(), Some(WireError::Malformed));
    // A request with something after it.
    assert_eq!(decode_message(&[4, 0]).err(), Some(WireError::Malformed));
    assert_eq!(decode_message(&[6, 6]).err(), Some(WireError::Malformed));

    let ack = AckPacket { original_seq: 1, server_timestamp_us: 2, server_processing_us: 3 };
    let mut bytes = encode_message(&WireMessage::Ack(ack)).unwrap();
    bytes.pop();
    assert_eq!(decode_message(&bytes).err(), Some(WireError::Malformed));
    bytes.push(0);
    bytes.push(0);
    assert_eq!(decode_message(&bytes).err(), Some(WireError::Malformed));

    let register = make_register_node_packet(id("ABCDEFGHIJLMNOPQ"), id("d---------------"), NodeDomain::Internal);
    let mut bytes = encode_message(&WireMessage::RegisterNode(register)).unwrap();
    bytes[33] = 2;
    assert_eq!(decode_message(&bytes).err(), Some(WireError::Malformed));

    let data = data_packet(id("ABCDEFGHIJLMNOPQ"), id("QRSTUVWXYZABCDEF"), 1, 2, TrafficClass::Api, 3, id("d---------------"));
    let good = encode_message(&WireMessage::Data(data)).unwrap();
    for (at, bad) in [(57usize, 4u8), (70, 2), (71, 9)] {
        let mut bytes = good.clone();
        bytes[at] = bad;
        assert_eq!(decode_message(&bytes).err(), Some(WireError::Malformed));
    }

    let good = encode_message(&WireMessage::Topology(sample_topology())).unwrap();
    // One node announced, none there.
    assert_eq!(decode_message(&good[..181]).err(), Some(WireError::Malformed));
    // A count that promises more than the datagram holds.
    let mut bytes = good.clone();
    bytes[177] = 2;
    assert_eq!(decode_message(&bytes).err(), Some(WireError::Malformed));
    // An unknown domain inside a node.
    let mut bytes = good.clone();
    bytes[181 + 32] = 7;
    assert_eq!(decode_message(&bytes).err(), Some(WireError::Malformed));
    // A flag that is neither zero nor one.
    let mut bytes = good.clone();
    bytes[181 + 49] = 2;
    assert_eq!(decode_message(&bytes).err(), Some(WireError::Malformed));
    // Something after the last list.
    let mut bytes = good.clone();
    bytes.push(0);
    assert_eq!(decode_message(&bytes).err(), Some(WireError::Malformed));
    assert!(decode_message(&good).is_ok());
}

#[test]
fn version_four_addresses_must_be_zero_padded() {
    let mut snapshot = AnalyticsSnapshot {
        snapshot_timestamp_us: 0,
        server_uptime_us: 0,
        global_stats: sample_topology().global_stats,
        per_client_stats: Vec::new(),
    };
    let mut analytics = AnalyticsManager::new_at(5, 10, 0);
    analytics.on_node_registered(
        &make_register_node_packet(id("ABCDEFGHIJLMNOPQ"), id("d---------------"), NodeDomain::Internal),
        test_addr(),
        0,
    );
    snapshot.per_client_stats = analytics.export_snapshot(1).per_client_stats;
    let good = encode_message(&WireMessage::Analytics(snapshot)).unwrap();
    let addr = 1 + 168 + 4 + 32;
    assert_eq!(good[addr], 4);
    assert_eq!(&good[addr + 1..addr + 5], &[127, 0, 0, 1]);
    assert_eq!(&good[addr + 5..addr + 17], &[0u8; 12]);
    assert_eq!(&good[addr + 17..addr + 19], &59090u16.to_le_bytes());
    assert!(decode_message(&good).is_ok());
    let mut bytes = good.clone();
    bytes[addr + 9] = 1;
    assert_eq!(decode_message(&bytes).err(), Some(WireError::Malformed));
    let mut bytes = good.clone();
    bytes[addr] = 5;
    assert_eq!(decode_message(&bytes).err(), Some(WireError::Malformed));
}

fn handle_message(
    analytics: &mut AnalyticsManager,
    message: WireMessage,
    src: PeerAddr,
    now: u64,
) -> Option<WireMessage> {
    match message {
        WireMessage::RegisterNode(packet) => {
            analytics.on_node_registered(&packet, src, now);
            None
        }
        WireMessage::UnregisterNode(packet) => {
            analytics.on_node_unregistered(&packet, now);
            None
        }
        WireMessage::Data(packet) => {
            let ack = analytics.on_packet_received(src, &packet, now);
            Some(WireMessage::Ack(ack))
        }
        WireMessage::RequestTopology => {
            let topology = analytics.export_topology_snapshot(now);
            Some(WireMessage::Topology(topology))
        }
        WireMessage::RequestAnalytics => {
            let snapshot = analytics.export_snapshot(now);
            Some(WireMessage::Analytics(snapshot))
        }
        WireMessage::Ack(_) | WireMessage::Topology(_) | WireMessage::Analytics(_) => None,
    }
}

fn dispatch(
    analytics: &mut AnalyticsManager,
    outbound: WireMessage,
    src: PeerAddr,
    now: u64,
) -> Option<WireMessage> {
    let encoded = encode_message(&outbound).expect("message should encode");
    let decoded = decode_message(&encoded).expect("message should decode");
    let response = handle_message(analytics, decoded, src, now)?;
    let response_bytes = encode_message(&response).expect("response should encode");
    Some(decode_message(&response_bytes).expect("response should decode"))
}

#[test]
fn register_send_remove_request_topology_flow() {
    let mut analytics = AnalyticsManager::new(5, 100);
    let base: u64 = 1_000_000;
    let src = test_addr();

    let src_node_id: NodeId = id("FLOW-SRC-NODE001");
    let dst_node_id: NodeId = id("FLOW-DST-NODE002");
    let src_desc = id("flow-src--------");
    let dst_desc = id("flow-dst--------");

    dispatch(
        &mut analytics,
        WireMessage::RegisterNode(make_register_node_packet(
            src_node_id,
            src_desc,
            NodeDomain::Internal,
        )),
        src,
        base,
    );
    dispatch(
        &mut analytics,
        WireMessage::RegisterNode(make_register_node_packet(
            dst_node_id,
            dst_desc,
            NodeDomain::External,
        )),
        src,
        base + 1_000,
    );

    let packet = data_packet(src_node_id, dst_node_id, 1, 1, TrafficClass::Api, 1200, src_desc);
    let ack = dispatch(&mut analytics, WireMessage::Data(packet), src, base + 10_000)
        .expect("ack expected");
    match ack {
        WireMessage::Ack(packet) => assert_eq!(packet.original_seq, 1),
        _ => panic!("expected ack"),
    }

    let snapshot_before_remove =
        dispatch(&mut analytics, WireMessage::RequestTopology, src, base + 20_000)
            .expect("topology expected");
    let topology_before_remove = match snapshot_before_remove {
        WireMessage::Topology(snapshot) => snapshot,
        _ => panic!("expected topology snapshot"),
    };
    assert!(topology_before_remove.nodes.iter().any(|node| node.node_id == src_node_id));
    assert!(topology_before_remove.nodes.iter().any(|node| node.node_id == dst_node_id));
    assert!(topology_before_remove.edges.iter().any(|edge| {
        edge.src_node_id == src_node_id
            && edge.dst_node_id == dst_node_id
            && edge.class == TrafficClass::Api
    }));

    dispatch(
        &mut analytics,
        WireMessage::UnregisterNode(make_unregister_node_packet(src_node_id)),
        src,
        base + 30_000,
    );

    let snapshot_after_remove =
        dispatch(&mut analytics, WireMessage::RequestTopology, src, base + 40_000)
            .expect("topology expected");
    let topology_after_remove = match snapshot_after_remove {
        WireMessage::Topology(snapshot) => snapshot,
        _ => panic!("expected topology snapshot"),
    };
    assert!(topology_after_remove.removed_nodes.contains(&src_node_id));
    assert!(topology_after_remove.edges.is_empty());
    assert!(!topology_after_remove.removed_edges.is_empty());
}

#[test]
fn analytics_request_is_answered_over_the_wire() {
    let mut analytics = AnalyticsManager::new_at(5, 100, 0);
    let src = test_addr();
    let packet = data_packet(id("FLOW-SRC-NODE001"), id("FLOW-DST-NODE002"), 1, 1, TrafficClass::Api, 1200, id("flow-src--------"));
    dispatch(&mut analytics, WireMessage::Data(packet), src, 10);
    match dispatch(&mut analytics, WireMessage::RequestAnalytics, src, 20) {
        Some(WireMessage::Analytics(snapshot)) => {
            assert_eq!(snapshot.per_client_stats.len(), 2);
            assert_eq!(snapshot.global_stats.total_bytes, 1200);
            assert_eq!(snapshot.per_client_stats[0].addr.port, 59090);
        }
        _ => panic!("expected an analytics snapshot"),
    }
}

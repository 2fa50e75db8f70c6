use std::collections::VecDeque;
use traffic_telemetry::client_state::{
    ActiveProfile, ClientState, ContinuousState, ScheduledSend, TopologyExpectation,
};
use traffic_telemetry::protocol::{
    AckPacket, EndpointDomain, NodeDomain, NodeId, TrafficClass, WireMessage,
};
use traffic_telemetry::scheduler::{
    active_peer, active_peer_node_id, add_peer, add_peer_local, advance_continuous, clear_profile,
    destination_peer, display_topology_snapshot, endpoint_domain_from_node_domain,
    interval_from_rate, make_peer_desc, make_peer_id, next_deadline, next_peer_node_id,
    next_profile_deadline, node_domain_from_endpoint_domain, poll_timeout, receive_ack,
    receive_acks, record_sent, register_self, remove_active_peer, remove_peer, request_topology,
    run_topology_mixed_classes_test, run_topology_removal_test, run_topology_smoke_test,
    schedule_burst, select_first_peer_for_domain, select_or_add_peer_for_domain, select_peer,
    send_continuous_packets, send_data_packet, send_profile_packets, send_scheduled_packets,
    set_profile_burst, set_profile_oscillation, set_profile_ramp, set_profile_steady,
    start_continuous, stop_continuous, unregister_self, update_source_domain,
    validate_topology_expectation, Inbound, TopologyVerdict,
};
use traffic_telemetry::engine::AnalyticsManager;
use traffic_telemetry::protocol::{IpAddress, PeerAddr};

fn id(text: &str) -> NodeId {
    let mut out = [0u8; 16];
    out.copy_from_slice(text.as_bytes());
    out
}

fn fresh() -> ClientState {
    ClientState::new(id("CLIENT-NODE-0001"), id("client-desc-----"))
}

#[test]
fn new_state_has_the_two_default_peers() {
    let state = fresh();
    assert_eq!(state.node_id, id("CLIENT-NODE-0001"));
    assert_eq!(state.node_domain, NodeDomain::External);
    assert_eq!(state.src_domain, EndpointDomain::External);
    assert_eq!(state.dst_domain, EndpointDomain::Internal);
    assert_eq!(state.peers.len(), 2);
    assert_eq!(state.peers[0].node_id, id("peer-internal---"));
    assert_eq!(state.peers[0].desc, id("peer-int-default"));
    assert_eq!(state.peers[0].domain, NodeDomain::Internal);
    assert_eq!(state.peers[1].node_id, id("peer-external---"));
    assert_eq!(state.peers[1].desc, id("peer-ext-default"));
    assert_eq!(state.peers[1].domain, NodeDomain::External);
    assert_eq!(state.active_peer_index, 0);
    assert_eq!(state.next_peer_counter, 1);
    assert_eq!(state.burst_count, 200);
    assert_eq!(state.next_global_seq, 0);
    assert_eq!(state.next_class_seq, [0, 0, 0, 0]);
    assert!(state.queue.is_empty());
    assert!(state.pending_acks.is_empty());
    assert_eq!(state.min_rtt, u64::MAX);
    assert_eq!(state.max_rtt, 0);
    assert!(state.continuous_state.is_none());
    assert!(state.active_profile.is_none());
    assert!(state.pending_topology_expectation.is_none());
}

#[test]
fn domains_convert_both_ways() {
    assert_eq!(endpoint_domain_from_node_domain(NodeDomain::Internal), EndpointDomain::Internal);
    assert_eq!(endpoint_domain_from_node_domain(NodeDomain::External), EndpointDomain::External);
    assert_eq!(node_domain_from_endpoint_domain(EndpointDomain::Internal), NodeDomain::Internal);
    assert_eq!(node_domain_from_endpoint_domain(EndpointDomain::External), NodeDomain::External);
    assert_eq!(NodeDomain::from(EndpointDomain::External), NodeDomain::External);
    assert_eq!(EndpointDomain::from(NodeDomain::Internal), EndpointDomain::Internal);
}

#[test]
fn interval_is_a_second_over_the_rate() {
    assert_eq!(interval_from_rate(80), 12_500);
    assert_eq!(interval_from_rate(1), 1_000_000);
    assert_eq!(interval_from_rate(0), 1_000_000);
    assert_eq!(interval_from_rate(220), 4_545);
    assert_eq!(interval_from_rate(240), 4_166);
}

#[test]
fn peer_desc_is_zero_padded_text() {
    assert_eq!(&make_peer_desc(EndpointDomain::Internal, 1)[..], b"peer-int-000001\0");
    assert_eq!(&make_peer_desc(EndpointDomain::External, 42)[..], b"peer-ext-000042\0");
    assert_eq!(&make_peer_desc(EndpointDomain::External, 999_999)[..], b"peer-ext-999999\0");
    assert_eq!(&make_peer_desc(EndpointDomain::Internal, 1_234_567)[..], b"peer-int-1234567");
    // Longer counters are cut off after sixteen bytes.
    assert_eq!(&make_peer_desc(EndpointDomain::Internal, 12_345_678_901)[..], b"peer-int-1234567");
    assert_eq!(&make_peer_desc(EndpointDomain::Internal, u64::MAX)[..], b"peer-int-1844674");
    assert_eq!(&make_peer_desc(EndpointDomain::Internal, 0)[..], b"peer-int-000000\0");
}

#[test]
fn peer_id_is_built_from_domain_own_id_and_counter() {
    let mut state = fresh();
    state.next_peer_counter = 0x0102_0304_0506_0708;
    let made = make_peer_id(&mut state, EndpointDomain::External);
    assert_eq!(&made[..5], b"peere");
    assert_eq!(&made[5..8], b"CLI");
    assert_eq!(&made[8..], &[1, 2, 3, 4, 5, 6, 7, 8]);
    assert_eq!(state.next_peer_counter, 0x0102_0304_0506_0709);
    let made = make_peer_id(&mut state, EndpointDomain::Internal);
    assert_eq!(&made[..5], b"peeri");
    state.next_peer_counter = u64::MAX;
    make_peer_id(&mut state, EndpointDomain::Internal);
    assert_eq!(state.next_peer_counter, u64::MAX);
}

#[test]
fn added_peer_becomes_active() {
    let mut state = fresh();
    let peer = add_peer_local(&mut state, EndpointDomain::External);
    assert_eq!(state.peers.len(), 3);
    assert_eq!(state.active_peer_index, 2);
    assert_eq!(state.dst_domain, EndpointDomain::External);
    assert_eq!(peer.domain, NodeDomain::External);
    assert_eq!(&peer.desc[..], b"peer-ext-000001\0");
    assert_eq!(&peer.node_id[..8], b"peereCLI");
    assert_eq!(active_peer(&state).unwrap().node_id, peer.node_id);
    assert_eq!(active_peer_node_id(&state), Some(peer.node_id));
    assert_eq!(next_peer_node_id(&state), Some(id("peer-internal---")));

    let register = add_peer(&mut state, NodeDomain::Internal);
    assert_eq!(register.node_id, state.peers[3].node_id);
    assert_eq!(&register.desc[..], b"peer-int-000002\0");
    assert_eq!(register.domain, NodeDomain::Internal);
}

#[test]
fn no_active_peer_when_the_index_is_out_of_range() {
    let mut state = fresh();
    state.active_peer_index = 7;
    assert!(active_peer(&state).is_none());
    assert_eq!(active_peer_node_id(&state), None);
    // (7 + 1) % 2 == 0
    assert_eq!(next_peer_node_id(&state), Some(id("peer-internal---")));
    state.peers.clear();
    assert_eq!(next_peer_node_id(&state), None);
    let notice = remove_active_peer(&mut state);
    assert!(notice.unregister.is_none());
    assert!(notice.register.is_none());
}

#[test]
fn destination_prefers_active_then_first_then_new() {
    let mut state = fresh();
    let peer = destination_peer(&mut state, EndpointDomain::Internal);
    assert_eq!(peer.node_id, id("peer-internal---"));
    assert_eq!(state.active_peer_index, 0);

    let peer = destination_peer(&mut state, EndpointDomain::External);
    assert_eq!(peer.node_id, id("peer-external---"));
    assert_eq!(state.active_peer_index, 1);
    assert_eq!(state.dst_domain, EndpointDomain::External);

    state.peers.remove(0);
    state.active_peer_index = 0;
    let peer = destination_peer(&mut state, EndpointDomain::Internal);
    assert_eq!(&peer.node_id[..5], b"peeri");
    assert_eq!(state.peers.len(), 2);
    assert_eq!(state.active_peer_index, 1);
    assert_eq!(state.dst_domain, EndpointDomain::Internal);
}

#[test]
fn selecting_peers() {
    let mut state = fresh();
    select_peer(&mut state, id("peer-external---"));
    assert_eq!(state.active_peer_index, 1);
    assert_eq!(state.dst_domain, EndpointDomain::External);
    select_peer(&mut state, id("peer-unknown----"));
    assert_eq!(state.active_peer_index, 1);

    let found = select_first_peer_for_domain(&mut state, EndpointDomain::Internal);
    assert_eq!(found.unwrap().node_id, id("peer-internal---"));
    assert_eq!(state.active_peer_index, 0);
    state.peers.remove(1);
    assert!(select_first_peer_for_domain(&mut state, EndpointDomain::External).is_none());
    assert_eq!(state.dst_domain, EndpointDomain::Internal);

    let register = select_or_add_peer_for_domain(&mut state, EndpointDomain::External);
    assert_eq!(register.unwrap().domain, NodeDomain::External);
    assert_eq!(state.active_peer_index, 1);
    assert!(select_or_add_peer_for_domain(&mut state, EndpointDomain::Internal).is_none());
    assert_eq!(state.active_peer_index, 0);
    assert_eq!(state.dst_domain, EndpointDomain::Internal);
}

#[test]
fn removing_peers() {
    let mut state = fresh();
    let notice = remove_peer(&mut state, id("peer-external---"));
    assert_eq!(notice.unregister.unwrap().node_id, id("peer-external---"));
    assert!(notice.register.is_none());
    assert_eq!(state.peers.len(), 1);
    assert_eq!(state.active_peer_index, 0);
    assert_eq!(state.dst_domain, EndpointDomain::Internal);

    let notice = remove_peer(&mut state, id("peer-unknown----"));
    assert!(notice.unregister.is_none());
    assert_eq!(state.peers.len(), 1);

    // Removing the last peer creates an internal one in its place.
    let notice = remove_active_peer(&mut state);
    assert_eq!(notice.unregister.unwrap().node_id, id("peer-internal---"));
    let register = notice.register.unwrap();
    assert_eq!(state.peers.len(), 1);
    assert_eq!(register.node_id, state.peers[0].node_id);
    assert_eq!(register.domain, NodeDomain::Internal);
    assert_eq!(&register.desc[..], b"peer-int-000001\0");
}

#[test]
fn own_registration() {
    let mut state = fresh();
    let register = register_self(&state);
    assert_eq!(register.node_id, state.node_id);
    assert_eq!(register.desc, state.desc);
    assert_eq!(register.domain, NodeDomain::External);
    assert_eq!(unregister_self(&state).node_id, state.node_id);
    assert!(matches!(request_topology(), WireMessage::RequestTopology));
    let register = update_source_domain(&mut state, EndpointDomain::Internal);
    assert_eq!(register.domain, NodeDomain::Internal);
    assert_eq!(state.src_domain, EndpointDomain::Internal);
    assert_eq!(state.node_domain, NodeDomain::Internal);
}

#[test]
fn burst_is_spaced_and_appended_in_order() {
    let mut queue: VecDeque<ScheduledSend> = VecDeque::new();
    schedule_burst(&mut queue, 1_000, 3, 10, TrafficClass::Background, 1200);
    schedule_burst(&mut queue, 5_000, 2, 2, TrafficClass::Api, 64);
    let at: Vec<u64> = queue.iter().map(|entry| entry.at).collect();
    assert_eq!(at, vec![1_000, 11_000, 21_000, 5_000, 7_000]);
    assert_eq!(queue[0].class, TrafficClass::Background);
    assert_eq!(queue[0].declared_bytes, 1200);
    assert_eq!(queue[4].class, TrafficClass::Api);
    assert_eq!(queue[4].declared_bytes, 64);
    schedule_burst(&mut queue, 0, 0, 10, TrafficClass::Api, 1);
    assert_eq!(queue.len(), 5);
}

#[test]
fn burst_deadlines_saturate() {
    let mut queue: VecDeque<ScheduledSend> = VecDeque::new();
    schedule_burst(&mut queue, u64::MAX - 5_000, 3, 4, TrafficClass::Api, 1);
    let at: Vec<u64> = queue.iter().map(|entry| entry.at).collect();
    assert_eq!(at, vec![u64::MAX - 5_000, u64::MAX - 1_000, u64::MAX]);
}

#[test]
fn due_burst_entries_come_out_in_order() {
    let mut state = fresh();
    schedule_burst(&mut state.queue, 100, 3, 1, TrafficClass::Api, 10);
    assert!(send_scheduled_packets(&mut state, 99).is_none());
    assert_eq!(send_scheduled_packets(&mut state, 1_100).unwrap().at, 100);
    assert_eq!(send_scheduled_packets(&mut state, 1_100).unwrap().at, 1_100);
    assert!(send_scheduled_packets(&mut state, 1_100).is_none());
    assert_eq!(state.queue.len(), 1);
}

#[test]
fn profiles_replace_queue_and_continuous_stream() {
    let mut state = fresh();
    schedule_burst(&mut state.queue, 0, 5, 1, TrafficClass::Api, 10);
    start_continuous(&mut state, TrafficClass::Api, 100, 1_000);
    assert!(state.queue.is_empty());
    let stream = state.continuous_state.unwrap();
    assert_eq!(stream.interval, 10_000);
    assert_eq!(stream.next_send_at, 11_000);
    assert_eq!(stream.class, TrafficClass::Api);

    schedule_burst(&mut state.queue, 0, 5, 1, TrafficClass::Api, 10);
    set_profile_steady(&mut state, 2_000);
    assert!(state.queue.is_empty());
    assert!(state.continuous_state.is_none());
    match state.active_profile.unwrap() {
        ActiveProfile::Steady { class, rate, next_send_at } => {
            assert_eq!(class, TrafficClass::Api);
            assert_eq!(rate, 80);
            assert_eq!(next_send_at, 14_500);
        }
        _ => panic!("expected the steady profile"),
    }
    assert_eq!(next_profile_deadline(&state), Some(14_500));

    start_continuous(&mut state, TrafficClass::Background, 1000, 0);
    assert!(state.active_profile.is_none());
    assert_eq!(state.continuous_state.unwrap().interval, 1_000);
    stop_continuous(&mut state);
    assert!(state.continuous_state.is_none());

    set_profile_ramp(&mut state, 0);
    set_profile_burst(&mut state, 50);
    assert!(state.active_profile.is_none());
    assert!(state.continuous_state.is_none());
    assert_eq!(state.queue.len(), 200);
    assert_eq!(state.queue[1].at, 2_050);
    assert_eq!(state.queue[1].class, TrafficClass::Background);
    assert_eq!(next_profile_deadline(&state), None);

    set_profile_oscillation(&mut state, 0);
    assert!(state.queue.is_empty());
    clear_profile(&mut state);
    assert!(state.active_profile.is_none());
}

#[test]
fn steady_profile_catches_up_on_missed_ticks() {
    let mut state = fresh();
    set_profile_steady(&mut state, 0);
    assert_eq!(send_profile_packets(&mut state, 12_499), None);
    // Three ticks (12.5, 25 and 37.5 ms) are due at 40 ms.
    let mut sent = 0;
    while let Some(class) = send_profile_packets(&mut state, 40_000) {
        assert_eq!(class, TrafficClass::Api);
        sent += 1;
    }
    assert_eq!(sent, 3);
    assert_eq!(next_profile_deadline(&state), Some(50_000));
}

#[test]
fn ramp_steps_up_and_wraps_to_the_minimum() {
    let mut state = fresh();
    set_profile_ramp(&mut state, 0);
    let mut rates = Vec::new();
    for second in 1..=12u64 {
        // Exactly at the update deadline: one rate update, maybe sends.
        while send_profile_packets(&mut state, second * 1_000_000).is_some() {}
        match state.active_profile.unwrap() {
            ActiveProfile::Ramp { current_rate, next_rate_update_at, .. } => {
                rates.push(current_rate);
                assert_eq!(next_rate_update_at, (second + 1) * 1_000_000);
            }
            _ => panic!("expected the ramp profile"),
        }
    }
    assert_eq!(rates, vec![40, 60, 80, 100, 120, 140, 160, 180, 200, 220, 20, 40]);
}

#[test]
fn ramp_uses_the_updated_rate_for_the_next_send() {
    let mut state = fresh();
    state.active_profile = Some(ActiveProfile::Ramp {
        class: TrafficClass::HeavyCompute,
        min_rate: 20,
        max_rate: 220,
        step: 20,
        current_rate: 20,
        next_send_at: 1_000_000,
        next_rate_update_at: 1_000_000,
        update_interval: 1_000_000,
    });
    assert_eq!(send_profile_packets(&mut state, 1_000_000), Some(TrafficClass::HeavyCompute));
    match state.active_profile.unwrap() {
        ActiveProfile::Ramp { current_rate, next_send_at, next_rate_update_at, .. } => {
            assert_eq!(current_rate, 40);
            assert_eq!(next_send_at, 1_025_000);
            assert_eq!(next_rate_update_at, 2_000_000);
        }
        _ => panic!("expected the ramp profile"),
    }
    assert_eq!(next_profile_deadline(&state), Some(1_025_000));
}

#[test]
fn oscillation_alternates_between_low_and_high() {
    let mut state = fresh();
    set_profile_oscillation(&mut state, 0);
    let mut seen = Vec::new();
    for second in 1..=4u64 {
        while send_profile_packets(&mut state, second * 1_000_000).is_some() {}
        match state.active_profile.unwrap() {
            ActiveProfile::Oscillation { current_rate, rising, .. } => {
                seen.push((current_rate, rising));
            }
            _ => panic!("expected the oscillation profile"),
        }
    }
    assert_eq!(seen, vec![(240, false), (40, true), (240, false), (40, true)]);
}

#[test]
fn no_profile_sends_nothing() {
    let mut state = fresh();
    assert_eq!(send_profile_packets(&mut state, u64::MAX), None);
    assert!(state.active_profile.is_none());
}

#[test]
fn continuous_stream_is_due_and_advances() {
    let mut state = fresh();
    assert_eq!(send_continuous_packets(&state, 5), None);
    state.continuous_state = Some(ContinuousState {
        class: TrafficClass::HeavyCompute,
        next_send_at: 100,
        interval: 30,
    });
    assert_eq!(send_continuous_packets(&state, 99), None);
    assert_eq!(send_continuous_packets(&state, 100), Some(TrafficClass::HeavyCompute));
    advance_continuous(&mut state);
    assert_eq!(state.continuous_state.unwrap().next_send_at, 130);
    assert_eq!(state.continuous_state.unwrap().interval, 30);
}

#[test]
fn deadline_is_the_earliest_of_the_three_sources() {
    let mut state = fresh();
    assert_eq!(next_deadline(&state), None);
    assert_eq!(poll_timeout(&state, 0), 50_000);
    set_profile_ramp(&mut state, 0);
    assert_eq!(next_deadline(&state), Some(50_000));
    state.continuous_state =
        Some(ContinuousState { class: TrafficClass::Api, next_send_at: 30_000, interval: 1 });
    assert_eq!(next_deadline(&state), Some(30_000));
    schedule_burst(&mut state.queue, 7_000, 2, 1, TrafficClass::Api, 1);
    assert_eq!(next_deadline(&state), Some(7_000));
    assert_eq!(poll_timeout(&state, 0), 7_000);
    assert_eq!(poll_timeout(&state, 6_000), 1_000);
    assert_eq!(poll_timeout(&state, 9_000), 0);
    state.queue.clear();
    state.continuous_state = None;
    state.active_profile = Some(ActiveProfile::Steady {
        class: TrafficClass::Api,
        rate: 1,
        next_send_at: 900_000,
    });
    assert_eq!(poll_timeout(&state, 0), 50_000);
}

#[test]
fn data_packets_carry_the_counters_and_the_destination() {
    let mut state = fresh();
    let packet = send_data_packet(&mut state, TrafficClass::Background, 700, EndpointDomain::External);
    assert_eq!(packet.src_node_id, state.node_id);
    assert_eq!(packet.node_id, state.node_id);
    assert_eq!(packet.dst_node_id, id("peer-external---"));
    assert_eq!(packet.global_seq, 0);
    assert_eq!(packet.class_seq, 0);
    assert_eq!(packet.class, TrafficClass::Background);
    assert_eq!(packet.declared_bytes, 700);
    assert_eq!(packet.src_domain, EndpointDomain::External);
    assert_eq!(packet.dst_domain, EndpointDomain::External);
    assert_eq!(packet.desc, state.desc);
    // Nothing is counted until the packet is recorded as sent.
    assert_eq!(state.next_global_seq, 0);
    record_sent(&mut state, TrafficClass::Background, 4_000);
    assert_eq!(state.next_global_seq, 1);
    assert_eq!(state.next_class_seq, [0, 0, 1, 0]);
    assert_eq!(state.pending_acks.get(&0), Some(&4_000));

    let packet = send_data_packet(&mut state, TrafficClass::Api, 1, EndpointDomain::External);
    assert_eq!(packet.global_seq, 1);
    assert_eq!(packet.class_seq, 0);
    record_sent(&mut state, TrafficClass::Api, 5_000);
    let packet = send_data_packet(&mut state, TrafficClass::Background, 1, EndpointDomain::Internal);
    assert_eq!(packet.global_seq, 2);
    assert_eq!(packet.class_seq, 1);
    assert_eq!(packet.dst_node_id, id("peer-internal---"));
}

#[test]
fn sequence_counters_wrap() {
    let mut state = fresh();
    state.next_global_seq = u32::MAX;
    state.next_class_seq = [7, u32::MAX, 0, 0];
    record_sent(&mut state, TrafficClass::HeavyCompute, 1);
    assert_eq!(state.next_global_seq, 0);
    assert_eq!(state.next_class_seq, [7, 0, 0, 0]);
    assert_eq!(state.pending_acks.get(&u32::MAX), Some(&1));
}

#[test]
fn acknowledgements_update_round_trip_figures() {
    let mut state = fresh();
    record_sent(&mut state, TrafficClass::Api, 1_000);
    record_sent(&mut state, TrafficClass::Api, 2_000);
    let ack = AckPacket { original_seq: 1, server_timestamp_us: 0, server_processing_us: 0 };
    let report = receive_ack(&mut state, &ack, 2_300).unwrap();
    assert_eq!(report.original_seq, 1);
    assert_eq!(report.rtt_us, 300);
    assert_eq!((report.min_rtt_us, report.max_rtt_us, report.sum_rtt_us), (300, 300, 300));
    assert_eq!(report.total_acks, 1);
    // The same acknowledgement again matches nothing.
    assert!(receive_ack(&mut state, &ack, 2_400).is_none());
    assert_eq!(state.total_acks, 1);

    let ack = AckPacket { original_seq: 0, server_timestamp_us: 0, server_processing_us: 0 };
    match receive_acks(&mut state, &WireMessage::Ack(ack), 2_500) {
        Inbound::Ack(report) => {
            assert_eq!(report.rtt_us, 1_500);
            assert_eq!(report.min_rtt_us, 300);
            assert_eq!(report.max_rtt_us, 1_500);
            assert_eq!(report.sum_rtt_us, 1_800);
            assert_eq!(report.total_acks, 2);
        }
        _ => panic!("expected a matched acknowledgement"),
    }
    assert!(state.pending_acks.is_empty());
    assert!(matches!(receive_acks(&mut state, &WireMessage::Ack(ack), 2_600), Inbound::Ignored));
    assert!(matches!(
        receive_acks(&mut state, &WireMessage::RequestTopology, 2_600),
        Inbound::Ignored
    ));
}

fn served(messages: &[WireMessage], analytics: &mut AnalyticsManager, now: u64) {
    let addr = PeerAddr { ip: IpAddress::V4([127, 0, 0, 1]), port: 9 };
    for message in messages {
        match message {
            WireMessage::RegisterNode(packet) => analytics.on_node_registered(packet, addr, now),
            WireMessage::UnregisterNode(packet) => analytics.on_node_unregistered(packet, now),
            WireMessage::Data(packet) => {
                analytics.on_packet_received_at(addr, packet, now, packet.timestamp_us);
            }
            _ => {}
        }
    }
}

#[test]
fn smoke_test_passes_against_the_engine() {
    let mut state = fresh();
    // Without a known external peer the test creates and registers one.
    state.peers.remove(1);
    let mut analytics = AnalyticsManager::new_at(5, 100, 0);
    let messages = run_topology_smoke_test(&mut state, 10);
    assert_eq!(messages.len(), 4);
    assert!(matches!(messages[0], WireMessage::RegisterNode(p) if p.domain == NodeDomain::Internal));
    assert!(matches!(messages[2], WireMessage::Data(p) if p.class == TrafficClass::Api && p.declared_bytes == 1200));
    assert!(matches!(messages[3], WireMessage::RequestTopology));
    assert_eq!(state.next_global_seq, 1);
    assert_eq!(state.node_domain, NodeDomain::Internal);
    assert!(matches!(state.pending_topology_expectation, Some(TopologyExpectation::Smoke { .. })));

    served(&messages, &mut analytics, 10);
    let snapshot = analytics.export_topology_snapshot_at(20, 0);
    match receive_acks(&mut state, &WireMessage::Topology(snapshot), 30) {
        Inbound::Topology(Some(verdict)) => {
            assert_eq!(
                verdict,
                TopologyVerdict::Smoke {
                    node_present: true,
                    edge_present: true,
                    external_node_present: true
                }
            );
            assert!(verdict.pass());
        }
        _ => panic!("expected a verdict"),
    }
    assert!(state.pending_topology_expectation.is_none());
}

#[test]
fn smoke_test_with_an_unregistered_default_peer_finds_no_external_node() {
    let mut state = fresh();
    let mut analytics = AnalyticsManager::new_at(5, 100, 0);
    let messages = run_topology_smoke_test(&mut state, 10);
    assert_eq!(messages.len(), 3);
    served(&messages, &mut analytics, 10);
    let snapshot = analytics.export_topology_snapshot_at(20, 0);
    // The default peer's id does not start with `peere`, so the server
    // takes the node for an internal one.
    let verdict = display_topology_snapshot(&mut state, &snapshot).unwrap();
    assert_eq!(
        verdict,
        TopologyVerdict::Smoke {
            node_present: true,
            edge_present: true,
            external_node_present: false
        }
    );
    assert!(!verdict.pass());
}

#[test]
fn smoke_test_registers_a_peer_it_had_to_create() {
    let mut state = fresh();
    state.peers.remove(1);
    let messages = run_topology_smoke_test(&mut state, 10);
    assert_eq!(messages.len(), 4);
    assert!(matches!(messages[1], WireMessage::RegisterNode(p) if p.domain == NodeDomain::External));
    match (&messages[1], &messages[2]) {
        (WireMessage::RegisterNode(register), WireMessage::Data(data)) => {
            assert_eq!(register.node_id, data.dst_node_id);
        }
        _ => panic!("expected a registration and a data packet"),
    }
}

#[test]
fn removal_test_passes_against_the_engine() {
    let mut state = fresh();
    schedule_burst(&mut state.queue, 0, 3, 1, TrafficClass::Api, 1);
    let mut analytics = AnalyticsManager::new_at(5, 100, 0);
    let messages = run_topology_removal_test(&mut state);
    assert_eq!(messages.len(), 3);
    assert!(state.queue.is_empty());
    served(&messages, &mut analytics, 10);
    let snapshot = analytics.export_topology_snapshot_at(20, 0);
    let verdict = display_topology_snapshot(&mut state, &snapshot).unwrap();
    assert_eq!(verdict, TopologyVerdict::Removal { removed: true });
    // The expectation is used up.
    assert!(display_topology_snapshot(&mut state, &snapshot).is_none());
}

#[test]
fn mixed_classes_test_passes_against_the_engine() {
    let mut state = fresh();
    let mut analytics = AnalyticsManager::new_at(5, 100, 0);
    let messages = run_topology_mixed_classes_test(&mut state, 10);
    assert_eq!(messages.len(), 6);
    let classes: Vec<TrafficClass> = messages
        .iter()
        .filter_map(|m| match m {
            WireMessage::Data(p) => Some(p.class),
            _ => None,
        })
        .collect();
    assert_eq!(
        classes,
        vec![
            TrafficClass::Api,
            TrafficClass::HeavyCompute,
            TrafficClass::Background,
            TrafficClass::HealthCheck
        ]
    );
    assert_eq!(state.next_global_seq, 4);
    assert_eq!(state.next_class_seq, [1, 1, 1, 1]);
    assert_eq!(state.pending_acks.len(), 4);
    served(&messages, &mut analytics, 10);
    let snapshot = analytics.export_topology_snapshot_at(20, 0);
    assert_eq!(snapshot.edges.len(), 4);
    let verdict = display_topology_snapshot(&mut state, &snapshot).unwrap();
    assert_eq!(verdict, TopologyVerdict::MixedClasses { all_classes_present: true });
}

#[test]
fn verdicts_fail_on_an_empty_snapshot() {
    let mut analytics = AnalyticsManager::new_at(5, 100, 0);
    let snapshot = analytics.export_topology_snapshot_at(0, 0);
    let node_id = id("CLIENT-NODE-0001");
    let smoke = validate_topology_expectation(TopologyExpectation::Smoke { node_id }, &snapshot);
    assert_eq!(
        smoke,
        TopologyVerdict::Smoke {
            node_present: false,
            edge_present: false,
            external_node_present: false
        }
    );
    assert!(!smoke.pass());
    let removal = validate_topology_expectation(TopologyExpectation::Removal { node_id }, &snapshot);
    assert!(!removal.pass());
    let mixed =
        validate_topology_expectation(TopologyExpectation::MixedClasses { node_id }, &snapshot);
    assert!(!mixed.pass());
}

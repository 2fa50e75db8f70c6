use traffic_telemetry::protocol::{
    ids_equal, make_data_packet, make_data_packet_with_endpoints, make_register_node_packet,
    make_unregister_node_packet, now_timestamp_us, synthetic_domain_node_id, EndpointDomain,
    NodeDomain, NodeId, TrafficClass,
};

fn id(text: &str) -> NodeId {
    let mut out = [0u8; 16];
    out.copy_from_slice(text.as_bytes());
    out
}

#[test]
fn traffic_class_ordinals_and_labels() {
    let classes = [
        TrafficClass::Api,
        TrafficClass::HeavyCompute,
        TrafficClass::Background,
        TrafficClass::HealthCheck,
    ];
    for (i, class) in classes.iter().enumerate() {
        assert_eq!(class.index(), i);
        assert_eq!(TrafficClass::from_index(i), *class);
    }
    assert_eq!(TrafficClass::from_index(17), TrafficClass::HealthCheck);
    assert_eq!(TrafficClass::Api.label(), "api");
    assert_eq!(TrafficClass::HeavyCompute.label(), "heavy compute");
    assert_eq!(TrafficClass::Background.label(), "background");
    assert_eq!(TrafficClass::HealthCheck.label(), "health check");
}

#[test]
fn synthetic_ids_spell_their_domain() {
    assert_eq!(synthetic_domain_node_id(EndpointDomain::Internal), id("__internal-node_"));
    assert_eq!(synthetic_domain_node_id(EndpointDomain::External), id("__external-node_"));
}

#[test]
fn ids_compare_byte_by_byte() {
    assert!(ids_equal(&id("ABCDEFGHIJLMNOPQ"), &id("ABCDEFGHIJLMNOPQ")));
    assert!(!ids_equal(&id("ABCDEFGHIJLMNOPQ"), &id("ABCDEFGHIJLMNOPq")));
    assert!(!ids_equal(&id("xBCDEFGHIJLMNOPQ"), &id("ABCDEFGHIJLMNOPQ")));
}

#[test]
fn wall_clock_is_after_2020() {
    assert!(now_timestamp_us() > 1_577_836_800_000_000);
}

#[test]
fn data_packet_goes_to_the_placeholder_of_its_domain() {
    let node_id = id("ABCDEFGHIJLMNOPQ");
    let desc = id("test-node-------");
    let before = now_timestamp_us();
    let packet = make_data_packet(
        node_id,
        10,
        5,
        TrafficClass::Background,
        1200,
        EndpointDomain::External,
        EndpointDomain::Internal,
        desc,
    );
    assert_eq!(packet.src_node_id, node_id);
    assert_eq!(packet.dst_node_id, synthetic_domain_node_id(EndpointDomain::Internal));
    assert_eq!(packet.node_id, node_id);
    assert_eq!(packet.global_seq, 10);
    assert_eq!(packet.class_seq, 5);
    assert_eq!(packet.class, TrafficClass::Background);
    assert_eq!(packet.declared_bytes, 1200);
    assert_eq!(packet.src_domain, EndpointDomain::External);
    assert_eq!(packet.dst_domain, EndpointDomain::Internal);
    assert_eq!(packet.desc, desc);
    assert!(packet.timestamp_us >= before);
}

#[test]
fn packets_carry_their_arguments() {
    let a = id("ABCDEFGHIJLMNOPQ");
    let b = id("QRSTUVWXYZABCDEF");
    let c = id("0123456789abcdef");
    let desc = id("test-node-------");
    let packet = make_data_packet_with_endpoints(
        a,
        b,
        c,
        1,
        2,
        TrafficClass::HealthCheck,
        3,
        EndpointDomain::Internal,
        EndpointDomain::External,
        desc,
    );
    assert_eq!((packet.src_node_id, packet.dst_node_id, packet.node_id), (a, b, c));
    assert_eq!((packet.global_seq, packet.class_seq, packet.declared_bytes), (1, 2, 3));
    assert_eq!(packet.class, TrafficClass::HealthCheck);
    assert_eq!(packet.src_domain, EndpointDomain::Internal);
    assert_eq!(packet.dst_domain, EndpointDomain::External);

    let register = make_register_node_packet(a, desc, NodeDomain::Internal);
    assert_eq!(register.node_id, a);
    assert_eq!(register.desc, desc);
    assert_eq!(register.domain, NodeDomain::Internal);
    assert!(register.timestamp_us > 0);

    let unregister = make_unregister_node_packet(b);
    assert_eq!(unregister.node_id, b);
    assert!(unregister.timestamp_us > 0);
}

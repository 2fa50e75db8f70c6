use traffic_telemetry::client_state::{ActiveProfile, ClientState};
use traffic_telemetry::input::{execute_command, handle_input, InputCommand, Key};
use traffic_telemetry::protocol::{EndpointDomain, NodeDomain, NodeId, TrafficClass, WireMessage};

fn id(text: &str) -> NodeId {
    let mut out = [0u8; 16];
    out.copy_from_slice(text.as_bytes());
    out
}

fn fresh() -> ClientState {
    ClientState::new(id("CLIENT-NODE-0001"), id("client-desc-----"))
}

fn command(c: char) -> Option<InputCommand> {
    handle_input(Key::Char(c), &fresh())
}

#[test]
fn keys_map_to_commands() {
    assert!(matches!(command(' '), Some(InputCommand::SendSingle)));
    assert!(matches!(command('b'), Some(InputCommand::SendBurst)));
    assert!(matches!(command('B'), Some(InputCommand::SendBurst)));
    assert!(matches!(command('1'), Some(InputCommand::SetBurstCount(1))));
    assert!(matches!(command('9'), Some(InputCommand::SetBurstCount(9))));
    assert!(command('0').is_none());
    assert!(matches!(
        command('a'),
        Some(InputCommand::StartContinuous { class: TrafficClass::Api, rate: 100 })
    ));
    assert!(matches!(
        command('H'),
        Some(InputCommand::StartContinuous { class: TrafficClass::HeavyCompute, rate: 10 })
    ));
    assert!(matches!(
        command('g'),
        Some(InputCommand::StartContinuous { class: TrafficClass::Background, rate: 1000 })
    ));
    assert!(matches!(command('s'), Some(InputCommand::StopContinuous)));
    assert!(matches!(command('v'), Some(InputCommand::RegisterSelf)));
    assert!(matches!(command('x'), Some(InputCommand::UnregisterSelf)));
    assert!(matches!(command('r'), Some(InputCommand::RequestAnalytics)));
    assert!(matches!(command('p'), Some(InputCommand::RequestTopology)));
    assert!(matches!(command('f'), Some(InputCommand::SetProfileSteady)));
    assert!(matches!(command('z'), Some(InputCommand::SetProfileBurst)));
    assert!(matches!(command('w'), Some(InputCommand::SetProfileRamp)));
    assert!(matches!(command('o'), Some(InputCommand::SetProfileOscillation)));
    assert!(matches!(command('t'), Some(InputCommand::RunTopologySmokeTest)));
    assert!(matches!(command('y'), Some(InputCommand::RunTopologyRemovalTest)));
    assert!(matches!(command('u'), Some(InputCommand::RunTopologyMixedClassesTest)));
    assert!(matches!(command('n'), Some(InputCommand::AddPeer { domain: NodeDomain::Internal })));
    assert!(matches!(command('J'), Some(InputCommand::AddPeer { domain: NodeDomain::External })));
    assert!(matches!(
        command('i'),
        Some(InputCommand::SetSourceDomain(EndpointDomain::Internal))
    ));
    assert!(matches!(
        command('e'),
        Some(InputCommand::SetSourceDomain(EndpointDomain::External))
    ));
    assert!(matches!(
        command('k'),
        Some(InputCommand::SetDestinationDomain(EndpointDomain::Internal))
    ));
    assert!(matches!(
        command('L'),
        Some(InputCommand::SetDestinationDomain(EndpointDomain::External))
    ));
    assert!(command('q').is_none());
    assert!(command('d').is_none());
    assert!(command('\u{e9}').is_none());
    assert!(handle_input(Key::Other, &fresh()).is_none());
}

#[test]
fn peer_keys_depend_on_the_state() {
    let mut state = fresh();
    match handle_input(Key::Char('c'), &state) {
        Some(InputCommand::SelectPeer { node_id }) => assert_eq!(node_id, id("peer-external---")),
        _ => panic!("expected a peer selection"),
    }
    match handle_input(Key::Char('m'), &state) {
        Some(InputCommand::RemovePeer { node_id }) => assert_eq!(node_id, id("peer-internal---")),
        _ => panic!("expected a peer removal"),
    }
    state.peers.clear();
    assert!(handle_input(Key::Char('c'), &state).is_none());
    assert!(handle_input(Key::Char('M'), &state).is_none());
}

#[test]
fn validity_of_commands() {
    assert!(InputCommand::SetBurstCount(9).is_valid());
    assert!(InputCommand::SetBurstCount(42_949_672).is_valid());
    assert!(!InputCommand::SetBurstCount(42_949_673).is_valid());
    assert!(!InputCommand::StartContinuous { class: TrafficClass::Api, rate: 0 }.is_valid());
    assert!(InputCommand::StartContinuous { class: TrafficClass::Api, rate: 1 }.is_valid());
    assert!(InputCommand::SendBurst.is_valid());
}

#[test]
fn burst_commands_fill_the_queue() {
    let mut state = fresh();
    assert!(execute_command(InputCommand::SendSingle, &mut state, 1_000).is_empty());
    assert_eq!(state.queue.len(), 1);
    assert_eq!(state.queue[0].at, 1_000);
    assert_eq!(state.queue[0].class, TrafficClass::HealthCheck);
    assert_eq!(state.queue[0].declared_bytes, 1200);

    execute_command(InputCommand::SetBurstCount(3), &mut state, 1_000);
    assert_eq!(state.burst_count, 300);
    execute_command(InputCommand::SendBurst, &mut state, 2_000);
    assert_eq!(state.queue.len(), 301);
    assert_eq!(state.queue[1].at, 2_000);
    assert_eq!(state.queue[2].at, 12_000);
    assert_eq!(state.queue[300].at, 2_000 + 299 * 10_000);
    assert_eq!(state.queue[300].class, TrafficClass::Background);
}

#[test]
fn send_mode_transitions() {
    let mut state = fresh();
    execute_command(InputCommand::SendBurst, &mut state, 0);
    execute_command(
        InputCommand::StartContinuous { class: TrafficClass::HeavyCompute, rate: 10 },
        &mut state,
        500,
    );
    assert!(state.queue.is_empty());
    assert!(state.active_profile.is_none());
    let stream = state.continuous_state.unwrap();
    assert_eq!((stream.next_send_at, stream.interval), (100_500, 100_000));

    execute_command(InputCommand::SetProfileOscillation, &mut state, 0);
    assert!(state.continuous_state.is_none());
    assert!(matches!(state.active_profile, Some(ActiveProfile::Oscillation { .. })));
    execute_command(InputCommand::SetProfileRamp, &mut state, 0);
    assert!(matches!(state.active_profile, Some(ActiveProfile::Ramp { .. })));
    execute_command(InputCommand::SetProfileSteady, &mut state, 0);
    assert!(matches!(state.active_profile, Some(ActiveProfile::Steady { .. })));
    execute_command(InputCommand::StopContinuous, &mut state, 0);
    assert!(state.active_profile.is_none());
    execute_command(InputCommand::SetProfileSteady, &mut state, 0);
    execute_command(InputCommand::SetProfileBurst, &mut state, 0);
    assert!(state.active_profile.is_none());
    assert_eq!(state.queue.len(), 200);
}

#[test]
fn commands_that_talk_to_the_server() {
    let mut state = fresh();
    let sent = execute_command(InputCommand::RegisterSelf, &mut state, 0);
    assert!(matches!(sent[..], [WireMessage::RegisterNode(p)] if p.node_id == state.node_id));
    let sent = execute_command(InputCommand::UnregisterSelf, &mut state, 0);
    assert!(matches!(sent[..], [WireMessage::UnregisterNode(p)] if p.node_id == state.node_id));
    let sent = execute_command(InputCommand::RequestAnalytics, &mut state, 0);
    assert!(matches!(sent[..], [WireMessage::RequestAnalytics]));
    let sent = execute_command(InputCommand::RequestTopology, &mut state, 0);
    assert!(matches!(sent[..], [WireMessage::RequestTopology]));

    let sent = execute_command(
        InputCommand::SetSourceDomain(EndpointDomain::Internal),
        &mut state,
        0,
    );
    assert!(matches!(sent[..], [WireMessage::RegisterNode(p)] if p.domain == NodeDomain::Internal));
    assert_eq!(state.src_domain, EndpointDomain::Internal);

    let sent = execute_command(
        InputCommand::SetDestinationDomain(EndpointDomain::External),
        &mut state,
        0,
    );
    assert!(sent.is_empty());
    assert_eq!(state.active_peer_index, 1);

    let sent = execute_command(InputCommand::AddPeer { domain: NodeDomain::External }, &mut state, 0);
    assert!(matches!(sent[..], [WireMessage::RegisterNode(p)] if p.node_id == state.peers[2].node_id));
    let added = state.peers[2].node_id;

    execute_command(InputCommand::SelectPeer { node_id: id("peer-internal---") }, &mut state, 0);
    assert_eq!(state.active_peer_index, 0);

    let sent = execute_command(InputCommand::RemovePeer { node_id: added }, &mut state, 0);
    assert!(matches!(sent[..], [WireMessage::UnregisterNode(p)] if p.node_id == added));
    assert_eq!(state.peers.len(), 2);
    let sent = execute_command(InputCommand::RemovePeer { node_id: added }, &mut state, 0);
    assert!(sent.is_empty());

    execute_command(InputCommand::RemovePeer { node_id: id("peer-internal---") }, &mut state, 0);
    let sent =
        execute_command(InputCommand::RemovePeer { node_id: id("peer-external---") }, &mut state, 0);
    assert!(matches!(
        sent[..],
        [WireMessage::UnregisterNode(_), WireMessage::RegisterNode(p)] if p.domain == NodeDomain::Internal
    ));
    assert_eq!(state.peers.len(), 1);
}

#[test]
fn topology_test_commands_dispatch() {
    let mut state = fresh();
    let sent = execute_command(InputCommand::RunTopologySmokeTest, &mut state, 5);
    assert_eq!(sent.len(), 3);
    let sent = execute_command(InputCommand::RunTopologyRemovalTest, &mut state, 5);
    assert_eq!(sent.len(), 3);
    let sent = execute_command(InputCommand::RunTopologyMixedClassesTest, &mut state, 5);
    assert_eq!(sent.len(), 6);
    assert_eq!(state.next_global_seq, 5);
}

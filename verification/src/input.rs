//! Commands of the traffic generator: which key means which command, and
//! what a command changes and sends.

use vstd::prelude::*;
use crate::protocol::{EndpointDomain, NodeDomain, NodeId, TrafficClass, WireMessage};
use crate::client_state::{
    is_register, is_unregister, registers, ActiveProfile, ClientState, ClientStateView,
    DEFAULT_PACKET_BYTES,
};
use crate::scheduler::{
    active_peer_node_id, add_peer, next_peer_node_id, register_self, remove_peer, request_topology,
    run_topology_mixed_classes_test, run_topology_removal_test, run_topology_smoke_test,
    schedule_burst, select_or_add_peer_for_domain, select_peer, set_profile_burst,
    set_profile_oscillation, set_profile_ramp, set_profile_steady, start_continuous,
    stop_continuous, unregister_self, update_source_domain,
};

verus! {

/// Packets per burst that one step of the burst-size keys stands for.
pub const BURST_STEP: u32 = 100;

/// Something the operator asked the generator to do.
#[derive(Clone, Copy, Debug)]
pub enum InputCommand {
    SendSingle,
    SendBurst,
    SetBurstCount(u32),
    StartContinuous { class: TrafficClass, rate: u32 },
    StopContinuous,
    RegisterSelf,
    UnregisterSelf,
    RequestAnalytics,
    RequestTopology,
    AddPeer { domain: NodeDomain },
    RemovePeer { node_id: NodeId },
    SelectPeer { node_id: NodeId },
    SetProfileSteady,
    SetProfileBurst,
    SetProfileRamp,
    SetProfileOscillation,
    RunTopologySmokeTest,
    RunTopologyRemovalTest,
    RunTopologyMixedClassesTest,
    SetSourceDomain(EndpointDomain),
    SetDestinationDomain(EndpointDomain),
}

/// A key press: a character, or a key that stands for none.
#[derive(Clone, Copy, Debug)]
pub enum Key {
    Char(char),
    Other,
}

/// `c` with ASCII capitals made small.
pub open spec fn ascii_lower(c: char) -> char {
    if 65 <= c as u32 <= 90 {
        ((c as u32 + 32) as u32) as char
    } else {
        c
    }
}

/// The command that the character `c` stands for, capitals and small
/// letters alike.
pub open spec fn char_command(c: char, state: ClientStateView) -> Option<InputCommand> {
    let key = ascii_lower(c);
    if key == ' ' {
        Some(InputCommand::SendSingle)
    } else if key == 'b' {
        Some(InputCommand::SendBurst)
    } else if 49 <= key as u32 <= 57 {
        Some(InputCommand::SetBurstCount((key as u32 - 48) as u32))
    } else if key == 'a' {
        Some(InputCommand::StartContinuous { class: TrafficClass::Api, rate: 100 })
    } else if key == 'h' {
        Some(InputCommand::StartContinuous { class: TrafficClass::HeavyCompute, rate: 10 })
    } else if key == 'g' {
        Some(InputCommand::StartContinuous { class: TrafficClass::Background, rate: 1000 })
    } else if key == 's' {
        Some(InputCommand::StopContinuous)
    } else if key == 'v' {
        Some(InputCommand::RegisterSelf)
    } else if key == 'x' {
        Some(InputCommand::UnregisterSelf)
    } else if key == 'r' {
        Some(InputCommand::RequestAnalytics)
    } else if key == 'p' {
        Some(InputCommand::RequestTopology)
    } else if key == 'f' {
        Some(InputCommand::SetProfileSteady)
    } else if key == 'z' {
        Some(InputCommand::SetProfileBurst)
    } else if key == 'w' {
        Some(InputCommand::SetProfileRamp)
    } else if key == 'o' {
        Some(InputCommand::SetProfileOscillation)
    } else if key == 't' {
        Some(InputCommand::RunTopologySmokeTest)
    } else if key == 'y' {
        Some(InputCommand::RunTopologyRemovalTest)
    } else if key == 'u' {
        Some(InputCommand::RunTopologyMixedClassesTest)
    } else if key == 'n' {
        Some(InputCommand::AddPeer { domain: NodeDomain::Internal })
    } else if key == 'j' {
        Some(InputCommand::AddPeer { domain: NodeDomain::External })
    } else if key == 'c' {
        match state.next_peer_id() {
            Some(node_id) => Some(InputCommand::SelectPeer { node_id }),
            None => None,
        }
    } else if key == 'm' {
        match state.active_peer() {
            Some(peer) => Some(InputCommand::RemovePeer { node_id: peer.node_id }),
            None => None,
        }
    } else if key == 'i' {
        Some(InputCommand::SetSourceDomain(EndpointDomain::Internal))
    } else if key == 'e' {
        Some(InputCommand::SetSourceDomain(EndpointDomain::External))
    } else if key == 'k' {
        Some(InputCommand::SetDestinationDomain(EndpointDomain::Internal))
    } else if key == 'l' {
        Some(InputCommand::SetDestinationDomain(EndpointDomain::External))
    } else {
        None
    }
}

/// The command that a key press stands for.
pub open spec fn key_command(key: Key, state: ClientStateView) -> Option<InputCommand> {
    match key {
        Key::Char(c) => char_command(c, state),
        Key::Other => None,
    }
}

fn is_letter(c: char, small: char, capital: char) -> (same: bool)
    requires
        97 <= small as u32 <= 122,
        capital as u32 == small as u32 - 32,
    ensures
        same == (ascii_lower(c) == small),
{
    c == small || c == capital
}

fn digit_value(c: char) -> (value: Option<u32>)
    ensures
        value == (if 49 <= ascii_lower(c) as u32 <= 57 {
            Some((ascii_lower(c) as u32 - 48) as u32)
        } else {
            None
        }),
{
    if c == '1' {
        Some(1)
    } else if c == '2' {
        Some(2)
    } else if c == '3' {
        Some(3)
    } else if c == '4' {
        Some(4)
    } else if c == '5' {
        Some(5)
    } else if c == '6' {
        Some(6)
    } else if c == '7' {
        Some(7)
    } else if c == '8' {
        Some(8)
    } else if c == '9' {
        Some(9)
    } else {
        None
    }
}

/// The command that a key press stands for, given the state it is pressed in.
pub fn handle_input(key: Key, state: &ClientState) -> (command: Option<InputCommand>)
    ensures
        command == key_command(key, state@),
{
    let c = match key {
        Key::Char(c) => c,
        Key::Other => {
            return None;
        },
    };
    if c == ' ' {
        Some(InputCommand::SendSingle)
    } else if is_letter(c, 'b', 'B') {
        Some(InputCommand::SendBurst)
    } else if let Some(count) = digit_value(c) {
        Some(InputCommand::SetBurstCount(count))
    } else if is_letter(c, 'a', 'A') {
        Some(InputCommand::StartContinuous { class: TrafficClass::Api, rate: 100 })
    } else if is_letter(c, 'h', 'H') {
        Some(InputCommand::StartContinuous { class: TrafficClass::HeavyCompute, rate: 10 })
    } else if is_letter(c, 'g', 'G') {
        Some(InputCommand::StartContinuous { class: TrafficClass::Background, rate: 1000 })
    } else if is_letter(c, 's', 'S') {
        Some(InputCommand::StopContinuous)
    } else if is_letter(c, 'v', 'V') {
        Some(InputCommand::RegisterSelf)
    } else if is_letter(c, 'x', 'X') {
        Some(InputCommand::UnregisterSelf)
    } else if is_letter(c, 'r', 'R') {
        Some(InputCommand::RequestAnalytics)
    } else if is_letter(c, 'p', 'P') {
        Some(InputCommand::RequestTopology)
    } else if is_letter(c, 'f', 'F') {
        Some(InputCommand::SetProfileSteady)
    } else if is_letter(c, 'z', 'Z') {
        Some(InputCommand::SetProfileBurst)
    } else if is_letter(c, 'w', 'W') {
        Some(InputCommand::SetProfileRamp)
    } else if is_letter(c, 'o', 'O') {
        Some(InputCommand::SetProfileOscillation)
    } else if is_letter(c, 't', 'T') {
        Some(InputCommand::RunTopologySmokeTest)
    } else if is_letter(c, 'y', 'Y') {
        Some(InputCommand::RunTopologyRemovalTest)
    } else if is_letter(c, 'u', 'U') {
        Some(InputCommand::RunTopologyMixedClassesTest)
    } else if is_letter(c, 'n', 'N') {
        Some(InputCommand::AddPeer { domain: NodeDomain::Internal })
    } else if is_letter(c, 'j', 'J') {
        Some(InputCommand::AddPeer { domain: NodeDomain::External })
    } else if is_letter(c, 'c', 'C') {
        match next_peer_node_id(state) {
            Some(node_id) => Some(InputCommand::SelectPeer { node_id }),
            None => None,
        }
    } else if is_letter(c, 'm', 'M') {
        match active_peer_node_id(state) {
            Some(node_id) => Some(InputCommand::RemovePeer { node_id }),
            None => None,
        }
    } else if is_letter(c, 'i', 'I') {
        Some(InputCommand::SetSourceDomain(EndpointDomain::Internal))
    } else if is_letter(c, 'e', 'E') {
        Some(InputCommand::SetSourceDomain(EndpointDomain::External))
    } else if is_letter(c, 'k', 'K') {
        Some(InputCommand::SetDestinationDomain(EndpointDomain::Internal))
    } else if is_letter(c, 'l', 'L') {
        Some(InputCommand::SetDestinationDomain(EndpointDomain::External))
    } else {
        None
    }
}

impl InputCommand {
    /// The command can be carried out: a continuous stream has a rate
    /// above zero, and a burst size fits its counter.
    pub open spec fn valid(self) -> bool {
        match self {
            InputCommand::StartContinuous { rate, .. } => rate > 0,
            InputCommand::SetBurstCount(n) => n * BURST_STEP <= u32::MAX,
            _ => true,
        }
    }

    pub fn is_valid(&self) -> (ok: bool)
        ensures
            ok == self.valid(),
    {
        match self {
            InputCommand::StartContinuous { rate, .. } => *rate > 0,
            InputCommand::SetBurstCount(n) => *n <= u32::MAX / BURST_STEP,
            _ => true,
        }
    }
}

/// The generator after `command` was carried out at `now`.
pub open spec fn executed(v: ClientStateView, command: InputCommand, now: u64) -> ClientStateView {
    match command {
        InputCommand::SendSingle => v.with_burst(
            now,
            1,
            10,
            TrafficClass::HealthCheck,
            DEFAULT_PACKET_BYTES,
        ),
        InputCommand::SendBurst => v.with_burst(
            now,
            v.burst_count,
            10,
            TrafficClass::Background,
            DEFAULT_PACKET_BYTES,
        ),
        InputCommand::SetBurstCount(n) => ClientStateView {
            burst_count: (n * BURST_STEP) as u32,
            ..v
        },
        InputCommand::StartContinuous { class, rate } => v.with_continuous(class, rate, now),
        InputCommand::StopContinuous => ClientStateView {
            continuous_state: None,
            active_profile: None,
            ..v
        },
        InputCommand::RegisterSelf => v,
        InputCommand::UnregisterSelf => v,
        InputCommand::RequestAnalytics => v,
        InputCommand::RequestTopology => v,
        InputCommand::AddPeer { domain } => v.with_peer_added(EndpointDomain::of_node(domain)),
        InputCommand::RemovePeer { node_id } => v.with_peer_removed(node_id),
        InputCommand::SelectPeer { node_id } => v.with_peer_selected(node_id),
        InputCommand::SetProfileSteady => v.with_profile(ActiveProfile::steady(now)),
        InputCommand::SetProfileBurst => v.with_burst_profile(now),
        InputCommand::SetProfileRamp => v.with_profile(ActiveProfile::ramp(now)),
        InputCommand::SetProfileOscillation => v.with_profile(ActiveProfile::oscillation(now)),
        InputCommand::RunTopologySmokeTest => v.after_smoke_test(now),
        InputCommand::RunTopologyRemovalTest => v.after_removal_test(),
        InputCommand::RunTopologyMixedClassesTest => v.after_mixed_classes_test(now),
        InputCommand::SetSourceDomain(domain) => ClientStateView {
            src_domain: domain,
            node_domain: NodeDomain::of_endpoint(domain),
            ..v
        },
        InputCommand::SetDestinationDomain(domain) => v.with_target_in(domain),
    }
}

/// `messages` is what carrying out `command` at `now` sends, in order.
pub open spec fn is_command_dispatch(
    v: ClientStateView,
    command: InputCommand,
    now: u64,
    messages: Seq<WireMessage>,
) -> bool {
    match command {
        InputCommand::RegisterSelf => messages.len() == 1 && is_register(
            messages[0],
            v.node_id,
            v.desc,
            v.node_domain,
        ),
        InputCommand::UnregisterSelf => messages.len() == 1 && is_unregister(
            messages[0],
            v.node_id,
        ),
        InputCommand::RequestAnalytics => messages.len() == 1 && messages[0] is RequestAnalytics,
        InputCommand::RequestTopology => messages.len() == 1 && messages[0] is RequestTopology,
        InputCommand::AddPeer { domain } => messages.len() == 1 && (
        messages[0] matches WireMessage::RegisterNode(packet) && registers(
            packet,
            v.new_peer(EndpointDomain::of_node(domain)),
        )),
        InputCommand::RemovePeer { node_id } => if v.has_peer(node_id) {
            &&& messages.len() == (if v.peers.len() == 1 {
                2int
            } else {
                1int
            })
            &&& is_unregister(messages[0], node_id)
            &&& v.peers.len() == 1 ==> messages[1] is RegisterNode
        } else {
            messages.len() == 0
        },
        InputCommand::SetSourceDomain(domain) => messages.len() == 1 && is_register(
            messages[0],
            v.node_id,
            v.desc,
            NodeDomain::of_endpoint(domain),
        ),
        InputCommand::SetDestinationDomain(domain) => if v.has_peer_in(domain) {
            messages.len() == 0
        } else {
            messages.len() == 1 && (messages[0] matches WireMessage::RegisterNode(packet)
                && registers(packet, v.new_peer(domain)))
        },
        InputCommand::RunTopologySmokeTest => v.is_smoke_dispatch(messages),
        InputCommand::RunTopologyRemovalTest => v.is_removal_dispatch(messages),
        InputCommand::RunTopologyMixedClassesTest => v.is_mixed_classes_dispatch(now, messages),
        _ => messages.len() == 0,
    }
}

/// Carries out `command` at `now` and returns the messages that are to be
/// sent to the server, in order.
pub fn execute_command(command: InputCommand, state: &mut ClientState, now: u64) -> (messages: Vec<
    WireMessage,
>)
    requires
        command.valid(),
    ensures
        final(state)@ == executed(old(state)@, command, now),
        is_command_dispatch(old(state)@, command, now, messages@),
{
    let mut messages: Vec<WireMessage> = Vec::new();
    match command {
        InputCommand::SendSingle => {
            schedule_burst(
                &mut state.queue,
                now,
                1,
                10,
                TrafficClass::HealthCheck,
                DEFAULT_PACKET_BYTES,
            );
        },
        InputCommand::SendBurst => {
            schedule_burst(
                &mut state.queue,
                now,
                state.burst_count,
                10,
                TrafficClass::Background,
                DEFAULT_PACKET_BYTES,
            );
        },
        InputCommand::SetBurstCount(n) => {
            state.burst_count = n * BURST_STEP;
        },
        InputCommand::StartContinuous { class, rate } => {
            start_continuous(state, class, rate, now);
        },
        InputCommand::StopContinuous => {
            stop_continuous(state);
        },
        InputCommand::RegisterSelf => {
            messages.push(WireMessage::RegisterNode(register_self(state)));
        },
        InputCommand::UnregisterSelf => {
            messages.push(WireMessage::UnregisterNode(unregister_self(state)));
        },
        InputCommand::RequestAnalytics => {
            messages.push(WireMessage::RequestAnalytics);
        },
        InputCommand::RequestTopology => {
            messages.push(request_topology());
        },
        InputCommand::AddPeer { domain } => {
            messages.push(WireMessage::RegisterNode(add_peer(state, domain)));
        },
        InputCommand::RemovePeer { node_id } => {
            let notice = remove_peer(state, node_id);
            if let Some(packet) = notice.unregister {
                messages.push(WireMessage::UnregisterNode(packet));
            }
            if let Some(packet) = notice.register {
                messages.push(WireMessage::RegisterNode(packet));
            }
        },
        InputCommand::SelectPeer { node_id } => {
            select_peer(state, node_id);
        },
        InputCommand::SetProfileSteady => {
            set_profile_steady(state, now);
        },
        InputCommand::SetProfileBurst => {
            set_profile_burst(state, now);
        },
        InputCommand::SetProfileRamp => {
            set_profile_ramp(state, now);
        },
        InputCommand::SetProfileOscillation => {
            set_profile_oscillation(state, now);
        },
        InputCommand::RunTopologySmokeTest => {
            messages = run_topology_smoke_test(state, now);
        },
        InputCommand::RunTopologyRemovalTest => {
            messages = run_topology_removal_test(state);
        },
        InputCommand::RunTopologyMixedClassesTest => {
            messages = run_topology_mixed_classes_test(state, now);
        },
        InputCommand::SetSourceDomain(domain) => {
            messages.push(WireMessage::RegisterNode(update_source_domain(state, domain)));
        },
        InputCommand::SetDestinationDomain(domain) => {
            if let Some(packet) = select_or_add_peer_for_domain(state, domain) {
                messages.push(WireMessage::RegisterNode(packet));
            }
        },
    }
    messages
}

} // verus!

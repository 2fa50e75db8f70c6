//! The traffic generator's decisions: which peer a packet goes to, what is
//! due at a given time, and what an arriving message changes. Sending and
//! receiving are left to the caller, who hands in the time and hands back
//! what arrived.

use vstd::prelude::*;
use std::collections::{HashMap, VecDeque};
use crate::protocol::{
    ids_equal, make_data_packet_with_endpoints, make_register_node_packet,
    make_unregister_node_packet, AckPacket, DataPacket, EndpointDomain, NodeDomain, NodeId,
    RegisterNodePacket, TrafficClass, UnregisterNodePacket, WireMessage,
};
use crate::snapshot::TopologySnapshot;
use crate::tracker::{
    MICROS_PER_SECOND,
};
use crate::engine_model::be_byte;
use crate::client_state::{
    burst, burst_deadline, counter_digit, decimal_width, default_peers, is_first_in_domain,
    is_first_with_id, peer_desc_of, peer_id_of, pow10, registers, rate_interval, wrapping_next,
    ActiveProfile, ClientState, ClientStateView, ContinuousState, PeerNode, ScheduledSend,
    TopologyExpectation, DEFAULT_BURST_COUNT, DEFAULT_PACKET_BYTES, MAX_INPUT_POLL_TIMEOUT_US,
};

verus! {

impl ClientState {
    /// A generator with id `node_id` that knows the two default peers and
    /// sends nothing yet.
    pub fn new(node_id: NodeId, desc: [u8; 16]) -> (state: ClientState)
        ensures
            state@ == ClientStateView::fresh(node_id, desc),
    {
        let mut peers: Vec<PeerNode> = Vec::new();
        peers.push(
            PeerNode {
                node_id: [
                    112u8, 101u8, 101u8, 114u8, 45u8, 105u8, 110u8, 116u8,
                    101u8, 114u8, 110u8, 97u8, 108u8, 45u8, 45u8, 45u8,
                ],
                domain: NodeDomain::Internal,
                desc: [
                    112u8, 101u8, 101u8, 114u8, 45u8, 105u8, 110u8, 116u8,
                    45u8, 100u8, 101u8, 102u8, 97u8, 117u8, 108u8, 116u8,
                ],
            },
        );
        peers.push(
            PeerNode {
                node_id: [
                    112u8, 101u8, 101u8, 114u8, 45u8, 101u8, 120u8, 116u8,
                    101u8, 114u8, 110u8, 97u8, 108u8, 45u8, 45u8, 45u8,
                ],
                domain: NodeDomain::External,
                desc: [
                    112u8, 101u8, 101u8, 114u8, 45u8, 101u8, 120u8, 116u8,
                    45u8, 100u8, 101u8, 102u8, 97u8, 117u8, 108u8, 116u8,
                ],
            },
        );
        let state = ClientState {
            node_id,
            desc,
            node_domain: NodeDomain::External,
            src_domain: EndpointDomain::External,
            dst_domain: EndpointDomain::Internal,
            peers,
            active_peer_index: 0,
            next_peer_counter: 1,
            burst_count: DEFAULT_BURST_COUNT,
            next_global_seq: 0,
            next_class_seq: [0; 4],
            queue: VecDeque::new(),
            pending_acks: HashMap::new(),
            total_acks: 0,
            min_rtt: u64::MAX,
            max_rtt: 0,
            sum_rtt: 0,
            continuous_state: None,
            active_profile: None,
            pending_topology_expectation: None,
        };
        proof {
            let fresh = ClientStateView::fresh(node_id, desc);
            assert(state.peers@[0].node_id =~= default_peers()[0].node_id);
            assert(state.peers@[0].desc =~= default_peers()[0].desc);
            assert(state.peers@[1].node_id =~= default_peers()[1].node_id);
            assert(state.peers@[1].desc =~= default_peers()[1].desc);
            assert(state@.peers =~= fresh.peers);
            assert(state@.next_class_seq =~= fresh.next_class_seq);
            assert(state@.queue =~= fresh.queue);
            assert(state@.pending_acks =~= fresh.pending_acks);
        }
        state
    }
}

// ---------------------------------------------------------------------------
// Plain rules
// ---------------------------------------------------------------------------

pub fn endpoint_domain_from_node_domain(domain: NodeDomain) -> (endpoint: EndpointDomain)
    ensures
        endpoint == EndpointDomain::of_node(domain),
{
    match domain {
        NodeDomain::Internal => EndpointDomain::Internal,
        NodeDomain::External => EndpointDomain::External,
    }
}

pub fn node_domain_from_endpoint_domain(domain: EndpointDomain) -> (node: NodeDomain)
    ensures
        node == NodeDomain::of_endpoint(domain),
{
    match domain {
        EndpointDomain::Internal => NodeDomain::Internal,
        EndpointDomain::External => NodeDomain::External,
    }
}

/// Time between two packets at `rate` packets per second.
pub fn interval_from_rate(rate: u32) -> (interval: u64)
    ensures
        interval == rate_interval(rate),
{
    if rate == 0 {
        MICROS_PER_SECOND
    } else {
        MICROS_PER_SECOND / (rate as u64)
    }
}

fn next_sequence(seq: u32) -> (next: u32)
    ensures
        next == wrapping_next(seq),
{
    if seq == u32::MAX {
        0
    } else {
        seq + 1
    }
}

fn power_of_ten(e: u32) -> (p: u64)
    requires
        e <= 19,
    ensures
        p == pow10(e as int),
        p >= 1,
{
    if e == 0 {
        1
    } else if e == 1 {
        10
    } else if e == 2 {
        100
    } else if e == 3 {
        1_000
    } else if e == 4 {
        10_000
    } else if e == 5 {
        100_000
    } else if e == 6 {
        1_000_000
    } else if e == 7 {
        10_000_000
    } else if e == 8 {
        100_000_000
    } else if e == 9 {
        1_000_000_000
    } else if e == 10 {
        10_000_000_000
    } else if e == 11 {
        100_000_000_000
    } else if e == 12 {
        1_000_000_000_000
    } else if e == 13 {
        10_000_000_000_000
    } else if e == 14 {
        100_000_000_000_000
    } else if e == 15 {
        1_000_000_000_000_000
    } else if e == 16 {
        10_000_000_000_000_000
    } else if e == 17 {
        100_000_000_000_000_000
    } else if e == 18 {
        1_000_000_000_000_000_000
    } else {
        10_000_000_000_000_000_000
    }
}

fn width_of(n: u64) -> (width: u32)
    ensures
        width == decimal_width(n),
        6 <= width <= 20,
{
    let mut width: u32 = 6;
    while width < 20 && n >= power_of_ten(width)
        invariant
            6 <= width <= 20,
            width > 6 ==> n >= pow10(width as int - 1),
        decreases 20 - width,
    {
        width += 1;
    }
    width
}

fn digit_at(n: u64, slot: u32) -> (digit: u8)
    requires
        slot <= 6,
    ensures
        digit == counter_digit(n, slot as int),
{
    let width = width_of(n);
    if slot < width {
        let p = power_of_ten(width - 1 - slot);
        (48 + (n / p) % 10) as u8
    } else {
        0
    }
}

fn counter_byte(value: u64, i: u64) -> (byte: u8)
    requires
        i < 8,
    ensures
        byte == be_byte(value, i as int),
{
    ((value >> (8 * (7 - i))) & 0xff) as u8
}

/// Description of a generated peer.
pub fn make_peer_desc(domain: EndpointDomain, counter: u64) -> (desc: [u8; 16])
    ensures
        desc == peer_desc_of(domain, counter),
{
    let desc: [u8; 16] = [
        112u8,
        101u8,
        101u8,
        114u8,
        45u8,
        match domain {
            EndpointDomain::Internal => 105u8,
            EndpointDomain::External => 101u8,
        },
        match domain {
            EndpointDomain::Internal => 110u8,
            EndpointDomain::External => 120u8,
        },
        116u8,
        45u8,
        digit_at(counter, 0),
        digit_at(counter, 1),
        digit_at(counter, 2),
        digit_at(counter, 3),
        digit_at(counter, 4),
        digit_at(counter, 5),
        digit_at(counter, 6),
    ];
    assert(desc =~= peer_desc_of(domain, counter));
    desc
}

/// Id of the next generated peer; the peer counter moves on.
pub fn make_peer_id(state: &mut ClientState, domain: EndpointDomain) -> (id: NodeId)
    ensures
        id == peer_id_of(old(state).node_id, domain, old(state).next_peer_counter),
        final(state)@ == (ClientStateView {
            next_peer_counter: old(state).next_peer_counter.saturating_add(1),
            ..old(state)@
        }),
{
    let counter = state.next_peer_counter;
    let id: NodeId = [
        112u8,
        101u8,
        101u8,
        114u8,
        match domain {
            EndpointDomain::Internal => 105u8,
            EndpointDomain::External => 101u8,
        },
        state.node_id[0],
        state.node_id[1],
        state.node_id[2],
        counter_byte(counter, 0),
        counter_byte(counter, 1),
        counter_byte(counter, 2),
        counter_byte(counter, 3),
        counter_byte(counter, 4),
        counter_byte(counter, 5),
        counter_byte(counter, 6),
        counter_byte(counter, 7),
    ];
    state.next_peer_counter = state.next_peer_counter.saturating_add(1);
    assert(id =~= peer_id_of(old(state).node_id, domain, old(state).next_peer_counter));
    id
}

// ---------------------------------------------------------------------------
// Peers
// ---------------------------------------------------------------------------

pub fn active_peer(state: &ClientState) -> (peer: Option<PeerNode>)
    ensures
        peer == state@.active_peer(),
{
    if state.active_peer_index < state.peers.len() {
        Some(state.peers[state.active_peer_index])
    } else {
        None
    }
}

pub fn active_peer_node_id(state: &ClientState) -> (id: Option<NodeId>)
    ensures
        id == (match state@.active_peer() {
            Some(peer) => Some(peer.node_id),
            None => None,
        }),
{
    match active_peer(state) {
        Some(peer) => Some(peer.node_id),
        None => None,
    }
}

/// Id of the peer after the active one, going round.
pub fn next_peer_node_id(state: &ClientState) -> (id: Option<NodeId>)
    ensures
        id == state@.next_peer_id(),
{
    if state.peers.len() == 0 {
        return None;
    }
    let index = ((state.active_peer_index as u128 + 1) % (state.peers.len() as u128)) as usize;
    Some(state.peers[index].node_id)
}

fn position_in_domain(peers: &Vec<PeerNode>, domain: NodeDomain) -> (found: Option<usize>)
    ensures
        match found {
            Some(i) => is_first_in_domain(peers@, domain, i as int),
            None => forall|k: int| 0 <= k < peers.len() ==> (#[trigger] peers[k]).domain != domain,
        },
{
    let mut i: usize = 0;
    while i < peers.len()
        invariant
            i <= peers.len(),
            forall|k: int| 0 <= k < i ==> (#[trigger] peers[k]).domain != domain,
        decreases peers.len() - i,
    {
        if peers[i].domain == domain {
            return Some(i);
        }
        i += 1;
    }
    None
}

fn position_of(peers: &Vec<PeerNode>, id: &NodeId) -> (found: Option<usize>)
    ensures
        match found {
            Some(i) => is_first_with_id(peers@, *id, i as int),
            None => forall|k: int| 0 <= k < peers.len() ==> (#[trigger] peers[k]).node_id != *id,
        },
{
    let mut i: usize = 0;
    while i < peers.len()
        invariant
            i <= peers.len(),
            forall|k: int| 0 <= k < i ==> (#[trigger] peers[k]).node_id != *id,
        decreases peers.len() - i,
    {
        if ids_equal(&peers[i].node_id, id) {
            return Some(i);
        }
        i += 1;
    }
    None
}

/// The first position in a domain is unique.
proof fn lemma_first_in_domain(v: ClientStateView, domain: EndpointDomain, i: int)
    requires
        is_first_in_domain(v.peers, NodeDomain::of_endpoint(domain), i),
    ensures
        v.has_peer_in(domain),
        v.first_peer_in(domain) == i,
{
    let j = v.first_peer_in(domain);
    assert(is_first_in_domain(v.peers, NodeDomain::of_endpoint(domain), j));
    if j < i {
        assert(v.peers[j].domain != NodeDomain::of_endpoint(domain));
    } else if i < j {
        assert(v.peers[i].domain != NodeDomain::of_endpoint(domain));
    }
}

/// The first position of an id is unique.
proof fn lemma_first_with_id(v: ClientStateView, id: NodeId, i: int)
    requires
        is_first_with_id(v.peers, id, i),
    ensures
        v.has_peer(id),
        v.peer_position(id) == i,
{
    let j = v.peer_position(id);
    assert(is_first_with_id(v.peers, id, j));
    if j < i {
        assert(v.peers[j].node_id != id);
    } else if i < j {
        assert(v.peers[i].node_id != id);
    }
}

/// Creates a peer in `domain` and makes it the active one.
pub fn add_peer_local(state: &mut ClientState, domain: EndpointDomain) -> (peer: PeerNode)
    ensures
        final(state)@ == old(state)@.with_peer_added(domain),
        peer == old(state)@.new_peer(domain),
{
    let node_id = make_peer_id(state, domain);
    let peer = PeerNode {
        node_id,
        domain: node_domain_from_endpoint_domain(domain),
        desc: make_peer_desc(domain, state.next_peer_counter.saturating_sub(1)),
    };
    state.peers.push(peer);
    state.active_peer_index = state.peers.len() - 1;
    state.dst_domain = domain;
    peer
}

/// Makes the first peer in `domain` the active one and returns it.
pub fn select_first_peer_for_domain(state: &mut ClientState, domain: EndpointDomain) -> (peer:
    Option<PeerNode>)
    ensures
        final(state)@ == old(state)@.with_first_peer_selected(domain),
        peer == (if old(state)@.has_peer_in(domain) {
            Some(old(state)@.peers[old(state)@.first_peer_in(domain)])
        } else {
            None
        }),
{
    match position_in_domain(&state.peers, node_domain_from_endpoint_domain(domain)) {
        Some(index) => {
            proof {
                lemma_first_in_domain(state@, domain, index as int);
            }
            state.active_peer_index = index;
            state.dst_domain = domain;
            Some(state.peers[index])
        },
        None => {
            proof {
                if state@.has_peer_in(domain) {
                    let k = state@.first_peer_in(domain);
                    assert(state.peers[k].domain == NodeDomain::of_endpoint(domain));
                }
            }
            None
        },
    }
}

/// Settles on a destination in `requested_domain`: the active peer if it
/// is in that domain, else the first peer that is, else a new one.
pub fn destination_peer(state: &mut ClientState, requested_domain: EndpointDomain) -> (peer:
    PeerNode)
    ensures
        final(state)@ == old(state)@.with_destination(requested_domain),
        peer == old(state)@.destination(requested_domain),
        peer.domain == NodeDomain::of_endpoint(requested_domain),
{
    if let Some(peer) = active_peer(state) {
        if peer.domain == node_domain_from_endpoint_domain(requested_domain) {
            return peer;
        }
    }
    assert(!old(state)@.active_peer_in(requested_domain));
    if let Some(peer) = select_first_peer_for_domain(state, requested_domain) {
        proof {
            let k = old(state)@.first_peer_in(requested_domain);
            assert(is_first_in_domain(
                old(state)@.peers,
                NodeDomain::of_endpoint(requested_domain),
                k,
            ));
            assert(old(state).peers.len() == old(state)@.peers.len());
            assert(state@.active_peer_index as int == k);
            assert(state@.peers[k] == peer);
        }
        return peer;
    }
    let peer = add_peer_local(state, requested_domain);
    proof {
        let n = old(state)@.peers.len() as int;
        assert(old(state).peers.len() == n);
        assert(state@.active_peer_index as int == n);
        assert(state@.peers[n] == peer);
    }
    peer
}

/// Makes the peer `node_id` the active one, if it is known.
pub fn select_peer(state: &mut ClientState, node_id: NodeId)
    ensures
        final(state)@ == old(state)@.with_peer_selected(node_id),
{
    match position_of(&state.peers, &node_id) {
        Some(index) => {
            proof {
                lemma_first_with_id(state@, node_id, index as int);
            }
            state.active_peer_index = index;
            state.dst_domain = endpoint_domain_from_node_domain(state.peers[index].domain);
        },
        None => {
            proof {
                if state@.has_peer(node_id) {
                    let k = state@.peer_position(node_id);
                    assert(state.peers[k].node_id == node_id);
                }
            }
        },
    }
}

/// What the server has to be told after the peer list changed.
#[derive(Clone, Copy, Debug)]
pub struct PeerNotice {
    /// The peer that left, to be unregistered.
    pub unregister: Option<UnregisterNodePacket>,
    /// The peer that was created, to be registered.
    pub register: Option<RegisterNodePacket>,
}

/// Creates a peer in `domain`, makes it the active one, and returns the
/// packet that registers it.
pub fn add_peer(state: &mut ClientState, domain: NodeDomain) -> (packet: RegisterNodePacket)
    ensures
        final(state)@ == old(state)@.with_peer_added(EndpointDomain::of_node(domain)),
        registers(packet, old(state)@.new_peer(EndpointDomain::of_node(domain))),
{
    let endpoint_domain = endpoint_domain_from_node_domain(domain);
    let peer = add_peer_local(state, endpoint_domain);
    make_register_node_packet(peer.node_id, peer.desc, peer.domain)
}

/// Removes the active peer. The notice unregisters it and, where it was
/// the last peer, registers the internal peer created in its place.
pub fn remove_active_peer(state: &mut ClientState) -> (notice: PeerNotice)
    ensures
        final(state)@ == old(state)@.with_active_peer_removed(),
        match notice.unregister {
            Some(packet) => old(state)@.active_peer().is_some() && packet.node_id
                == old(state)@.active_peer().unwrap().node_id,
            None => old(state)@.active_peer().is_none(),
        },
        match notice.register {
            Some(packet) => old(state)@.active_peer().is_some() && old(state)@.peers.len() == 1
                && registers(
                packet,
                final(state)@.peers[0],
            ),
            None => !(old(state)@.active_peer().is_some() && old(state)@.peers.len() == 1),
        },
{
    if state.active_peer_index >= state.peers.len() {
        return PeerNotice { unregister: None, register: None };
    }
    let removed = state.peers.remove(state.active_peer_index);
    let unregister = make_unregister_node_packet(removed.node_id);
    if state.peers.len() == 0 {
        let replacement = add_peer_local(state, EndpointDomain::Internal);
        let register = make_register_node_packet(
            replacement.node_id,
            replacement.desc,
            replacement.domain,
        );
        PeerNotice { unregister: Some(unregister), register: Some(register) }
    } else {
        if state.active_peer_index >= state.peers.len() {
            state.active_peer_index = state.peers.len() - 1;
        }
        state.dst_domain = endpoint_domain_from_node_domain(
            state.peers[state.active_peer_index].domain,
        );
        PeerNotice { unregister: Some(unregister), register: None }
    }
}

/// Removes the peer `node_id`, if it is known, as [`remove_active_peer`]
/// removes the active one.
pub fn remove_peer(state: &mut ClientState, node_id: NodeId) -> (notice: PeerNotice)
    ensures
        final(state)@ == old(state)@.with_peer_removed(node_id),
        match notice.unregister {
            Some(packet) => old(state)@.has_peer(node_id) && packet.node_id == node_id,
            None => !old(state)@.has_peer(node_id),
        },
        notice.register.is_some() == (old(state)@.has_peer(node_id) && old(state)@.peers.len()
            == 1),
{
    match position_of(&state.peers, &node_id) {
        Some(index) => {
            proof {
                lemma_first_with_id(state@, node_id, index as int);
            }
            state.active_peer_index = index;
            remove_active_peer(state)
        },
        None => {
            proof {
                if state@.has_peer(node_id) {
                    let k = state@.peer_position(node_id);
                    assert(state.peers[k].node_id == node_id);
                }
            }
            PeerNotice { unregister: None, register: None }
        },
    }
}

/// Makes the first peer in `domain` the active one, creating one where
/// there is none; a created peer comes with the packet that registers it.
pub fn select_or_add_peer_for_domain(state: &mut ClientState, domain: EndpointDomain) -> (packet:
    Option<RegisterNodePacket>)
    ensures
        final(state)@ == old(state)@.with_target_in(domain),
        match packet {
            Some(register) => !old(state)@.has_peer_in(domain) && registers(
                register,
                old(state)@.new_peer(domain),
            ),
            None => old(state)@.has_peer_in(domain),
        },
{
    let packet = if select_first_peer_for_domain(state, domain).is_none() {
        let peer = add_peer_local(state, domain);
        Some(make_register_node_packet(peer.node_id, peer.desc, peer.domain))
    } else {
        None
    };
    state.dst_domain = domain;
    packet
}

/// The packet that registers the generator itself.
pub fn register_self(state: &ClientState) -> (packet: RegisterNodePacket)
    ensures
        packet.node_id == state.node_id,
        packet.desc == state.desc,
        packet.domain == state.node_domain,
{
    make_register_node_packet(state.node_id, state.desc, state.node_domain)
}

/// The packet that unregisters the generator itself.
pub fn unregister_self(state: &ClientState) -> (packet: UnregisterNodePacket)
    ensures
        packet.node_id == state.node_id,
{
    make_unregister_node_packet(state.node_id)
}

/// The message that asks the server for a topology snapshot.
pub fn request_topology() -> (message: WireMessage)
    ensures
        message is RequestTopology,
{
    WireMessage::RequestTopology
}

/// Moves the generator into `domain` and returns the packet that tells
/// the server.
pub fn update_source_domain(state: &mut ClientState, domain: EndpointDomain) -> (packet:
    RegisterNodePacket)
    ensures
        final(state)@ == (ClientStateView {
            src_domain: domain,
            node_domain: NodeDomain::of_endpoint(domain),
            ..old(state)@
        }),
        packet.node_id == old(state).node_id,
        packet.desc == old(state).desc,
        packet.domain == NodeDomain::of_endpoint(domain),
{
    state.src_domain = domain;
    state.node_domain = node_domain_from_endpoint_domain(domain);
    register_self(state)
}

// ---------------------------------------------------------------------------
// Send modes
// ---------------------------------------------------------------------------

/// Appends `count` entries to the queue, entry `i` due `i * interval_ms`
/// milliseconds after `now`. What was queued before stays in front.
pub fn schedule_burst(
    q: &mut VecDeque<ScheduledSend>,
    now: u64,
    count: u32,
    interval_ms: u32,
    class: TrafficClass,
    declared_bytes: u32,
)
    ensures
        final(q)@ == old(q)@ + burst(now, count, interval_ms, class, declared_bytes),
{
    let interval_us: u64 = interval_ms as u64 * 1000;
    let mut i: u32 = 0;
    while i < count
        invariant
            i <= count,
            interval_us == interval_ms * 1000,
            q@ =~= old(q)@ + burst(now, i, interval_ms, class, declared_bytes),
        decreases count - i,
    {
        assert((i as int) * (interval_us as int) <= 0xFFFF_FFFF * 0x3E7_FFFF_FC18) by (nonlinear_arith)
            requires
                0 <= i <= 0xFFFF_FFFF,
                0 <= interval_us <= 0x3E7_FFFF_FC18,
        ;
        let offset: u128 = now as u128 + (i as u128) * (interval_us as u128);
        let at: u64 = if offset > u64::MAX as u128 {
            u64::MAX
        } else {
            offset as u64
        };
        assert(at == burst_deadline(now, i as int, interval_ms)) by {
            assert((i as u128) * (interval_us as u128) == i * interval_ms * 1000) by (nonlinear_arith)
                requires
                    interval_us == interval_ms * 1000,
                    i <= u32::MAX,
                    interval_ms <= u32::MAX,
            ;
        }
        q.push_back(ScheduledSend { at, class, declared_bytes });
        i += 1;
    }
}

/// Switches to the steady profile.
pub fn set_profile_steady(state: &mut ClientState, now: u64)
    ensures
        final(state)@ == old(state)@.with_profile(ActiveProfile::steady(now)),
{
    state.queue.clear();
    state.continuous_state = None;
    state.active_profile = Some(
        ActiveProfile::Steady {
            class: TrafficClass::Api,
            rate: 80,
            next_send_at: now.saturating_add(interval_from_rate(80)),
        },
    );
}

/// Switches to the burst profile.
pub fn set_profile_burst(state: &mut ClientState, now: u64)
    ensures
        final(state)@ == old(state)@.with_burst_profile(now),
{
    state.active_profile = None;
    state.continuous_state = None;
    schedule_burst(
        &mut state.queue,
        now,
        state.burst_count,
        2,
        TrafficClass::Background,
        DEFAULT_PACKET_BYTES,
    );
}

/// Switches to the ramp profile.
pub fn set_profile_ramp(state: &mut ClientState, now: u64)
    ensures
        final(state)@ == old(state)@.with_profile(ActiveProfile::ramp(now)),
{
    let current_rate: u32 = 20;
    state.queue.clear();
    state.continuous_state = None;
    state.active_profile = Some(
        ActiveProfile::Ramp {
            class: TrafficClass::HeavyCompute,
            min_rate: 20,
            max_rate: 220,
            step: 20,
            current_rate,
            next_send_at: now.saturating_add(interval_from_rate(current_rate)),
            next_rate_update_at: now.saturating_add(MICROS_PER_SECOND),
            update_interval: MICROS_PER_SECOND,
        },
    );
}

/// Switches to the oscillation profile.
pub fn set_profile_oscillation(state: &mut ClientState, now: u64)
    ensures
        final(state)@ == old(state)@.with_profile(ActiveProfile::oscillation(now)),
{
    let current_rate: u32 = 40;
    state.queue.clear();
    state.continuous_state = None;
    state.active_profile = Some(
        ActiveProfile::Oscillation {
            class: TrafficClass::Api,
            low_rate: 40,
            high_rate: 240,
            current_rate,
            rising: true,
            next_send_at: now.saturating_add(interval_from_rate(current_rate)),
            next_rate_update_at: now.saturating_add(MICROS_PER_SECOND),
            update_interval: MICROS_PER_SECOND,
        },
    );
}

/// Leaves the shaped profile, if any.
pub fn clear_profile(state: &mut ClientState)
    ensures
        final(state)@ == (ClientStateView { active_profile: None, ..old(state)@ }),
{
    state.active_profile = None;
}

/// Starts a continuous stream of `rate` packets of `class` per second.
pub fn start_continuous(state: &mut ClientState, class: TrafficClass, rate: u32, now: u64)
    requires
        rate > 0,
    ensures
        final(state)@ == old(state)@.with_continuous(class, rate, now),
{
    let interval = MICROS_PER_SECOND / (rate as u64);
    state.continuous_state = Some(
        ContinuousState { class, next_send_at: now.saturating_add(interval), interval },
    );
    clear_profile(state);
    state.queue.clear();
}

/// Stops the continuous stream and leaves the shaped profile.
pub fn stop_continuous(state: &mut ClientState)
    ensures
        final(state)@ == (ClientStateView {
            continuous_state: None,
            active_profile: None,
            ..old(state)@
        }),
{
    state.continuous_state = None;
    clear_profile(state);
}

fn min_deadline(a: Option<u64>, b: Option<u64>) -> (m: Option<u64>)
    ensures
        m == crate::client_state::earlier(a, b),
{
    match (a, b) {
        (Some(x), Some(y)) => Some(if x <= y {
            x
        } else {
            y
        }),
        (Some(x), None) => Some(x),
        (None, y) => y,
    }
}

/// The earliest time at which the active profile wants to act.
pub fn next_profile_deadline(state: &ClientState) -> (deadline: Option<u64>)
    ensures
        deadline == (match state@.active_profile {
            Some(profile) => Some(profile.deadline()),
            None => None,
        }),
{
    match state.active_profile {
        Some(ActiveProfile::Steady { next_send_at, .. }) => Some(next_send_at),
        Some(ActiveProfile::Ramp { next_send_at, next_rate_update_at, .. }) => Some(
            if next_send_at <= next_rate_update_at {
                next_send_at
            } else {
                next_rate_update_at
            },
        ),
        Some(ActiveProfile::Oscillation { next_send_at, next_rate_update_at, .. }) => Some(
            if next_send_at <= next_rate_update_at {
                next_send_at
            } else {
                next_rate_update_at
            },
        ),
        None => None,
    }
}

/// The earliest deadline among the burst queue, the continuous stream and
/// the profile.
pub fn next_deadline(state: &ClientState) -> (deadline: Option<u64>)
    ensures
        deadline == state@.next_deadline(),
{
    let head = if state.queue.len() > 0 {
        Some(state.queue[0].at)
    } else {
        None
    };
    let stream = match state.continuous_state {
        Some(stream) => Some(stream.next_send_at),
        None => None,
    };
    min_deadline(min_deadline(head, stream), next_profile_deadline(state))
}

/// How long to wait for input at `now`.
pub fn poll_timeout(state: &ClientState, now: u64) -> (timeout: u64)
    ensures
        timeout == state@.poll_timeout(now),
        timeout <= MAX_INPUT_POLL_TIMEOUT_US,
{
    match next_deadline(state) {
        Some(deadline) => {
            let wait = deadline.saturating_sub(now);
            if wait < MAX_INPUT_POLL_TIMEOUT_US {
                wait
            } else {
                MAX_INPUT_POLL_TIMEOUT_US
            }
        },
        None => MAX_INPUT_POLL_TIMEOUT_US,
    }
}

/// Takes the head of the burst queue if it is due at `now`. Called until
/// it returns nothing, it hands out every due entry in queue order.
pub fn send_scheduled_packets(state: &mut ClientState, now: u64) -> (due: Option<ScheduledSend>)
    ensures
        due == (if old(state)@.burst_due(now) {
            Some(old(state)@.queue[0])
        } else {
            None
        }),
        final(state)@ == (if old(state)@.burst_due(now) {
            ClientStateView { queue: old(state)@.queue.drop_first(), ..old(state)@ }
        } else {
            old(state)@
        }),
{
    if state.queue.len() > 0 && state.queue[0].at <= now {
        let front = state.queue[0];
        let _ = state.queue.pop_front();
        assert(state.queue@ =~= old(state)@.queue.drop_first());
        Some(front)
    } else {
        None
    }
}

/// The class of the continuous stream if a packet of it is due at `now`.
pub fn send_continuous_packets(state: &ClientState, now: u64) -> (due: Option<TrafficClass>)
    ensures
        due == (if state@.continuous_due(now) {
            Some(state@.continuous_state.unwrap().class)
        } else {
            None
        }),
{
    match state.continuous_state {
        Some(stream) => if now >= stream.next_send_at {
            Some(stream.class)
        } else {
            None
        },
        None => None,
    }
}

/// Moves the continuous stream's next send one interval on.
pub fn advance_continuous(state: &mut ClientState)
    ensures
        final(state)@ == old(state)@.with_continuous_advanced(),
{
    if let Some(stream) = state.continuous_state {
        state.continuous_state = Some(
            ContinuousState {
                class: stream.class,
                next_send_at: stream.next_send_at.saturating_add(stream.interval),
                interval: stream.interval,
            },
        );
    }
}

/// One scheduling decision of the active profile at `now`: a rate update
/// that is due is made, and the class is returned if a packet is to be
/// sent. Called until it returns nothing, it catches up on every missed
/// tick.
pub fn send_profile_packets(state: &mut ClientState, now: u64) -> (send: Option<TrafficClass>)
    ensures
        final(state)@ == (ClientStateView {
            active_profile: match old(state)@.active_profile {
                Some(profile) => Some(profile.stepped(now)),
                None => None,
            },
            ..old(state)@
        }),
        send == (match old(state)@.active_profile {
            Some(profile) => if profile.due(now) {
                Some(profile.class())
            } else {
                None
            },
            None => None,
        }),
{
    let profile = match state.active_profile {
        Some(profile) => profile,
        None => {
            return None;
        },
    };
    match profile {
        ActiveProfile::Steady { class, rate, next_send_at } => {
            if now >= next_send_at {
                state.active_profile = Some(
                    ActiveProfile::Steady {
                        class,
                        rate,
                        next_send_at: next_send_at.saturating_add(interval_from_rate(rate)),
                    },
                );
                Some(class)
            } else {
                None
            }
        },
        ActiveProfile::Ramp {
            class,
            min_rate,
            max_rate,
            step,
            current_rate,
            next_send_at,
            next_rate_update_at,
            update_interval,
        } => {
            let mut rate = current_rate;
            let mut update_at = next_rate_update_at;
            if now >= next_rate_update_at {
                rate = if current_rate as u64 + step as u64 > max_rate as u64 {
                    min_rate
                } else {
                    current_rate + step
                };
                update_at = next_rate_update_at.saturating_add(update_interval);
            }
            let due = now >= next_send_at;
            let send_at = if due {
                next_send_at.saturating_add(interval_from_rate(rate))
            } else {
                next_send_at
            };
            state.active_profile = Some(
                ActiveProfile::Ramp {
                    class,
                    min_rate,
                    max_rate,
                    step,
                    current_rate: rate,
                    next_send_at: send_at,
                    next_rate_update_at: update_at,
                    update_interval,
                },
            );
            if due {
                Some(class)
            } else {
                None
            }
        },
        ActiveProfile::Oscillation {
            class,
            low_rate,
            high_rate,
            current_rate,
            rising,
            next_send_at,
            next_rate_update_at,
            update_interval,
        } => {
            let mut rate = current_rate;
            let mut rising_next = rising;
            let mut update_at = next_rate_update_at;
            if now >= next_rate_update_at {
                if rising {
                    rate = high_rate;
                    rising_next = false;
                } else {
                    rate = low_rate;
                    rising_next = true;
                }
                update_at = next_rate_update_at.saturating_add(update_interval);
            }
            let due = now >= next_send_at;
            let send_at = if due {
                next_send_at.saturating_add(interval_from_rate(rate))
            } else {
                next_send_at
            };
            state.active_profile = Some(
                ActiveProfile::Oscillation {
                    class,
                    low_rate,
                    high_rate,
                    current_rate: rate,
                    rising: rising_next,
                    next_send_at: send_at,
                    next_rate_update_at: update_at,
                    update_interval,
                },
            );
            if due {
                Some(class)
            } else {
                None
            }
        },
    }
}

// ---------------------------------------------------------------------------
// Packets and acknowledgements
// ---------------------------------------------------------------------------

/// Composes the next data packet of `class` for a destination in
/// `dst_domain`, settling on that destination first. The packet carries the
/// current sequence numbers and the wall clock; the counters move on only
/// once [`record_sent`] is called.
pub fn send_data_packet(
    state: &mut ClientState,
    class: TrafficClass,
    declared_bytes: u32,
    dst_domain: EndpointDomain,
) -> (packet: DataPacket)
    ensures
        final(state)@ == old(state)@.with_destination(dst_domain),
        packet == old(state)@.data_packet(class, declared_bytes, dst_domain, packet.timestamp_us),
{
    let class_seq = state.next_class_seq[class.index()];
    let peer = destination_peer(state, dst_domain);
    make_data_packet_with_endpoints(
        state.node_id,
        peer.node_id,
        state.node_id,
        state.next_global_seq,
        class_seq,
        class,
        declared_bytes,
        state.src_domain,
        dst_domain,
        state.desc,
    )
}

/// Accounts for a data packet of `class` that went out at `send_time`.
pub fn record_sent(state: &mut ClientState, class: TrafficClass, send_time: u64)
    ensures
        final(state)@ == old(state)@.with_packet_sent(class, send_time),
{
    let slot = class.index();
    state.pending_acks.insert(state.next_global_seq, send_time);
    state.next_global_seq = next_sequence(state.next_global_seq);
    state.next_class_seq[slot] = next_sequence(state.next_class_seq[slot]);
    proof {
        let expected = old(state)@.with_packet_sent(class, send_time);
        assert(state@.next_class_seq =~= expected.next_class_seq);
    }
}

/// Round-trip figures after an acknowledgement was matched.
#[derive(Clone, Copy, Debug)]
pub struct AckReport {
    pub original_seq: u32,
    pub rtt_us: u64,
    pub min_rtt_us: u64,
    pub max_rtt_us: u64,
    /// Sum of all round-trip times so far.
    pub sum_rtt_us: u64,
    pub total_acks: u64,
}

/// Matches an acknowledgement that arrived at `now` against the packets
/// still waiting for one.
pub fn receive_ack(state: &mut ClientState, ack: &AckPacket, now: u64) -> (report: Option<
    AckReport,
>)
    ensures
        final(state)@ == old(state)@.with_ack(ack.original_seq, now),
        report == (if old(state)@.pending_acks.contains_key(ack.original_seq) {
            Some(
                AckReport {
                    original_seq: ack.original_seq,
                    rtt_us: now.saturating_sub(old(state)@.pending_acks[ack.original_seq]),
                    min_rtt_us: final(state).min_rtt,
                    max_rtt_us: final(state).max_rtt,
                    sum_rtt_us: final(state).sum_rtt,
                    total_acks: final(state).total_acks,
                },
            )
        } else {
            None
        }),
{
    let waiting = state.pending_acks.remove(&ack.original_seq);
    proof {
        assert(state.pending_acks@ =~= old(state).pending_acks@.remove(ack.original_seq));
        if !old(state)@.pending_acks.contains_key(ack.original_seq) {
            assert(state.pending_acks@ =~= old(state).pending_acks@);
        }
    }
    match waiting {
        Some(send_time) => {
            let rtt = now.saturating_sub(send_time);
            state.total_acks = state.total_acks.saturating_add(1);
            if rtt < state.min_rtt {
                state.min_rtt = rtt;
            }
            if rtt > state.max_rtt {
                state.max_rtt = rtt;
            }
            state.sum_rtt = state.sum_rtt.saturating_add(rtt);
            Some(
                AckReport {
                    original_seq: ack.original_seq,
                    rtt_us: rtt,
                    min_rtt_us: state.min_rtt,
                    max_rtt_us: state.max_rtt,
                    sum_rtt_us: state.sum_rtt,
                    total_acks: state.total_acks,
                },
            )
        },
        None => None,
    }
}

// ---------------------------------------------------------------------------
// Topology self-tests
// ---------------------------------------------------------------------------

/// Composes a data packet, accounts for it as sent at `now`, and appends
/// it to `messages`.
fn dispatch_data(
    state: &mut ClientState,
    messages: &mut Vec<WireMessage>,
    class: TrafficClass,
    dst_domain: EndpointDomain,
    now: u64,
)
    ensures
        final(state)@ == old(state)@.with_data_sent(class, dst_domain, now),
        final(messages)@.len() == old(messages)@.len() + 1,
        forall|k: int| 0 <= k < old(messages)@.len() ==> final(messages)@[k] == old(messages)@[k],
        old(state)@.is_data(
            final(messages)@[old(messages)@.len() as int],
            class,
            DEFAULT_PACKET_BYTES,
            dst_domain,
        ),
{
    let packet = send_data_packet(state, class, DEFAULT_PACKET_BYTES, dst_domain);
    record_sent(state, class, now);
    messages.push(WireMessage::Data(packet));
}

/// Readies the generator for a topology self-test and starts the list of
/// messages with its own registration.
fn begin_test(state: &mut ClientState) -> (messages: Vec<WireMessage>)
    ensures
        final(state)@ == old(state)@.reset_for_test(),
        messages@.len() == 1,
        crate::client_state::is_register(
            messages@[0],
            old(state).node_id,
            old(state).desc,
            NodeDomain::Internal,
        ),
{
    state.queue.clear();
    state.continuous_state = None;
    state.node_domain = NodeDomain::Internal;
    let mut messages: Vec<WireMessage> = Vec::new();
    messages.push(WireMessage::RegisterNode(register_self(state)));
    messages
}

/// Dispatches the smoke test at `now`: the returned messages are to be
/// sent in order, and the next topology snapshot is expected to show the
/// generator, an edge leaving it, and an external node.
pub fn run_topology_smoke_test(state: &mut ClientState, now: u64) -> (messages: Vec<WireMessage>)
    ensures
        final(state)@ == old(state)@.after_smoke_test(now),
        old(state)@.is_smoke_dispatch(messages@),
{
    let mut messages = begin_test(state);
    if let Some(register) = select_or_add_peer_for_domain(state, EndpointDomain::External) {
        messages.push(WireMessage::RegisterNode(register));
    }
    dispatch_data(state, &mut messages, TrafficClass::Api, EndpointDomain::External, now);
    messages.push(request_topology());
    state.pending_topology_expectation = Some(TopologyExpectation::Smoke { node_id: state.node_id });
    messages
}

/// Dispatches the removal test: the next topology snapshot is expected to
/// list the generator among the removed nodes.
pub fn run_topology_removal_test(state: &mut ClientState) -> (messages: Vec<WireMessage>)
    ensures
        final(state)@ == old(state)@.after_removal_test(),
        old(state)@.is_removal_dispatch(messages@),
{
    let mut messages = begin_test(state);
    messages.push(WireMessage::UnregisterNode(unregister_self(state)));
    messages.push(request_topology());
    state.pending_topology_expectation = Some(
        TopologyExpectation::Removal { node_id: state.node_id },
    );
    messages
}

/// Dispatches the mixed-classes test at `now`: the next topology snapshot
/// is expected to show one edge of every class leaving the generator.
pub fn run_topology_mixed_classes_test(state: &mut ClientState, now: u64) -> (messages: Vec<
    WireMessage,
>)
    ensures
        final(state)@ == old(state)@.after_mixed_classes_test(now),
        old(state)@.is_mixed_classes_dispatch(now, messages@),
{
    let mut messages = begin_test(state);
    if let Some(register) = select_or_add_peer_for_domain(state, EndpointDomain::External) {
        messages.push(WireMessage::RegisterNode(register));
    }
    let ghost first = messages@.len() as int;
    let mut sent: usize = 0;
    while sent < 4
        invariant
            sent <= 4,
            first == (if old(state)@.reset_for_test().has_peer_in(EndpointDomain::External) {
                1int
            } else {
                2int
            }),
            state@ == old(state)@.during_mixed_classes_test(now, sent as int),
            messages@.len() == first + sent,
            crate::client_state::is_register(
                messages@[0],
                old(state).node_id,
                old(state).desc,
                NodeDomain::Internal,
            ),
            first == 2 ==> (messages@[1] matches WireMessage::RegisterNode(packet) && registers(
                packet,
                old(state)@.reset_for_test().new_peer(EndpointDomain::External),
            )),
            forall|i: int|
                first <= i < first + sent ==> old(state)@.during_mixed_classes_test(
                    now,
                    i - first,
                ).is_data(
                    #[trigger] messages@[i],
                    TrafficClass::of_ordinal(i - first),
                    DEFAULT_PACKET_BYTES,
                    EndpointDomain::External,
                ),
            state.node_id == old(state).node_id,
        decreases 4 - sent,
    {
        dispatch_data(
            state,
            &mut messages,
            TrafficClass::from_index(sent),
            EndpointDomain::External,
            now,
        );
        sent += 1;
    }
    messages.push(request_topology());
    state.pending_topology_expectation = Some(
        TopologyExpectation::MixedClasses { node_id: state.node_id },
    );
    messages
}

/// What a topology snapshot showed of an expectation.
#[derive(Clone, Copy, Debug, PartialEq, Eq, Structural)]
pub enum TopologyVerdict {
    Smoke { node_present: bool, edge_present: bool, external_node_present: bool },
    Removal { removed: bool },
    MixedClasses { all_classes_present: bool },
}

impl TopologyVerdict {
    pub open spec fn passed(self) -> bool {
        match self {
            TopologyVerdict::Smoke { node_present, edge_present, external_node_present } => {
                node_present && edge_present && external_node_present
            },
            TopologyVerdict::Removal { removed } => removed,
            TopologyVerdict::MixedClasses { all_classes_present } => all_classes_present,
        }
    }

    pub fn pass(&self) -> (ok: bool)
        ensures
            ok == self.passed(),
    {
        match self {
            TopologyVerdict::Smoke { node_present, edge_present, external_node_present } => {
                *node_present && *edge_present && *external_node_present
            },
            TopologyVerdict::Removal { removed } => *removed,
            TopologyVerdict::MixedClasses { all_classes_present } => *all_classes_present,
        }
    }
}

/// The snapshot shows the node `id`.
pub open spec fn shows_node(snapshot: TopologySnapshot, id: NodeId) -> bool {
    exists|i: int| 0 <= i < snapshot.nodes@.len() && (#[trigger] snapshot.nodes@[i]).node_id == id
}

/// The snapshot shows a node of the external domain.
pub open spec fn shows_external_node(snapshot: TopologySnapshot) -> bool {
    exists|i: int|
        0 <= i < snapshot.nodes@.len() && (#[trigger] snapshot.nodes@[i]).domain
            == NodeDomain::External
}

/// The snapshot shows an edge that leaves the node `id`.
pub open spec fn shows_edge_from(snapshot: TopologySnapshot, id: NodeId) -> bool {
    exists|i: int|
        0 <= i < snapshot.edges@.len() && (#[trigger] snapshot.edges@[i]).src_node_id == id
}

/// The snapshot shows an edge of `class` that leaves the node `id`.
pub open spec fn shows_class_edge_from(snapshot: TopologySnapshot, id: NodeId, class: TrafficClass) -> bool {
    exists|i: int|
        0 <= i < snapshot.edges@.len() && (#[trigger] snapshot.edges@[i]).src_node_id == id
            && snapshot.edges@[i].class == class
}

/// What `snapshot` shows of `expectation`.
pub open spec fn verdict_of(expectation: TopologyExpectation, snapshot: TopologySnapshot) -> TopologyVerdict {
    match expectation {
        TopologyExpectation::Smoke { node_id } => TopologyVerdict::Smoke {
            node_present: shows_node(snapshot, node_id),
            edge_present: shows_edge_from(snapshot, node_id),
            external_node_present: shows_external_node(snapshot),
        },
        TopologyExpectation::Removal { node_id } => TopologyVerdict::Removal {
            removed: snapshot.removed_nodes@.contains(node_id),
        },
        TopologyExpectation::MixedClasses { node_id } => TopologyVerdict::MixedClasses {
            all_classes_present: shows_class_edge_from(snapshot, node_id, TrafficClass::Api)
                && shows_class_edge_from(snapshot, node_id, TrafficClass::HeavyCompute)
                && shows_class_edge_from(snapshot, node_id, TrafficClass::Background)
                && shows_class_edge_from(snapshot, node_id, TrafficClass::HealthCheck),
        },
    }
}

fn any_node(snapshot: &TopologySnapshot, id: &NodeId) -> (found: bool)
    ensures
        found == shows_node(*snapshot, *id),
{
    let mut i: usize = 0;
    while i < snapshot.nodes.len()
        invariant
            i <= snapshot.nodes.len(),
            forall|k: int| 0 <= k < i ==> (#[trigger] snapshot.nodes@[k]).node_id != *id,
        decreases snapshot.nodes.len() - i,
    {
        if ids_equal(&snapshot.nodes[i].node_id, id) {
            return true;
        }
        i += 1;
    }
    false
}

fn any_external_node(snapshot: &TopologySnapshot) -> (found: bool)
    ensures
        found == shows_external_node(*snapshot),
{
    let mut i: usize = 0;
    while i < snapshot.nodes.len()
        invariant
            i <= snapshot.nodes.len(),
            forall|k: int|
                0 <= k < i ==> (#[trigger] snapshot.nodes@[k]).domain != NodeDomain::External,
        decreases snapshot.nodes.len() - i,
    {
        if snapshot.nodes[i].domain == NodeDomain::External {
            return true;
        }
        i += 1;
    }
    false
}

fn any_edge_from(snapshot: &TopologySnapshot, id: &NodeId) -> (found: bool)
    ensures
        found == shows_edge_from(*snapshot, *id),
{
    let mut i: usize = 0;
    while i < snapshot.edges.len()
        invariant
            i <= snapshot.edges.len(),
            forall|k: int| 0 <= k < i ==> (#[trigger] snapshot.edges@[k]).src_node_id != *id,
        decreases snapshot.edges.len() - i,
    {
        if ids_equal(&snapshot.edges[i].src_node_id, id) {
            return true;
        }
        i += 1;
    }
    false
}

fn any_class_edge_from(snapshot: &TopologySnapshot, id: &NodeId, class: TrafficClass) -> (found:
    bool)
    ensures
        found == shows_class_edge_from(*snapshot, *id, class),
{
    let mut i: usize = 0;
    while i < snapshot.edges.len()
        invariant
            i <= snapshot.edges.len(),
            forall|k: int|
                0 <= k < i ==> !((#[trigger] snapshot.edges@[k]).src_node_id == *id
                    && snapshot.edges@[k].class == class),
        decreases snapshot.edges.len() - i,
    {
        if ids_equal(&snapshot.edges[i].src_node_id, id) && snapshot.edges[i].class == class {
            return true;
        }
        i += 1;
    }
    false
}

fn any_removed(snapshot: &TopologySnapshot, id: &NodeId) -> (found: bool)
    ensures
        found == snapshot.removed_nodes@.contains(*id),
{
    let mut i: usize = 0;
    while i < snapshot.removed_nodes.len()
        invariant
            i <= snapshot.removed_nodes.len(),
            forall|k: int| 0 <= k < i ==> snapshot.removed_nodes@[k] != *id,
        decreases snapshot.removed_nodes.len() - i,
    {
        if ids_equal(&snapshot.removed_nodes[i], id) {
            return true;
        }
        i += 1;
    }
    false
}

/// Holds a topology snapshot against an expectation.
pub fn validate_topology_expectation(expectation: TopologyExpectation, snapshot: &TopologySnapshot) -> (verdict:
    TopologyVerdict)
    ensures
        verdict == verdict_of(expectation, *snapshot),
{
    match expectation {
        TopologyExpectation::Smoke { node_id } => TopologyVerdict::Smoke {
            node_present: any_node(snapshot, &node_id),
            edge_present: any_edge_from(snapshot, &node_id),
            external_node_present: any_external_node(snapshot),
        },
        TopologyExpectation::Removal { node_id } => TopologyVerdict::Removal {
            removed: any_removed(snapshot, &node_id),
        },
        TopologyExpectation::MixedClasses { node_id } => TopologyVerdict::MixedClasses {
            all_classes_present: any_class_edge_from(snapshot, &node_id, TrafficClass::Api)
                && any_class_edge_from(snapshot, &node_id, TrafficClass::HeavyCompute)
                && any_class_edge_from(snapshot, &node_id, TrafficClass::Background)
                && any_class_edge_from(snapshot, &node_id, TrafficClass::HealthCheck),
        },
    }
}

/// Holds an arriving topology snapshot against the pending expectation,
/// which is thereby used up. Without a pending expectation there is no
/// verdict.
pub fn display_topology_snapshot(state: &mut ClientState, snapshot: &TopologySnapshot) -> (verdict:
    Option<TopologyVerdict>)
    ensures
        final(state)@ == (ClientStateView { pending_topology_expectation: None, ..old(state)@ }),
        verdict == (match old(state)@.pending_topology_expectation {
            Some(expectation) => Some(verdict_of(expectation, *snapshot)),
            None => None,
        }),
{
    let pending = state.pending_topology_expectation;
    state.pending_topology_expectation = None;
    match pending {
        Some(expectation) => Some(validate_topology_expectation(expectation, snapshot)),
        None => None,
    }
}

/// What an arriving message meant to the generator.
#[derive(Clone, Copy, Debug)]
pub enum Inbound {
    /// An acknowledgement that matched a waiting packet.
    Ack(AckReport),
    /// An analytics snapshot, to be shown.
    Analytics,
    /// A topology snapshot, to be shown with the verdict on the pending
    /// expectation, if there was one.
    Topology(Option<TopologyVerdict>),
    /// Nothing the generator acts on.
    Ignored,
}

/// Handles one message that arrived at `now`.
pub fn receive_acks(state: &mut ClientState, message: &WireMessage, now: u64) -> (event: Inbound)
    ensures
        match *message {
            WireMessage::Ack(ack) => {
                &&& final(state)@ == old(state)@.with_ack(ack.original_seq, now)
                &&& if old(state)@.pending_acks.contains_key(ack.original_seq) {
                    event matches Inbound::Ack(report) && report.original_seq == ack.original_seq
                        && report.rtt_us == now.saturating_sub(
                        old(state)@.pending_acks[ack.original_seq],
                    )
                } else {
                    event is Ignored
                }
            },
            WireMessage::Topology(snapshot) => {
                &&& final(state)@ == (ClientStateView {
                    pending_topology_expectation: None,
                    ..old(state)@
                })
                &&& event matches Inbound::Topology(verdict) && verdict == (
                match old(state)@.pending_topology_expectation {
                    Some(expectation) => Some(verdict_of(expectation, snapshot)),
                    None => None,
                })
            },
            WireMessage::Analytics(_) => final(state)@ == old(state)@ && event is Analytics,
            _ => final(state)@ == old(state)@ && event is Ignored,
        },
{
    match message {
        WireMessage::Ack(ack) => match receive_ack(state, ack, now) {
            Some(report) => Inbound::Ack(report),
            None => Inbound::Ignored,
        },
        WireMessage::Analytics(_) => Inbound::Analytics,
        WireMessage::Topology(snapshot) => Inbound::Topology(
            display_topology_snapshot(state, snapshot),
        ),
        _ => Inbound::Ignored,
    }
}

} // verus!

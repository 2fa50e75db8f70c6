//! State of the traffic generator and the rules by which it changes: the
//! peers it sends to, the burst queue, the continuous stream, the shaped
//! profiles, and the bookkeeping of acknowledgements.
//!
//! Monotonic times and intervals are `u64` microseconds.

use vstd::prelude::*;
use std::collections::{HashMap, VecDeque};
use crate::protocol::{
    DataPacket, EndpointDomain, NodeDomain, NodeId, RegisterNodePacket, TrafficClass, WireMessage,
};
use crate::tracker::{clamp, MICROS_PER_SECOND};
use crate::engine_model::be_byte;

verus! {

/// Longest time the generator waits for input before it looks at its
/// deadlines again.
pub const MAX_INPUT_POLL_TIMEOUT_US: u64 = 50_000;

/// Burst size a fresh generator starts with.
pub const DEFAULT_BURST_COUNT: u32 = 200;

/// Declared size of the packets that the continuous stream, the profiles
/// and the single-key commands send.
pub const DEFAULT_PACKET_BYTES: u32 = 1200;

/// One packet waiting in the burst queue.
#[derive(Clone, Copy, Debug)]
pub struct ScheduledSend {
    pub at: u64,
    pub class: TrafficClass,
    pub declared_bytes: u32,
}

/// A stream of one packet every `interval` microseconds.
#[derive(Clone, Copy, Debug)]
pub struct ContinuousState {
    pub class: TrafficClass,
    pub next_send_at: u64,
    pub interval: u64,
}

/// A node the generator can send to.
#[derive(Clone, Copy, Debug)]
pub struct PeerNode {
    pub node_id: NodeId,
    pub domain: NodeDomain,
    pub desc: [u8; 16],
}

/// What the next topology snapshot is expected to show.
#[derive(Clone, Copy, Debug)]
pub enum TopologyExpectation {
    Smoke { node_id: NodeId },
    Removal { node_id: NodeId },
    MixedClasses { node_id: NodeId },
}

/// A shaped traffic profile.
#[derive(Clone, Copy, Debug)]
pub enum ActiveProfile {
    Steady { class: TrafficClass, rate: u32, next_send_at: u64 },
    Ramp {
        class: TrafficClass,
        min_rate: u32,
        max_rate: u32,
        step: u32,
        current_rate: u32,
        next_send_at: u64,
        next_rate_update_at: u64,
        update_interval: u64,
    },
    Oscillation {
        class: TrafficClass,
        low_rate: u32,
        high_rate: u32,
        current_rate: u32,
        rising: bool,
        next_send_at: u64,
        next_rate_update_at: u64,
        update_interval: u64,
    },
}

/// Everything the traffic generator remembers.
pub struct ClientState {
    pub node_id: NodeId,
    pub desc: [u8; 16],
    pub node_domain: NodeDomain,
    pub src_domain: EndpointDomain,
    pub dst_domain: EndpointDomain,
    pub peers: Vec<PeerNode>,
    pub active_peer_index: usize,
    pub next_peer_counter: u64,
    pub burst_count: u32,
    pub next_global_seq: u32,
    /// Next sequence number of each traffic class, in ordinal order.
    pub next_class_seq: [u32; 4],
    pub queue: VecDeque<ScheduledSend>,
    /// Send time of every packet not yet acknowledged, by global sequence
    /// number.
    pub pending_acks: HashMap<u32, u64>,
    pub total_acks: u64,
    pub min_rtt: u64,
    pub max_rtt: u64,
    pub sum_rtt: u64,
    pub continuous_state: Option<ContinuousState>,
    pub active_profile: Option<ActiveProfile>,
    pub pending_topology_expectation: Option<TopologyExpectation>,
}

/// Mathematical content of a [`ClientState`].
pub struct ClientStateView {
    pub node_id: NodeId,
    pub desc: [u8; 16],
    pub node_domain: NodeDomain,
    pub src_domain: EndpointDomain,
    pub dst_domain: EndpointDomain,
    pub peers: Seq<PeerNode>,
    pub active_peer_index: usize,
    pub next_peer_counter: u64,
    pub burst_count: u32,
    pub next_global_seq: u32,
    pub next_class_seq: [u32; 4],
    pub queue: Seq<ScheduledSend>,
    pub pending_acks: Map<u32, u64>,
    pub total_acks: u64,
    pub min_rtt: u64,
    pub max_rtt: u64,
    pub sum_rtt: u64,
    pub continuous_state: Option<ContinuousState>,
    pub active_profile: Option<ActiveProfile>,
    pub pending_topology_expectation: Option<TopologyExpectation>,
}

impl View for ClientState {
    type V = ClientStateView;

    open spec fn view(&self) -> ClientStateView {
        ClientStateView {
            node_id: self.node_id,
            desc: self.desc,
            node_domain: self.node_domain,
            src_domain: self.src_domain,
            dst_domain: self.dst_domain,
            peers: self.peers@,
            active_peer_index: self.active_peer_index,
            next_peer_counter: self.next_peer_counter,
            burst_count: self.burst_count,
            next_global_seq: self.next_global_seq,
            next_class_seq: self.next_class_seq,
            queue: self.queue@,
            pending_acks: self.pending_acks@,
            total_acks: self.total_acks,
            min_rtt: self.min_rtt,
            max_rtt: self.max_rtt,
            sum_rtt: self.sum_rtt,
            continuous_state: self.continuous_state,
            active_profile: self.active_profile,
            pending_topology_expectation: self.pending_topology_expectation,
        }
    }
}

// ---------------------------------------------------------------------------
// Plain rules
// ---------------------------------------------------------------------------

/// Time between two packets at `rate` packets per second, in whole
/// microseconds; a rate of zero counts as one.
pub open spec fn rate_interval(rate: u32) -> u64 {
    if rate == 0 {
        MICROS_PER_SECOND
    } else {
        (MICROS_PER_SECOND / (rate as u64)) as u64
    }
}

/// The sequence number after `seq`, wrapping.
pub open spec fn wrapping_next(seq: u32) -> u32 {
    if seq == u32::MAX {
        0
    } else {
        (seq + 1) as u32
    }
}

/// Deadline of entry `i` of a burst that starts at `now` with
/// `interval_ms` milliseconds between entries, saturating.
pub open spec fn burst_deadline(now: u64, i: int, interval_ms: u32) -> u64 {
    clamp(now + i * interval_ms * 1000)
}

/// The entries of a burst of `count` packets, in order.
pub open spec fn burst(
    now: u64,
    count: u32,
    interval_ms: u32,
    class: TrafficClass,
    declared_bytes: u32,
) -> Seq<ScheduledSend> {
    Seq::new(
        count as nat,
        |i: int| ScheduledSend { at: burst_deadline(now, i, interval_ms), class, declared_bytes },
    )
}

/// Ten to the power `e`, for `e` up to 19.
pub open spec fn pow10(e: int) -> u64 {
    if e <= 0 {
        1
    } else if e == 1 {
        10
    } else if e == 2 {
        100
    } else if e == 3 {
        1_000
    } else if e == 4 {
        10_000
    } else if e == 5 {
        100_000
    } else if e == 6 {
        1_000_000
    } else if e == 7 {
        10_000_000
    } else if e == 8 {
        100_000_000
    } else if e == 9 {
        1_000_000_000
    } else if e == 10 {
        10_000_000_000
    } else if e == 11 {
        100_000_000_000
    } else if e == 12 {
        1_000_000_000_000
    } else if e == 13 {
        10_000_000_000_000
    } else if e == 14 {
        100_000_000_000_000
    } else if e == 15 {
        1_000_000_000_000_000
    } else if e == 16 {
        10_000_000_000_000_000
    } else if e == 17 {
        100_000_000_000_000_000
    } else if e == 18 {
        1_000_000_000_000_000_000
    } else {
        10_000_000_000_000_000_000
    }
}

/// Number of decimal digits a peer counter is written with: at least six.
pub open spec fn decimal_width(n: u64) -> int {
    if n < pow10(6) {
        6
    } else if n < pow10(7) {
        7
    } else if n < pow10(8) {
        8
    } else if n < pow10(9) {
        9
    } else if n < pow10(10) {
        10
    } else if n < pow10(11) {
        11
    } else if n < pow10(12) {
        12
    } else if n < pow10(13) {
        13
    } else if n < pow10(14) {
        14
    } else if n < pow10(15) {
        15
    } else if n < pow10(16) {
        16
    } else if n < pow10(17) {
        17
    } else if n < pow10(18) {
        18
    } else if n < pow10(19) {
        19
    } else {
        20
    }
}

/// The ASCII digit at position `slot` (0 is the leftmost) of `n` written
/// in decimal with at least six digits, or a zero byte past its end.
pub open spec fn counter_digit(n: u64, slot: int) -> u8 {
    if slot < decimal_width(n) {
        (48 + (n / pow10(decimal_width(n) - 1 - slot)) % 10) as u8
    } else {
        0
    }
}

/// Description of a generated peer: the first sixteen bytes of the ASCII
/// text `peer-int-` or `peer-ext-` followed by the counter in decimal,
/// zero-padded to six digits; unused bytes are zero.
pub open spec fn peer_desc_of(domain: EndpointDomain, counter: u64) -> [u8; 16] {
    [
        112u8,
        101u8,
        101u8,
        114u8,
        45u8,
        match domain {
            EndpointDomain::Internal => 105u8,
            EndpointDomain::External => 101u8,
        },
        match domain {
            EndpointDomain::Internal => 110u8,
            EndpointDomain::External => 120u8,
        },
        116u8,
        45u8,
        counter_digit(counter, 0),
        counter_digit(counter, 1),
        counter_digit(counter, 2),
        counter_digit(counter, 3),
        counter_digit(counter, 4),
        counter_digit(counter, 5),
        counter_digit(counter, 6),
    ]
}

/// Id of a generated peer: the ASCII text `peer`, then `i` or `e` for the
/// domain, then the first three bytes of the generator's own id, then the
/// counter, most significant byte first.
pub open spec fn peer_id_of(own: NodeId, domain: EndpointDomain, counter: u64) -> NodeId {
    [
        112u8,
        101u8,
        101u8,
        114u8,
        match domain {
            EndpointDomain::Internal => 105u8,
            EndpointDomain::External => 101u8,
        },
        own[0],
        own[1],
        own[2],
        be_byte(counter, 0),
        be_byte(counter, 1),
        be_byte(counter, 2),
        be_byte(counter, 3),
        be_byte(counter, 4),
        be_byte(counter, 5),
        be_byte(counter, 6),
        be_byte(counter, 7),
    ]
}

/// The number written into a generated peer's description: the peer
/// counter, or one less where the counter has reached its largest value.
pub open spec fn desc_counter(counter: u64) -> u64 {
    if counter == u64::MAX {
        (u64::MAX - 1) as u64
    } else {
        counter
    }
}

/// The two peers a fresh generator knows: `peer-internal---` and
/// `peer-external---`.
pub open spec fn default_peers() -> Seq<PeerNode> {
    seq![
        PeerNode {
            node_id: [
                112u8, 101u8, 101u8, 114u8, 45u8, 105u8, 110u8, 116u8,
                101u8, 114u8, 110u8, 97u8, 108u8, 45u8, 45u8, 45u8,
            ],
            domain: NodeDomain::Internal,
            desc: [
                112u8, 101u8, 101u8, 114u8, 45u8, 105u8, 110u8, 116u8,
                45u8, 100u8, 101u8, 102u8, 97u8, 117u8, 108u8, 116u8,
            ],
        },
        PeerNode {
            node_id: [
                112u8, 101u8, 101u8, 114u8, 45u8, 101u8, 120u8, 116u8,
                101u8, 114u8, 110u8, 97u8, 108u8, 45u8, 45u8, 45u8,
            ],
            domain: NodeDomain::External,
            desc: [
                112u8, 101u8, 101u8, 114u8, 45u8, 101u8, 120u8, 116u8,
                45u8, 100u8, 101u8, 102u8, 97u8, 117u8, 108u8, 116u8,
            ],
        },
    ]
}

/// `i` is the position of the first peer of `peers` in `domain`.
pub open spec fn is_first_in_domain(peers: Seq<PeerNode>, domain: NodeDomain, i: int) -> bool {
    &&& 0 <= i < peers.len()
    &&& peers[i].domain == domain
    &&& forall|j: int| 0 <= j < i ==> (#[trigger] peers[j]).domain != domain
}

/// `i` is the position of the first peer of `peers` with id `id`.
pub open spec fn is_first_with_id(peers: Seq<PeerNode>, id: NodeId, i: int) -> bool {
    &&& 0 <= i < peers.len()
    &&& peers[i].node_id == id
    &&& forall|j: int| 0 <= j < i ==> (#[trigger] peers[j]).node_id != id
}

/// `packet` registers `peer`.
pub open spec fn registers(packet: RegisterNodePacket, peer: PeerNode) -> bool {
    packet.node_id == peer.node_id && packet.desc == peer.desc && packet.domain == peer.domain
}

/// `message` registers the node `node_id` with `desc` and `domain`.
pub open spec fn is_register(
    message: WireMessage,
    node_id: NodeId,
    desc: [u8; 16],
    domain: NodeDomain,
) -> bool {
    message matches WireMessage::RegisterNode(packet) && packet.node_id == node_id && packet.desc
        == desc && packet.domain == domain
}

/// `message` unregisters the node `node_id`.
pub open spec fn is_unregister(message: WireMessage, node_id: NodeId) -> bool {
    message matches WireMessage::UnregisterNode(packet) && packet.node_id == node_id
}

// ---------------------------------------------------------------------------
// Profiles
// ---------------------------------------------------------------------------

/// The rate a ramp moves to: one step up, or back to the minimum once the
/// maximum would be exceeded.
pub open spec fn ramp_next(current: u32, step: u32, min_rate: u32, max_rate: u32) -> u32 {
    if current + step > max_rate {
        min_rate
    } else {
        (current + step) as u32
    }
}

impl ActiveProfile {
    pub open spec fn class(self) -> TrafficClass {
        match self {
            ActiveProfile::Steady { class, .. } => class,
            ActiveProfile::Ramp { class, .. } => class,
            ActiveProfile::Oscillation { class, .. } => class,
        }
    }

    pub open spec fn next_send_at(self) -> u64 {
        match self {
            ActiveProfile::Steady { next_send_at, .. } => next_send_at,
            ActiveProfile::Ramp { next_send_at, .. } => next_send_at,
            ActiveProfile::Oscillation { next_send_at, .. } => next_send_at,
        }
    }

    /// The earliest time at which the profile wants to act: its next send
    /// or, for the shaped profiles, its next rate update.
    pub open spec fn deadline(self) -> u64 {
        match self {
            ActiveProfile::Steady { next_send_at, .. } => next_send_at,
            ActiveProfile::Ramp { next_send_at, next_rate_update_at, .. } => if next_send_at
                <= next_rate_update_at {
                next_send_at
            } else {
                next_rate_update_at
            },
            ActiveProfile::Oscillation { next_send_at, next_rate_update_at, .. } => if next_send_at
                <= next_rate_update_at {
                next_send_at
            } else {
                next_rate_update_at
            },
        }
    }

    /// A packet is due at `now`.
    pub open spec fn due(self, now: u64) -> bool {
        now >= self.next_send_at()
    }

    /// The rate in force once a rate update that is due at `now` was made.
    pub open spec fn rate_at(self, now: u64) -> u32 {
        match self {
            ActiveProfile::Steady { rate, .. } => rate,
            ActiveProfile::Ramp {
                min_rate,
                max_rate,
                step,
                current_rate,
                next_rate_update_at,
                ..
            } => if now >= next_rate_update_at {
                ramp_next(current_rate, step, min_rate, max_rate)
            } else {
                current_rate
            },
            ActiveProfile::Oscillation {
                low_rate,
                high_rate,
                current_rate,
                rising,
                next_rate_update_at,
                ..
            } => if now >= next_rate_update_at {
                if rising {
                    high_rate
                } else {
                    low_rate
                }
            } else {
                current_rate
            },
        }
    }

    /// The profile after one scheduling decision at `now`: a rate update
    /// that is due is made first, then a send that is due moves the next
    /// send one interval of the rate now in force.
    pub open spec fn stepped(self, now: u64) -> ActiveProfile {
        let sent = if self.due(now) {
            self.next_send_at().saturating_add(rate_interval(self.rate_at(now)))
        } else {
            self.next_send_at()
        };
        match self {
            ActiveProfile::Steady { class, rate, .. } => ActiveProfile::Steady {
                class,
                rate,
                next_send_at: sent,
            },
            ActiveProfile::Ramp {
                class,
                min_rate,
                max_rate,
                step,
                current_rate,
                next_rate_update_at,
                update_interval,
                ..
            } => ActiveProfile::Ramp {
                class,
                min_rate,
                max_rate,
                step,
                current_rate: self.rate_at(now),
                next_send_at: sent,
                next_rate_update_at: if now >= next_rate_update_at {
                    next_rate_update_at.saturating_add(update_interval)
                } else {
                    next_rate_update_at
                },
                update_interval,
            },
            ActiveProfile::Oscillation {
                class,
                low_rate,
                high_rate,
                current_rate,
                rising,
                next_rate_update_at,
                update_interval,
                ..
            } => ActiveProfile::Oscillation {
                class,
                low_rate,
                high_rate,
                current_rate: self.rate_at(now),
                rising: if now >= next_rate_update_at {
                    !rising
                } else {
                    rising
                },
                next_send_at: sent,
                next_rate_update_at: if now >= next_rate_update_at {
                    next_rate_update_at.saturating_add(update_interval)
                } else {
                    next_rate_update_at
                },
                update_interval,
            },
        }
    }

    /// The steady profile: API traffic at 80 packets per second.
    pub open spec fn steady(now: u64) -> ActiveProfile {
        ActiveProfile::Steady {
            class: TrafficClass::Api,
            rate: 80,
            next_send_at: now.saturating_add(rate_interval(80)),
        }
    }

    /// The ramp profile: heavy-compute traffic from 20 to 220 packets per
    /// second in steps of 20, one step per second.
    pub open spec fn ramp(now: u64) -> ActiveProfile {
        ActiveProfile::Ramp {
            class: TrafficClass::HeavyCompute,
            min_rate: 20,
            max_rate: 220,
            step: 20,
            current_rate: 20,
            next_send_at: now.saturating_add(rate_interval(20)),
            next_rate_update_at: now.saturating_add(MICROS_PER_SECOND),
            update_interval: MICROS_PER_SECOND,
        }
    }

    /// The oscillation profile: API traffic that alternates between 40 and
    /// 240 packets per second every second.
    pub open spec fn oscillation(now: u64) -> ActiveProfile {
        ActiveProfile::Oscillation {
            class: TrafficClass::Api,
            low_rate: 40,
            high_rate: 240,
            current_rate: 40,
            rising: true,
            next_send_at: now.saturating_add(rate_interval(40)),
            next_rate_update_at: now.saturating_add(MICROS_PER_SECOND),
            update_interval: MICROS_PER_SECOND,
        }
    }
}

/// The smaller of two optional deadlines.
pub open spec fn earlier(a: Option<u64>, b: Option<u64>) -> Option<u64> {
    match (a, b) {
        (Some(x), Some(y)) => Some(if x <= y {
            x
        } else {
            y
        }),
        (Some(x), None) => Some(x),
        (None, y) => y,
    }
}

// ---------------------------------------------------------------------------
// The generator
// ---------------------------------------------------------------------------

impl ClientStateView {
    pub open spec fn fresh(node_id: NodeId, desc: [u8; 16]) -> ClientStateView {
        ClientStateView {
            node_id,
            desc,
            node_domain: NodeDomain::External,
            src_domain: EndpointDomain::External,
            dst_domain: EndpointDomain::Internal,
            peers: default_peers(),
            active_peer_index: 0,
            next_peer_counter: 1,
            burst_count: DEFAULT_BURST_COUNT,
            next_global_seq: 0,
            next_class_seq: [0, 0, 0, 0],
            queue: Seq::empty(),
            pending_acks: Map::empty(),
            total_acks: 0,
            min_rtt: u64::MAX,
            max_rtt: 0,
            sum_rtt: 0,
            continuous_state: None,
            active_profile: None,
            pending_topology_expectation: None,
        }
    }

    // -- peers ---------------------------------------------------------------

    pub open spec fn active_peer(self) -> Option<PeerNode> {
        if self.active_peer_index < self.peers.len() {
            Some(self.peers[self.active_peer_index as int])
        } else {
            None
        }
    }

    /// Id of the peer after the active one, going round.
    pub open spec fn next_peer_id(self) -> Option<NodeId> {
        if self.peers.len() == 0 {
            None
        } else {
            Some(self.peers[(self.active_peer_index + 1) % (self.peers.len() as int)].node_id)
        }
    }

    pub open spec fn has_peer_in(self, domain: EndpointDomain) -> bool {
        exists|i: int| is_first_in_domain(self.peers, NodeDomain::of_endpoint(domain), i)
    }

    pub open spec fn first_peer_in(self, domain: EndpointDomain) -> int {
        choose|i: int| is_first_in_domain(self.peers, NodeDomain::of_endpoint(domain), i)
    }

    pub open spec fn has_peer(self, id: NodeId) -> bool {
        exists|i: int| is_first_with_id(self.peers, id, i)
    }

    pub open spec fn peer_position(self, id: NodeId) -> int {
        choose|i: int| is_first_with_id(self.peers, id, i)
    }

    /// The peer that [`Self::with_peer_added`] creates.
    pub open spec fn new_peer(self, domain: EndpointDomain) -> PeerNode {
        PeerNode {
            node_id: peer_id_of(self.node_id, domain, self.next_peer_counter),
            domain: NodeDomain::of_endpoint(domain),
            desc: peer_desc_of(domain, desc_counter(self.next_peer_counter)),
        }
    }

    /// The generator after a peer in `domain` was created and made the
    /// active one.
    pub open spec fn with_peer_added(self, domain: EndpointDomain) -> ClientStateView {
        ClientStateView {
            peers: self.peers.push(self.new_peer(domain)),
            active_peer_index: self.peers.len() as usize,
            next_peer_counter: self.next_peer_counter.saturating_add(1),
            dst_domain: domain,
            ..self
        }
    }

    /// The generator with the first peer in `domain` made the active one;
    /// unchanged where there is none.
    pub open spec fn with_first_peer_selected(self, domain: EndpointDomain) -> ClientStateView {
        if self.has_peer_in(domain) {
            ClientStateView {
                active_peer_index: self.first_peer_in(domain) as usize,
                dst_domain: domain,
                ..self
            }
        } else {
            self
        }
    }

    /// The active peer already is in `domain`.
    pub open spec fn active_peer_in(self, domain: EndpointDomain) -> bool {
        self.active_peer().is_some() && self.active_peer().unwrap().domain
            == NodeDomain::of_endpoint(domain)
    }

    /// The generator once it has a destination in `domain`: the active
    /// peer if it is in that domain, else the first peer that is, else a
    /// newly created one.
    pub open spec fn with_destination(self, domain: EndpointDomain) -> ClientStateView {
        if self.active_peer_in(domain) {
            self
        } else if self.has_peer_in(domain) {
            self.with_first_peer_selected(domain)
        } else {
            self.with_peer_added(domain)
        }
    }

    /// The destination that [`Self::with_destination`] settles on.
    pub open spec fn destination(self, domain: EndpointDomain) -> PeerNode {
        self.with_destination(domain).peers[self.with_destination(domain).active_peer_index as int]
    }

    /// The generator with the peer `id` made the active one; unchanged
    /// where it is unknown.
    pub open spec fn with_peer_selected(self, id: NodeId) -> ClientStateView {
        if self.has_peer(id) {
            ClientStateView {
                active_peer_index: self.peer_position(id) as usize,
                dst_domain: EndpointDomain::of_node(self.peers[self.peer_position(id)].domain),
                ..self
            }
        } else {
            self
        }
    }

    /// The generator after its active peer was removed. Where that was the
    /// last peer an internal one is created in its place; otherwise the
    /// peer now at the active position, or the last one, becomes active.
    pub open spec fn with_active_peer_removed(self) -> ClientStateView {
        if self.active_peer_index >= self.peers.len() {
            self
        } else {
            let rest = self.peers.remove(self.active_peer_index as int);
            if rest.len() == 0 {
                ClientStateView { peers: rest, ..self }.with_peer_added(EndpointDomain::Internal)
            } else {
                let index = if self.active_peer_index >= rest.len() {
                    (rest.len() - 1) as usize
                } else {
                    self.active_peer_index
                };
                ClientStateView {
                    peers: rest,
                    active_peer_index: index,
                    dst_domain: EndpointDomain::of_node(rest[index as int].domain),
                    ..self
                }
            }
        }
    }

    /// The generator after the peer `id` was removed as
    /// [`Self::with_active_peer_removed`] removes the active one; unchanged
    /// where the peer is unknown.
    pub open spec fn with_peer_removed(self, id: NodeId) -> ClientStateView {
        if self.has_peer(id) {
            ClientStateView {
                active_peer_index: self.peer_position(id) as usize,
                ..self
            }.with_active_peer_removed()
        } else {
            self
        }
    }

    // -- send modes ----------------------------------------------------------

    /// The generator with a burst appended to its queue.
    pub open spec fn with_burst(
        self,
        now: u64,
        count: u32,
        interval_ms: u32,
        class: TrafficClass,
        declared_bytes: u32,
    ) -> ClientStateView {
        ClientStateView {
            queue: self.queue + burst(now, count, interval_ms, class, declared_bytes),
            ..self
        }
    }

    /// The generator switched to the shaped profile `profile`: the queue
    /// and the continuous stream are dropped.
    pub open spec fn with_profile(self, profile: ActiveProfile) -> ClientStateView {
        ClientStateView {
            queue: Seq::empty(),
            continuous_state: None,
            active_profile: Some(profile),
            ..self
        }
    }

    /// The generator switched to the burst profile: no profile and no
    /// continuous stream, and one burst of `burst_count` background packets
    /// two milliseconds apart appended to the queue.
    pub open spec fn with_burst_profile(self, now: u64) -> ClientStateView {
        ClientStateView { active_profile: None, continuous_state: None, ..self }.with_burst(
            now,
            self.burst_count,
            2,
            TrafficClass::Background,
            DEFAULT_PACKET_BYTES,
        )
    }

    /// The generator switched to a continuous stream of `rate` packets per
    /// second: the queue and the profile are dropped.
    pub open spec fn with_continuous(self, class: TrafficClass, rate: u32, now: u64) -> ClientStateView {
        ClientStateView {
            continuous_state: Some(
                ContinuousState {
                    class,
                    next_send_at: now.saturating_add((MICROS_PER_SECOND / (rate as u64)) as u64),
                    interval: (MICROS_PER_SECOND / (rate as u64)) as u64,
                },
            ),
            active_profile: None,
            queue: Seq::empty(),
            ..self
        }
    }

    /// The head of the burst queue is due at `now`.
    pub open spec fn burst_due(self, now: u64) -> bool {
        self.queue.len() > 0 && self.queue[0].at <= now
    }

    /// The continuous stream is due at `now`.
    pub open spec fn continuous_due(self, now: u64) -> bool {
        self.continuous_state.is_some() && now >= self.continuous_state.unwrap().next_send_at
    }

    /// The generator after the continuous stream sent one packet.
    pub open spec fn with_continuous_advanced(self) -> ClientStateView {
        match self.continuous_state {
            Some(stream) => ClientStateView {
                continuous_state: Some(
                    ContinuousState {
                        next_send_at: stream.next_send_at.saturating_add(stream.interval),
                        ..stream
                    },
                ),
                ..self
            },
            None => self,
        }
    }

    /// The earliest deadline among the head of the burst queue, the
    /// continuous stream and the profile.
    pub open spec fn next_deadline(self) -> Option<u64> {
        earlier(
            earlier(
                if self.queue.len() > 0 {
                    Some(self.queue[0].at)
                } else {
                    None
                },
                match self.continuous_state {
                    Some(stream) => Some(stream.next_send_at),
                    None => None,
                },
            ),
            match self.active_profile {
                Some(profile) => Some(profile.deadline()),
                None => None,
            },
        )
    }

    /// How long to wait for input at `now`: until the next deadline, but
    /// no longer than [`MAX_INPUT_POLL_TIMEOUT_US`].
    pub open spec fn poll_timeout(self, now: u64) -> u64 {
        match self.next_deadline() {
            Some(deadline) => if deadline.saturating_sub(now) < MAX_INPUT_POLL_TIMEOUT_US {
                deadline.saturating_sub(now)
            } else {
                MAX_INPUT_POLL_TIMEOUT_US
            },
            None => MAX_INPUT_POLL_TIMEOUT_US,
        }
    }

    // -- packets and acknowledgements -----------------------------------------

    /// The data packet of `class` that goes to the destination in
    /// `dst_domain`, stamped `timestamp_us`.
    pub open spec fn data_packet(
        self,
        class: TrafficClass,
        declared_bytes: u32,
        dst_domain: EndpointDomain,
        timestamp_us: u64,
    ) -> DataPacket {
        DataPacket {
            src_node_id: self.node_id,
            dst_node_id: self.destination(dst_domain).node_id,
            node_id: self.node_id,
            global_seq: self.next_global_seq,
            class_seq: self.next_class_seq[class.ordinal()],
            class,
            timestamp_us,
            declared_bytes,
            src_domain: self.src_domain,
            dst_domain,
            desc: self.desc,
        }
    }

    /// `message` is the data packet of [`Self::data_packet`], whatever its
    /// timestamp.
    pub open spec fn is_data(
        self,
        message: WireMessage,
        class: TrafficClass,
        declared_bytes: u32,
        dst_domain: EndpointDomain,
    ) -> bool {
        message matches WireMessage::Data(packet) && packet == self.data_packet(
            class,
            declared_bytes,
            dst_domain,
            packet.timestamp_us,
        )
    }

    /// The generator after a data packet of `class` was composed for and
    /// sent to a destination in `dst_domain` at `now`.
    pub open spec fn with_data_sent(
        self,
        class: TrafficClass,
        dst_domain: EndpointDomain,
        now: u64,
    ) -> ClientStateView {
        self.with_destination(dst_domain).with_packet_sent(class, now)
    }

    // -- topology self-tests ---------------------------------------------------

    /// The generator made ready for a topology self-test: nothing queued,
    /// no continuous stream, and the generator itself internal.
    pub open spec fn reset_for_test(self) -> ClientStateView {
        ClientStateView {
            queue: Seq::empty(),
            continuous_state: None,
            node_domain: NodeDomain::Internal,
            ..self
        }
    }

    /// The generator with the first peer in `domain` made the active one,
    /// or with a new peer in `domain` where there was none.
    pub open spec fn with_target_in(self, domain: EndpointDomain) -> ClientStateView {
        if self.has_peer_in(domain) {
            self.with_first_peer_selected(domain)
        } else {
            self.with_peer_added(domain)
        }
    }

    pub open spec fn expecting(self, expectation: TopologyExpectation) -> ClientStateView {
        ClientStateView { pending_topology_expectation: Some(expectation), ..self }
    }

    /// The generator after the smoke test was dispatched at `now`.
    pub open spec fn after_smoke_test(self, now: u64) -> ClientStateView {
        self.reset_for_test().with_target_in(EndpointDomain::External).with_data_sent(
            TrafficClass::Api,
            EndpointDomain::External,
            now,
        ).expecting(TopologyExpectation::Smoke { node_id: self.node_id })
    }

    /// The generator after the removal test was dispatched.
    pub open spec fn after_removal_test(self) -> ClientStateView {
        self.reset_for_test().expecting(TopologyExpectation::Removal { node_id: self.node_id })
    }

    /// The generator before packet `sent` (0 to 4) of the mixed-classes
    /// test goes out.
    pub open spec fn during_mixed_classes_test(self, now: u64, sent: int) -> ClientStateView
        decreases sent,
    {
        if sent <= 0 {
            self.reset_for_test().with_target_in(EndpointDomain::External)
        } else {
            self.during_mixed_classes_test(now, sent - 1).with_data_sent(
                TrafficClass::of_ordinal(sent - 1),
                EndpointDomain::External,
                now,
            )
        }
    }

    /// The generator after the mixed-classes test was dispatched at `now`.
    pub open spec fn after_mixed_classes_test(self, now: u64) -> ClientStateView {
        self.during_mixed_classes_test(now, 4).expecting(
            TopologyExpectation::MixedClasses { node_id: self.node_id },
        )
    }

    /// `messages` is what the smoke test sends: the generator's own
    /// registration, the registration of an external peer if one had to be
    /// created, one API data packet to the external peer, and a topology
    /// request.
    pub open spec fn is_smoke_dispatch(self, messages: Seq<WireMessage>) -> bool {
        let reset = self.reset_for_test();
        let creates = !reset.has_peer_in(EndpointDomain::External);
        &&& messages.len() == (if creates {
            4int
        } else {
            3int
        })
        &&& is_register(messages[0], self.node_id, self.desc, NodeDomain::Internal)
        &&& creates ==> (messages[1] matches WireMessage::RegisterNode(packet) && registers(
            packet,
            reset.new_peer(EndpointDomain::External),
        ))
        &&& reset.with_target_in(EndpointDomain::External).is_data(
            messages[messages.len() - 2],
            TrafficClass::Api,
            DEFAULT_PACKET_BYTES,
            EndpointDomain::External,
        )
        &&& messages[messages.len() - 1] is RequestTopology
    }

    /// `messages` is what the removal test sends: the generator's own
    /// registration, its unregistration, and a topology request.
    pub open spec fn is_removal_dispatch(self, messages: Seq<WireMessage>) -> bool {
        &&& messages.len() == 3
        &&& is_register(messages[0], self.node_id, self.desc, NodeDomain::Internal)
        &&& is_unregister(messages[1], self.node_id)
        &&& messages[2] is RequestTopology
    }

    /// `messages` is what the mixed-classes test sends: the generator's
    /// own registration, the registration of an external peer if one had to
    /// be created, one data packet of each class in ordinal order, and a
    /// topology request.
    pub open spec fn is_mixed_classes_dispatch(self, now: u64, messages: Seq<WireMessage>) -> bool {
        let reset = self.reset_for_test();
        let creates = !reset.has_peer_in(EndpointDomain::External);
        let first = if creates {
            2int
        } else {
            1int
        };
        &&& messages.len() == first + 5
        &&& is_register(messages[0], self.node_id, self.desc, NodeDomain::Internal)
        &&& creates ==> (messages[1] matches WireMessage::RegisterNode(packet) && registers(
            packet,
            reset.new_peer(EndpointDomain::External),
        ))
        &&& forall|i: int|
            first <= i < first + 4 ==> self.during_mixed_classes_test(now, i - first).is_data(
                #[trigger] messages[i],
                TrafficClass::of_ordinal(i - first),
                DEFAULT_PACKET_BYTES,
                EndpointDomain::External,
            )
        &&& messages[first + 4] is RequestTopology
    }

    /// The generator after a data packet of `class` went out at
    /// `send_time`: the packet awaits its acknowledgement and both sequence
    /// counters move on, wrapping.
    pub open spec fn with_packet_sent(self, class: TrafficClass, send_time: u64) -> ClientStateView {
        ClientStateView {
            pending_acks: self.pending_acks.insert(self.next_global_seq, send_time),
            next_global_seq: wrapping_next(self.next_global_seq),
            next_class_seq: [
                if class.ordinal() == 0 {
                    wrapping_next(self.next_class_seq[0])
                } else {
                    self.next_class_seq[0]
                },
                if class.ordinal() == 1 {
                    wrapping_next(self.next_class_seq[1])
                } else {
                    self.next_class_seq[1]
                },
                if class.ordinal() == 2 {
                    wrapping_next(self.next_class_seq[2])
                } else {
                    self.next_class_seq[2]
                },
                if class.ordinal() == 3 {
                    wrapping_next(self.next_class_seq[3])
                } else {
                    self.next_class_seq[3]
                },
            ],
            ..self
        }
    }

    /// The generator after the acknowledgement of packet `seq` arrived at
    /// `now`. An acknowledgement nobody waits for changes nothing.
    pub open spec fn with_ack(self, seq: u32, now: u64) -> ClientStateView {
        if self.pending_acks.contains_key(seq) {
            let rtt = now.saturating_sub(self.pending_acks[seq]);
            ClientStateView {
                pending_acks: self.pending_acks.remove(seq),
                total_acks: self.total_acks.saturating_add(1),
                min_rtt: if rtt < self.min_rtt {
                    rtt
                } else {
                    self.min_rtt
                },
                max_rtt: if rtt > self.max_rtt {
                    rtt
                } else {
                    self.max_rtt
                },
                sum_rtt: self.sum_rtt.saturating_add(rtt),
                ..self
            }
        } else {
            self
        }
    }
}

} // verus!

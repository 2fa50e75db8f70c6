//! Wire records exchanged between the traffic generator and the telemetry
//! server, and the identifiers they carry.

use vstd::prelude::*;
use crate::snapshot::{
    AnalyticsSnapshot, AnalyticsSnapshotView, TopologySnapshot, TopologySnapshotView,
};

verus! {

/// Opaque 16-byte node identifier.
pub type NodeId = [u8; 16];

/// Opaque 16-byte edge identifier.
pub type EdgeId = [u8; 16];

/// Traffic class of a data packet. The ordinal (0..=3) indexes every
/// per-class array in the crate.
#[derive(Clone, Copy, Debug, PartialEq, Eq, Structural, Hash)]
pub enum TrafficClass {
    Api,
    HeavyCompute,
    Background,
    HealthCheck,
}

impl TrafficClass {
    /// Position of the class in per-class arrays.
    pub open spec fn ordinal(self) -> int {
        match self {
            TrafficClass::Api => 0,
            TrafficClass::HeavyCompute => 1,
            TrafficClass::Background => 2,
            TrafficClass::HealthCheck => 3,
        }
    }

    /// The class at a given ordinal; ordinals above 3 map to `HealthCheck`.
    pub open spec fn of_ordinal(i: int) -> TrafficClass {
        if i == 0 {
            TrafficClass::Api
        } else if i == 1 {
            TrafficClass::HeavyCompute
        } else if i == 2 {
            TrafficClass::Background
        } else {
            TrafficClass::HealthCheck
        }
    }

    /// Human-readable name of the class.
    pub open spec fn label_text(self) -> Seq<char> {
        match self {
            TrafficClass::Api => "api"@,
            TrafficClass::HeavyCompute => "heavy compute"@,
            TrafficClass::Background => "background"@,
            TrafficClass::HealthCheck => "health check"@,
        }
    }

    pub fn index(self) -> (i: usize)
        ensures
            i == self.ordinal(),
            i < 4,
    {
        match self {
            TrafficClass::Api => 0,
            TrafficClass::HeavyCompute => 1,
            TrafficClass::Background => 2,
            TrafficClass::HealthCheck => 3,
        }
    }

    pub fn from_index(i: usize) -> (class: TrafficClass)
        ensures
            class == Self::of_ordinal(i as int),
            i < 4 ==> class.ordinal() == i,
    {
        if i == 0 {
            TrafficClass::Api
        } else if i == 1 {
            TrafficClass::HeavyCompute
        } else if i == 2 {
            TrafficClass::Background
        } else {
            TrafficClass::HealthCheck
        }
    }

    pub fn label(self) -> (text: &'static str)
        ensures
            text@ == self.label_text(),
    {
        match self {
            TrafficClass::Api => "api",
            TrafficClass::HeavyCompute => "heavy compute",
            TrafficClass::Background => "background",
            TrafficClass::HealthCheck => "health check",
        }
    }
}

/// Domain tag carried on data packets for the two ends of a route.
#[derive(Clone, Copy, Debug, PartialEq, Eq, Structural)]
pub enum EndpointDomain {
    Internal,
    External,
}

/// Domain tag of a registered node.
#[derive(Clone, Copy, Debug, PartialEq, Eq, Structural, Hash)]
pub enum NodeDomain {
    Internal,
    External,
}

impl NodeDomain {
    pub open spec fn is_external(self) -> bool {
        self == NodeDomain::External
    }

    pub open spec fn of_endpoint(domain: EndpointDomain) -> NodeDomain {
        match domain {
            EndpointDomain::Internal => NodeDomain::Internal,
            EndpointDomain::External => NodeDomain::External,
        }
    }
}

impl EndpointDomain {
    pub open spec fn of_node(domain: NodeDomain) -> EndpointDomain {
        match domain {
            NodeDomain::Internal => EndpointDomain::Internal,
            NodeDomain::External => EndpointDomain::External,
        }
    }
}

impl From<EndpointDomain> for NodeDomain {
    fn from(value: EndpointDomain) -> (domain: NodeDomain) {
        match value {
            EndpointDomain::Internal => NodeDomain::Internal,
            EndpointDomain::External => NodeDomain::External,
        }
    }
}

impl vstd::std_specs::convert::FromSpecImpl<EndpointDomain> for NodeDomain {
    open spec fn obeys_from_spec() -> bool {
        true
    }

    open spec fn from_spec(value: EndpointDomain) -> NodeDomain {
        NodeDomain::of_endpoint(value)
    }
}

impl From<NodeDomain> for EndpointDomain {
    fn from(value: NodeDomain) -> (domain: EndpointDomain) {
        match value {
            NodeDomain::Internal => EndpointDomain::Internal,
            NodeDomain::External => EndpointDomain::External,
        }
    }
}

impl vstd::std_specs::convert::FromSpecImpl<NodeDomain> for EndpointDomain {
    open spec fn obeys_from_spec() -> bool {
        true
    }

    open spec fn from_spec(value: NodeDomain) -> EndpointDomain {
        EndpointDomain::of_node(value)
    }
}

/// Network address a datagram arrived from.
#[derive(Clone, Copy, Debug)]
pub enum IpAddress {
    V4([u8; 4]),
    V6([u8; 16]),
}

/// Address and port of a datagram's sender.
#[derive(Clone, Copy, Debug)]
pub struct PeerAddr {
    pub ip: IpAddress,
    pub port: u16,
}

#[derive(Clone, Copy, Debug)]
pub struct RegisterNodePacket {
    pub node_id: NodeId,
    pub desc: [u8; 16],
    pub domain: NodeDomain,
    pub timestamp_us: u64,
}

#[derive(Clone, Copy, Debug)]
pub struct UnregisterNodePacket {
    pub node_id: NodeId,
    pub timestamp_us: u64,
}

#[derive(Clone, Copy, Debug)]
pub struct DataPacket {
    /// Source endpoint of the edge.
    pub src_node_id: NodeId,
    /// Destination endpoint of the edge.
    pub dst_node_id: NodeId,
    /// Sender node id, kept beside `src_node_id` for older controls.
    pub node_id: NodeId,
    pub global_seq: u32,
    pub class_seq: u32,
    pub class: TrafficClass,
    /// Sender wall clock, microseconds since the Unix epoch.
    pub timestamp_us: u64,
    pub declared_bytes: u32,
    pub src_domain: EndpointDomain,
    pub dst_domain: EndpointDomain,
    pub desc: [u8; 16],
}

#[derive(Clone, Copy, Debug)]
pub struct AckPacket {
    pub original_seq: u32,
    pub server_timestamp_us: u64,
    pub server_processing_us: u32,
}

/// One datagram's worth of protocol.
#[derive(Debug, Clone)]
pub enum WireMessage {
    RegisterNode(RegisterNodePacket),
    UnregisterNode(UnregisterNodePacket),
    Data(DataPacket),
    Ack(AckPacket),
    RequestTopology,
    Topology(TopologySnapshot),
    RequestAnalytics,
    Analytics(AnalyticsSnapshot),
}

/// Mathematical content of a [`WireMessage`].
pub enum WireMessageView {
    RegisterNode(RegisterNodePacket),
    UnregisterNode(UnregisterNodePacket),
    Data(DataPacket),
    Ack(AckPacket),
    RequestTopology,
    Topology(TopologySnapshotView),
    RequestAnalytics,
    Analytics(AnalyticsSnapshotView),
}

impl View for WireMessage {
    type V = WireMessageView;

    open spec fn view(&self) -> WireMessageView {
        match *self {
            WireMessage::RegisterNode(packet) => WireMessageView::RegisterNode(packet),
            WireMessage::UnregisterNode(packet) => WireMessageView::UnregisterNode(packet),
            WireMessage::Data(packet) => WireMessageView::Data(packet),
            WireMessage::Ack(packet) => WireMessageView::Ack(packet),
            WireMessage::RequestTopology => WireMessageView::RequestTopology,
            WireMessage::Topology(snapshot) => WireMessageView::Topology(snapshot@),
            WireMessage::RequestAnalytics => WireMessageView::RequestAnalytics,
            WireMessage::Analytics(snapshot) => WireMessageView::Analytics(snapshot@),
        }
    }
}

/// Byte-wise equality of two identifiers.
pub fn ids_equal(a: &[u8; 16], b: &[u8; 16]) -> (same: bool)
    ensures
        same == (*a == *b),
{
    let mut i: usize = 0;
    while i < 16
        invariant
            i <= 16,
            forall|j: int| 0 <= j < i ==> a[j] == b[j],
        decreases 16 - i,
    {
        if a[i] != b[i] {
            return false;
        }
        i += 1;
    }
    assert(*a =~= *b);
    true
}

/// Reads the system wall clock through `std::time::SystemTime::now` and
/// returns it as whole microseconds since the Unix epoch (zero if the clock
/// is set before the epoch). Nothing is claimed about the value: two reads
/// may return anything.
#[verifier::external_body]
pub fn now_timestamp_us() -> (micros: u64) {
    match std::time::SystemTime::now().duration_since(std::time::SystemTime::UNIX_EPOCH) {
        Ok(elapsed) => elapsed.as_micros() as u64,
        Err(_) => 0,
    }
}

/// The placeholder node id that stands for "some node in this domain":
/// the ASCII text `__internal-node_` or `__external-node_`.
pub open spec fn synthetic_id_bytes(domain: EndpointDomain) -> Seq<u8> {
    match domain {
        EndpointDomain::Internal => seq![
            95u8, 95u8, 105u8, 110u8, 116u8, 101u8, 114u8, 110u8,
            97u8, 108u8, 45u8, 110u8, 111u8, 100u8, 101u8, 95u8,
        ],
        EndpointDomain::External => seq![
            95u8, 95u8, 101u8, 120u8, 116u8, 101u8, 114u8, 110u8,
            97u8, 108u8, 45u8, 110u8, 111u8, 100u8, 101u8, 95u8,
        ],
    }
}

pub fn synthetic_domain_node_id(domain: EndpointDomain) -> (id: NodeId)
    ensures
        id@ == synthetic_id_bytes(domain),
{
    let id: NodeId = match domain {
        EndpointDomain::Internal => [
            95u8, 95u8, 105u8, 110u8, 116u8, 101u8, 114u8, 110u8,
            97u8, 108u8, 45u8, 110u8, 111u8, 100u8, 101u8, 95u8,
        ],
        EndpointDomain::External => [
            95u8, 95u8, 101u8, 120u8, 116u8, 101u8, 114u8, 110u8,
            97u8, 108u8, 45u8, 110u8, 111u8, 100u8, 101u8, 95u8,
        ],
    };
    assert(id@ =~= synthetic_id_bytes(domain));
    id
}

/// A data packet between explicit endpoints, stamped with the current wall
/// clock. Every field but the timestamp is fixed by the arguments.
pub fn make_data_packet_with_endpoints(
    src_node_id: NodeId,
    dst_node_id: NodeId,
    node_id: NodeId,
    global_seq: u32,
    class_seq: u32,
    class: TrafficClass,
    declared_bytes: u32,
    src_domain: EndpointDomain,
    dst_domain: EndpointDomain,
    desc: [u8; 16],
) -> (packet: DataPacket)
    ensures
        packet == (DataPacket {
            src_node_id,
            dst_node_id,
            node_id,
            global_seq,
            class_seq,
            class,
            timestamp_us: packet.timestamp_us,
            declared_bytes,
            src_domain,
            dst_domain,
            desc,
        }),
{
    DataPacket {
        src_node_id,
        dst_node_id,
        node_id,
        global_seq,
        class_seq,
        class,
        timestamp_us: now_timestamp_us(),
        declared_bytes,
        src_domain,
        dst_domain,
        desc,
    }
}

/// A data packet from `node_id` to the placeholder node of `dst_domain`.
pub fn make_data_packet(
    node_id: NodeId,
    global_seq: u32,
    class_seq: u32,
    class: TrafficClass,
    declared_bytes: u32,
    src_domain: EndpointDomain,
    dst_domain: EndpointDomain,
    desc: [u8; 16],
) -> (packet: DataPacket)
    ensures
        packet.dst_node_id@ == synthetic_id_bytes(dst_domain),
        packet == (DataPacket {
            src_node_id: node_id,
            dst_node_id: packet.dst_node_id,
            node_id,
            global_seq,
            class_seq,
            class,
            timestamp_us: packet.timestamp_us,
            declared_bytes,
            src_domain,
            dst_domain,
            desc,
        }),
{
    make_data_packet_with_endpoints(
        node_id,
        synthetic_domain_node_id(dst_domain),
        node_id,
        global_seq,
        class_seq,
        class,
        declared_bytes,
        src_domain,
        dst_domain,
        desc,
    )
}

pub fn make_register_node_packet(node_id: NodeId, desc: [u8; 16], domain: NodeDomain) -> (packet:
    RegisterNodePacket)
    ensures
        packet == (RegisterNodePacket { node_id, desc, domain, timestamp_us: packet.timestamp_us }),
{
    RegisterNodePacket { node_id, desc, domain, timestamp_us: now_timestamp_us() }
}

pub fn make_unregister_node_packet(node_id: NodeId) -> (packet: UnregisterNodePacket)
    ensures
        packet == (UnregisterNodePacket { node_id, timestamp_us: packet.timestamp_us }),
{
    UnregisterNodePacket { node_id, timestamp_us: now_timestamp_us() }
}

} // verus!

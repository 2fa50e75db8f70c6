//! The byte image of the protocol's fixed-size values: integers in
//! little-endian order, identifiers as they are, tags as one byte, and
//! records as their fields one after the other.
//!
//! For every kind of value there is its image (`*_bytes`), the value read
//! back from a buffer at an offset (`*_at`), the two executable functions
//! that write and read it, and the law that reading an image gives the
//! value back.

use vstd::prelude::*;
use vstd::bytes::{
    lemma_auto_spec_u128_to_from_le_bytes, lemma_auto_spec_u16_to_from_le_bytes,
    lemma_auto_spec_u32_to_from_le_bytes, lemma_auto_spec_u64_to_from_le_bytes,
    spec_u128_from_le_bytes, spec_u128_to_le_bytes, spec_u16_from_le_bytes,
    spec_u16_to_le_bytes, spec_u32_from_le_bytes, spec_u32_to_le_bytes, spec_u64_from_le_bytes,
    spec_u64_to_le_bytes, u128_from_le_bytes, u128_to_le_bytes, u16_from_le_bytes,
    u16_to_le_bytes, u32_from_le_bytes, u32_to_le_bytes, u64_from_le_bytes, u64_to_le_bytes,
};
use vstd::slice::slice_subrange;
use crate::protocol::{
    AckPacket, DataPacket, EndpointDomain, NodeDomain, RegisterNodePacket, TrafficClass,
    UnregisterNodePacket,
};

verus! {

pub const ID_SIZE: usize = 16;

pub const REGISTER_SIZE: usize = 41;

pub const UNREGISTER_SIZE: usize = 24;

pub const DATA_SIZE: usize = 87;

pub const ACK_SIZE: usize = 16;

/// The buffer `b` holds `image` at offset `at`.
pub open spec fn holds(b: Seq<u8>, at: int, image: Seq<u8>) -> bool {
    &&& 0 <= at
    &&& at + image.len() <= b.len()
    &&& b.subrange(at, at + image.len()) == image
}

/// A buffer that holds the image `head + tail` holds `head` and, right
/// after it, `tail`.
pub proof fn lemma_holds_both(b: Seq<u8>, at: int, head: Seq<u8>, tail: Seq<u8>)
    requires
        holds(b, at, head + tail),
    ensures
        holds(b, at, head),
        holds(b, at + head.len(), tail),
{
    let whole = head + tail;
    assert(b.subrange(at, at + head.len()) =~= head) by {
        assert forall|k: int| 0 <= k < head.len() implies b.subrange(at, at + head.len())[k]
            == head[k] by {
            assert(b.subrange(at, at + whole.len())[k] == whole[k]);
        }
    }
    assert(b.subrange(at + head.len(), at + head.len() + tail.len()) =~= tail) by {
        assert forall|k: int| 0 <= k < tail.len() implies b.subrange(
            at + head.len(),
            at + head.len() + tail.len(),
        )[k] == tail[k] by {
            assert(b.subrange(at, at + whole.len())[head.len() + k] == whole[head.len() + k]);
        }
    }
}

// ---------------------------------------------------------------------------
// Integers
// ---------------------------------------------------------------------------

pub open spec fn u16_at(b: Seq<u8>, at: int) -> u16 {
    spec_u16_from_le_bytes(b.subrange(at, at + 2))
}

pub open spec fn u32_at(b: Seq<u8>, at: int) -> u32 {
    spec_u32_from_le_bytes(b.subrange(at, at + 4))
}

pub open spec fn u64_at(b: Seq<u8>, at: int) -> u64 {
    spec_u64_from_le_bytes(b.subrange(at, at + 8))
}

pub open spec fn u128_at(b: Seq<u8>, at: int) -> u128 {
    spec_u128_from_le_bytes(b.subrange(at, at + 16))
}

/// The image of a signed integer is that of its two's complement.
pub open spec fn i128_bytes(x: i128) -> Seq<u8> {
    spec_u128_to_le_bytes(x as u128)
}

pub open spec fn i128_at(b: Seq<u8>, at: int) -> i128 {
    u128_at(b, at) as i128
}

/// Integer images have the width of their type, and reading one gives the
/// integer back.
pub proof fn lemma_integers(b: Seq<u8>, at: int)
    ensures
        forall|x: u16| #[trigger] spec_u16_to_le_bytes(x).len() == 2,
        forall|x: u32| #[trigger] spec_u32_to_le_bytes(x).len() == 4,
        forall|x: u64| #[trigger] spec_u64_to_le_bytes(x).len() == 8,
        forall|x: u128| #[trigger] spec_u128_to_le_bytes(x).len() == 16,
        forall|x: i128| #[trigger] i128_bytes(x).len() == 16,
        forall|x: u16| holds(b, at, #[trigger] spec_u16_to_le_bytes(x)) ==> u16_at(b, at) == x,
        forall|x: u32| holds(b, at, #[trigger] spec_u32_to_le_bytes(x)) ==> u32_at(b, at) == x,
        forall|x: u64| holds(b, at, #[trigger] spec_u64_to_le_bytes(x)) ==> u64_at(b, at) == x,
        forall|x: u128| holds(b, at, #[trigger] spec_u128_to_le_bytes(x)) ==> u128_at(b, at) == x,
        forall|x: i128| holds(b, at, #[trigger] i128_bytes(x)) ==> i128_at(b, at) == x,
{
    lemma_auto_spec_u16_to_from_le_bytes();
    lemma_auto_spec_u32_to_from_le_bytes();
    lemma_auto_spec_u64_to_from_le_bytes();
    lemma_auto_spec_u128_to_from_le_bytes();
    assert forall|x: i128| holds(b, at, #[trigger] i128_bytes(x)) implies i128_at(b, at) == x by {
        assert(u128_at(b, at) == x as u128);
        assert((x as u128) as i128 == x) by (bit_vector);
    }
}

pub fn put_u8(out: &mut Vec<u8>, x: u8)
    ensures
        final(out)@ == old(out)@ + seq![x],
{
    out.push(x);
    assert(out@ =~= old(out)@ + seq![x]);
}

pub fn put_u16(out: &mut Vec<u8>, x: u16)
    ensures
        final(out)@ == old(out)@ + spec_u16_to_le_bytes(x),
{
    let mut image = u16_to_le_bytes(x);
    out.append(&mut image);
}

pub fn put_u32(out: &mut Vec<u8>, x: u32)
    ensures
        final(out)@ == old(out)@ + spec_u32_to_le_bytes(x),
{
    let mut image = u32_to_le_bytes(x);
    out.append(&mut image);
}

pub fn put_u64(out: &mut Vec<u8>, x: u64)
    ensures
        final(out)@ == old(out)@ + spec_u64_to_le_bytes(x),
{
    let mut image = u64_to_le_bytes(x);
    out.append(&mut image);
}

pub fn put_i128(out: &mut Vec<u8>, x: i128)
    ensures
        final(out)@ == old(out)@ + i128_bytes(x),
{
    let mut image = u128_to_le_bytes(x as u128);
    out.append(&mut image);
}

pub fn get_u16(input: &[u8], at: usize) -> (x: u16)
    requires
        at + 2 <= input.len(),
    ensures
        x == u16_at(input@, at as int),
{
    u16_from_le_bytes(slice_subrange(input, at, at + 2))
}

pub fn get_u32(input: &[u8], at: usize) -> (x: u32)
    requires
        at + 4 <= input.len(),
    ensures
        x == u32_at(input@, at as int),
{
    u32_from_le_bytes(slice_subrange(input, at, at + 4))
}

pub fn get_u64(input: &[u8], at: usize) -> (x: u64)
    requires
        at + 8 <= input.len(),
    ensures
        x == u64_at(input@, at as int),
{
    u64_from_le_bytes(slice_subrange(input, at, at + 8))
}

pub fn get_i128(input: &[u8], at: usize) -> (x: i128)
    requires
        at + 16 <= input.len(),
    ensures
        x == i128_at(input@, at as int),
{
    #[verifier::truncate]
    (u128_from_le_bytes(slice_subrange(input, at, at + 16)) as i128)
}

// ---------------------------------------------------------------------------
// Identifiers
// ---------------------------------------------------------------------------

pub open spec fn id_at(b: Seq<u8>, at: int) -> [u8; 16] {
    [
        b[at], b[at + 1], b[at + 2], b[at + 3], b[at + 4], b[at + 5], b[at + 6], b[at + 7],
        b[at + 8], b[at + 9], b[at + 10], b[at + 11], b[at + 12], b[at + 13], b[at + 14],
        b[at + 15],
    ]
}

/// Reading the image of an identifier gives the identifier back.
pub proof fn lemma_id(b: Seq<u8>, at: int, id: [u8; 16])
    requires
        holds(b, at, id@),
    ensures
        id_at(b, at) == id,
{
    assert forall|k: int| 0 <= k < 16 implies id_at(b, at)[k] == id[k] by {
        assert(b.subrange(at, at + 16)[k] == id@[k]);
    }
    assert(id_at(b, at) =~= id);
}

pub fn put_id(out: &mut Vec<u8>, id: &[u8; 16])
    ensures
        final(out)@ == old(out)@ + id@,
{
    let mut i: usize = 0;
    while i < 16
        invariant
            i <= 16,
            out@ =~= old(out)@ + id@.take(i as int),
        decreases 16 - i,
    {
        out.push(id[i]);
        i += 1;
    }
    assert(id@.take(16) =~= id@);
}

pub fn get_id(input: &[u8], at: usize) -> (id: [u8; 16])
    requires
        at + 16 <= input.len(),
    ensures
        id == id_at(input@, at as int),
{
    let id: [u8; 16] = [
        input[at], input[at + 1], input[at + 2], input[at + 3], input[at + 4], input[at + 5],
        input[at + 6], input[at + 7], input[at + 8], input[at + 9], input[at + 10],
        input[at + 11], input[at + 12], input[at + 13], input[at + 14], input[at + 15],
    ];
    assert(id =~= id_at(input@, at as int));
    id
}

// ---------------------------------------------------------------------------
// Tags
// ---------------------------------------------------------------------------

pub open spec fn bool_byte(x: bool) -> u8 {
    if x {
        1
    } else {
        0
    }
}

pub open spec fn bool_at(b: Seq<u8>, at: int) -> Option<bool> {
    if b[at] == 0 {
        Some(false)
    } else if b[at] == 1 {
        Some(true)
    } else {
        None
    }
}

pub open spec fn domain_byte(domain: NodeDomain) -> u8 {
    match domain {
        NodeDomain::Internal => 0,
        NodeDomain::External => 1,
    }
}

pub open spec fn domain_at(b: Seq<u8>, at: int) -> Option<NodeDomain> {
    if b[at] == 0 {
        Some(NodeDomain::Internal)
    } else if b[at] == 1 {
        Some(NodeDomain::External)
    } else {
        None
    }
}

pub open spec fn endpoint_byte(domain: EndpointDomain) -> u8 {
    match domain {
        EndpointDomain::Internal => 0,
        EndpointDomain::External => 1,
    }
}

pub open spec fn endpoint_at(b: Seq<u8>, at: int) -> Option<EndpointDomain> {
    if b[at] == 0 {
        Some(EndpointDomain::Internal)
    } else if b[at] == 1 {
        Some(EndpointDomain::External)
    } else {
        None
    }
}

pub open spec fn class_byte(class: TrafficClass) -> u8 {
    class.ordinal() as u8
}

pub open spec fn class_at(b: Seq<u8>, at: int) -> Option<TrafficClass> {
    if b[at] < 4 {
        Some(TrafficClass::of_ordinal(b[at] as int))
    } else {
        None
    }
}

/// A buffer that holds a one-byte image has that byte at the offset.
pub proof fn lemma_byte(b: Seq<u8>, at: int, x: u8)
    requires
        holds(b, at, seq![x]),
    ensures
        b[at] == x,
{
    assert(b.subrange(at, at + 1)[0] == seq![x][0]);
}

pub fn put_bool(out: &mut Vec<u8>, x: bool)
    ensures
        final(out)@ == old(out)@ + seq![bool_byte(x)],
{
    put_u8(out, if x {
        1
    } else {
        0
    });
}

pub fn get_bool(input: &[u8], at: usize) -> (x: Option<bool>)
    requires
        at < input.len(),
    ensures
        x == bool_at(input@, at as int),
{
    if input[at] == 0 {
        Some(false)
    } else if input[at] == 1 {
        Some(true)
    } else {
        None
    }
}

pub fn put_domain(out: &mut Vec<u8>, domain: NodeDomain)
    ensures
        final(out)@ == old(out)@ + seq![domain_byte(domain)],
{
    put_u8(
        out,
        match domain {
            NodeDomain::Internal => 0,
            NodeDomain::External => 1,
        },
    );
}

pub fn get_domain(input: &[u8], at: usize) -> (domain: Option<NodeDomain>)
    requires
        at < input.len(),
    ensures
        domain == domain_at(input@, at as int),
{
    if input[at] == 0 {
        Some(NodeDomain::Internal)
    } else if input[at] == 1 {
        Some(NodeDomain::External)
    } else {
        None
    }
}

pub fn put_endpoint(out: &mut Vec<u8>, domain: EndpointDomain)
    ensures
        final(out)@ == old(out)@ + seq![endpoint_byte(domain)],
{
    put_u8(
        out,
        match domain {
            EndpointDomain::Internal => 0,
            EndpointDomain::External => 1,
        },
    );
}

pub fn get_endpoint(input: &[u8], at: usize) -> (domain: Option<EndpointDomain>)
    requires
        at < input.len(),
    ensures
        domain == endpoint_at(input@, at as int),
{
    if input[at] == 0 {
        Some(EndpointDomain::Internal)
    } else if input[at] == 1 {
        Some(EndpointDomain::External)
    } else {
        None
    }
}

pub fn put_class(out: &mut Vec<u8>, class: TrafficClass)
    ensures
        final(out)@ == old(out)@ + seq![class_byte(class)],
{
    put_u8(out, class.index() as u8);
}

pub fn get_class(input: &[u8], at: usize) -> (class: Option<TrafficClass>)
    requires
        at < input.len(),
    ensures
        class == class_at(input@, at as int),
{
    if input[at] < 4 {
        Some(TrafficClass::from_index(input[at] as usize))
    } else {
        None
    }
}

// ---------------------------------------------------------------------------
// Packets
// ---------------------------------------------------------------------------

pub open spec fn register_bytes(packet: RegisterNodePacket) -> Seq<u8> {
    packet.node_id@ + (packet.desc@ + (seq![domain_byte(packet.domain)] + spec_u64_to_le_bytes(
        packet.timestamp_us,
    )))
}

pub open spec fn register_at(b: Seq<u8>, at: int) -> Option<RegisterNodePacket> {
    match domain_at(b, at + 32) {
        Some(domain) => Some(
            RegisterNodePacket {
                node_id: id_at(b, at),
                desc: id_at(b, at + 16),
                domain,
                timestamp_us: u64_at(b, at + 33),
            },
        ),
        None => None,
    }
}

/// Reading the image of a register packet gives the packet back.
pub proof fn lemma_register(b: Seq<u8>, at: int, packet: RegisterNodePacket)
    requires
        holds(b, at, register_bytes(packet)),
    ensures
        register_bytes(packet).len() == REGISTER_SIZE,
        register_at(b, at) == Some(packet),
{
    lemma_integers(b, at + 33);
    let c = spec_u64_to_le_bytes(packet.timestamp_us);
    let b2 = seq![domain_byte(packet.domain)] + c;
    let b1 = packet.desc@ + b2;
    lemma_holds_both(b, at, packet.node_id@, b1);
    lemma_holds_both(b, at + 16, packet.desc@, b2);
    lemma_holds_both(b, at + 32, seq![domain_byte(packet.domain)], c);
    lemma_id(b, at, packet.node_id);
    lemma_id(b, at + 16, packet.desc);
    lemma_byte(b, at + 32, domain_byte(packet.domain));
}

pub fn put_register(out: &mut Vec<u8>, packet: &RegisterNodePacket)
    ensures
        final(out)@ == old(out)@ + register_bytes(*packet),
{
    put_id(out, &packet.node_id);
    put_id(out, &packet.desc);
    put_domain(out, packet.domain);
    put_u64(out, packet.timestamp_us);
    assert(out@ =~= old(out)@ + register_bytes(*packet));
}

pub fn get_register(input: &[u8], at: usize) -> (packet: Option<RegisterNodePacket>)
    requires
        at + REGISTER_SIZE <= input.len(),
    ensures
        packet == register_at(input@, at as int),
{
    let domain = get_domain(input, at + 32)?;
    Some(
        RegisterNodePacket {
            node_id: get_id(input, at),
            desc: get_id(input, at + 16),
            domain,
            timestamp_us: get_u64(input, at + 33),
        },
    )
}

pub open spec fn unregister_bytes(packet: UnregisterNodePacket) -> Seq<u8> {
    packet.node_id@ + spec_u64_to_le_bytes(packet.timestamp_us)
}

pub open spec fn unregister_at(b: Seq<u8>, at: int) -> UnregisterNodePacket {
    UnregisterNodePacket { node_id: id_at(b, at), timestamp_us: u64_at(b, at + 16) }
}

/// Reading the image of an unregister packet gives the packet back.
pub proof fn lemma_unregister(b: Seq<u8>, at: int, packet: UnregisterNodePacket)
    requires
        holds(b, at, unregister_bytes(packet)),
    ensures
        unregister_bytes(packet).len() == UNREGISTER_SIZE,
        unregister_at(b, at) == packet,
{
    lemma_integers(b, at + 16);
    lemma_holds_both(b, at, packet.node_id@, spec_u64_to_le_bytes(packet.timestamp_us));
    lemma_id(b, at, packet.node_id);
}

pub fn put_unregister(out: &mut Vec<u8>, packet: &UnregisterNodePacket)
    ensures
        final(out)@ == old(out)@ + unregister_bytes(*packet),
{
    put_id(out, &packet.node_id);
    put_u64(out, packet.timestamp_us);
    assert(out@ =~= old(out)@ + unregister_bytes(*packet));
}

pub fn get_unregister(input: &[u8], at: usize) -> (packet: UnregisterNodePacket)
    requires
        at + UNREGISTER_SIZE <= input.len(),
    ensures
        packet == unregister_at(input@, at as int),
{
    UnregisterNodePacket { node_id: get_id(input, at), timestamp_us: get_u64(input, at + 16) }
}

pub open spec fn ack_bytes(packet: AckPacket) -> Seq<u8> {
    spec_u32_to_le_bytes(packet.original_seq) + (spec_u64_to_le_bytes(packet.server_timestamp_us)
        + spec_u32_to_le_bytes(packet.server_processing_us))
}

pub open spec fn ack_at(b: Seq<u8>, at: int) -> AckPacket {
    AckPacket {
        original_seq: u32_at(b, at),
        server_timestamp_us: u64_at(b, at + 4),
        server_processing_us: u32_at(b, at + 12),
    }
}

/// Reading the image of an acknowledgement gives it back.
pub proof fn lemma_ack(b: Seq<u8>, at: int, packet: AckPacket)
    requires
        holds(b, at, ack_bytes(packet)),
    ensures
        ack_bytes(packet).len() == ACK_SIZE,
        ack_at(b, at) == packet,
{
    lemma_integers(b, at);
    lemma_integers(b, at + 4);
    lemma_integers(b, at + 12);
    let b1 = spec_u64_to_le_bytes(packet.server_timestamp_us) + spec_u32_to_le_bytes(
        packet.server_processing_us,
    );
    lemma_holds_both(b, at, spec_u32_to_le_bytes(packet.original_seq), b1);
    lemma_holds_both(
        b,
        at + 4,
        spec_u64_to_le_bytes(packet.server_timestamp_us),
        spec_u32_to_le_bytes(packet.server_processing_us),
    );
}

pub fn put_ack(out: &mut Vec<u8>, packet: &AckPacket)
    ensures
        final(out)@ == old(out)@ + ack_bytes(*packet),
{
    put_u32(out, packet.original_seq);
    put_u64(out, packet.server_timestamp_us);
    put_u32(out, packet.server_processing_us);
    assert(out@ =~= old(out)@ + ack_bytes(*packet));
}

pub fn get_ack(input: &[u8], at: usize) -> (packet: AckPacket)
    requires
        at + ACK_SIZE <= input.len(),
    ensures
        packet == ack_at(input@, at as int),
{
    AckPacket {
        original_seq: get_u32(input, at),
        server_timestamp_us: get_u64(input, at + 4),
        server_processing_us: get_u32(input, at + 12),
    }
}

pub open spec fn data_bytes(packet: DataPacket) -> Seq<u8> {
    packet.src_node_id@ + (packet.dst_node_id@ + (packet.node_id@ + (spec_u32_to_le_bytes(
        packet.global_seq,
    ) + (spec_u32_to_le_bytes(packet.class_seq) + (seq![class_byte(packet.class)] + (
    spec_u64_to_le_bytes(packet.timestamp_us) + (spec_u32_to_le_bytes(packet.declared_bytes) + (
    seq![endpoint_byte(packet.src_domain)] + (seq![endpoint_byte(packet.dst_domain)]
        + packet.desc@)))))))))
}

pub open spec fn data_at(b: Seq<u8>, at: int) -> Option<DataPacket> {
    match (class_at(b, at + 56), endpoint_at(b, at + 69), endpoint_at(b, at + 70)) {
        (Some(class), Some(src_domain), Some(dst_domain)) => Some(
            DataPacket {
                src_node_id: id_at(b, at),
                dst_node_id: id_at(b, at + 16),
                node_id: id_at(b, at + 32),
                global_seq: u32_at(b, at + 48),
                class_seq: u32_at(b, at + 52),
                class,
                timestamp_us: u64_at(b, at + 57),
                declared_bytes: u32_at(b, at + 65),
                src_domain,
                dst_domain,
                desc: id_at(b, at + 71),
            },
        ),
        _ => None,
    }
}

/// Reading the image of a data packet gives the packet back.
pub proof fn lemma_data(b: Seq<u8>, at: int, packet: DataPacket)
    requires
        holds(b, at, data_bytes(packet)),
    ensures
        data_bytes(packet).len() == DATA_SIZE,
        data_at(b, at) == Some(packet),
{
    lemma_integers(b, at + 48);
    lemma_integers(b, at + 52);
    lemma_integers(b, at + 57);
    lemma_integers(b, at + 65);
    let f10 = packet.desc@;
    let f9 = seq![endpoint_byte(packet.dst_domain)];
    let f8 = seq![endpoint_byte(packet.src_domain)];
    let f7 = spec_u32_to_le_bytes(packet.declared_bytes);
    let f6 = spec_u64_to_le_bytes(packet.timestamp_us);
    let f5 = seq![class_byte(packet.class)];
    let f4 = spec_u32_to_le_bytes(packet.class_seq);
    let f3 = spec_u32_to_le_bytes(packet.global_seq);
    let r9 = f9 + f10;
    let r8 = f8 + r9;
    let r7 = f7 + r8;
    let r6 = f6 + r7;
    let r5 = f5 + r6;
    let r4 = f4 + r5;
    let r3 = f3 + r4;
    let r2 = packet.node_id@ + r3;
    let r1 = packet.dst_node_id@ + r2;
    lemma_holds_both(b, at, packet.src_node_id@, r1);
    lemma_holds_both(b, at + 16, packet.dst_node_id@, r2);
    lemma_holds_both(b, at + 32, packet.node_id@, r3);
    lemma_holds_both(b, at + 48, f3, r4);
    lemma_holds_both(b, at + 52, f4, r5);
    lemma_holds_both(b, at + 56, f5, r6);
    lemma_holds_both(b, at + 57, f6, r7);
    lemma_holds_both(b, at + 65, f7, r8);
    lemma_holds_both(b, at + 69, f8, r9);
    lemma_holds_both(b, at + 70, f9, f10);
    lemma_id(b, at, packet.src_node_id);
    lemma_id(b, at + 16, packet.dst_node_id);
    lemma_id(b, at + 32, packet.node_id);
    lemma_id(b, at + 71, packet.desc);
    lemma_byte(b, at + 56, class_byte(packet.class));
    lemma_byte(b, at + 69, endpoint_byte(packet.src_domain));
    lemma_byte(b, at + 70, endpoint_byte(packet.dst_domain));
}

pub fn put_data(out: &mut Vec<u8>, packet: &DataPacket)
    ensures
        final(out)@ == old(out)@ + data_bytes(*packet),
{
    put_id(out, &packet.src_node_id);
    put_id(out, &packet.dst_node_id);
    put_id(out, &packet.node_id);
    put_u32(out, packet.global_seq);
    put_u32(out, packet.class_seq);
    put_class(out, packet.class);
    put_u64(out, packet.timestamp_us);
    put_u32(out, packet.declared_bytes);
    put_endpoint(out, packet.src_domain);
    put_endpoint(out, packet.dst_domain);
    put_id(out, &packet.desc);
    assert(out@ =~= old(out)@ + data_bytes(*packet));
}

pub fn get_data(input: &[u8], at: usize) -> (packet: Option<DataPacket>)
    requires
        at + DATA_SIZE <= input.len(),
    ensures
        packet == data_at(input@, at as int),
{
    let class = get_class(input, at + 56);
    let src_domain = get_endpoint(input, at + 69);
    let dst_domain = get_endpoint(input, at + 70);
    match (class, src_domain, dst_domain) {
        (Some(class), Some(src_domain), Some(dst_domain)) => Some(
            DataPacket {
                src_node_id: get_id(input, at),
                dst_node_id: get_id(input, at + 16),
                node_id: get_id(input, at + 32),
                global_seq: get_u32(input, at + 48),
                class_seq: get_u32(input, at + 52),
                class,
                timestamp_us: get_u64(input, at + 57),
                declared_bytes: get_u32(input, at + 65),
                src_domain,
                dst_domain,
                desc: get_id(input, at + 71),
            },
        ),
        _ => None,
    }
}

} // verus!

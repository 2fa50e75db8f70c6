//! The wire format: one message per datagram, as a tag byte followed by
//! the image of the message's content. Lists are written as a 32-bit count
//! followed by their items; a message must fill its datagram exactly.

use vstd::prelude::*;
use vstd::bytes::{spec_u32_to_le_bytes, spec_u64_to_le_bytes};
use crate::protocol::{
    WireMessage, WireMessageView,
};
use crate::snapshot::{
    AnalyticsSnapshot, AnalyticsSnapshotView, ClientStats, EdgeSnapshot, NodeSnapshot,
    TopologySnapshot, TopologySnapshotView,
};
use crate::wire::{
    ack_at, ack_bytes, data_at, data_bytes, get_ack, get_data, get_id, get_register, get_u32,
    get_u64, get_unregister, holds, id_at, lemma_ack, lemma_data, lemma_holds_both, lemma_id,
    lemma_integers, lemma_register, lemma_unregister, put_ack, put_data, put_id, put_register,
    put_u32, put_u64, put_u8, put_unregister, register_at, register_bytes, u32_at, u64_at,
    unregister_at, unregister_bytes, ACK_SIZE, DATA_SIZE, ID_SIZE, REGISTER_SIZE, UNREGISTER_SIZE,
};
use crate::wire_snapshot::{
    client_at, client_bytes, edge_at, edge_bytes, get_client, get_edge, get_global, get_node,
    global_at, global_bytes, lemma_client, lemma_concat_assoc, lemma_edge, lemma_global,
    lemma_node, node_at, node_bytes, put_client, put_edge, put_global, put_node, CLIENT_SIZE,
    EDGE_SIZE, NODE_SIZE,
};

verus! {

/// Why a message could not be written or read.
#[derive(Clone, Copy, Debug, PartialEq, Eq, Structural)]
pub enum WireError {
    /// A list of the message has more items than a 32-bit count can say.
    TooLong,
    /// The bytes are not the image of any message.
    Malformed,
}

// ---------------------------------------------------------------------------
// Items of lists
// ---------------------------------------------------------------------------

/// A value with a fixed-size image that can stand in a list.
pub trait Record: Sized {
    /// The image of the value.
    spec fn image(self) -> Seq<u8>;

    /// The size of every image.
    spec fn width() -> nat;

    /// The value read from `b` at offset `at`, where there is one.
    spec fn read(b: Seq<u8>, at: int) -> Option<Self>;

    /// Reading an image gives the value back.
    proof fn lemma_read(b: Seq<u8>, at: int, value: Self)
        requires
            holds(b, at, value.image()),
        ensures
            value.image().len() == Self::width(),
            Self::read(b, at) == Some(value),
    ;

    fn size() -> (n: usize)
        ensures
            n == Self::width(),
            0 < n <= 1024,
    ;

    fn put(&self, out: &mut Vec<u8>)
        ensures
            final(out)@ == old(out)@ + self.image(),
    ;

    fn get(input: &[u8], at: usize) -> (value: Option<Self>)
        requires
            at + Self::width() <= input.len(),
        ensures
            value == Self::read(input@, at as int),
    ;
}

impl Record for [u8; 16] {
    open spec fn image(self) -> Seq<u8> {
        self@
    }

    open spec fn width() -> nat {
        ID_SIZE as nat
    }

    open spec fn read(b: Seq<u8>, at: int) -> Option<Self> {
        Some(id_at(b, at))
    }

    proof fn lemma_read(b: Seq<u8>, at: int, value: Self) {
        lemma_id(b, at, value);
    }

    fn size() -> (n: usize) {
        ID_SIZE
    }

    fn put(&self, out: &mut Vec<u8>) {
        put_id(out, self);
    }

    fn get(input: &[u8], at: usize) -> (value: Option<Self>) {
        Some(get_id(input, at))
    }
}

impl Record for NodeSnapshot {
    open spec fn image(self) -> Seq<u8> {
        node_bytes(self)
    }

    open spec fn width() -> nat {
        NODE_SIZE as nat
    }

    open spec fn read(b: Seq<u8>, at: int) -> Option<Self> {
        node_at(b, at)
    }

    proof fn lemma_read(b: Seq<u8>, at: int, value: Self) {
        lemma_node(b, at, value);
    }

    fn size() -> (n: usize) {
        NODE_SIZE
    }

    fn put(&self, out: &mut Vec<u8>) {
        put_node(out, self);
    }

    fn get(input: &[u8], at: usize) -> (value: Option<Self>) {
        get_node(input, at)
    }
}

impl Record for EdgeSnapshot {
    open spec fn image(self) -> Seq<u8> {
        edge_bytes(self)
    }

    open spec fn width() -> nat {
        EDGE_SIZE as nat
    }

    open spec fn read(b: Seq<u8>, at: int) -> Option<Self> {
        edge_at(b, at)
    }

    proof fn lemma_read(b: Seq<u8>, at: int, value: Self) {
        lemma_edge(b, at, value);
    }

    fn size() -> (n: usize) {
        EDGE_SIZE
    }

    fn put(&self, out: &mut Vec<u8>) {
        put_edge(out, self);
    }

    fn get(input: &[u8], at: usize) -> (value: Option<Self>) {
        get_edge(input, at)
    }
}

impl Record for ClientStats {
    open spec fn image(self) -> Seq<u8> {
        client_bytes(self)
    }

    open spec fn width() -> nat {
        CLIENT_SIZE as nat
    }

    open spec fn read(b: Seq<u8>, at: int) -> Option<Self> {
        client_at(b, at)
    }

    proof fn lemma_read(b: Seq<u8>, at: int, value: Self) {
        lemma_client(b, at, value);
    }

    fn size() -> (n: usize) {
        CLIENT_SIZE
    }

    fn put(&self, out: &mut Vec<u8>) {
        put_client(out, self);
    }

    fn get(input: &[u8], at: usize) -> (value: Option<Self>) {
        get_client(input, at)
    }
}

// ---------------------------------------------------------------------------
// Lists
// ---------------------------------------------------------------------------

/// The images of `items`, one after the other.
pub open spec fn items_bytes<T: Record>(items: Seq<T>) -> Seq<u8>
    decreases items.len(),
{
    if items.len() == 0 {
        Seq::empty()
    } else {
        items_bytes(items.drop_last()) + items.last().image()
    }
}

/// The first `count` items read from `b`, the first of them at offset
/// `at`, where every one of them can be read.
pub open spec fn items_at<T: Record>(b: Seq<u8>, at: int, count: nat) -> Option<Seq<T>>
    decreases count,
{
    if count == 0 {
        Some(Seq::empty())
    } else {
        match (
            items_at::<T>(b, at, (count - 1) as nat),
            T::read(b, at + (count - 1) * T::width()),
        ) {
            (Some(before), Some(last)) => Some(before.push(last)),
            _ => None,
        }
    }
}

/// The image of a list: its length as a 32-bit count, then its items.
pub open spec fn list_bytes<T: Record>(items: Seq<T>) -> Seq<u8> {
    spec_u32_to_le_bytes(items.len() as u32) + items_bytes(items)
}

/// The list read from `b` at offset `at`, and the offset right after it,
/// where the buffer holds the count and as many readable items.
pub open spec fn list_at<T: Record>(b: Seq<u8>, at: int) -> Option<(Seq<T>, int)> {
    if at + 4 > b.len() {
        None
    } else if at + 4 + u32_at(b, at) * T::width() > b.len() {
        None
    } else {
        match items_at::<T>(b, at + 4, u32_at(b, at) as nat) {
            Some(items) => Some((items, at + 4 + u32_at(b, at) * T::width())),
            None => None,
        }
    }
}

/// Reading the images of some items gives the items back.
pub proof fn lemma_items<T: Record>(b: Seq<u8>, at: int, items: Seq<T>)
    requires
        holds(b, at, items_bytes(items)),
    ensures
        items_bytes(items).len() == items.len() * T::width(),
        items_at::<T>(b, at, items.len()) == Some(items),
    decreases items.len(),
{
    if items.len() > 0 {
        let before = items.drop_last();
        let last = items.last();
        lemma_holds_both(b, at, items_bytes(before), last.image());
        lemma_items(b, at, before);
        let w = T::width() as int;
        let n = items.len() as int;
        assert(before.len() * w + w == n * w) by (nonlinear_arith)
            requires
                before.len() == n - 1,
        ;
        assert(items_bytes(before).len() == (n - 1) * w);
        T::lemma_read(b, at + (n - 1) * w, last);
        assert(before.push(last) =~= items);
    }
}

/// Reading the image of a list gives the list back.
pub proof fn lemma_list<T: Record>(b: Seq<u8>, at: int, items: Seq<T>)
    requires
        holds(b, at, list_bytes(items)),
        items.len() <= u32::MAX,
    ensures
        list_bytes(items).len() == 4 + items.len() * T::width(),
        list_at::<T>(b, at) == Some((items, at + list_bytes(items).len())),
{
    lemma_integers(b, at);
    lemma_holds_both(b, at, spec_u32_to_le_bytes(items.len() as u32), items_bytes(items));
    lemma_items(b, at + 4, items);
}

/// Appends the image of a list.
pub fn put_list<T: Record>(out: &mut Vec<u8>, items: &Vec<T>)
    requires
        items.len() <= u32::MAX,
    ensures
        final(out)@ == old(out)@ + list_bytes(items@),
{
    put_u32(out, items.len() as u32);
    let ghost start = out@;
    let mut i: usize = 0;
    while i < items.len()
        invariant
            i <= items.len(),
            out@ == start + items_bytes(items@.take(i as int)),
        decreases items.len() - i,
    {
        proof {
            assert(items@.take(i + 1).drop_last() =~= items@.take(i as int));
            lemma_concat_assoc(start, items_bytes(items@.take(i as int)), items@[i as int].image());
        }
        items[i].put(out);
        i += 1;
    }
    proof {
        assert(items@.take(i as int) =~= items@);
        lemma_concat_assoc(
            old(out)@,
            spec_u32_to_le_bytes(items.len() as u32),
            items_bytes(items@),
        );
    }
}

/// Reads a list and returns it with the offset right after it.
pub fn get_list<T: Record>(input: &[u8], at: usize) -> (list: Option<(Vec<T>, usize)>)
    requires
        at <= input.len(),
    ensures
        match list {
            Some((items, end)) => list_at::<T>(input@, at as int) == Some((items@, end as int))
                && end <= input.len(),
            None => list_at::<T>(input@, at as int) is None,
        },
{
    if input.len() - at < 4 {
        return None;
    }
    let count = get_u32(input, at);
    let width = T::size();
    let room: u64 = (input.len() - at - 4) as u64;
    assert(count * width <= 0xFFFF_FFFF * 1024) by (nonlinear_arith)
        requires
            0 <= count <= 0xFFFF_FFFF,
            0 < width <= 1024,
    ;
    let needed: u64 = count as u64 * width as u64;
    if needed > room {
        return None;
    }
    let first = at + 4;
    let mut items: Vec<T> = Vec::new();
    let mut i: usize = 0;
    let mut next: usize = first;
    while i < count as usize
        invariant
            i <= count,
            first == at + 4,
            first <= input.len(),
            count == u32_at(input@, at as int),
            width == T::width(),
            0 < width <= 1024,
            next == first + i * width,
            first + count * width <= input.len(),
            items_at::<T>(input@, first as int, i as nat) == Some(items@),
        decreases count - i,
    {
        assert(i * width + width == (i + 1) * width) by (nonlinear_arith);
        assert((i + 1) * width <= count * width) by (nonlinear_arith)
            requires
                i + 1 <= count,
                0 < width,
        ;
        match T::get(input, next) {
            Some(item) => {
                items.push(item);
            },
            None => {
                proof {
                    lemma_items_fail::<T>(input@, first as int, i as nat, count as nat);
                }
                return None;
            },
        }
        next += width;
        i += 1;
    }
    Some((items, next))
}

/// Where item `bad` cannot be read, no longer run of items can.
pub proof fn lemma_items_fail<T: Record>(b: Seq<u8>, at: int, bad: nat, count: nat)
    requires
        bad < count,
        T::read(b, at + bad * T::width()) is None,
    ensures
        items_at::<T>(b, at, count) is None,
    decreases count,
{
    if count - 1 > bad {
        lemma_items_fail::<T>(b, at, bad, (count - 1) as nat);
    }
}

// ---------------------------------------------------------------------------
// Snapshots
// ---------------------------------------------------------------------------

pub const TOPOLOGY_HEAD_SIZE: usize = 176;

pub const ANALYTICS_HEAD_SIZE: usize = 168;

/// Every list of the snapshot can be counted in 32 bits.
pub open spec fn topology_fits(snapshot: TopologySnapshotView) -> bool {
    &&& snapshot.nodes.len() <= u32::MAX
    &&& snapshot.edges.len() <= u32::MAX
    &&& snapshot.removed_nodes.len() <= u32::MAX
    &&& snapshot.removed_edges.len() <= u32::MAX
}

/// The image of a topology snapshot: its three counters, the global
/// statistics, and its four lists.
pub open spec fn topology_bytes(snapshot: TopologySnapshotView) -> Seq<u8> {
    spec_u64_to_le_bytes(snapshot.snapshot_seq) + (spec_u64_to_le_bytes(
        snapshot.snapshot_timestamp_epoch_us,
    ) + (spec_u64_to_le_bytes(snapshot.snapshot_interval_us) + (global_bytes(snapshot.global_stats)
        + (list_bytes(snapshot.nodes) + (list_bytes(snapshot.edges) + (list_bytes(
        snapshot.removed_nodes,
    ) + list_bytes(snapshot.removed_edges)))))))
}

/// The topology snapshot read from `b` at offset `at`, and the offset
/// right after it.
pub open spec fn topology_at(b: Seq<u8>, at: int) -> Option<(TopologySnapshotView, int)> {
    if at + TOPOLOGY_HEAD_SIZE > b.len() {
        None
    } else {
        match global_at(b, at + 24) {
            None => None,
            Some(global_stats) => match list_at::<NodeSnapshot>(b, at + TOPOLOGY_HEAD_SIZE) {
                None => None,
                Some((nodes, after_nodes)) => match list_at::<EdgeSnapshot>(b, after_nodes) {
                    None => None,
                    Some((edges, after_edges)) => match list_at::<[u8; 16]>(b, after_edges) {
                        None => None,
                        Some((removed_nodes, after_removed)) => match list_at::<[u8; 16]>(
                            b,
                            after_removed,
                        ) {
                            None => None,
                            Some((removed_edges, end)) => Some(
                                (
                                    TopologySnapshotView {
                                        snapshot_seq: u64_at(b, at),
                                        snapshot_timestamp_epoch_us: u64_at(b, at + 8),
                                        snapshot_interval_us: u64_at(b, at + 16),
                                        nodes,
                                        edges,
                                        removed_nodes,
                                        removed_edges,
                                        global_stats,
                                    },
                                    end,
                                ),
                            ),
                        },
                    },
                },
            },
        }
    }
}

/// Reading the image of a topology snapshot gives the snapshot back.
pub proof fn lemma_topology(b: Seq<u8>, at: int, snapshot: TopologySnapshotView)
    requires
        holds(b, at, topology_bytes(snapshot)),
        topology_fits(snapshot),
    ensures
        topology_at(b, at) == Some((snapshot, at + topology_bytes(snapshot).len())),
{
    lemma_integers(b, at);
    lemma_integers(b, at + 8);
    lemma_integers(b, at + 16);
    let f0 = spec_u64_to_le_bytes(snapshot.snapshot_seq);
    let f1 = spec_u64_to_le_bytes(snapshot.snapshot_timestamp_epoch_us);
    let f2 = spec_u64_to_le_bytes(snapshot.snapshot_interval_us);
    let f3 = global_bytes(snapshot.global_stats);
    let f4 = list_bytes(snapshot.nodes);
    let f5 = list_bytes(snapshot.edges);
    let f6 = list_bytes(snapshot.removed_nodes);
    let f7 = list_bytes(snapshot.removed_edges);
    let r6 = f6 + f7;
    let r5 = f5 + r6;
    let r4 = f4 + r5;
    let r3 = f3 + r4;
    let r2 = f2 + r3;
    let r1 = f1 + r2;
    lemma_holds_both(b, at, f0, r1);
    lemma_holds_both(b, at + 8, f1, r2);
    lemma_holds_both(b, at + 16, f2, r3);
    lemma_holds_both(b, at + 24, f3, r4);
    lemma_global(b, at + 24, snapshot.global_stats);
    let p1 = at + 176;
    lemma_holds_both(b, p1, f4, r5);
    lemma_list(b, p1, snapshot.nodes);
    let p2 = p1 + f4.len();
    lemma_holds_both(b, p2, f5, r6);
    lemma_list(b, p2, snapshot.edges);
    let p3 = p2 + f5.len();
    lemma_holds_both(b, p3, f6, f7);
    lemma_list(b, p3, snapshot.removed_nodes);
    let p4 = p3 + f6.len();
    lemma_list(b, p4, snapshot.removed_edges);
}

pub fn put_topology(out: &mut Vec<u8>, snapshot: &TopologySnapshot)
    requires
        topology_fits(snapshot@),
    ensures
        final(out)@ == old(out)@ + topology_bytes(snapshot@),
{
    put_u64(out, snapshot.snapshot_seq);
    let ghost o1 = out@;
    put_u64(out, snapshot.snapshot_timestamp_epoch_us);
    let ghost o2 = out@;
    put_u64(out, snapshot.snapshot_interval_us);
    let ghost o3 = out@;
    put_global(out, &snapshot.global_stats);
    let ghost o4 = out@;
    put_list(out, &snapshot.nodes);
    let ghost o5 = out@;
    put_list(out, &snapshot.edges);
    let ghost o6 = out@;
    put_list(out, &snapshot.removed_nodes);
    let ghost o7 = out@;
    put_list(out, &snapshot.removed_edges);
    proof {
        let v = snapshot@;
        let f0 = spec_u64_to_le_bytes(v.snapshot_seq);
        let f1 = spec_u64_to_le_bytes(v.snapshot_timestamp_epoch_us);
        let f2 = spec_u64_to_le_bytes(v.snapshot_interval_us);
        let f3 = global_bytes(v.global_stats);
        let f4 = list_bytes(v.nodes);
        let f5 = list_bytes(v.edges);
        let f6 = list_bytes(v.removed_nodes);
        let f7 = list_bytes(v.removed_edges);
        let r6 = f6 + f7;
        let r5 = f5 + r6;
        let r4 = f4 + r5;
        let r3 = f3 + r4;
        let r2 = f2 + r3;
        let r1 = f1 + r2;
        lemma_concat_assoc(o6, f6, f7);
        lemma_concat_assoc(o5, f5, r6);
        lemma_concat_assoc(o4, f4, r5);
        lemma_concat_assoc(o3, f3, r4);
        lemma_concat_assoc(o2, f2, r3);
        lemma_concat_assoc(o1, f1, r2);
        lemma_concat_assoc(old(out)@, f0, r1);
    }
}

pub fn get_topology(input: &[u8], at: usize) -> (read: Option<(TopologySnapshot, usize)>)
    requires
        at <= input.len(),
    ensures
        match read {
            Some((snapshot, end)) => topology_at(input@, at as int) == Some(
                (snapshot@, end as int),
            ) && end <= input.len(),
            None => topology_at(input@, at as int) is None,
        },
{
    if input.len() - at < TOPOLOGY_HEAD_SIZE {
        return None;
    }
    let global_stats = get_global(input, at + 24)?;
    let (nodes, after_nodes) = get_list::<NodeSnapshot>(input, at + TOPOLOGY_HEAD_SIZE)?;
    let (edges, after_edges) = get_list::<EdgeSnapshot>(input, after_nodes)?;
    let (removed_nodes, after_removed) = get_list::<[u8; 16]>(input, after_edges)?;
    let (removed_edges, end) = get_list::<[u8; 16]>(input, after_removed)?;
    Some(
        (
            TopologySnapshot {
                snapshot_seq: get_u64(input, at),
                snapshot_timestamp_epoch_us: get_u64(input, at + 8),
                snapshot_interval_us: get_u64(input, at + 16),
                nodes,
                edges,
                removed_nodes,
                removed_edges,
                global_stats,
            },
            end,
        ),
    )
}

/// The image of an analytics snapshot: its two times, the global
/// statistics, and the list of clients.
pub open spec fn analytics_bytes(snapshot: AnalyticsSnapshotView) -> Seq<u8> {
    spec_u64_to_le_bytes(snapshot.snapshot_timestamp_us) + (spec_u64_to_le_bytes(
        snapshot.server_uptime_us,
    ) + (global_bytes(snapshot.global_stats) + list_bytes(snapshot.per_client_stats)))
}

/// The analytics snapshot read from `b` at offset `at`, and the offset
/// right after it.
pub open spec fn analytics_at(b: Seq<u8>, at: int) -> Option<(AnalyticsSnapshotView, int)> {
    if at + ANALYTICS_HEAD_SIZE > b.len() {
        None
    } else {
        match global_at(b, at + 16) {
            None => None,
            Some(global_stats) => match list_at::<ClientStats>(b, at + ANALYTICS_HEAD_SIZE) {
                None => None,
                Some((per_client_stats, end)) => Some(
                    (
                        AnalyticsSnapshotView {
                            snapshot_timestamp_us: u64_at(b, at),
                            server_uptime_us: u64_at(b, at + 8),
                            global_stats,
                            per_client_stats,
                        },
                        end,
                    ),
                ),
            },
        }
    }
}

/// Reading the image of an analytics snapshot gives the snapshot back.
pub proof fn lemma_analytics(b: Seq<u8>, at: int, snapshot: AnalyticsSnapshotView)
    requires
        holds(b, at, analytics_bytes(snapshot)),
        snapshot.per_client_stats.len() <= u32::MAX,
    ensures
        analytics_at(b, at) == Some((snapshot, at + analytics_bytes(snapshot).len())),
{
    lemma_integers(b, at);
    lemma_integers(b, at + 8);
    let f0 = spec_u64_to_le_bytes(snapshot.snapshot_timestamp_us);
    let f1 = spec_u64_to_le_bytes(snapshot.server_uptime_us);
    let f2 = global_bytes(snapshot.global_stats);
    let f3 = list_bytes(snapshot.per_client_stats);
    let r2 = f2 + f3;
    let r1 = f1 + r2;
    lemma_holds_both(b, at, f0, r1);
    lemma_holds_both(b, at + 8, f1, r2);
    lemma_holds_both(b, at + 16, f2, f3);
    lemma_global(b, at + 16, snapshot.global_stats);
    lemma_list(b, at + 168, snapshot.per_client_stats);
}

pub fn put_analytics(out: &mut Vec<u8>, snapshot: &AnalyticsSnapshot)
    requires
        snapshot@.per_client_stats.len() <= u32::MAX,
    ensures
        final(out)@ == old(out)@ + analytics_bytes(snapshot@),
{
    put_u64(out, snapshot.snapshot_timestamp_us);
    let ghost o1 = out@;
    put_u64(out, snapshot.server_uptime_us);
    let ghost o2 = out@;
    put_global(out, &snapshot.global_stats);
    let ghost o3 = out@;
    put_list(out, &snapshot.per_client_stats);
    proof {
        let v = snapshot@;
        let f0 = spec_u64_to_le_bytes(v.snapshot_timestamp_us);
        let f1 = spec_u64_to_le_bytes(v.server_uptime_us);
        let f2 = global_bytes(v.global_stats);
        let f3 = list_bytes(v.per_client_stats);
        let r2 = f2 + f3;
        let r1 = f1 + r2;
        lemma_concat_assoc(o2, f2, f3);
        lemma_concat_assoc(o1, f1, r2);
        lemma_concat_assoc(old(out)@, f0, r1);
    }
}

pub fn get_analytics(input: &[u8], at: usize) -> (read: Option<(AnalyticsSnapshot, usize)>)
    requires
        at <= input.len(),
    ensures
        match read {
            Some((snapshot, end)) => analytics_at(input@, at as int) == Some(
                (snapshot@, end as int),
            ) && end <= input.len(),
            None => analytics_at(input@, at as int) is None,
        },
{
    if input.len() - at < ANALYTICS_HEAD_SIZE {
        return None;
    }
    let global_stats = get_global(input, at + 16)?;
    let (per_client_stats, end) = get_list::<ClientStats>(input, at + ANALYTICS_HEAD_SIZE)?;
    Some(
        (
            AnalyticsSnapshot {
                snapshot_timestamp_us: get_u64(input, at),
                server_uptime_us: get_u64(input, at + 8),
                global_stats,
                per_client_stats,
            },
            end,
        ),
    )
}

// ---------------------------------------------------------------------------
// Messages
// ---------------------------------------------------------------------------

pub const TAG_REGISTER: u8 = 0;

pub const TAG_UNREGISTER: u8 = 1;

pub const TAG_DATA: u8 = 2;

pub const TAG_ACK: u8 = 3;

pub const TAG_REQUEST_TOPOLOGY: u8 = 4;

pub const TAG_TOPOLOGY: u8 = 5;

pub const TAG_REQUEST_ANALYTICS: u8 = 6;

pub const TAG_ANALYTICS: u8 = 7;

/// The message can be written: every list in it can be counted in 32
/// bits.
pub open spec fn encodable(message: WireMessageView) -> bool {
    match message {
        WireMessageView::Topology(snapshot) => topology_fits(snapshot),
        WireMessageView::Analytics(snapshot) => snapshot.per_client_stats.len() <= u32::MAX,
        _ => true,
    }
}

/// The image of a message: its tag, then its content.
pub open spec fn message_bytes(message: WireMessageView) -> Seq<u8> {
    match message {
        WireMessageView::RegisterNode(packet) => seq![TAG_REGISTER] + register_bytes(packet),
        WireMessageView::UnregisterNode(packet) => seq![TAG_UNREGISTER] + unregister_bytes(packet),
        WireMessageView::Data(packet) => seq![TAG_DATA] + data_bytes(packet),
        WireMessageView::Ack(packet) => seq![TAG_ACK] + ack_bytes(packet),
        WireMessageView::RequestTopology => seq![TAG_REQUEST_TOPOLOGY],
        WireMessageView::Topology(snapshot) => seq![TAG_TOPOLOGY] + topology_bytes(snapshot),
        WireMessageView::RequestAnalytics => seq![TAG_REQUEST_ANALYTICS],
        WireMessageView::Analytics(snapshot) => seq![TAG_ANALYTICS] + analytics_bytes(snapshot),
    }
}

/// The message whose image `b` is, where it is one: the tag is known, the
/// content can be read, and nothing follows it.
pub open spec fn message_of(b: Seq<u8>) -> Option<WireMessageView> {
    if b.len() == 0 {
        None
    } else if b[0] == TAG_REGISTER {
        if b.len() == 1 + REGISTER_SIZE {
            match register_at(b, 1) {
                Some(packet) => Some(WireMessageView::RegisterNode(packet)),
                None => None,
            }
        } else {
            None
        }
    } else if b[0] == TAG_UNREGISTER {
        if b.len() == 1 + UNREGISTER_SIZE {
            Some(WireMessageView::UnregisterNode(unregister_at(b, 1)))
        } else {
            None
        }
    } else if b[0] == TAG_DATA {
        if b.len() == 1 + DATA_SIZE {
            match data_at(b, 1) {
                Some(packet) => Some(WireMessageView::Data(packet)),
                None => None,
            }
        } else {
            None
        }
    } else if b[0] == TAG_ACK {
        if b.len() == 1 + ACK_SIZE {
            Some(WireMessageView::Ack(ack_at(b, 1)))
        } else {
            None
        }
    } else if b[0] == TAG_REQUEST_TOPOLOGY {
        if b.len() == 1 {
            Some(WireMessageView::RequestTopology)
        } else {
            None
        }
    } else if b[0] == TAG_TOPOLOGY {
        match topology_at(b, 1) {
            Some((snapshot, end)) => if end == b.len() {
                Some(WireMessageView::Topology(snapshot))
            } else {
                None
            },
            None => None,
        }
    } else if b[0] == TAG_REQUEST_ANALYTICS {
        if b.len() == 1 {
            Some(WireMessageView::RequestAnalytics)
        } else {
            None
        }
    } else if b[0] == TAG_ANALYTICS {
        match analytics_at(b, 1) {
            Some((snapshot, end)) => if end == b.len() {
                Some(WireMessageView::Analytics(snapshot))
            } else {
                None
            },
            None => None,
        }
    } else {
        None
    }
}

/// A buffer made of a tag and an image holds the image at offset one.
proof fn lemma_after_tag(tag: u8, image: Seq<u8>)
    ensures
        holds(seq![tag] + image, 1, image),
        (seq![tag] + image)[0] == tag,
        (seq![tag] + image).len() == 1 + image.len(),
{
    let b = seq![tag] + image;
    assert(b.subrange(1, 1 + image.len() as int) =~= image);
}

/// Reading the image of a register message gives the message back.
proof fn lemma_register_message(message: WireMessageView)
    requires
        message is RegisterNode,
    ensures
        message_of(message_bytes(message)) == Some(message),
{
    let packet = message->RegisterNode_0;
    lemma_after_tag(TAG_REGISTER, register_bytes(packet));
    lemma_register(message_bytes(message), 1, packet);
}

/// Reading the image of an unregister message gives the message back.
proof fn lemma_unregister_message(message: WireMessageView)
    requires
        message is UnregisterNode,
    ensures
        message_of(message_bytes(message)) == Some(message),
{
    let packet = message->UnregisterNode_0;
    lemma_after_tag(TAG_UNREGISTER, unregister_bytes(packet));
    lemma_unregister(message_bytes(message), 1, packet);
}

/// Reading the image of a data message gives the message back.
proof fn lemma_data_message(message: WireMessageView)
    requires
        message is Data,
    ensures
        message_of(message_bytes(message)) == Some(message),
{
    let packet = message->Data_0;
    lemma_after_tag(TAG_DATA, data_bytes(packet));
    lemma_data(message_bytes(message), 1, packet);
}

/// Reading the image of an acknowledgement message gives the message
/// back.
proof fn lemma_ack_message(message: WireMessageView)
    requires
        message is Ack,
    ensures
        message_of(message_bytes(message)) == Some(message),
{
    let packet = message->Ack_0;
    lemma_after_tag(TAG_ACK, ack_bytes(packet));
    lemma_ack(message_bytes(message), 1, packet);
}

/// Reading the image of a topology message gives the message back.
proof fn lemma_topology_message(message: WireMessageView)
    requires
        message is Topology,
        encodable(message),
    ensures
        message_of(message_bytes(message)) == Some(message),
{
    let snapshot = message->Topology_0;
    lemma_after_tag(TAG_TOPOLOGY, topology_bytes(snapshot));
    lemma_topology(message_bytes(message), 1, snapshot);
}

/// Reading the image of an analytics message gives the message back.
proof fn lemma_analytics_message(message: WireMessageView)
    requires
        message is Analytics,
        encodable(message),
    ensures
        message_of(message_bytes(message)) == Some(message),
{
    let snapshot = message->Analytics_0;
    lemma_after_tag(TAG_ANALYTICS, analytics_bytes(snapshot));
    lemma_analytics(message_bytes(message), 1, snapshot);
}

/// Round trip: reading the image of a message gives the message back,
/// whatever its kind.
pub proof fn lemma_message_round_trip(message: WireMessageView)
    requires
        encodable(message),
    ensures
        message_of(message_bytes(message)) == Some(message),
{
    match message {
        WireMessageView::RegisterNode(_) => lemma_register_message(message),
        WireMessageView::UnregisterNode(_) => lemma_unregister_message(message),
        WireMessageView::Data(_) => lemma_data_message(message),
        WireMessageView::Ack(_) => lemma_ack_message(message),
        WireMessageView::RequestTopology => {},
        WireMessageView::Topology(_) => lemma_topology_message(message),
        WireMessageView::RequestAnalytics => {},
        WireMessageView::Analytics(_) => lemma_analytics_message(message),
    }
}

/// The format is unambiguous: messages with the same image are the same
/// message.
pub proof fn lemma_images_tell_messages_apart(first: WireMessageView, second: WireMessageView)
    requires
        encodable(first),
        encodable(second),
        message_bytes(first) == message_bytes(second),
    ensures
        first == second,
{
    lemma_message_round_trip(first);
    lemma_message_round_trip(second);
}

fn fits(len: usize) -> (ok: bool)
    ensures
        ok == (len <= u32::MAX),
{
    len as u64 <= u32::MAX as u64
}

/// Writes a message as the bytes of one datagram. Fails only where a list
/// of the message is too long to be counted.
pub fn encode_message(message: &WireMessage) -> (written: Result<Vec<u8>, WireError>)
    ensures
        match written {
            Ok(bytes) => encodable(message@) && bytes@ == message_bytes(message@),
            Err(error) => !encodable(message@) && error == WireError::TooLong,
        },
{
    let mut out: Vec<u8> = Vec::new();
    match message {
        WireMessage::RegisterNode(packet) => {
            put_u8(&mut out, TAG_REGISTER);
            put_register(&mut out, packet);
        },
        WireMessage::UnregisterNode(packet) => {
            put_u8(&mut out, TAG_UNREGISTER);
            put_unregister(&mut out, packet);
        },
        WireMessage::Data(packet) => {
            put_u8(&mut out, TAG_DATA);
            put_data(&mut out, packet);
        },
        WireMessage::Ack(packet) => {
            put_u8(&mut out, TAG_ACK);
            put_ack(&mut out, packet);
        },
        WireMessage::RequestTopology => {
            put_u8(&mut out, TAG_REQUEST_TOPOLOGY);
        },
        WireMessage::Topology(snapshot) => {
            if !(fits(snapshot.nodes.len()) && fits(snapshot.edges.len()) && fits(
                snapshot.removed_nodes.len(),
            ) && fits(snapshot.removed_edges.len())) {
                return Err(WireError::TooLong);
            }
            put_u8(&mut out, TAG_TOPOLOGY);
            put_topology(&mut out, snapshot);
        },
        WireMessage::RequestAnalytics => {
            put_u8(&mut out, TAG_REQUEST_ANALYTICS);
        },
        WireMessage::Analytics(snapshot) => {
            if !fits(snapshot.per_client_stats.len()) {
                return Err(WireError::TooLong);
            }
            put_u8(&mut out, TAG_ANALYTICS);
            put_analytics(&mut out, snapshot);
        },
    }
    assert(out@ =~= message_bytes(message@));
    Ok(out)
}

/// Reads the message that the bytes of one datagram are the image of.
/// Fails where they are the image of none.
pub fn decode_message(bytes: &[u8]) -> (read: Result<WireMessage, WireError>)
    ensures
        match read {
            Ok(message) => message_of(bytes@) == Some(message@),
            Err(error) => message_of(bytes@) is None && error == WireError::Malformed,
        },
{
    if bytes.len() == 0 {
        return Err(WireError::Malformed);
    }
    let tag = bytes[0];
    let body = bytes.len() - 1;
    if tag == TAG_REGISTER {
        if body == REGISTER_SIZE {
            if let Some(packet) = get_register(bytes, 1) {
                return Ok(WireMessage::RegisterNode(packet));
            }
        }
    } else if tag == TAG_UNREGISTER {
        if body == UNREGISTER_SIZE {
            return Ok(WireMessage::UnregisterNode(get_unregister(bytes, 1)));
        }
    } else if tag == TAG_DATA {
        if body == DATA_SIZE {
            if let Some(packet) = get_data(bytes, 1) {
                return Ok(WireMessage::Data(packet));
            }
        }
    } else if tag == TAG_ACK {
        if body == ACK_SIZE {
            return Ok(WireMessage::Ack(get_ack(bytes, 1)));
        }
    } else if tag == TAG_REQUEST_TOPOLOGY {
        if body == 0 {
            return Ok(WireMessage::RequestTopology);
        }
    } else if tag == TAG_TOPOLOGY {
        if let Some((snapshot, end)) = get_topology(bytes, 1) {
            if end == bytes.len() {
                return Ok(WireMessage::Topology(snapshot));
            }
        }
    } else if tag == TAG_REQUEST_ANALYTICS {
        if body == 0 {
            return Ok(WireMessage::RequestAnalytics);
        }
    } else if tag == TAG_ANALYTICS {
        if let Some((snapshot, end)) = get_analytics(bytes, 1) {
            if end == bytes.len() {
                return Ok(WireMessage::Analytics(snapshot));
            }
        }
    }
    Err(WireError::Malformed)
}

} // verus!

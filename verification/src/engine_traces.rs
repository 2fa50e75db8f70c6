//! What holds of the engine over whole runs: any sequence of register,
//! unregister, data, cleanup and topology events, in any order.

use vstd::prelude::*;
use crate::protocol::{DataPacket, EdgeId, NodeId, PeerAddr, RegisterNodePacket};
use crate::snapshot::TopologySnapshotView;
use crate::engine_model::{
    nodes_distinct, stale, stale_node_ids, touching_ids, EngineView, NodeView,
};
use crate::engine_laws::{
    lemma_after_topology, lemma_drop_stale_edges, lemma_ensure_node, lemma_ingest, lemma_node_at,
    lemma_remove_node, lemma_remove_nodes_keeps_pending,
};

verus! {

/// One thing that happens to the engine.
#[allow(inconsistent_fields)]
pub enum Event {
    Register { packet: RegisterNodePacket, addr: PeerAddr, now: u64 },
    Unregister { node_id: NodeId },
    Data { packet: DataPacket, addr: PeerAddr, now: u64, server_timestamp_us: u64 },
    Cleanup { node_ttl: u64, edge_ttl: u64, now: u64 },
    Topology { now: u64, epoch_us: u64 },
}

/// The engine after `event`.
pub open spec fn after(v: EngineView, event: Event) -> EngineView {
    match event {
        Event::Register { packet, addr, now } => v.register(packet, addr, now),
        Event::Unregister { node_id } => v.remove_node(node_id),
        Event::Data { packet, addr, now, server_timestamp_us } => v.ingest(
            packet,
            addr,
            now,
            server_timestamp_us,
        ),
        Event::Cleanup { node_ttl, edge_ttl, now } => v.cleanup(node_ttl, edge_ttl, now),
        Event::Topology { now, epoch_us } => v.after_topology(now, epoch_us),
    }
}

/// The engine after all of `events`, in order.
pub open spec fn run(v: EngineView, events: Seq<Event>) -> EngineView
    decreases events.len(),
{
    if events.len() == 0 {
        v
    } else {
        after(run(v, events.drop_last()), events.last())
    }
}

/// The topology snapshot that event `i` of `events` hands out; meaningful
/// where that event is a topology event.
pub open spec fn snapshot_at(v: EngineView, events: Seq<Event>, i: int) -> TopologySnapshotView {
    run(v, events.take(i)).topology(events[i]->Topology_now, events[i]->Topology_epoch_us)
}

/// The nodes that `event` removes from `v`, in the order of their removal.
pub open spec fn removed_by(v: EngineView, event: Event) -> Seq<NodeId> {
    match event {
        Event::Unregister { node_id } => if v.has_node(node_id) {
            seq![node_id]
        } else {
            Seq::empty()
        },
        Event::Cleanup { node_ttl, now, .. } => stale_node_ids(v.nodes, now, node_ttl),
        _ => Seq::empty(),
    }
}

/// The nodes removed in the course of `events` since the last topology
/// event among them, or, where there is none, what was pending before plus
/// all that `events` removed.
pub open spec fn pending_nodes(v: EngineView, events: Seq<Event>) -> Seq<NodeId>
    decreases events.len(),
{
    if events.len() == 0 {
        v.removed_nodes
    } else if events.last() is Topology {
        Seq::empty()
    } else {
        pending_nodes(v, events.drop_last()) + removed_by(
            run(v, events.drop_last()),
            events.last(),
        )
    }
}

/// The ids of the edges that `event` removes from `v`, in the order in
/// which it queues them: what it appends to the pending removals.
pub open spec fn edges_removed_by(v: EngineView, event: Event) -> Seq<EdgeId> {
    if event is Topology {
        Seq::empty()
    } else {
        after(v, event).removed_edges.skip(v.removed_edges.len() as int)
    }
}

/// The edges removed in the course of `events` since the last topology
/// event among them, or, where there is none, what was pending before plus
/// all that `events` removed.
pub open spec fn pending_edges(v: EngineView, events: Seq<Event>) -> Seq<EdgeId>
    decreases events.len(),
{
    if events.len() == 0 {
        v.removed_edges
    } else if events.last() is Topology {
        Seq::empty()
    } else {
        pending_edges(v, events.drop_last()) + edges_removed_by(
            run(v, events.drop_last()),
            events.last(),
        )
    }
}

/// Number of topology events among `events`.
pub open spec fn topology_count(events: Seq<Event>) -> nat
    decreases events.len(),
{
    if events.len() == 0 {
        0
    } else {
        topology_count(events.drop_last()) + (if events.last() is Topology {
            1nat
        } else {
            0nat
        })
    }
}

// ---------------------------------------------------------------------------
// Steps
// ---------------------------------------------------------------------------

/// `id` is the id of a node of `nodes` that is stale at `now`.
pub open spec fn is_stale_node(nodes: Seq<NodeView>, now: u64, ttl: u64, id: NodeId) -> bool {
    exists|i: int|
        0 <= i < nodes.len() && (#[trigger] nodes[i]).node_id == id && stale(
            nodes[i].last_seen,
            now,
            ttl,
        )
}

/// The ids of the stale nodes are ids of stale nodes of the list, and no
/// id occurs twice among them where none does in the list.
proof fn lemma_stale_ids(nodes: Seq<NodeView>, now: u64, ttl: u64)
    requires
        nodes_distinct(nodes),
    ensures
        stale_node_ids(nodes, now, ttl).no_duplicates(),
        forall|k: int|
            0 <= k < stale_node_ids(nodes, now, ttl).len() ==> is_stale_node(
                nodes,
                now,
                ttl,
                #[trigger] stale_node_ids(nodes, now, ttl)[k],
            ),
    decreases nodes.len(),
{
    if nodes.len() > 0 {
        let head = nodes.drop_last();
        let last = nodes.last();
        assert forall|i: int, j: int| 0 <= i < j < head.len() implies (#[trigger] head[i]).node_id
            != (#[trigger] head[j]).node_id by {
            assert(nodes[i].node_id != nodes[j].node_id);
        }
        lemma_stale_ids(head, now, ttl);
        let before = stale_node_ids(head, now, ttl);
        let all = stale_node_ids(nodes, now, ttl);
        assert forall|k: int| 0 <= k < all.len() implies is_stale_node(
            nodes,
            now,
            ttl,
            #[trigger] all[k],
        ) by {
            if k < before.len() {
                assert(is_stale_node(head, now, ttl, before[k]));
                let i = choose|i: int|
                    0 <= i < head.len() && (#[trigger] head[i]).node_id == before[k] && stale(
                        head[i].last_seen,
                        now,
                        ttl,
                    );
                assert(nodes[i] == head[i]);
            } else {
                assert(nodes[nodes.len() - 1] == last);
            }
        }
        if stale(last.last_seen, now, ttl) {
            assert forall|a: int, b: int| 0 <= a < b < all.len() implies all[a] != all[b] by {
                if b < before.len() {
                    assert(before[a] != before[b]);
                } else {
                    assert(is_stale_node(head, now, ttl, before[a]));
                    let i = choose|i: int|
                        0 <= i < head.len() && (#[trigger] head[i]).node_id == before[a] && stale(
                            head[i].last_seen,
                            now,
                            ttl,
                        );
                    assert(nodes[i].node_id != nodes[nodes.len() - 1].node_id);
                }
            }
        }
    }
}

/// Removing known nodes, no one twice, queues exactly their ids, in
/// order, and forgets exactly them.
proof fn lemma_remove_nodes_queues(v: EngineView, ids: Seq<NodeId>)
    requires
        v.wf(),
        ids.no_duplicates(),
        forall|k: int| 0 <= k < ids.len() ==> v.has_node(#[trigger] ids[k]),
    ensures
        v.remove_nodes(ids).wf(),
        v.remove_nodes(ids).removed_nodes == v.removed_nodes + ids,
        forall|x: NodeId| !ids.contains(x) ==> v.remove_nodes(ids).has_node(x) == v.has_node(x),
        forall|x: NodeId| ids.contains(x) ==> !v.remove_nodes(ids).has_node(x),
    decreases ids.len(),
{
    if ids.len() == 0 {
        assert(v.removed_nodes + ids =~= v.removed_nodes);
    } else {
        let head = ids.drop_last();
        let last = ids.last();
        assert forall|k: int| 0 <= k < head.len() implies v.has_node(#[trigger] head[k]) by {
            assert(head[k] == ids[k]);
        }
        lemma_remove_nodes_queues(v, head);
        let before = v.remove_nodes(head);
        assert(!head.contains(last)) by {
            if head.contains(last) {
                let k = choose|k: int| 0 <= k < head.len() && head[k] == last;
                assert(ids[k] == ids[ids.len() - 1]);
            }
        }
        assert(v.has_node(ids[ids.len() - 1]));
        assert(before.has_node(last));
        lemma_remove_node(before, last);
        let r = v.remove_nodes(ids);
        assert(r.removed_nodes =~= v.removed_nodes + ids);
        assert forall|x: NodeId| !ids.contains(x) implies r.has_node(x) == v.has_node(x) by {
            if head.contains(x) {
                let k = choose|k: int| 0 <= k < head.len() && head[k] == x;
                assert(ids[k] == x);
            }
            assert(x != last) by {
                if x == last {
                    assert(ids[ids.len() - 1] == x);
                }
            }
        }
        assert forall|x: NodeId| ids.contains(x) implies !r.has_node(x) by {
            let k = choose|k: int| 0 <= k < ids.len() && ids[k] == x;
            if k < head.len() {
                assert(head[k] == x);
                assert(head.contains(x));
                assert(x != last);
            }
        }
    }
}

/// One event keeps the registry consistent, appends to the pending
/// removals exactly the nodes it removes (or hands them all out, if it is a
/// topology event), moves the snapshot counter only if it is a topology
/// event, and keeps every node it does not remove.
pub proof fn lemma_step(v: EngineView, event: Event)
    requires
        v.wf(),
    ensures
        after(v, event).wf(),
        after(v, event).removed_nodes == (if event is Topology {
            Seq::<NodeId>::empty()
        } else {
            v.removed_nodes + removed_by(v, event)
        }),
        after(v, event).snapshot_seq == (if event is Topology {
            v.snapshot_seq.saturating_add(1)
        } else {
            v.snapshot_seq
        }),
        forall|x: NodeId|
            v.has_node(x) && !removed_by(v, event).contains(x) ==> after(v, event).has_node(x),
        after(v, event).removed_edges == (if event is Topology {
            Seq::<EdgeId>::empty()
        } else {
            v.removed_edges + edges_removed_by(v, event)
        }),
        event matches Event::Unregister { node_id } ==> edges_removed_by(v, event) == (
        if v.has_node(node_id) {
            touching_ids(v.edges, node_id)
        } else {
            Seq::<EdgeId>::empty()
        }),
{
    if !(event is Topology) {
        lemma_step_appends_edges(v, event);
    }
    match event {
        Event::Register { packet, addr, now } => {
            lemma_ensure_node(v, packet.node_id, packet.desc, packet.domain, addr, now, true, true);
            assert(v.removed_nodes + Seq::<NodeId>::empty() =~= v.removed_nodes);
        },
        Event::Unregister { node_id } => {
            lemma_remove_node(v, node_id);
            if v.has_node(node_id) {
                assert(v.removed_nodes.push(node_id) =~= v.removed_nodes + seq![node_id]);
                assert forall|x: NodeId|
                    v.has_node(x) && !removed_by(v, event).contains(x) implies after(
                    v,
                    event,
                ).has_node(x) by {
                    if x == node_id {
                        assert(seq![node_id][0] == x);
                    }
                }
            } else {
                assert(v.removed_nodes + Seq::<NodeId>::empty() =~= v.removed_nodes);
            }
        },
        Event::Data { packet, addr, now, server_timestamp_us } => {
            lemma_ingest(v, packet, addr, now, server_timestamp_us);
            assert(v.removed_nodes + Seq::<NodeId>::empty() =~= v.removed_nodes);
        },
        Event::Cleanup { node_ttl, edge_ttl, now } => {
            let ids = stale_node_ids(v.nodes, now, node_ttl);
            lemma_stale_ids(v.nodes, now, node_ttl);
            assert forall|k: int| 0 <= k < ids.len() implies v.has_node(#[trigger] ids[k]) by {
                assert(is_stale_node(v.nodes, now, node_ttl, ids[k]));
                let i = choose|i: int|
                    0 <= i < v.nodes.len() && (#[trigger] v.nodes[i]).node_id == ids[k] && stale(
                        v.nodes[i].last_seen,
                        now,
                        node_ttl,
                    );
                lemma_node_at(v, i);
            }
            lemma_remove_nodes_queues(v, ids);
            lemma_remove_nodes_keeps_pending(v, ids);
            let swept = v.remove_nodes(ids);
            lemma_drop_stale_edges(swept, now, edge_ttl);
            let r = swept.drop_stale_edges(now, edge_ttl);
            assert forall|x: NodeId| swept.has_node(x) implies r.has_node(x) by {
                let k = swept.node_index(x);
                assert(r.nodes[k].node_id == x);
            }
        },
        Event::Topology { now, epoch_us } => {
            lemma_after_topology(v, now, epoch_us);
        },
    }
}

/// An event that is no topology event only appends to the pending edge
/// removals.
proof fn lemma_step_appends_edges(v: EngineView, event: Event)
    requires
        v.wf(),
        !(event is Topology),
    ensures
        after(v, event).removed_edges == v.removed_edges + edges_removed_by(v, event),
        event matches Event::Unregister { node_id } ==> edges_removed_by(v, event) == (
        if v.has_node(node_id) {
            touching_ids(v.edges, node_id)
        } else {
            Seq::<EdgeId>::empty()
        }),
{
    let r = after(v, event);
    match event {
        Event::Register { packet, addr, now } => {},
        Event::Unregister { node_id } => {
            if v.has_node(node_id) {
                assert(r.removed_edges.skip(v.removed_edges.len() as int) =~= touching_ids(
                    v.edges,
                    node_id,
                ));
            }
        },
        Event::Data { packet, addr, now, server_timestamp_us } => {
            lemma_ingest(v, packet, addr, now, server_timestamp_us);
        },
        Event::Cleanup { node_ttl, edge_ttl, now } => {
            let ids = stale_node_ids(v.nodes, now, node_ttl);
            lemma_remove_nodes_keeps_pending(v, ids);
            let swept = v.remove_nodes(ids);
            assert(swept.removed_edges.is_prefix_of(r.removed_edges));
        },
        Event::Topology { .. } => {},
    }
    assert(v.removed_edges.is_prefix_of(r.removed_edges));
    assert(r.removed_edges =~= v.removed_edges + r.removed_edges.skip(
        v.removed_edges.len() as int,
    ));
}

/// A run keeps the registry consistent.
pub proof fn lemma_run_keeps_consistency(v: EngineView, events: Seq<Event>)
    requires
        v.wf(),
    ensures
        run(v, events).wf(),
    decreases events.len(),
{
    if events.len() > 0 {
        lemma_run_keeps_consistency(v, events.drop_last());
        lemma_step(run(v, events.drop_last()), events.last());
    }
}

// ---------------------------------------------------------------------------
// Laws
// ---------------------------------------------------------------------------

/// The snapshot counter after a run is the counter before it plus the
/// number of topology events in the run, cut off at `u64::MAX`.
pub proof fn lemma_counter_counts_snapshots(v: EngineView, events: Seq<Event>)
    requires
        v.wf(),
    ensures
        run(v, events).snapshot_seq == (if v.snapshot_seq + topology_count(events) >= u64::MAX {
            u64::MAX
        } else {
            (v.snapshot_seq + topology_count(events)) as u64
        }),
    decreases events.len(),
{
    if events.len() > 0 {
        lemma_counter_counts_snapshots(v, events.drop_last());
        lemma_run_keeps_consistency(v, events.drop_last());
        lemma_step(run(v, events.drop_last()), events.last());
    }
}

/// A longer run has no fewer topology events.
proof fn lemma_topology_count_grows(events: Seq<Event>, i: int, j: int)
    requires
        0 <= i <= j <= events.len(),
    ensures
        topology_count(events.take(i)) <= topology_count(events.take(j)),
    decreases j - i,
{
    if i < j {
        lemma_topology_count_grows(events, i, j - 1);
        assert(events.take(j).drop_last() =~= events.take(j - 1));
    }
}

/// Snapshot numbers strictly increase: of two topology events in a run,
/// the later hands out the larger number, whatever happened in between, as
/// long as the counter has not reached `u64::MAX`.
pub proof fn lemma_snapshot_numbers_increase(v: EngineView, events: Seq<Event>, i: int, j: int)
    requires
        v.wf(),
        0 <= i < j < events.len(),
        events[i] is Topology,
        events[j] is Topology,
        run(v, events.take(j)).snapshot_seq < u64::MAX,
    ensures
        snapshot_at(v, events, i).snapshot_seq < snapshot_at(v, events, j).snapshot_seq,
{
    lemma_counter_counts_snapshots(v, events.take(i));
    lemma_counter_counts_snapshots(v, events.take(i + 1));
    lemma_counter_counts_snapshots(v, events.take(j));
    lemma_topology_count_grows(events, i + 1, j);
    assert(events.take(i + 1).drop_last() =~= events.take(i));
    assert(events.take(i + 1).last() == events[i]);
}

/// What is pending after a run is exactly what the run removed since its
/// last topology event.
pub proof fn lemma_pending_is_what_was_removed(v: EngineView, events: Seq<Event>)
    requires
        v.wf(),
    ensures
        run(v, events).removed_nodes == pending_nodes(v, events),
        run(v, events).removed_edges == pending_edges(v, events),
    decreases events.len(),
{
    if events.len() > 0 {
        lemma_pending_is_what_was_removed(v, events.drop_last());
        lemma_run_keeps_consistency(v, events.drop_last());
        lemma_step(run(v, events.drop_last()), events.last());
    }
}

/// Every removal is reported once: a topology snapshot lists exactly the
/// nodes and the edges removed since the topology event before it, in the
/// order of their removal. So what was removed is listed by the first
/// snapshot after its removal and by none after that, unless it came back
/// and was removed again.
pub proof fn lemma_snapshot_lists_removals_since_the_last(
    v: EngineView,
    events: Seq<Event>,
    i: int,
)
    requires
        v.wf(),
        0 <= i < events.len(),
        events[i] is Topology,
    ensures
        snapshot_at(v, events, i).removed_nodes == pending_nodes(v, events.take(i)),
        snapshot_at(v, events, i).removed_edges == pending_edges(v, events.take(i)),
        pending_nodes(v, events.take(i + 1)) == Seq::<NodeId>::empty(),
        pending_edges(v, events.take(i + 1)) == Seq::<EdgeId>::empty(),
{
    lemma_pending_is_what_was_removed(v, events.take(i));
    assert(events.take(i + 1).last() == events[i]);
}

/// A node stays known over a run that does not remove it.
proof fn lemma_node_stays(v: EngineView, events: Seq<Event>, from: int, to: int, id: NodeId)
    requires
        v.wf(),
        0 <= from <= to <= events.len(),
        run(v, events.take(from)).has_node(id),
        forall|m: int|
            from <= m < to ==> !removed_by(run(v, events.take(m)), #[trigger] events[m]).contains(
                id,
            ),
    ensures
        run(v, events.take(to)).has_node(id),
    decreases to - from,
{
    if from < to {
        lemma_node_stays(v, events, from, to - 1, id);
        lemma_run_keeps_consistency(v, events.take(to - 1));
        assert(events.take(to).drop_last() =~= events.take(to - 1));
        assert(events.take(to).last() == events[to - 1]);
        lemma_step(run(v, events.take(to - 1)), events[to - 1]);
    }
}

/// A registered node is exported: where event `i` registers a node that
/// the cap does not turn away, and no event before topology event `j`
/// removes it again, the snapshot of event `j` shows the node.
pub proof fn lemma_registered_node_is_shown(v: EngineView, events: Seq<Event>, i: int, j: int)
    requires
        v.wf(),
        0 <= i < j < events.len(),
        events[i] is Register,
        !run(v, events.take(i)).rejects_node(events[i]->Register_packet.node_id),
        events[j] is Topology,
        forall|m: int|
            i < m < j ==> !removed_by(run(v, events.take(m)), #[trigger] events[m]).contains(
                events[i]->Register_packet.node_id,
            ),
    ensures
        exists|k: int|
            0 <= k < snapshot_at(v, events, j).nodes.len() && (#[trigger] snapshot_at(
                v,
                events,
                j,
            ).nodes[k]).node_id == events[i]->Register_packet.node_id,
{
    let id = events[i]->Register_packet.node_id;
    let before = run(v, events.take(i));
    lemma_run_keeps_consistency(v, events.take(i));
    let packet = events[i]->Register_packet;
    lemma_ensure_node(
        before,
        packet.node_id,
        packet.desc,
        packet.domain,
        events[i]->Register_addr,
        events[i]->Register_now,
        true,
        true,
    );
    assert(events.take(i + 1).drop_last() =~= events.take(i));
    assert(events.take(i + 1).last() == events[i]);
    assert(run(v, events.take(i + 1)).has_node(id));
    lemma_node_stays(v, events, i + 1, j, id);
    let at = run(v, events.take(j));
    let k = at.node_index(id);
    assert(snapshot_at(v, events, j).nodes[k].node_id == id);
}

} // verus!

//! What holds of the engine model: every operation keeps the registry
//! consistent, and the laws that relate operations to the snapshots taken
//! after them.

use vstd::prelude::*;
use crate::protocol::{
    DataPacket, EdgeId, NodeDomain, NodeId, PeerAddr, RegisterNodePacket,
};
use crate::tracker::clamp;
use crate::engine_model::{
    bytes_on, edges_avoiding, edges_distinct, fresh_edges, nodes_distinct, packets_on, stale,
    stale_node_ids, touching_ids, Arrival, EdgeKey, EdgeView, EngineView, NodeView,
};

verus! {

// ---------------------------------------------------------------------------
// Finding nodes and edges
// ---------------------------------------------------------------------------

/// Where ids are unique, the node at position `i` is the one its id finds.
pub proof fn lemma_node_at(v: EngineView, i: int)
    requires
        nodes_distinct(v.nodes),
        0 <= i < v.nodes.len(),
    ensures
        v.has_node(v.nodes[i].node_id),
        v.node_index(v.nodes[i].node_id) == i,
{
    let id = v.nodes[i].node_id;
    assert(v.has_node(id));
    let j = v.node_index(id);
    assert(0 <= j < v.nodes.len() && v.nodes[j].node_id == id);
    if j < i {
        assert(v.nodes[j].node_id != v.nodes[i].node_id);
    } else if i < j {
        assert(v.nodes[i].node_id != v.nodes[j].node_id);
    }
}

/// Where keys are unique, the edge at position `i` is the one its key finds.
pub proof fn lemma_edge_at(v: EngineView, i: int)
    requires
        edges_distinct(v.edges),
        0 <= i < v.edges.len(),
    ensures
        v.has_edge(v.edges[i].key()),
        v.edge_index(v.edges[i].key()) == i,
{
    let key = v.edges[i].key();
    assert(v.has_edge(key));
    let j = v.edge_index(key);
    assert(0 <= j < v.edges.len() && v.edges[j].key() == key);
    if j < i {
        assert(v.edges[j].key() != v.edges[i].key());
    } else if i < j {
        assert(v.edges[i].key() != v.edges[j].key());
    }
}

/// Two node lists carry the same ids at the same positions.
pub open spec fn same_ids(a: Seq<NodeView>, b: Seq<NodeView>) -> bool {
    &&& a.len() == b.len()
    &&& forall|i: int| 0 <= i < a.len() ==> (#[trigger] a[i]).node_id == b[i].node_id
}

/// Two edge lists carry the same keys and ids at the same positions.
pub open spec fn same_keys(a: Seq<EdgeView>, b: Seq<EdgeView>) -> bool {
    &&& a.len() == b.len()
    &&& forall|i: int|
        0 <= i < a.len() ==> (#[trigger] a[i]).key() == b[i].key() && a[i].edge_id == b[i].edge_id
}

/// Engines whose node lists carry the same ids know the same nodes.
pub proof fn lemma_same_ids(v: EngineView, r: EngineView)
    requires
        same_ids(v.nodes, r.nodes),
    ensures
        forall|x: NodeId| v.has_node(x) == r.has_node(x),
        nodes_distinct(v.nodes) ==> nodes_distinct(r.nodes),
        nodes_distinct(v.nodes) ==> forall|x: NodeId|
            v.has_node(x) ==> v.node_index(x) == r.node_index(x),
{
    assert forall|x: NodeId| v.has_node(x) == r.has_node(x) by {
        if v.has_node(x) {
            let k = v.node_index(x);
            assert(r.nodes[k].node_id == x);
        }
        if r.has_node(x) {
            let k = r.node_index(x);
            assert(v.nodes[k].node_id == x);
        }
    }
    if nodes_distinct(v.nodes) {
        assert forall|i: int, j: int| 0 <= i < j < r.nodes.len() implies (#[trigger] r.nodes[i]).node_id
            != (#[trigger] r.nodes[j]).node_id by {
            assert(v.nodes[i].node_id != v.nodes[j].node_id);
        }
        assert forall|x: NodeId| v.has_node(x) implies v.node_index(x) == r.node_index(x) by {
            let k = v.node_index(x);
            assert(r.nodes[k].node_id == x);
            lemma_node_at(r, k);
        }
    }
}

/// Engines whose edge lists carry the same keys know the same edges.
pub proof fn lemma_same_keys(v: EngineView, r: EngineView)
    requires
        same_keys(v.edges, r.edges),
    ensures
        forall|k: EdgeKey| v.has_edge(k) == r.has_edge(k),
        edges_distinct(v.edges) ==> edges_distinct(r.edges),
        edges_distinct(v.edges) ==> forall|k: EdgeKey|
            v.has_edge(k) ==> v.edge_index(k) == r.edge_index(k),
{
    assert forall|k: EdgeKey| v.has_edge(k) == r.has_edge(k) by {
        if v.has_edge(k) {
            let i = v.edge_index(k);
            assert(r.edges[i].key() == k);
        }
        if r.has_edge(k) {
            let i = r.edge_index(k);
            assert(v.edges[i].key() == k);
        }
    }
    if edges_distinct(v.edges) {
        assert forall|i: int, j: int| 0 <= i < j < r.edges.len() implies (#[trigger] r.edges[i]).key()
            != (#[trigger] r.edges[j]).key() by {
            assert(v.edges[i].key() != v.edges[j].key());
        }
        assert forall|k: EdgeKey| v.has_edge(k) implies v.edge_index(k) == r.edge_index(k) by {
            let i = v.edge_index(k);
            assert(r.edges[i].key() == k);
            lemma_edge_at(r, i);
        }
    }
}

// ---------------------------------------------------------------------------
// Registration
// ---------------------------------------------------------------------------

/// Create-or-touch keeps the registry consistent, leaves every other node
/// and every edge alone, and makes the node known unless the cap turned it
/// away.
pub proof fn lemma_ensure_node(
    v: EngineView,
    id: NodeId,
    desc: [u8; 16],
    domain: NodeDomain,
    addr: PeerAddr,
    now: u64,
    refresh_desc: bool,
    refresh_domain: bool,
)
    requires
        v.wf(),
    ensures
        ({
            let r = v.ensure_node(id, desc, domain, addr, now, refresh_desc, refresh_domain);
            &&& r.wf()
            &&& r.has_node(id) == !v.rejects_node(id)
            &&& forall|x: NodeId| x != id ==> r.has_node(x) == v.has_node(x)
            &&& forall|x: NodeId| v.has_node(x) ==> r.has_node(x)
            &&& r.nodes.len() == v.nodes.len() + (if v.has_node(id) || v.rejects_node(id) {
                0int
            } else {
                1int
            })
        }),
{
    let r = v.ensure_node(id, desc, domain, addr, now, refresh_desc, refresh_domain);
    if v.has_node(id) {
        let i = v.node_index(id);
        assert(same_ids(v.nodes, r.nodes));
        lemma_same_ids(v, r);
        assert forall|k: int| 0 <= k < r.nodes.len() implies (#[trigger] r.nodes[k]).wf(
            r.rate_window_secs,
        ) by {
            assert(v.nodes[k].wf(v.rate_window_secs));
        }
        assert forall|k: int| 0 <= k < r.edges.len() implies r.has_node(
            (#[trigger] r.edges[k]).src_node_id,
        ) && r.has_node(r.edges[k].dst_node_id) by {
            assert(v.has_node(v.edges[k].src_node_id));
            assert(v.has_node(v.edges[k].dst_node_id));
        }
    } else if v.nodes.len() >= v.max_nodes {
    } else {
        let fresh = NodeView::fresh(id, desc, domain, addr, now, v.rate_window_secs);
        let n = v.nodes.len() as int;
        assert(r.nodes[n] == fresh);
        assert forall|i: int, j: int| 0 <= i < j < r.nodes.len() implies (#[trigger] r.nodes[i]).node_id
            != (#[trigger] r.nodes[j]).node_id by {
            if j < n {
                assert(v.nodes[i].node_id != v.nodes[j].node_id);
            } else {
                assert(v.nodes[i].node_id != id);
            }
        }
        assert forall|k: int| 0 <= k < r.nodes.len() implies (#[trigger] r.nodes[k]).wf(
            r.rate_window_secs,
        ) by {
            if k < n {
                assert(v.nodes[k].wf(v.rate_window_secs));
            }
        }
        assert forall|x: NodeId| v.has_node(x) implies r.has_node(x) by {
            let k = v.node_index(x);
            assert(r.nodes[k].node_id == x);
        }
        assert(r.has_node(id)) by {
            assert(r.nodes[n].node_id == id);
        }
        assert forall|x: NodeId| x != id implies r.has_node(x) == v.has_node(x) by {
            if r.has_node(x) {
                let k = r.node_index(x);
                assert(k < n);
                assert(v.nodes[k].node_id == x);
            }
        }
        assert forall|k: int| 0 <= k < r.edges.len() implies r.has_node(
            (#[trigger] r.edges[k]).src_node_id,
        ) && r.has_node(r.edges[k].dst_node_id) by {
            assert(v.has_node(v.edges[k].src_node_id));
            assert(v.has_node(v.edges[k].dst_node_id));
        }
    }
}

// ---------------------------------------------------------------------------
// Removal
// ---------------------------------------------------------------------------

/// The edges that avoid a node are edges of the list, none touches the
/// node, none that avoids it is lost, and unique keys stay unique.
pub proof fn lemma_edges_avoiding(edges: Seq<EdgeView>, id: NodeId)
    ensures
        edges_avoiding(edges, id).len() <= edges.len(),
        forall|i: int|
            0 <= i < edges_avoiding(edges, id).len() ==> edges.contains(
                #[trigger] edges_avoiding(edges, id)[i],
            ) && !edges_avoiding(edges, id)[i].key().touches(id),
        forall|k: int|
            0 <= k < edges.len() && !(#[trigger] edges[k]).key().touches(id)
                ==> edges_avoiding(edges, id).contains(edges[k]),
        edges_distinct(edges) ==> edges_distinct(edges_avoiding(edges, id)),
    decreases edges.len(),
{
    if edges.len() > 0 {
        let head = edges.drop_last();
        let last = edges.last();
        let kept = edges_avoiding(head, id);
        let all = edges_avoiding(edges, id);
        lemma_edges_avoiding(head, id);
        assert forall|i: int| 0 <= i < all.len() implies edges.contains(#[trigger] all[i])
            && !all[i].key().touches(id) by {
            if i < kept.len() {
                assert(head.contains(kept[i]));
                let k = choose|k: int| 0 <= k < head.len() && head[k] == kept[i];
                assert(edges[k] == kept[i]);
            } else {
                assert(all[i] == last);
                assert(edges[edges.len() - 1] == last);
            }
        }
        assert forall|k: int| 0 <= k < edges.len() && !(#[trigger] edges[k]).key().touches(
            id,
        ) implies all.contains(edges[k]) by {
            if k < head.len() {
                assert(head[k] == edges[k]);
                assert(kept.contains(head[k]));
                let i = choose|i: int| 0 <= i < kept.len() && kept[i] == head[k];
                assert(all[i] == edges[k]);
            } else {
                assert(all[all.len() - 1] == edges[k]);
            }
        }
        if edges_distinct(edges) {
            assert(edges_distinct(head)) by {
                assert forall|i: int, j: int| 0 <= i < j < head.len() implies (#[trigger] head[i]).key()
                    != (#[trigger] head[j]).key() by {
                    assert(edges[i].key() != edges[j].key());
                }
            }
            assert forall|i: int, j: int| 0 <= i < j < all.len() implies (#[trigger] all[i]).key() != (
            #[trigger] all[j]).key() by {
                if j < kept.len() {
                    assert(kept[i].key() != kept[j].key());
                } else {
                    assert(head.contains(kept[i]));
                    let k = choose|k: int| 0 <= k < head.len() && head[k] == kept[i];
                    assert(edges[k].key() != edges[edges.len() - 1].key());
                }
            }
        }
    }
}

/// The edges that are not stale are edges of the list, none is stale, and
/// unique keys stay unique.
pub proof fn lemma_fresh_edges(edges: Seq<EdgeView>, now: u64, ttl: u64)
    ensures
        fresh_edges(edges, now, ttl).len() <= edges.len(),
        forall|i: int|
            0 <= i < fresh_edges(edges, now, ttl).len() ==> edges.contains(
                #[trigger] fresh_edges(edges, now, ttl)[i],
            ) && !stale(fresh_edges(edges, now, ttl)[i].last_seen, now, ttl),
        edges_distinct(edges) ==> edges_distinct(fresh_edges(edges, now, ttl)),
    decreases edges.len(),
{
    if edges.len() > 0 {
        let head = edges.drop_last();
        let last = edges.last();
        let kept = fresh_edges(head, now, ttl);
        let all = fresh_edges(edges, now, ttl);
        lemma_fresh_edges(head, now, ttl);
        assert forall|i: int| 0 <= i < all.len() implies edges.contains(#[trigger] all[i])
            && !stale(all[i].last_seen, now, ttl) by {
            if i < kept.len() {
                assert(head.contains(kept[i]));
                let k = choose|k: int| 0 <= k < head.len() && head[k] == kept[i];
                assert(edges[k] == kept[i]);
            } else {
                assert(all[i] == last);
                assert(edges[edges.len() - 1] == last);
            }
        }
        if edges_distinct(edges) {
            assert(edges_distinct(head)) by {
                assert forall|i: int, j: int| 0 <= i < j < head.len() implies (#[trigger] head[i]).key()
                    != (#[trigger] head[j]).key() by {
                    assert(edges[i].key() != edges[j].key());
                }
            }
            assert forall|i: int, j: int| 0 <= i < j < all.len() implies (#[trigger] all[i]).key() != (
            #[trigger] all[j]).key() by {
                if j < kept.len() {
                    assert(kept[i].key() != kept[j].key());
                } else {
                    assert(head.contains(kept[i]));
                    let k = choose|k: int| 0 <= k < head.len() && head[k] == kept[i];
                    assert(edges[k].key() != edges[edges.len() - 1].key());
                }
            }
        }
    }
}

/// The ids collected from the edges that touch a node are ids of such
/// edges, every such edge's id is among them, and none occurs twice.
pub proof fn lemma_touching_ids(edges: Seq<EdgeView>, id: NodeId)
    ensures
        touching_ids(edges, id).no_duplicates(),
        forall|k: int|
            0 <= k < edges.len() && (#[trigger] edges[k]).key().touches(id) ==> touching_ids(
                edges,
                id,
            ).contains(edges[k].edge_id),
        forall|i: int|
            0 <= i < touching_ids(edges, id).len() ==> exists|k: int|
                0 <= k < edges.len() && (#[trigger] edges[k]).key().touches(id) && edges[k].edge_id
                    == #[trigger] touching_ids(edges, id)[i],
    decreases edges.len(),
{
    if edges.len() > 0 {
        let head = edges.drop_last();
        let last = edges.last();
        let before = touching_ids(head, id);
        let all = touching_ids(edges, id);
        lemma_touching_ids(head, id);
        assert forall|k: int| 0 <= k < edges.len() && (#[trigger] edges[k]).key().touches(
            id,
        ) implies all.contains(edges[k].edge_id) by {
            if k < head.len() {
                assert(head[k] == edges[k]);
                assert(before.contains(head[k].edge_id));
                let i = choose|i: int| 0 <= i < before.len() && before[i] == head[k].edge_id;
                assert(all[i] == edges[k].edge_id);
            } else if before.contains(last.edge_id) {
                let i = choose|i: int| 0 <= i < before.len() && before[i] == last.edge_id;
                assert(all[i] == edges[k].edge_id);
            } else {
                assert(all[all.len() - 1] == edges[k].edge_id);
            }
        }
        assert forall|i: int| 0 <= i < all.len() implies exists|k: int|
            0 <= k < edges.len() && (#[trigger] edges[k]).key().touches(id) && edges[k].edge_id
                == #[trigger] all[i] by {
            if i < before.len() {
                let k = choose|k: int|
                    0 <= k < head.len() && (#[trigger] head[k]).key().touches(id) && head[k].edge_id
                        == before[i];
                assert(edges[k] == head[k]);
            } else {
                assert(edges[edges.len() - 1] == last);
            }
        }
    }
}

/// Removing a node keeps the registry consistent, forgets exactly that
/// node, and queues its id.
pub proof fn lemma_remove_node(v: EngineView, id: NodeId)
    requires
        v.wf(),
    ensures
        v.remove_node(id).wf(),
        !v.remove_node(id).has_node(id),
        forall|x: NodeId| x != id ==> v.remove_node(id).has_node(x) == v.has_node(x),
        v.has_node(id) ==> v.remove_node(id).removed_nodes.contains(id),
        v.remove_node(id).nodes.len() <= v.nodes.len(),
{
    let r = v.remove_node(id);
    if v.has_node(id) {
        let i = v.node_index(id);
        let n = v.nodes.len() as int;
        assert(r.nodes.len() == n - 1);
        assert forall|k: int| 0 <= k < n - 1 implies (#[trigger] r.nodes[k]) == v.nodes[if k < i {
            k
        } else {
            k + 1
        }] by {}
        assert forall|a: int, b: int| 0 <= a < b < r.nodes.len() implies (#[trigger] r.nodes[a]).node_id
            != (#[trigger] r.nodes[b]).node_id by {
            let a0 = if a < i {
                a
            } else {
                a + 1
            };
            let b0 = if b < i {
                b
            } else {
                b + 1
            };
            assert(v.nodes[a0].node_id != v.nodes[b0].node_id);
        }
        assert forall|k: int| 0 <= k < r.nodes.len() implies (#[trigger] r.nodes[k]).wf(
            r.rate_window_secs,
        ) by {
            let k0 = if k < i {
                k
            } else {
                k + 1
            };
            assert(v.nodes[k0].wf(v.rate_window_secs));
        }
        assert(!r.has_node(id)) by {
            if r.has_node(id) {
                let k = r.node_index(id);
                let k0 = if k < i {
                    k
                } else {
                    k + 1
                };
                assert(v.nodes[k0].node_id == id);
                lemma_node_at(v, k0);
            }
        }
        assert forall|x: NodeId| x != id implies r.has_node(x) == v.has_node(x) by {
            if v.has_node(x) {
                let k0 = v.node_index(x);
                let k = if k0 < i {
                    k0
                } else {
                    k0 - 1
                };
                assert(r.nodes[k].node_id == x);
            }
            if r.has_node(x) {
                let k = r.node_index(x);
                let k0 = if k < i {
                    k
                } else {
                    k + 1
                };
                assert(v.nodes[k0].node_id == x);
            }
        }
        lemma_edges_avoiding(v.edges, id);
        assert forall|k: int| 0 <= k < r.edges.len() implies (#[trigger] r.edges[k]).wf(
            r.rate_window_secs,
        ) && r.has_node(r.edges[k].src_node_id) && r.has_node(r.edges[k].dst_node_id) by {
            assert(v.edges.contains(r.edges[k]));
            let k0 = choose|k0: int| 0 <= k0 < v.edges.len() && v.edges[k0] == r.edges[k];
            assert(v.edges[k0].wf(v.rate_window_secs));
            assert(v.has_node(v.edges[k0].src_node_id));
            assert(v.has_node(v.edges[k0].dst_node_id));
        }
        assert(r.removed_nodes[r.removed_nodes.len() - 1] == id);
    }
}

/// Removing several nodes keeps the registry consistent.
pub proof fn lemma_remove_nodes(v: EngineView, ids: Seq<NodeId>)
    requires
        v.wf(),
    ensures
        v.remove_nodes(ids).wf(),
    decreases ids.len(),
{
    if ids.len() > 0 {
        lemma_remove_nodes(v, ids.drop_last());
        lemma_remove_node(v.remove_nodes(ids.drop_last()), ids.last());
    }
}

/// Dropping stale edges keeps the registry consistent.
pub proof fn lemma_drop_stale_edges(v: EngineView, now: u64, ttl: u64)
    requires
        v.wf(),
    ensures
        v.drop_stale_edges(now, ttl).wf(),
{
    let r = v.drop_stale_edges(now, ttl);
    lemma_fresh_edges(v.edges, now, ttl);
    assert(same_ids(v.nodes, r.nodes));
    lemma_same_ids(v, r);
    assert forall|k: int| 0 <= k < r.edges.len() implies (#[trigger] r.edges[k]).wf(
        r.rate_window_secs,
    ) && r.has_node(r.edges[k].src_node_id) && r.has_node(r.edges[k].dst_node_id) by {
        assert(v.edges.contains(r.edges[k]));
        let k0 = choose|k0: int| 0 <= k0 < v.edges.len() && v.edges[k0] == r.edges[k];
        assert(v.edges[k0].wf(v.rate_window_secs));
        assert(v.has_node(v.edges[k0].src_node_id));
        assert(v.has_node(v.edges[k0].dst_node_id));
    }
}

/// Cleaning up keeps the registry consistent.
pub proof fn lemma_cleanup(v: EngineView, node_ttl: u64, edge_ttl: u64, now: u64)
    requires
        v.wf(),
    ensures
        v.cleanup(node_ttl, edge_ttl, now).wf(),
{
    let ids = stale_node_ids(v.nodes, now, node_ttl);
    lemma_remove_nodes(v, ids);
    lemma_drop_stale_edges(v.remove_nodes(ids), now, edge_ttl);
}

// ---------------------------------------------------------------------------
// Data ingest
// ---------------------------------------------------------------------------

/// An accepted packet finds both its endpoints once they were ensured.
pub proof fn lemma_with_endpoints(v: EngineView, packet: DataPacket, addr: PeerAddr, now: u64)
    requires
        v.wf(),
        v.accepts(packet),
    ensures
        v.with_endpoints(packet, addr, now).wf(),
        v.with_endpoints(packet, addr, now).has_node(packet.src_node_id),
        v.with_endpoints(packet, addr, now).has_node(packet.dst_node_id),
        forall|x: NodeId| v.has_node(x) ==> v.with_endpoints(packet, addr, now).has_node(x),
        v.with_endpoints(packet, addr, now).edges == v.edges,
{
    let first = v.ensure_node(
        packet.src_node_id,
        packet.desc,
        crate::engine_model::inferred_domain(packet.src_node_id),
        addr,
        now,
        true,
        false,
    );
    lemma_ensure_node(
        v,
        packet.src_node_id,
        packet.desc,
        crate::engine_model::inferred_domain(packet.src_node_id),
        addr,
        now,
        true,
        false,
    );
    lemma_ensure_node(
        first,
        packet.dst_node_id,
        crate::engine_model::placeholder_desc(
            crate::engine_model::inferred_domain(packet.dst_node_id),
        ),
        crate::engine_model::inferred_domain(packet.dst_node_id),
        addr,
        now,
        false,
        false,
    );
}

/// Counting a packet globally changes no node and no edge.
pub proof fn lemma_counted(v: EngineView, packet: DataPacket, route: int)
    requires
        v.wf(),
    ensures
        v.counted(packet, route).wf(),
        forall|x: NodeId| v.has_node(x) == v.counted(packet, route).has_node(x),
{
    let r = v.counted(packet, route);
    assert(same_ids(v.nodes, r.nodes));
    lemma_same_ids(v, r);
    assert forall|k: int| 0 <= k < r.edges.len() implies r.has_node(
        (#[trigger] r.edges[k]).src_node_id,
    ) && r.has_node(r.edges[k].dst_node_id) by {
        assert(v.has_node(v.edges[k].src_node_id));
        assert(v.has_node(v.edges[k].dst_node_id));
    }
}

/// Accounting a packet on its source node keeps the registry consistent.
pub proof fn lemma_with_source(v: EngineView, packet: DataPacket, addr: PeerAddr, now: u64, route: int)
    requires
        v.wf(),
        v.has_node(packet.src_node_id),
    ensures
        v.with_source(packet, addr, now, route).wf(),
        forall|x: NodeId| v.has_node(x) == v.with_source(packet, addr, now, route).has_node(x),
{
    let r = v.with_source(packet, addr, now, route);
    let i = v.node_index(packet.src_node_id);
    assert(same_ids(v.nodes, r.nodes));
    lemma_same_ids(v, r);
    assert forall|k: int| 0 <= k < r.nodes.len() implies (#[trigger] r.nodes[k]).wf(
        r.rate_window_secs,
    ) by {
        assert(v.nodes[k].wf(v.rate_window_secs));
        if k == i {
            let class = packet.class.ordinal();
            assert forall|c: int| 0 <= c < 4 implies (#[trigger] r.nodes[k].rates[c]).window_secs
                == r.rate_window_secs by {
                assert(v.nodes[k].rates[c].window_secs == v.rate_window_secs);
            }
        }
    }
    assert forall|k: int| 0 <= k < r.edges.len() implies r.has_node(
        (#[trigger] r.edges[k]).src_node_id,
    ) && r.has_node(r.edges[k].dst_node_id) by {
        assert(v.has_node(v.edges[k].src_node_id));
        assert(v.has_node(v.edges[k].dst_node_id));
    }
}

/// Accounting a packet on its edge keeps the registry consistent and makes
/// the edge known.
pub proof fn lemma_with_edge(v: EngineView, packet: DataPacket, now: u64)
    requires
        v.wf(),
        v.has_node(packet.src_node_id),
        v.has_node(packet.dst_node_id),
    ensures
        v.with_edge(packet, now).wf(),
        v.with_edge(packet, now).has_edge(EngineView::edge_key(packet)),
        v.with_edge(packet, now).nodes == v.nodes,
        forall|x: NodeId| v.has_node(x) == v.with_edge(packet, now).has_node(x),
{
    let r = v.with_edge(packet, now);
    let key = EngineView::edge_key(packet);
    assert(same_ids(v.nodes, r.nodes));
    lemma_same_ids(v, r);
    if v.has_edge(key) {
        let i = v.edge_index(key);
        assert(same_keys(v.edges, r.edges));
        lemma_same_keys(v, r);
        assert forall|k: int| 0 <= k < r.edges.len() implies (#[trigger] r.edges[k]).wf(
            r.rate_window_secs,
        ) && r.has_node(r.edges[k].src_node_id) && r.has_node(r.edges[k].dst_node_id) by {
            assert(v.edges[k].wf(v.rate_window_secs));
            assert(v.has_node(v.edges[k].src_node_id));
            assert(v.has_node(v.edges[k].dst_node_id));
        }
    } else {
        let n = v.edges.len() as int;
        let created = EdgeView::fresh(key, now, v.rate_window_secs).hit(packet, now);
        assert(r.edges[n] == created);
        assert(created.key() == key);
        assert forall|i: int, j: int| 0 <= i < j < r.edges.len() implies (#[trigger] r.edges[i]).key()
            != (#[trigger] r.edges[j]).key() by {
            if j < n {
                assert(v.edges[i].key() != v.edges[j].key());
            } else {
                assert(v.edges[i].key() != key);
            }
        }
        assert forall|k: int| 0 <= k < r.edges.len() implies (#[trigger] r.edges[k]).wf(
            r.rate_window_secs,
        ) && r.has_node(r.edges[k].src_node_id) && r.has_node(r.edges[k].dst_node_id) by {
            if k < n {
                assert(v.edges[k].wf(v.rate_window_secs));
                assert(v.has_node(v.edges[k].src_node_id));
                assert(v.has_node(v.edges[k].dst_node_id));
            }
        }
        assert(r.has_edge(key)) by {
            assert(r.edges[n].key() == key);
        }
    }
}

/// Accounting a latency sample keeps the registry consistent.
pub proof fn lemma_with_latency(v: EngineView, packet: DataPacket, latency_us: u64)
    requires
        v.wf(),
        v.has_node(packet.src_node_id),
        v.has_edge(EngineView::edge_key(packet)),
    ensures
        v.with_latency(packet, latency_us).wf(),
{
    let r = v.with_latency(packet, latency_us);
    let n = v.node_index(packet.src_node_id);
    let e = v.edge_index(EngineView::edge_key(packet));
    assert(same_ids(v.nodes, r.nodes));
    lemma_same_ids(v, r);
    assert(same_keys(v.edges, r.edges));
    lemma_same_keys(v, r);
    assert forall|k: int| 0 <= k < r.nodes.len() implies (#[trigger] r.nodes[k]).wf(
        r.rate_window_secs,
    ) by {
        assert(v.nodes[k].wf(v.rate_window_secs));
    }
    assert forall|k: int| 0 <= k < r.edges.len() implies (#[trigger] r.edges[k]).wf(
        r.rate_window_secs,
    ) && r.has_node(r.edges[k].src_node_id) && r.has_node(r.edges[k].dst_node_id) by {
        assert(v.edges[k].wf(v.rate_window_secs));
        assert(v.has_node(v.edges[k].src_node_id));
        assert(v.has_node(v.edges[k].dst_node_id));
    }
}

/// Ingesting a data packet keeps the registry consistent and touches
/// neither the snapshot counter nor the pending removals.
pub proof fn lemma_ingest(
    v: EngineView,
    packet: DataPacket,
    addr: PeerAddr,
    now: u64,
    server_timestamp_us: u64,
)
    requires
        v.wf(),
    ensures
        v.ingest(packet, addr, now, server_timestamp_us).wf(),
        v.ingest(packet, addr, now, server_timestamp_us).snapshot_seq == v.snapshot_seq,
        v.ingest(packet, addr, now, server_timestamp_us).removed_nodes == v.removed_nodes,
        v.ingest(packet, addr, now, server_timestamp_us).removed_edges == v.removed_edges,
        v.accepts(packet) ==> v.ingest(packet, addr, now, server_timestamp_us).has_edge(
            EngineView::edge_key(packet),
        ),
        forall|x: NodeId| v.has_node(x) ==> v.ingest(packet, addr, now, server_timestamp_us).has_node(x),
{
    if v.accepts(packet) {
        let ensured = v.with_endpoints(packet, addr, now);
        lemma_with_endpoints(v, packet, addr, now);
        let route = ensured.route_of(packet);
        let counted = ensured.counted(packet, route);
        lemma_counted(ensured, packet, route);
        let sourced = counted.with_source(packet, addr, now, route);
        lemma_with_source(counted, packet, addr, now, route);
        let edged = sourced.with_edge(packet, now);
        lemma_with_edge(sourced, packet, now);
        if server_timestamp_us >= packet.timestamp_us {
            let latency = (server_timestamp_us - packet.timestamp_us) as u64;
            let sampled = edged.with_latency(packet, latency);
            lemma_with_latency(edged, packet, latency);
            assert(same_ids(edged.nodes, sampled.nodes));
            lemma_same_ids(edged, sampled);
            assert(same_keys(edged.edges, sampled.edges));
            lemma_same_keys(edged, sampled);
        }
    }
}

// ---------------------------------------------------------------------------
// Snapshots
// ---------------------------------------------------------------------------

/// Taking a topology snapshot keeps the registry consistent.
pub proof fn lemma_after_topology(v: EngineView, now: u64, epoch_us: u64)
    requires
        v.wf(),
    ensures
        v.after_topology(now, epoch_us).wf(),
        forall|x: NodeId| v.has_node(x) == v.after_topology(now, epoch_us).has_node(x),
{
    let r = v.after_topology(now, epoch_us);
    assert(same_ids(v.nodes, r.nodes));
    lemma_same_ids(v, r);
    assert(same_keys(v.edges, r.edges));
    lemma_same_keys(v, r);
    assert forall|k: int| 0 <= k < r.edges.len() implies (#[trigger] r.edges[k]).wf(
        r.rate_window_secs,
    ) && r.has_node(r.edges[k].src_node_id) && r.has_node(r.edges[k].dst_node_id) by {
        assert(v.edges[k].wf(v.rate_window_secs));
        assert(v.has_node(v.edges[k].src_node_id));
        assert(v.has_node(v.edges[k].dst_node_id));
    }
}

// ---------------------------------------------------------------------------
// Laws
// ---------------------------------------------------------------------------

/// After a register packet, the next topology snapshot shows the node
/// with the packet's description and domain, unless the packet was turned
/// away because the node was unknown and the cap was reached.
pub proof fn lemma_registered_node_is_exported(
    v: EngineView,
    packet: RegisterNodePacket,
    addr: PeerAddr,
    now: u64,
    at: u64,
    epoch_us: u64,
)
    requires
        v.wf(),
    ensures
        v.rejects_node(packet.node_id) || exists|i: int|
            0 <= i < v.register(packet, addr, now).topology(at, epoch_us).nodes.len() && (
            #[trigger] v.register(packet, addr, now).topology(at, epoch_us).nodes[i]).node_id
                == packet.node_id && v.register(packet, addr, now).topology(
                at,
                epoch_us,
            ).nodes[i].domain == packet.domain && v.register(packet, addr, now).topology(
                at,
                epoch_us,
            ).nodes[i].desc == packet.desc,
{
    let r = v.register(packet, addr, now);
    lemma_ensure_node(v, packet.node_id, packet.desc, packet.domain, addr, now, true, true);
    if !v.rejects_node(packet.node_id) {
        let i = r.node_index(packet.node_id);
        let shot = r.topology(at, epoch_us);
        assert(shot.nodes[i].node_id == packet.node_id);
        if v.has_node(packet.node_id) {
            let k = v.node_index(packet.node_id);
            assert(r.nodes[k].node_id == packet.node_id);
            lemma_node_at(r, k);
        } else {
            let k = v.nodes.len() as int;
            assert(r.nodes[k].node_id == packet.node_id);
            lemma_node_at(r, k);
        }
    }
}

/// Accounting a packet on its edge adds one packet and the packet's bytes
/// to that edge, which starts from zero where it is new, and leaves every
/// other edge as it was.
pub proof fn lemma_with_edge_counts(v: EngineView, packet: DataPacket, now: u64)
    requires
        v.wf(),
        v.has_node(packet.src_node_id),
        v.has_node(packet.dst_node_id),
    ensures
        ({
            let r = v.with_edge(packet, now);
            let key = EngineView::edge_key(packet);
            &&& r.has_edge(key)
            &&& r.edge(key).packets == (if v.has_edge(key) {
                v.edge(key).packets.saturating_add(1)
            } else {
                1
            })
            &&& r.edge(key).bytes == (if v.has_edge(key) {
                v.edge(key).bytes.saturating_add(packet.declared_bytes as u64)
            } else {
                packet.declared_bytes as u64
            })
            &&& forall|k: EdgeKey|
                k != key ==> r.has_edge(k) == v.has_edge(k) && (v.has_edge(k) ==> r.edge(k)
                    == v.edge(k))
        }),
{
    let r = v.with_edge(packet, now);
    let key = EngineView::edge_key(packet);
    lemma_with_edge(v, packet, now);
    if v.has_edge(key) {
        let i = v.edge_index(key);
        assert(same_keys(v.edges, r.edges));
        lemma_same_keys(v, r);
        assert forall|k: EdgeKey| k != key && v.has_edge(k) implies r.edge(k) == v.edge(k) by {
            let j = v.edge_index(k);
            assert(j != i);
        }
    } else {
        let n = v.edges.len() as int;
        assert(r.edges[n].key() == key);
        lemma_edge_at(r, n);
        assert forall|k: EdgeKey| k != key implies r.has_edge(k) == v.has_edge(k) && (v.has_edge(k)
            ==> r.edge(k) == v.edge(k)) by {
            if v.has_edge(k) {
                let j = v.edge_index(k);
                assert(r.edges[j] == v.edges[j]);
                lemma_edge_at(r, j);
            }
            if r.has_edge(k) {
                let j = r.edge_index(k);
                assert(j < n);
                assert(v.edges[j].key() == k);
            }
        }
    }
}

/// A latency sample changes no edge's packet or byte count.
pub proof fn lemma_with_latency_keeps_counts(v: EngineView, packet: DataPacket, latency_us: u64)
    requires
        v.wf(),
        v.has_node(packet.src_node_id),
        v.has_edge(EngineView::edge_key(packet)),
    ensures
        forall|k: EdgeKey| v.has_edge(k) == v.with_latency(packet, latency_us).has_edge(k),
        forall|k: EdgeKey|
            v.has_edge(k) ==> v.with_latency(packet, latency_us).edge(k).packets == v.edge(
                k,
            ).packets && v.with_latency(packet, latency_us).edge(k).bytes == v.edge(k).bytes,
        forall|k: EdgeKey|
            v.has_edge(k) && k != EngineView::edge_key(packet) ==> v.with_latency(
                packet,
                latency_us,
            ).edge(k) == v.edge(k),
{
    let r = v.with_latency(packet, latency_us);
    assert(same_keys(v.edges, r.edges));
    lemma_same_keys(v, r);
    let e = v.edge_index(EngineView::edge_key(packet));
    assert forall|k: EdgeKey| v.has_edge(k) && k != EngineView::edge_key(packet) implies r.edge(k)
        == v.edge(k) by {
        let j = v.edge_index(k);
        assert(j != e);
    }
}

/// An accepted data packet adds one packet and its declared bytes to its
/// edge, which starts from zero where it is new, and leaves the counts of
/// every other edge as they were.
pub proof fn lemma_ingest_counts_edge(
    v: EngineView,
    packet: DataPacket,
    addr: PeerAddr,
    now: u64,
    server_timestamp_us: u64,
)
    requires
        v.wf(),
        v.accepts(packet),
    ensures
        ({
            let r = v.ingest(packet, addr, now, server_timestamp_us);
            let key = EngineView::edge_key(packet);
            &&& r.wf()
            &&& r.has_edge(key)
            &&& r.edge(key).packets == (if v.has_edge(key) {
                v.edge(key).packets.saturating_add(1)
            } else {
                1
            })
            &&& r.edge(key).bytes == (if v.has_edge(key) {
                v.edge(key).bytes.saturating_add(packet.declared_bytes as u64)
            } else {
                packet.declared_bytes as u64
            })
            &&& forall|k: EdgeKey|
                k != key ==> r.has_edge(k) == v.has_edge(k) && (v.has_edge(k) ==> r.edge(k).packets
                    == v.edge(k).packets && r.edge(k).bytes == v.edge(k).bytes)
        }),
{
    let key = EngineView::edge_key(packet);
    let ensured = v.with_endpoints(packet, addr, now);
    lemma_with_endpoints(v, packet, addr, now);
    let route = ensured.route_of(packet);
    let counted = ensured.counted(packet, route);
    lemma_counted(ensured, packet, route);
    let sourced = counted.with_source(packet, addr, now, route);
    lemma_with_source(counted, packet, addr, now, route);
    assert(sourced.edges == v.edges);
    assert(same_keys(v.edges, sourced.edges));
    lemma_same_keys(v, sourced);
    let edged = sourced.with_edge(packet, now);
    lemma_with_edge(sourced, packet, now);
    lemma_with_edge_counts(sourced, packet, now);
    lemma_ingest(v, packet, addr, now, server_timestamp_us);
    if server_timestamp_us >= packet.timestamp_us {
        let latency = (server_timestamp_us - packet.timestamp_us) as u64;
        lemma_with_latency_keeps_counts(edged, packet, latency);
    }
}

/// Where no arrival travels over an edge, no byte does.
pub proof fn lemma_no_packets_no_bytes(arrivals: Seq<Arrival>, key: EdgeKey)
    ensures
        packets_on(arrivals, key) == 0 ==> bytes_on(arrivals, key) == 0,
    decreases arrivals.len(),
{
    if arrivals.len() > 0 {
        lemma_no_packets_no_bytes(arrivals.drop_last(), key);
    }
}

/// Over a run of accepted data packets that starts without the edge
/// `key`, the edge exists as soon as one packet travelled over it, and its
/// packet and byte counts are exactly the number of those packets and the
/// sum of their declared bytes, cut off at `u64::MAX`.
pub proof fn lemma_edge_counts_its_packets(v: EngineView, arrivals: Seq<Arrival>, key: EdgeKey)
    requires
        v.wf(),
        !v.has_edge(key),
        v.accepts_all(arrivals),
    ensures
        v.ingest_all(arrivals).wf(),
        v.ingest_all(arrivals).has_edge(key) == (packets_on(arrivals, key) > 0),
        v.ingest_all(arrivals).has_edge(key) ==> v.ingest_all(arrivals).edge(key).packets == clamp(
            packets_on(arrivals, key) as int,
        ) && v.ingest_all(arrivals).edge(key).bytes == clamp(bytes_on(arrivals, key) as int),
    decreases arrivals.len(),
{
    if arrivals.len() > 0 {
        let head = arrivals.drop_last();
        let last = arrivals.last();
        assert forall|i: int| 0 <= i < head.len() implies v.ingest_all(head.take(i)).accepts(
            (#[trigger] head[i]).packet,
        ) by {
            assert(head.take(i) =~= arrivals.take(i));
            assert(head[i] == arrivals[i]);
        }
        lemma_edge_counts_its_packets(v, head, key);
        lemma_no_packets_no_bytes(head, key);
        let before = v.ingest_all(head);
        assert(arrivals.take(arrivals.len() - 1) =~= head);
        assert(before.accepts(arrivals[arrivals.len() - 1].packet));
        lemma_ingest_counts_edge(before, last.packet, last.addr, last.now, last.server_timestamp_us);
    }
}

/// A removed node's id, and the ids of the edges that went with it, are
/// handed out by the next topology snapshot; the snapshot after that hands
/// out nothing.
pub proof fn lemma_removed_ids_are_reported_once(
    v: EngineView,
    id: NodeId,
    first_at: u64,
    first_epoch_us: u64,
    second_at: u64,
    second_epoch_us: u64,
)
    requires
        v.wf(),
        v.has_node(id),
    ensures
        ({
            let removed = v.remove_node(id);
            let first = removed.topology(first_at, first_epoch_us);
            let second = removed.after_topology(first_at, first_epoch_us).topology(
                second_at,
                second_epoch_us,
            );
            &&& first.removed_nodes.contains(id)
            &&& forall|k: int|
                0 <= k < v.edges.len() && (#[trigger] v.edges[k]).key().touches(id)
                    ==> first.removed_edges.contains(v.edges[k].edge_id)
            &&& forall|i: int|
                0 <= i < first.nodes.len() ==> (#[trigger] first.nodes[i]).node_id != id
            &&& forall|i: int|
                0 <= i < first.edges.len() ==> (#[trigger] first.edges[i]).src_node_id != id
                    && first.edges[i].dst_node_id != id
            &&& second.removed_nodes == Seq::<NodeId>::empty()
            &&& second.removed_edges == Seq::<EdgeId>::empty()
        }),
{
    let removed = v.remove_node(id);
    let first = removed.topology(first_at, first_epoch_us);
    lemma_remove_node(v, id);
    lemma_touching_ids(v.edges, id);
    lemma_edges_avoiding(v.edges, id);
    let gone = touching_ids(v.edges, id);
    assert forall|k: int| 0 <= k < v.edges.len() && (#[trigger] v.edges[k]).key().touches(
        id,
    ) implies first.removed_edges.contains(v.edges[k].edge_id) by {
        assert(gone.contains(v.edges[k].edge_id));
        let i = choose|i: int| 0 <= i < gone.len() && gone[i] == v.edges[k].edge_id;
        assert(first.removed_edges[v.removed_edges.len() + i] == v.edges[k].edge_id);
    }
    assert forall|i: int| 0 <= i < first.nodes.len() implies (#[trigger] first.nodes[i]).node_id
        != id by {
        if first.nodes[i].node_id == id {
            assert(removed.nodes[i].node_id == id);
        }
    }
    assert forall|i: int| 0 <= i < first.edges.len() implies (#[trigger] first.edges[i]).src_node_id
        != id && first.edges[i].dst_node_id != id by {
        assert(!removed.edges[i].key().touches(id));
    }
}

/// Ids queued for the next topology snapshot stay queued, in order, while
/// packets are registered and ingested and while nodes and edges are
/// removed.
pub proof fn lemma_pending_removals_are_kept(
    v: EngineView,
    register: RegisterNodePacket,
    data: DataPacket,
    addr: PeerAddr,
    id: NodeId,
    node_ttl: u64,
    edge_ttl: u64,
    now: u64,
    server_timestamp_us: u64,
)
    requires
        v.wf(),
    ensures
        v.register(register, addr, now).removed_nodes == v.removed_nodes,
        v.register(register, addr, now).removed_edges == v.removed_edges,
        v.ingest(data, addr, now, server_timestamp_us).removed_nodes == v.removed_nodes,
        v.ingest(data, addr, now, server_timestamp_us).removed_edges == v.removed_edges,
        v.removed_nodes.is_prefix_of(v.remove_node(id).removed_nodes),
        v.removed_edges.is_prefix_of(v.remove_node(id).removed_edges),
        v.removed_nodes.is_prefix_of(v.cleanup(node_ttl, edge_ttl, now).removed_nodes),
        v.removed_edges.is_prefix_of(v.cleanup(node_ttl, edge_ttl, now).removed_edges),
{
    lemma_ingest(v, data, addr, now, server_timestamp_us);
    let ids = stale_node_ids(v.nodes, now, node_ttl);
    lemma_remove_nodes_keeps_pending(v, ids);
    let swept = v.remove_nodes(ids);
    assert(swept.removed_edges.is_prefix_of(swept.drop_stale_edges(now, edge_ttl).removed_edges));
}

/// Removing several nodes only appends to the pending removals and leaves
/// the snapshot counter alone.
pub proof fn lemma_remove_nodes_keeps_pending(v: EngineView, ids: Seq<NodeId>)
    ensures
        v.removed_nodes.is_prefix_of(v.remove_nodes(ids).removed_nodes),
        v.removed_edges.is_prefix_of(v.remove_nodes(ids).removed_edges),
        v.remove_nodes(ids).snapshot_seq == v.snapshot_seq,
    decreases ids.len(),
{
    if ids.len() > 0 {
        lemma_remove_nodes_keeps_pending(v, ids.drop_last());
        let before = v.remove_nodes(ids.drop_last());
        let after = before.remove_node(ids.last());
        assert(before.removed_nodes.is_prefix_of(after.removed_nodes));
        assert(before.removed_edges.is_prefix_of(after.removed_edges));
    }
}

/// Each topology snapshot carries a larger number than the one before it,
/// whatever else the engine did in between, as long as the counter has not
/// reached `u64::MAX`.
pub proof fn lemma_snapshot_seq_increases(
    v: EngineView,
    now: u64,
    epoch_us: u64,
    register: RegisterNodePacket,
    data: DataPacket,
    addr: PeerAddr,
    id: NodeId,
    node_ttl: u64,
    edge_ttl: u64,
    server_timestamp_us: u64,
)
    requires
        v.wf(),
        v.snapshot_seq < u64::MAX,
    ensures
        v.topology(now, epoch_us).snapshot_seq == v.snapshot_seq + 1,
        v.after_topology(now, epoch_us).snapshot_seq == v.topology(now, epoch_us).snapshot_seq,
        v.register(register, addr, now).snapshot_seq == v.snapshot_seq,
        v.ingest(data, addr, now, server_timestamp_us).snapshot_seq == v.snapshot_seq,
        v.remove_node(id).snapshot_seq == v.snapshot_seq,
        v.cleanup(node_ttl, edge_ttl, now).snapshot_seq == v.snapshot_seq,
{
    lemma_ingest(v, data, addr, now, server_timestamp_us);
    lemma_remove_nodes_keeps_pending(v, stale_node_ids(v.nodes, now, node_ttl));
}

/// No operation lowers a global counter: registering, ingesting and
/// removing leave each of them where it was or move it up.
pub proof fn lemma_counters_never_decrease(
    v: EngineView,
    register: RegisterNodePacket,
    data: DataPacket,
    addr: PeerAddr,
    id: NodeId,
    node_ttl: u64,
    edge_ttl: u64,
    now: u64,
    epoch_us: u64,
    server_timestamp_us: u64,
)
    requires
        v.wf(),
    ensures
        v.register(register, addr, now).global_stats() == v.global_stats_at(
            v.register(register, addr, now).nodes.len(),
        ),
        v.remove_node(id).global_stats() == v.global_stats_at(v.remove_node(id).nodes.len()),
        v.cleanup(node_ttl, edge_ttl, now).global_stats() == v.global_stats_at(
            v.cleanup(node_ttl, edge_ttl, now).nodes.len(),
        ),
        v.after_topology(now, epoch_us).global_stats() == v.global_stats(),
        ({
            let r = v.ingest(data, addr, now, server_timestamp_us);
            &&& r.total_packets >= v.total_packets
            &&& r.total_bytes >= v.total_bytes
            &&& forall|i: int|
                0 <= i < 4 ==> r.packets_by_class[i] >= v.packets_by_class[i]
                    && r.bytes_by_class[i] >= v.bytes_by_class[i] && r.route_packets[i]
                    >= v.route_packets[i] && r.route_bytes[i] >= v.route_bytes[i]
        }),
{
    lemma_remove_nodes_keeps_counters(v, stale_node_ids(v.nodes, now, node_ttl));
}

/// Removing several nodes changes no global counter.
pub proof fn lemma_remove_nodes_keeps_counters(v: EngineView, ids: Seq<NodeId>)
    ensures
        v.remove_nodes(ids).global_stats() == v.global_stats_at(v.remove_nodes(ids).nodes.len()),
    decreases ids.len(),
{
    if ids.len() > 0 {
        lemma_remove_nodes_keeps_counters(v, ids.drop_last());
    }
}

/// Every counter of `later` is at least that of `earlier`.
pub open spec fn counted_up(earlier: NodeView, later: NodeView) -> bool {
    forall|i: int|
        0 <= i < 4 ==> later.packets_by_class[i] >= earlier.packets_by_class[i]
            && later.bytes_by_class[i] >= earlier.bytes_by_class[i] && later.route_packets[i]
            >= earlier.route_packets[i] && later.route_bytes[i] >= earlier.route_bytes[i]
}

/// Engines with the same ids at the same positions, each node of the
/// second counted up from the first, have every known node counted up.
proof fn lemma_counted_up(v: EngineView, r: EngineView)
    requires
        nodes_distinct(v.nodes),
        same_ids(v.nodes, r.nodes),
        forall|k: int| 0 <= k < v.nodes.len() ==> counted_up(#[trigger] v.nodes[k], r.nodes[k]),
    ensures
        forall|x: NodeId| v.has_node(x) ==> r.has_node(x) && counted_up(v.node(x), r.node(x)),
{
    lemma_same_ids(v, r);
    assert forall|x: NodeId| v.has_node(x) implies r.has_node(x) && counted_up(
        v.node(x),
        r.node(x),
    ) by {
        let k = v.node_index(x);
        assert(counted_up(v.nodes[k], r.nodes[k]));
    }
}

/// Create-or-touch lowers no counter of a known node.
proof fn lemma_ensure_node_counts_up(
    v: EngineView,
    id: NodeId,
    desc: [u8; 16],
    domain: NodeDomain,
    addr: PeerAddr,
    now: u64,
    refresh_desc: bool,
    refresh_domain: bool,
)
    requires
        v.wf(),
    ensures
        nodes_counted_up(
            v,
            v.ensure_node(id, desc, domain, addr, now, refresh_desc, refresh_domain),
        ),
{
    let r = v.ensure_node(id, desc, domain, addr, now, refresh_desc, refresh_domain);
    lemma_ensure_node(v, id, desc, domain, addr, now, refresh_desc, refresh_domain);
    if v.has_node(id) {
        assert(same_ids(v.nodes, r.nodes));
        lemma_counted_up(v, r);
    } else {
        assert forall|x: NodeId| v.has_node(x) implies r.has_node(x) && counted_up(
            v.node(x),
            r.node(x),
        ) by {
            let k = v.node_index(x);
            assert(r.nodes[k] == v.nodes[k]);
            lemma_node_at(r, k);
        }
    }
}

/// Every node known to `earlier` is known to `later`, with every counter
/// where it was or higher.
pub open spec fn nodes_counted_up(earlier: EngineView, later: EngineView) -> bool {
    forall|x: NodeId|
        earlier.has_node(x) ==> later.has_node(x) && counted_up(earlier.node(x), later.node(x))
}

/// Counting up goes on from step to step.
proof fn lemma_counting_up_goes_on(a: EngineView, b: EngineView, c: EngineView)
    requires
        nodes_counted_up(a, b),
        nodes_counted_up(b, c),
    ensures
        nodes_counted_up(a, c),
{
    assert forall|x: NodeId| a.has_node(x) implies c.has_node(x) && counted_up(
        a.node(x),
        c.node(x),
    ) by {
        assert(counted_up(a.node(x), b.node(x)));
        assert(counted_up(b.node(x), c.node(x)));
    }
}

/// Ensuring the endpoints of an accepted packet lowers no counter.
proof fn lemma_with_endpoints_counts_up(v: EngineView, packet: DataPacket, addr: PeerAddr, now: u64)
    requires
        v.wf(),
    ensures
        nodes_counted_up(v, v.with_endpoints(packet, addr, now)),
{
    let src = packet.src_node_id;
    let dst = packet.dst_node_id;
    let first = v.ensure_node(
        src,
        packet.desc,
        crate::engine_model::inferred_domain(src),
        addr,
        now,
        true,
        false,
    );
    lemma_ensure_node(
        v,
        src,
        packet.desc,
        crate::engine_model::inferred_domain(src),
        addr,
        now,
        true,
        false,
    );
    lemma_ensure_node_counts_up(
        v,
        src,
        packet.desc,
        crate::engine_model::inferred_domain(src),
        addr,
        now,
        true,
        false,
    );
    lemma_ensure_node_counts_up(
        first,
        dst,
        crate::engine_model::placeholder_desc(crate::engine_model::inferred_domain(dst)),
        crate::engine_model::inferred_domain(dst),
        addr,
        now,
        false,
        false,
    );
    lemma_counting_up_goes_on(v, first, v.with_endpoints(packet, addr, now));
}

/// Accounting a packet globally, on its source and on its edge lowers no
/// counter of any node.
proof fn lemma_accounting_counts_up(v: EngineView, packet: DataPacket, addr: PeerAddr, now: u64, route: int)
    requires
        v.wf(),
        v.has_node(packet.src_node_id),
        v.has_node(packet.dst_node_id),
    ensures
        nodes_counted_up(
            v,
            v.counted(packet, route).with_source(packet, addr, now, route).with_edge(packet, now),
        ),
        v.counted(packet, route).with_source(packet, addr, now, route).with_edge(packet, now).wf(),
        v.counted(packet, route).with_source(packet, addr, now, route).with_edge(
            packet,
            now,
        ).has_node(packet.src_node_id),
        v.counted(packet, route).with_source(packet, addr, now, route).with_edge(
            packet,
            now,
        ).has_edge(EngineView::edge_key(packet)),
{
    let counted = v.counted(packet, route);
    lemma_counted(v, packet, route);
    assert(same_ids(v.nodes, counted.nodes));
    lemma_counted_up(v, counted);
    let sourced = counted.with_source(packet, addr, now, route);
    lemma_with_source(counted, packet, addr, now, route);
    assert(same_ids(counted.nodes, sourced.nodes));
    lemma_counted_up(counted, sourced);
    lemma_counting_up_goes_on(v, counted, sourced);
    let edged = sourced.with_edge(packet, now);
    lemma_with_edge(sourced, packet, now);
    assert(same_ids(sourced.nodes, edged.nodes));
    lemma_counted_up(sourced, edged);
    lemma_counting_up_goes_on(v, sourced, edged);
}

/// A latency sample lowers no counter of any node.
proof fn lemma_with_latency_counts_up(v: EngineView, packet: DataPacket, latency_us: u64)
    requires
        v.wf(),
        v.has_node(packet.src_node_id),
        v.has_edge(EngineView::edge_key(packet)),
    ensures
        nodes_counted_up(v, v.with_latency(packet, latency_us)),
{
    let r = v.with_latency(packet, latency_us);
    assert(same_ids(v.nodes, r.nodes));
    lemma_counted_up(v, r);
}

/// Ingesting a data packet lowers no counter of any node: every node
/// known before is known after, with each of its per-class and per-route
/// counters where it was or higher.
pub proof fn lemma_node_counters_never_decrease(
    v: EngineView,
    packet: DataPacket,
    addr: PeerAddr,
    now: u64,
    server_timestamp_us: u64,
)
    requires
        v.wf(),
    ensures
        nodes_counted_up(v, v.ingest(packet, addr, now, server_timestamp_us)),
{
    if v.accepts(packet) {
        let ensured = v.with_endpoints(packet, addr, now);
        lemma_with_endpoints(v, packet, addr, now);
        lemma_with_endpoints_counts_up(v, packet, addr, now);
        let route = ensured.route_of(packet);
        let edged = ensured.counted(packet, route).with_source(packet, addr, now, route).with_edge(
            packet,
            now,
        );
        lemma_accounting_counts_up(ensured, packet, addr, now, route);
        lemma_counting_up_goes_on(v, ensured, edged);
        if server_timestamp_us >= packet.timestamp_us {
            let latency = (server_timestamp_us - packet.timestamp_us) as u64;
            lemma_with_latency_counts_up(edged, packet, latency);
            lemma_counting_up_goes_on(v, edged, edged.with_latency(packet, latency));
        }
    } else {
        assert forall|x: NodeId| v.has_node(x) implies counted_up(v.node(x), v.node(x)) by {}
    }
}

/// An accepted data packet marks both its endpoints as seen at the time
/// of its arrival.
pub proof fn lemma_ingest_touches_endpoints(
    v: EngineView,
    packet: DataPacket,
    addr: PeerAddr,
    now: u64,
    server_timestamp_us: u64,
)
    requires
        v.wf(),
        v.accepts(packet),
    ensures
        ({
            let r = v.ingest(packet, addr, now, server_timestamp_us);
            &&& r.has_node(packet.src_node_id)
            &&& r.has_node(packet.dst_node_id)
            &&& r.node(packet.src_node_id).last_seen == now
            &&& r.node(packet.dst_node_id).last_seen == now
        }),
{
    let src = packet.src_node_id;
    let dst = packet.dst_node_id;
    let first = v.ensure_node(
        src,
        packet.desc,
        crate::engine_model::inferred_domain(src),
        addr,
        now,
        true,
        false,
    );
    lemma_ensure_node(
        v,
        src,
        packet.desc,
        crate::engine_model::inferred_domain(src),
        addr,
        now,
        true,
        false,
    );
    lemma_ensure_node(
        first,
        dst,
        crate::engine_model::placeholder_desc(crate::engine_model::inferred_domain(dst)),
        crate::engine_model::inferred_domain(dst),
        addr,
        now,
        false,
        false,
    );
    let ensured = v.with_endpoints(packet, addr, now);
    lemma_with_endpoints(v, packet, addr, now);
    // Both endpoints were seen at `now` once they were ensured.
    assert(first.has_node(src));
    let s1 = first.node_index(src);
    assert(first.nodes[s1].last_seen == now) by {
        if v.has_node(src) {
            let k = v.node_index(src);
            assert(first.nodes[k].node_id == src);
            lemma_node_at(first, k);
        } else {
            let k = v.nodes.len() as int;
            assert(first.nodes[k].node_id == src);
            lemma_node_at(first, k);
        }
    }
    let d = ensured.node_index(dst);
    assert(ensured.nodes[d].last_seen == now) by {
        if first.has_node(dst) {
            let k = first.node_index(dst);
            assert(ensured.nodes[k].node_id == dst);
            lemma_node_at(ensured, k);
        } else {
            let k = first.nodes.len() as int;
            assert(ensured.nodes[k].node_id == dst);
            lemma_node_at(ensured, k);
        }
    }
    let s = ensured.node_index(src);
    assert(ensured.nodes[s].last_seen == now) by {
        if first.has_node(dst) {
            let k = first.node_index(dst);
            assert(ensured.nodes[s1].node_id == src);
            lemma_node_at(ensured, s1);
        } else {
            assert(ensured.nodes[s1].node_id == src);
            lemma_node_at(ensured, s1);
        }
    }
    let route = ensured.route_of(packet);
    let counted = ensured.counted(packet, route);
    lemma_counted(ensured, packet, route);
    assert(same_ids(ensured.nodes, counted.nodes));
    lemma_same_ids(ensured, counted);
    let sourced = counted.with_source(packet, addr, now, route);
    lemma_with_source(counted, packet, addr, now, route);
    assert(same_ids(counted.nodes, sourced.nodes));
    lemma_same_ids(counted, sourced);
    let edged = sourced.with_edge(packet, now);
    lemma_with_edge(sourced, packet, now);
    assert(same_ids(sourced.nodes, edged.nodes));
    lemma_same_ids(sourced, edged);
    assert(edged.nodes[s].last_seen == now);
    assert(edged.nodes[d].last_seen == now);
    if server_timestamp_us >= packet.timestamp_us {
        let latency = (server_timestamp_us - packet.timestamp_us) as u64;
        let sampled = edged.with_latency(packet, latency);
        lemma_with_latency(edged, packet, latency);
        assert(same_ids(edged.nodes, sampled.nodes));
        lemma_same_ids(edged, sampled);
        assert(sampled.nodes[s].last_seen == now);
        assert(sampled.nodes[d].last_seen == now);
    }
}

} // verus!

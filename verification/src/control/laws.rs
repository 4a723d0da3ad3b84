//! What holds of the control surface as a whole.

use crate::control::controller::{
    edge, entry, greatest_id, link_fault, next_id, plain_node, settled_kind, ControllerView,
    ImportStep,
};
use crate::control::model::{NodeCard, NodeSpecView, PresetView, PRESET_VERSION};
use crate::control::topology::{
    edges_without, lemma_edges_without, lemma_no_place, lemma_nodes_without, lemma_place_of,
    nodes_without, place_of, touches, LinkId, MutationView, NodeId, NodeView, SnapshotEdge,
    Topology,
};
use vstd::prelude::*;

verus! {

impl ControllerView {
    /// Whether the registries speak of nodes that exist, and of no others.
    pub open spec fn is_tidy(self) -> bool {
        &&& forall|id: NodeId| #[trigger]
            self.labels.contains_key(id) ==> self.topology.has(id)
        &&& forall|id: NodeId| #[trigger] self.kinds.contains_key(id) ==> self.topology.has(id)
        &&& forall|id: NodeId| #[trigger] self.params.contains_key(id) ==> self.topology.has(id)
    }

    /// Whether the state is sound: no two nodes share an id, every link has its
    /// ends, and the registries are tidy.
    pub open spec fn is_sound(self) -> bool {
        self.topology.ids_are_unique() && self.topology.links_are_anchored() && self.is_tidy()
    }
}

/// The greatest id is at least every id.
proof fn lemma_greatest_id(nodes: Seq<NodeView>)
    ensures
        forall|i: int| 0 <= i < nodes.len() ==> (#[trigger] nodes[i]).id <= greatest_id(nodes),
    decreases nodes.len(),
{
    if nodes.len() > 0 {
        lemma_greatest_id(nodes.drop_last());
        assert forall|i: int| 0 <= i < nodes.len() implies (#[trigger] nodes[i]).id <= greatest_id(
            nodes,
        ) by {
            if i < nodes.len() - 1 {
                assert(nodes[i] == nodes.drop_last()[i]);
            }
        }
    }
}

/// The id of a new node is greater than every id in use, unless the greatest
/// number is in use already.
pub proof fn law_new_id_is_unused(t: Topology)
    requires
        greatest_id(t.nodes) < usize::MAX,
    ensures
        !t.has(next_id(t)),
        forall|i: int| 0 <= i < t.nodes.len() ==> (#[trigger] t.nodes[i]).id < next_id(t),
{
    lemma_greatest_id(t.nodes);
    lemma_no_place(t.nodes, next_id(t));
}

/// In a topology with a node at a place, the topology has that node.
proof fn lemma_has_at(t: Topology, i: int)
    requires
        0 <= i < t.nodes.len(),
    ensures
        t.has(t.nodes[i].id),
{
    lemma_place_of(t.nodes, t.nodes[i].id);
}

/// Nodes that a removal leaves keep their order, so unique ids stay unique.
proof fn lemma_unique_without(nodes: Seq<NodeView>, id: NodeId)
    requires
        forall|i: int, j: int|
            #![trigger nodes[i], nodes[j]]
            0 <= i < j < nodes.len() ==> nodes[i].id != nodes[j].id,
    ensures
        forall|i: int, j: int|
            #![trigger nodes_without(nodes, id)[i], nodes_without(nodes, id)[j]]
            0 <= i < j < nodes_without(nodes, id).len() ==> nodes_without(nodes, id)[i].id
                != nodes_without(nodes, id)[j].id,
    decreases nodes.len(),
{
    if nodes.len() > 0 {
        let front = nodes.drop_last();
        let left = nodes_without(front, id);
        let all = nodes_without(nodes, id);
        assert forall|i: int, j: int|
            #![trigger front[i], front[j]]
            0 <= i < j < front.len() implies front[i].id != front[j].id by {
            assert(front[i] == nodes[i] && front[j] == nodes[j]);
        }
        lemma_unique_without(front, id);
        lemma_nodes_without(front, id);
        assert forall|i: int, j: int|
            #![trigger all[i], all[j]]
            0 <= i < j < all.len() implies all[i].id != all[j].id by {
            assert(all[i] == left[i]);
            if j < left.len() {
                assert(all[j] == left[j]);
            } else {
                assert(front.contains(left[i]));
                let k = choose|k: int| 0 <= k < front.len() && front[k] == left[i];
                assert(nodes[k] == left[i]);
                assert(nodes[nodes.len() - 1] == all[j]);
            }
        }
    }
}

/// Adding a node keeps every node that was there, and brings the new one.
proof fn lemma_add_node(t: Topology, n: NodeView, id: NodeId)
    ensures
        t.after(MutationView::AddNode(n)).has(id) <==> (t.has(id) || id == n.id),
{
    let after = t.after(MutationView::AddNode(n));
    lemma_place_of(t.nodes, id);
    lemma_place_of(t.nodes, n.id);
    lemma_place_of(after.nodes, id);
    if t.has(id) {
        let p = place_of(t.nodes, id);
        if t.has(n.id) {
            assert(after.nodes[p].id == id);
        } else {
            assert(after.nodes[p] == t.nodes[p]);
        }
    }
    if id == n.id {
        if t.has(n.id) {
            assert(after.nodes[place_of(t.nodes, n.id)].id == id);
        } else {
            assert(after.nodes[t.nodes.len() as int].id == id);
        }
    }
    if after.has(id) {
        let q = place_of(after.nodes, id);
        if t.has(n.id) {
            if q != place_of(t.nodes, n.id) {
                assert(after.nodes[q] == t.nodes[q]);
            }
        } else if q < t.nodes.len() {
            assert(after.nodes[q] == t.nodes[q]);
        }
    }
}

/// Removing a node keeps every other node.
proof fn lemma_remove_node(t: Topology, gone: NodeId, id: NodeId)
    ensures
        t.after(MutationView::RemoveNode(gone)).has(id) <==> (t.has(id) && id != gone),
{
    let after = t.after(MutationView::RemoveNode(gone));
    lemma_nodes_without(t.nodes, gone);
    lemma_place_of(t.nodes, id);
    lemma_place_of(after.nodes, id);
    if t.has(id) && id != gone {
        let n = t.nodes[place_of(t.nodes, id)];
        assert(after.nodes.contains(n));
        let k = choose|k: int| 0 <= k < after.nodes.len() && after.nodes[k] == n;
        assert(after.nodes[k].id == id);
    }
    if after.has(id) {
        let n = after.nodes[place_of(after.nodes, id)];
        assert(t.nodes.contains(n));
        let k = choose|k: int| 0 <= k < t.nodes.len() && t.nodes[k] == n;
        assert(t.nodes[k].id == id);
    }
}

/// Every mutation keeps ids unique.
pub proof fn law_ids_stay_unique(t: Topology, m: MutationView)
    requires
        t.ids_are_unique(),
    ensures
        t.after(m).ids_are_unique(),
{
    match m {
        MutationView::AddNode(n) => {
            lemma_place_of(t.nodes, n.id);
            let after = t.after(m);
            assert forall|i: int, j: int|
                #![trigger after.nodes[i], after.nodes[j]]
                0 <= i < j < after.nodes.len() implies after.nodes[i].id != after.nodes[j].id by {
                if t.has(n.id) {
                    let p = place_of(t.nodes, n.id);
                    assert(t.nodes[p].id == n.id);
                    assert(t.nodes[i].id != t.nodes[j].id);
                    assert(after.nodes[i].id == t.nodes[i].id);
                    assert(after.nodes[j].id == t.nodes[j].id);
                } else {
                    assert(after.nodes[i] == t.nodes[i]);
                    if j < t.nodes.len() {
                        assert(after.nodes[j] == t.nodes[j]);
                    }
                }
            }
        },
        MutationView::RemoveNode(id) => {
            lemma_unique_without(t.nodes, id);
        },
        MutationView::AddLink(_) => {
            assert(t.after(m).nodes == t.nodes);
        },
        MutationView::RemoveLink(_) => {
            assert(t.after(m).nodes == t.nodes);
        },
    }
}

/// Every mutation keeps links anchored; a new link has to be anchored itself.
/// In particular the removal of a node takes the links that touch it along.
pub proof fn law_links_stay_anchored(t: Topology, m: MutationView)
    requires
        t.links_are_anchored(),
        m matches MutationView::AddLink(e) ==> t.has(e.from.0) && t.has(e.to.0),
    ensures
        t.after(m).links_are_anchored(),
{
    let after = t.after(m);
    match m {
        MutationView::AddNode(n) => {
            assert forall|i: int| 0 <= i < after.edges.len() implies after.has(
                (#[trigger] after.edges[i]).from.0,
            ) && after.has(after.edges[i].to.0) by {
                lemma_add_node(t, n, t.edges[i].from.0);
                lemma_add_node(t, n, t.edges[i].to.0);
            }
        },
        MutationView::RemoveNode(id) => {
            lemma_edges_without(t.edges, id);
            assert forall|i: int| 0 <= i < after.edges.len() implies after.has(
                (#[trigger] after.edges[i]).from.0,
            ) && after.has(after.edges[i].to.0) by {
                let e = after.edges[i];
                assert(e == edges_without(t.edges, id)[i]);
                assert(t.edges.contains(e));
                let k = choose|k: int| 0 <= k < t.edges.len() && t.edges[k] == e;
                assert(t.has(t.edges[k].from.0) && t.has(t.edges[k].to.0));
                lemma_remove_node(t, id, e.from.0);
                lemma_remove_node(t, id, e.to.0);
            }
        },
        MutationView::AddLink(e) => {
            assert forall|i: int| 0 <= i < after.edges.len() implies after.has(
                (#[trigger] after.edges[i]).from.0,
            ) && after.has(after.edges[i].to.0) by {
                if i < t.edges.len() {
                    assert(after.edges[i] == t.edges[i]);
                }
            }
        },
        MutationView::RemoveLink(id) => {
            assert forall|i: int| 0 <= i < after.edges.len() implies after.has(
                (#[trigger] after.edges[i]).from.0,
            ) && after.has(after.edges[i].to.0) by {
                if id < t.edges.len() && i >= id {
                    assert(after.edges[i] == t.edges[i + 1]);
                } else {
                    assert(after.edges[i] == t.edges[i]);
                }
            }
        },
    }
}

/// A request for a link that is not wrong joins two nodes that exist.
pub proof fn law_accepted_links_are_anchored(
    t: Topology,
    from: NodeId,
    from_port: u16,
    to: NodeId,
    to_port: u16,
)
    requires
        link_fault(t, from, from_port, to, to_port) is None,
    ensures
        t.has(from) && from_port < t.get(from).outputs.len(),
        t.has(to) && to_port < t.get(to).inputs.len(),
{
}

/// A new controller is sound where its store is, and creating a node, removing a
/// node, removing a link and adding an accepted link all keep it sound.
pub proof fn law_soundness_is_kept(
    v: ControllerView,
    spec: NodeSpecView,
    id: NodeId,
    link: LinkId,
    e: SnapshotEdge,
)
    requires
        v.is_sound(),
    ensures
        v.with_node(spec).is_sound(),
        v.without_node(id).is_sound(),
        v.with_topology(MutationView::RemoveLink(link)).is_sound(),
        v.topology.has(e.from.0) && v.topology.has(e.to.0) ==> v.with_topology(
            MutationView::AddLink(e),
        ).is_sound(),
{
    let new = next_id(v.topology);
    let add = MutationView::AddNode(plain_node(new, spec.inputs, spec.outputs));
    law_ids_stay_unique(v.topology, add);
    law_links_stay_anchored(v.topology, add);
    let created = v.with_node(spec);
    assert forall|k: NodeId| #[trigger] created.labels.contains_key(k) implies created.topology.has(
        k,
    ) by {
        lemma_add_node(v.topology, plain_node(new, spec.inputs, spec.outputs), k);
        assert(k == new || v.labels.contains_key(k));
    }
    assert forall|k: NodeId| #[trigger] created.kinds.contains_key(k) implies created.topology.has(
        k,
    ) by {
        lemma_add_node(v.topology, plain_node(new, spec.inputs, spec.outputs), k);
        assert(k == new || v.kinds.contains_key(k));
    }
    assert forall|k: NodeId| #[trigger] created.params.contains_key(k) implies created.topology.has(
        k,
    ) by {
        lemma_add_node(v.topology, plain_node(new, spec.inputs, spec.outputs), k);
        assert(k == new || v.params.contains_key(k));
    }

    let remove = MutationView::RemoveNode(id);
    law_ids_stay_unique(v.topology, remove);
    law_links_stay_anchored(v.topology, remove);
    let removed = v.without_node(id);
    assert forall|k: NodeId| #[trigger] removed.labels.contains_key(k) implies removed.topology.has(
        k,
    ) by {
        lemma_remove_node(v.topology, id, k);
        assert(v.labels.contains_key(k));
    }
    assert forall|k: NodeId| #[trigger] removed.kinds.contains_key(k) implies removed.topology.has(
        k,
    ) by {
        lemma_remove_node(v.topology, id, k);
        assert(v.kinds.contains_key(k));
    }
    assert forall|k: NodeId| #[trigger] removed.params.contains_key(k) implies removed.topology.has(
        k,
    ) by {
        lemma_remove_node(v.topology, id, k);
        assert(v.params.contains_key(k));
    }

    let cut = MutationView::RemoveLink(link);
    law_ids_stay_unique(v.topology, cut);
    law_links_stay_anchored(v.topology, cut);
    lemma_same_nodes(v.topology, v.topology.after(cut));
    assert(v.with_topology(cut).is_tidy());

    if v.topology.has(e.from.0) && v.topology.has(e.to.0) {
        let join = MutationView::AddLink(e);
        law_ids_stay_unique(v.topology, join);
        law_links_stay_anchored(v.topology, join);
        lemma_same_nodes(v.topology, v.topology.after(join));
        assert(v.with_topology(join).is_tidy());
    }
}

proof fn lemma_same_nodes(a: Topology, b: Topology)
    requires
        a.nodes == b.nodes,
    ensures
        forall|id: NodeId| a.has(id) == b.has(id),
{
}

/// A new node is listed behind the nodes that were there, with the label, the
/// kind and the parameters that it was asked for with; the others are listed as
/// before.
pub proof fn law_created_node_is_listed(v: ControllerView, spec: NodeSpecView)
    requires
        v.is_tidy(),
        greatest_id(v.topology.nodes) < usize::MAX,
    ensures
        v.with_node(spec).cards() == v.cards().push(
            NodeCard {
                id: next_id(v.topology),
                label: spec.label,
                inputs: spec.inputs,
                outputs: spec.outputs,
                kind: settled_kind(spec),
                params: spec.params,
            },
        ),
        v.with_node(spec).links() == v.links(),
{
    let new = next_id(v.topology);
    law_new_id_is_unused(v.topology);
    let w = v.with_node(spec);
    let node = plain_node(new, spec.inputs, spec.outputs);
    assert(w.topology.nodes == v.topology.nodes.push(node));
    assert(!v.labels.contains_key(new));
    assert(!v.kinds.contains_key(new));
    assert(!v.params.contains_key(new));
    let card = NodeCard {
        id: new,
        label: spec.label,
        inputs: spec.inputs,
        outputs: spec.outputs,
        kind: settled_kind(spec),
        params: spec.params,
    };
    assert(node.inputs.len() == spec.inputs);
    assert(node.outputs.len() == spec.outputs);
    assert(w.card(node) == card);
    assert forall|i: int| 0 <= i < v.topology.nodes.len() implies w.card(
        #[trigger] v.topology.nodes[i],
    ) == v.card(v.topology.nodes[i]) by {
        assert(v.topology.nodes[i].id < new);
    }
    assert(w.cards() =~= v.cards().push(card));
    assert(w.links() =~= v.links());
}

/// Removing a node that was just created gives back the state before.
pub proof fn law_delete_undoes_create(v: ControllerView, spec: NodeSpecView)
    requires
        v.is_sound(),
        greatest_id(v.topology.nodes) < usize::MAX,
    ensures
        v.with_node(spec).without_node(next_id(v.topology)) == v,
{
    let new = next_id(v.topology);
    law_new_id_is_unused(v.topology);
    let w = v.with_node(spec);
    let node = plain_node(new, spec.inputs, spec.outputs);
    assert(w.topology.nodes == v.topology.nodes.push(node));
    assert(!v.labels.contains_key(new));
    assert(!v.kinds.contains_key(new));
    assert(!v.params.contains_key(new));
    let u = w.without_node(new);
    assert(w.topology.nodes.drop_last() =~= v.topology.nodes);
    lemma_nothing_to_remove(v.topology.nodes, new);
    assert forall|i: int| 0 <= i < v.topology.edges.len() implies !touches(
        #[trigger] v.topology.edges[i],
        new,
    ) by {
        assert(v.topology.has(v.topology.edges[i].from.0));
        assert(v.topology.has(v.topology.edges[i].to.0));
    }
    lemma_no_edge_to_remove(v.topology.edges, new);
    assert(u.topology =~= v.topology);
    assert(u.labels =~= v.labels);
    assert(u.kinds =~= v.kinds);
    assert(u.params =~= v.params);
    assert(u =~= v);
}

proof fn lemma_nothing_to_remove(nodes: Seq<NodeView>, id: NodeId)
    requires
        forall|i: int| 0 <= i < nodes.len() ==> (#[trigger] nodes[i]).id != id,
    ensures
        nodes_without(nodes, id) == nodes,
    decreases nodes.len(),
{
    if nodes.len() > 0 {
        let front = nodes.drop_last();
        assert forall|i: int| 0 <= i < front.len() implies (#[trigger] front[i]).id != id by {
            assert(front[i] == nodes[i]);
        }
        lemma_nothing_to_remove(front, id);
        assert(nodes[nodes.len() - 1].id != id);
        assert(front.push(nodes.last()) =~= nodes);
    } else {
        assert(nodes_without(nodes, id) =~= nodes);
    }
}

proof fn lemma_no_edge_to_remove(edges: Seq<SnapshotEdge>, id: NodeId)
    requires
        forall|i: int| 0 <= i < edges.len() ==> !touches(#[trigger] edges[i], id),
    ensures
        edges_without(edges, id) == edges,
    decreases edges.len(),
{
    if edges.len() > 0 {
        let front = edges.drop_last();
        assert forall|i: int| 0 <= i < front.len() implies !touches(#[trigger] front[i], id) by {
            assert(front[i] == edges[i]);
        }
        lemma_no_edge_to_remove(front, id);
        assert(!touches(edges[edges.len() - 1], id));
        assert(front.push(edges.last()) =~= edges);
    } else {
        assert(edges_without(edges, id) =~= edges);
    }
}

/// After a removal the node is gone, with its links and its entries; every other
/// node is there and known as before, and every link that did not touch the node
/// is still there.
pub proof fn law_delete_removes_only_the_node(v: ControllerView, id: NodeId, other: NodeId)
    ensures
        !v.without_node(id).topology.has(id),
        !v.without_node(id).labels.contains_key(id),
        !v.without_node(id).kinds.contains_key(id),
        !v.without_node(id).params.contains_key(id),
        forall|i: int|
            0 <= i < v.without_node(id).topology.edges.len() ==> !touches(
                #[trigger] v.without_node(id).topology.edges[i],
                id,
            ),
        other != id ==> {
            &&& v.without_node(id).topology.has(other) == v.topology.has(other)
            &&& entry(v.without_node(id).labels, other) == entry(v.labels, other)
            &&& entry(v.without_node(id).kinds, other) == entry(v.kinds, other)
            &&& entry(v.without_node(id).params, other) == entry(v.params, other)
        },
        forall|e: SnapshotEdge| #[trigger]
            v.topology.edges.contains(e) && !touches(e, id) ==> v.without_node(
                id,
            ).topology.edges.contains(e),
{
    let w = v.without_node(id);
    lemma_remove_node(v.topology, id, id);
    lemma_remove_node(v.topology, id, other);
    lemma_edges_without(v.topology.edges, id);
    assert forall|e: SnapshotEdge| #[trigger]
        v.topology.edges.contains(e) && !touches(e, id) implies w.topology.edges.contains(e) by {
        let k = choose|k: int| 0 <= k < v.topology.edges.len() && v.topology.edges[k] == e;
        assert(!touches(v.topology.edges[k], id));
    }
}

/// A link id is a place: removing a link moves every later link up by one and
/// leaves the earlier ones where they were.
pub proof fn law_link_ids_shift(v: ControllerView, link: LinkId, i: int)
    requires
        v.topology.edges.len() <= usize::MAX,
        link < v.topology.edges.len(),
        0 <= i < v.topology.edges.len() - 1,
    ensures
        ({
            let w = v.with_topology(MutationView::RemoveLink(link));
            &&& w.links().len() == v.links().len() - 1
            &&& w.topology.edges[i] == v.topology.edges[if i < link {
                i
            } else {
                i + 1
            }]
            &&& w.links()[i].id == i
        }),
{
    let w = v.with_topology(MutationView::RemoveLink(link));
    assert(w.topology.edges == v.topology.edges.remove(link as int));
}

/// Whether no two saved nodes share an id.
pub open spec fn saved_ids_are_unique(p: PresetView) -> bool {
    forall|i: int, j: int|
        #![trigger p.nodes[i], p.nodes[j]]
        0 <= i < j < p.nodes.len() ==> p.nodes[i].id != p.nodes[j].id
}

/// The state after the first `k` removals of an import holds nothing that was
/// not there before, and nothing of the nodes that were removed.
proof fn lemma_removals(v: ControllerView, p: PresetView, k: int)
    requires
        0 <= k <= v.topology.nodes.len(),
    ensures
        ({
            let w = v.after_steps(v.import_steps(p).take(k));
            &&& forall|i: int, j: int|
                #![trigger w.topology.nodes[i], v.topology.nodes[j]]
                0 <= i < w.topology.nodes.len() && 0 <= j < k ==> w.topology.nodes[i].id
                    != v.topology.nodes[j].id
            &&& forall|i: int|
                0 <= i < w.topology.nodes.len() ==> v.topology.nodes.contains(
                    #[trigger] w.topology.nodes[i],
                )
            &&& forall|i: int, j: int|
                #![trigger w.topology.edges[i], v.topology.nodes[j]]
                0 <= i < w.topology.edges.len() && 0 <= j < k ==> !touches(
                    w.topology.edges[i],
                    v.topology.nodes[j].id,
                )
            &&& forall|i: int|
                0 <= i < w.topology.edges.len() ==> v.topology.edges.contains(
                    #[trigger] w.topology.edges[i],
                )
            &&& forall|id: NodeId, j: int|
                #![trigger w.labels.contains_key(id), v.topology.nodes[j]]
                w.labels.contains_key(id) && 0 <= j < k ==> v.topology.nodes[j].id != id
            &&& forall|id: NodeId| #[trigger]
                w.labels.contains_key(id) ==> v.labels.contains_key(id)
            &&& forall|id: NodeId, j: int|
                #![trigger w.kinds.contains_key(id), v.topology.nodes[j]]
                w.kinds.contains_key(id) && 0 <= j < k ==> v.topology.nodes[j].id != id
            &&& forall|id: NodeId| #[trigger] w.kinds.contains_key(id) ==> v.kinds.contains_key(id)
            &&& forall|id: NodeId, j: int|
                #![trigger w.params.contains_key(id), v.topology.nodes[j]]
                w.params.contains_key(id) && 0 <= j < k ==> v.topology.nodes[j].id != id
            &&& forall|id: NodeId| #[trigger]
                w.params.contains_key(id) ==> v.params.contains_key(id)
        }),
    decreases k,
{
    let steps = v.import_steps(p);
    if k == 0 {
        assert(steps.take(0) =~= Seq::empty());
        assert(v.after_steps(steps.take(0)) == v);
    } else {
        lemma_removals(v, p, k - 1);
        let u = v.after_steps(steps.take(k - 1));
        let w = v.after_steps(steps.take(k));
        let id = v.topology.nodes[k - 1].id;
        assert(steps.take(k).drop_last() =~= steps.take(k - 1));
        assert(steps[k - 1] == ImportStep::Remove(id));
        assert(w == u.without_node(id));
        lemma_nodes_without(u.topology.nodes, id);
        lemma_edges_without(u.topology.edges, id);
        assert forall|i: int| 0 <= i < w.topology.nodes.len() implies v.topology.nodes.contains(
            #[trigger] w.topology.nodes[i],
        ) by {
            let n = w.topology.nodes[i];
            assert(n == nodes_without(u.topology.nodes, id)[i]);
            let q = choose|q: int| 0 <= q < u.topology.nodes.len() && u.topology.nodes[q] == n;
            assert(u.topology.nodes[q] == n);
        }
        assert forall|i: int, j: int|
            #![trigger w.topology.nodes[i], v.topology.nodes[j]]
            0 <= i < w.topology.nodes.len() && 0 <= j < k implies w.topology.nodes[i].id
            != v.topology.nodes[j].id by {
            let n = w.topology.nodes[i];
            assert(n == nodes_without(u.topology.nodes, id)[i]);
            let q = choose|q: int| 0 <= q < u.topology.nodes.len() && u.topology.nodes[q] == n;
            assert(u.topology.nodes[q] == n);
        }
        assert forall|i: int| 0 <= i < w.topology.edges.len() implies v.topology.edges.contains(
            #[trigger] w.topology.edges[i],
        ) by {
            let e = w.topology.edges[i];
            assert(e == edges_without(u.topology.edges, id)[i]);
            let q = choose|q: int| 0 <= q < u.topology.edges.len() && u.topology.edges[q] == e;
            assert(u.topology.edges[q] == e);
        }
        assert forall|i: int, j: int|
            #![trigger w.topology.edges[i], v.topology.nodes[j]]
            0 <= i < w.topology.edges.len() && 0 <= j < k implies !touches(
            w.topology.edges[i],
            v.topology.nodes[j].id,
        ) by {
            let e = w.topology.edges[i];
            assert(e == edges_without(u.topology.edges, id)[i]);
            let q = choose|q: int| 0 <= q < u.topology.edges.len() && u.topology.edges[q] == e;
            assert(u.topology.edges[q] == e);
        }
        assert forall|key: NodeId| #[trigger]
            w.labels.contains_key(key) implies v.labels.contains_key(key) by {
            assert(u.labels.contains_key(key));
        }
        assert forall|key: NodeId, j: int|
            #![trigger w.labels.contains_key(key), v.topology.nodes[j]]
            w.labels.contains_key(key) && 0 <= j < k implies v.topology.nodes[j].id != key by {
            assert(u.labels.contains_key(key));
        }
        assert forall|key: NodeId| #[trigger]
            w.kinds.contains_key(key) implies v.kinds.contains_key(key) by {
            assert(u.kinds.contains_key(key));
        }
        assert forall|key: NodeId, j: int|
            #![trigger w.kinds.contains_key(key), v.topology.nodes[j]]
            w.kinds.contains_key(key) && 0 <= j < k implies v.topology.nodes[j].id != key by {
            assert(u.kinds.contains_key(key));
        }
        assert forall|key: NodeId| #[trigger]
            w.params.contains_key(key) implies v.params.contains_key(key) by {
            assert(u.params.contains_key(key));
        }
        assert forall|key: NodeId, j: int|
            #![trigger w.params.contains_key(key), v.topology.nodes[j]]
            w.params.contains_key(key) && 0 <= j < k implies v.topology.nodes[j].id != key by {
            assert(u.params.contains_key(key));
        }
    }
}

/// Whether every link has an end at a node.
pub open spec fn links_touch_nodes(t: Topology) -> bool {
    forall|i: int|
        0 <= i < t.edges.len() ==> t.has((#[trigger] t.edges[i]).from.0) || t.has(
            t.edges[i].to.0,
        )
}

/// Whether an import leaves nothing of the state before: every link goes with a node,
/// and a kind or parameters on record without a node are not taken over by a saved node
/// that has none.
pub open spec fn is_replaced(v: ControllerView, p: PresetView) -> bool {
    &&& links_touch_nodes(v.topology)
    &&& forall|i: int|
        #![trigger p.nodes[i]]
        0 <= i < p.nodes.len() ==> {
            let c = p.nodes[i];
            &&& c.kind is None && v.kinds.contains_key(c.id) ==> v.topology.has(c.id)
            &&& c.params is None && v.params.contains_key(c.id) ==> v.topology.has(c.id)
        }
}

/// An import first clears the topology, where every link goes with a node, and leaves
/// only those entries of the registries that had no node.
proof fn lemma_cleared(v: ControllerView, p: PresetView)
    requires
        links_touch_nodes(v.topology),
    ensures
        ({
            let w = v.after_steps(v.import_steps(p).take(v.topology.nodes.len() as int));
            &&& w.topology == Topology::empty()
            &&& forall|id: NodeId| #[trigger]
                w.labels.contains_key(id) ==> v.labels.contains_key(id) && !v.topology.has(id)
            &&& forall|id: NodeId| #[trigger]
                w.kinds.contains_key(id) ==> v.kinds.contains_key(id) && !v.topology.has(id)
            &&& forall|id: NodeId| #[trigger]
                w.params.contains_key(id) ==> v.params.contains_key(id) && !v.topology.has(id)
        }),
{
    let n = v.topology.nodes.len() as int;
    let w = v.after_steps(v.import_steps(p).take(n));
    lemma_removals(v, p, n);
    if w.topology.nodes.len() > 0 {
        let node = w.topology.nodes[0];
        let q = choose|q: int| 0 <= q < v.topology.nodes.len() && v.topology.nodes[q] == node;
        assert(v.topology.nodes.contains(node));
        assert(v.topology.nodes[q].id == node.id);
        assert(false);
    }
    if w.topology.edges.len() > 0 {
        let e = w.topology.edges[0];
        assert(v.topology.edges.contains(e));
        let q = choose|q: int| 0 <= q < v.topology.edges.len() && v.topology.edges[q] == e;
        assert(v.topology.has(v.topology.edges[q].from.0) || v.topology.has(
            v.topology.edges[q].to.0,
        ));
        let end = if v.topology.has(e.from.0) {
            e.from.0
        } else {
            e.to.0
        };
        lemma_place_of(v.topology.nodes, end);
        let j = place_of(v.topology.nodes, end);
        assert(v.topology.nodes[j].id == end);
        assert(!touches(w.topology.edges[0], v.topology.nodes[j].id));
        assert(false);
    }
    assert forall|id: NodeId| #[trigger] w.labels.contains_key(id) implies v.labels.contains_key(id)
        && !v.topology.has(id) by {
        lemma_place_of(v.topology.nodes, id);
        if v.topology.has(id) {
            assert(v.topology.nodes[place_of(v.topology.nodes, id)].id == id);
        }
    }
    assert forall|id: NodeId| #[trigger] w.kinds.contains_key(id) implies v.kinds.contains_key(id)
        && !v.topology.has(id) by {
        lemma_place_of(v.topology.nodes, id);
        if v.topology.has(id) {
            assert(v.topology.nodes[place_of(v.topology.nodes, id)].id == id);
        }
    }
    assert forall|id: NodeId| #[trigger] w.params.contains_key(id) implies v.params.contains_key(id)
        && !v.topology.has(id) by {
        lemma_place_of(v.topology.nodes, id);
        if v.topology.has(id) {
            assert(v.topology.nodes[place_of(v.topology.nodes, id)].id == id);
        }
    }
    assert(w.topology.nodes =~= Seq::empty());
    assert(w.topology.edges =~= Seq::empty());
}

/// The state after the first `k` saved nodes of an import that replaces the state.
proof fn lemma_installs(v: ControllerView, p: PresetView, k: int)
    requires
        is_replaced(v, p),
        saved_ids_are_unique(p),
        0 <= k <= p.nodes.len(),
    ensures
        ({
            let w = v.after_steps(v.import_steps(p).take(v.topology.nodes.len() + k));
            &&& w.topology.edges.len() == 0
            &&& w.topology.nodes.len() == k
            &&& forall|i: int|
                0 <= i < k ==> #[trigger] w.topology.nodes[i] == plain_node(
                    p.nodes[i].id,
                    p.nodes[i].inputs,
                    p.nodes[i].outputs,
                )
            &&& forall|i: int|
                0 <= i < k ==> entry(w.labels, (#[trigger] p.nodes[i]).id) == Some(p.nodes[i].label)
            &&& forall|i: int|
                0 <= i < k ==> entry(w.kinds, (#[trigger] p.nodes[i]).id) == p.nodes[i].kind
            &&& forall|i: int|
                0 <= i < k ==> entry(w.params, (#[trigger] p.nodes[i]).id) == p.nodes[i].params
            &&& forall|id: NodeId| #[trigger]
                w.labels.contains_key(id) ==> (v.labels.contains_key(id) && !v.topology.has(id))
                    || exists|i: int| 0 <= i < k && (#[trigger] p.nodes[i]).id == id
            &&& forall|id: NodeId| #[trigger]
                w.kinds.contains_key(id) ==> (v.kinds.contains_key(id) && !v.topology.has(id))
                    || exists|i: int| 0 <= i < k && (#[trigger] p.nodes[i]).id == id
            &&& forall|id: NodeId| #[trigger]
                w.params.contains_key(id) ==> (v.params.contains_key(id) && !v.topology.has(id))
                    || exists|i: int| 0 <= i < k && (#[trigger] p.nodes[i]).id == id
        }),
    decreases k,
{
    let steps = v.import_steps(p);
    let n = v.topology.nodes.len();
    if k == 0 {
        lemma_cleared(v, p);
    } else {
        lemma_installs(v, p, k - 1);
        let u = v.after_steps(steps.take(n + k - 1));
        let w = v.after_steps(steps.take(n + k));
        let c = p.nodes[k - 1];
        assert(steps.take(n + k).drop_last() =~= steps.take(n + k - 1));
        assert(steps[n + k - 1] == ImportStep::Install(c));
        assert(w == u.after_step(ImportStep::Install(c)));
        assert forall|i: int| 0 <= i < u.topology.nodes.len() implies (
        #[trigger] u.topology.nodes[i]).id != c.id by {
            assert(p.nodes[i].id != p.nodes[k - 1].id);
        }
        lemma_no_place(u.topology.nodes, c.id);
        assert(c.kind is None ==> !u.kinds.contains_key(c.id));
        assert(c.params is None ==> !u.params.contains_key(c.id));
        let node = plain_node(c.id, c.inputs, c.outputs);
        assert(w.topology.nodes == u.topology.nodes.push(node));
        assert forall|i: int| 0 <= i < k implies #[trigger] w.topology.nodes[i] == plain_node(
            p.nodes[i].id,
            p.nodes[i].inputs,
            p.nodes[i].outputs,
        ) by {
            if i < k - 1 {
                assert(w.topology.nodes[i] == u.topology.nodes[i]);
            }
        }
        assert forall|i: int| 0 <= i < k implies entry(w.labels, (#[trigger] p.nodes[i]).id) == Some(
            p.nodes[i].label,
        ) && entry(w.kinds, p.nodes[i].id) == p.nodes[i].kind && entry(w.params, p.nodes[i].id)
            == p.nodes[i].params by {
            if i < k - 1 {
                assert(p.nodes[i].id != p.nodes[k - 1].id);
            }
        }
        assert forall|id: NodeId| #[trigger] w.labels.contains_key(id) implies (v.labels.contains_key(id) && !v.topology.has(id)) || exists|
            i: int,
        | 0 <= i < k && (#[trigger] p.nodes[i]).id == id by {
            if v.labels.contains_key(id) && !v.topology.has(id) {
            } else if u.labels.contains_key(id) {
                let i = choose|i: int| 0 <= i < k - 1 && (#[trigger] p.nodes[i]).id == id;
                assert(p.nodes[i].id == id);
            } else {
                assert(p.nodes[k - 1].id == id);
            }
        }
        assert forall|id: NodeId| #[trigger] w.kinds.contains_key(id) implies (v.kinds.contains_key(id) && !v.topology.has(id)) || exists|
            i: int,
        | 0 <= i < k && (#[trigger] p.nodes[i]).id == id by {
            if v.kinds.contains_key(id) && !v.topology.has(id) {
            } else if u.kinds.contains_key(id) {
                let i = choose|i: int| 0 <= i < k - 1 && (#[trigger] p.nodes[i]).id == id;
                assert(p.nodes[i].id == id);
            } else {
                assert(p.nodes[k - 1].id == id);
            }
        }
        assert forall|id: NodeId| #[trigger] w.params.contains_key(id) implies (v.params.contains_key(id) && !v.topology.has(id)) || exists|
            i: int,
        | 0 <= i < k && (#[trigger] p.nodes[i]).id == id by {
            if v.params.contains_key(id) && !v.topology.has(id) {
            } else if u.params.contains_key(id) {
                let i = choose|i: int| 0 <= i < k - 1 && (#[trigger] p.nodes[i]).id == id;
                assert(p.nodes[i].id == id);
            } else {
                assert(p.nodes[k - 1].id == id);
            }
        }
    }
}

/// The state after the first `k` saved links of an import: the nodes and entries
/// are those of all saved nodes, the links are the first `k` saved ones.
proof fn lemma_connects(v: ControllerView, p: PresetView, k: int)
    requires
        0 <= k <= p.links.len(),
        v.after_steps(
            v.import_steps(p).take((v.topology.nodes.len() + p.nodes.len()) as int),
        ).topology.edges.len() == 0,
    ensures
        ({
            let base = v.after_steps(
                v.import_steps(p).take((v.topology.nodes.len() + p.nodes.len()) as int),
            );
            let w = v.after_steps(
                v.import_steps(p).take(v.topology.nodes.len() + p.nodes.len() + k),
            );
            &&& w.topology.nodes == base.topology.nodes
            &&& w.same_registries(base)
            &&& w.topology.edges.len() == k
            &&& forall|i: int|
                0 <= i < k ==> #[trigger] w.topology.edges[i] == edge(
                    p.links[i].from,
                    p.links[i].from_port,
                    p.links[i].to,
                    p.links[i].to_port,
                )
        }),
    decreases k,
{
    let steps = v.import_steps(p);
    let n = (v.topology.nodes.len() + p.nodes.len()) as int;
    if k > 0 {
        lemma_connects(v, p, k - 1);
        let u = v.after_steps(steps.take(n + k - 1));
        let w = v.after_steps(steps.take(n + k));
        let l = p.links[k - 1];
        assert(steps.take(n + k).drop_last() =~= steps.take(n + k - 1));
        assert(steps[n + k - 1] == ImportStep::Connect(l));
        assert(w == u.after_step(ImportStep::Connect(l)));
    }
}

/// An import replaces the state: what is exported after it is the preset that was
/// imported, in the current format version. The saved nodes need ids of their own, and
/// nothing of the state before may be left.
pub proof fn law_export_after_import(v: ControllerView, p: PresetView)
    requires
        is_replaced(v, p),
        saved_ids_are_unique(p),
    ensures
        v.imported(p).preset() == (PresetView {
            version: PRESET_VERSION,
            nodes: p.nodes,
            links: p.links,
        }),
{
    let steps = v.import_steps(p);
    let n = v.topology.nodes.len();
    let total = n + p.nodes.len() + p.links.len();
    lemma_installs(v, p, p.nodes.len() as int);
    lemma_connects(v, p, p.links.len() as int);
    assert(steps.take(total as int) =~= steps);
    let w = v.imported(p);
    assert forall|i: int| 0 <= i < p.nodes.len() implies #[trigger] w.cards()[i]
        == p.nodes[i] by {
        let c = p.nodes[i];
        let node = w.topology.nodes[i];
        assert(node == plain_node(c.id, c.inputs, c.outputs));
        assert(node.inputs.len() == c.inputs);
        assert(node.outputs.len() == c.outputs);
        assert(entry(w.labels, c.id) == Some(c.label));
        assert(w.cards()[i] == w.card(node));
        assert(w.card(node) =~= c);
    }
    assert(w.cards() =~= p.nodes);
    assert forall|i: int| 0 <= i < p.links.len() implies #[trigger] w.saved_links()[i]
        == p.links[i] by {
        assert(w.topology.edges[i] == edge(
            p.links[i].from,
            p.links[i].from_port,
            p.links[i].to,
            p.links[i].to_port,
        ));
    }
    assert(w.saved_links() =~= p.links);
}

/// Whether every saved link runs between saved nodes.
pub open spec fn saved_links_are_anchored(p: PresetView) -> bool {
    forall|i: int|
        0 <= i < p.links.len() ==> {
            &&& exists|a: int|
                0 <= a < p.nodes.len() && (#[trigger] p.nodes[a]).id == (
                #[trigger] p.links[i]).from
            &&& exists|b: int|
                0 <= b < p.nodes.len() && (#[trigger] p.nodes[b]).id == p.links[i].to
        }
}

/// An import into a tidy state gives a sound state, where every link goes with a node,
/// the saved nodes have ids of their own and the saved links run between them.
pub proof fn law_import_is_sound(v: ControllerView, p: PresetView)
    requires
        v.is_tidy(),
        links_touch_nodes(v.topology),
        saved_ids_are_unique(p),
        saved_links_are_anchored(p),
    ensures
        v.imported(p).is_sound(),
{
    let steps = v.import_steps(p);
    let n = v.topology.nodes.len();
    let total = n + p.nodes.len() + p.links.len();
    lemma_installs(v, p, p.nodes.len() as int);
    lemma_connects(v, p, p.links.len() as int);
    assert(steps.take(total as int) =~= steps);
    let w = v.imported(p);
    let t = w.topology;
    assert forall|a: int| 0 <= a < p.nodes.len() implies t.has((#[trigger] p.nodes[a]).id) by {
        assert(t.nodes[a].id == p.nodes[a].id);
        lemma_has_at(t, a);
    }
    assert forall|i: int, j: int|
        #![trigger t.nodes[i], t.nodes[j]]
        0 <= i < j < t.nodes.len() implies t.nodes[i].id != t.nodes[j].id by {
        assert(p.nodes[i].id != p.nodes[j].id);
    }
    assert forall|i: int| 0 <= i < t.edges.len() implies t.has((#[trigger] t.edges[i]).from.0)
        && t.has(t.edges[i].to.0) by {
        let l = p.links[i];
        let a = choose|a: int| 0 <= a < p.nodes.len() && (#[trigger] p.nodes[a]).id == l.from;
        let b = choose|b: int| 0 <= b < p.nodes.len() && (#[trigger] p.nodes[b]).id == l.to;
        assert(t.has(p.nodes[a].id) && t.has(p.nodes[b].id));
    }
}

/// Exporting a state and importing the preset again changes nothing that an export
/// shows, where no two nodes share an id and every link has an end at a node.
pub proof fn law_import_of_own_export(v: ControllerView)
    requires
        v.topology.ids_are_unique(),
        links_touch_nodes(v.topology),
    ensures
        v.imported(v.preset()).preset() == v.preset(),
{
    let p = v.preset();
    assert forall|i: int, j: int|
        #![trigger p.nodes[i], p.nodes[j]]
        0 <= i < j < p.nodes.len() implies p.nodes[i].id != p.nodes[j].id by {
        assert(v.topology.nodes[i].id != v.topology.nodes[j].id);
    }
    assert forall|i: int| 0 <= i < p.nodes.len() implies v.topology.has(
        (#[trigger] p.nodes[i]).id,
    ) by {
        assert(v.topology.nodes[i].id == p.nodes[i].id);
        lemma_has_at(v.topology, i);
    }
    law_export_after_import(v, p);
}

/// A preset moves to another controller: what the second one exports after the
/// import is what the first one exported.
pub proof fn law_preset_moves_between_controllers(from: ControllerView, to: ControllerView)
    requires
        from.topology.ids_are_unique(),
        is_replaced(to, from.preset()),
    ensures
        to.imported(from.preset()).preset() == from.preset(),
{
    let p = from.preset();
    assert forall|i: int, j: int|
        #![trigger p.nodes[i], p.nodes[j]]
        0 <= i < j < p.nodes.len() implies p.nodes[i].id != p.nodes[j].id by {
        assert(from.topology.nodes[i].id != from.topology.nodes[j].id);
    }
    law_export_after_import(to, p);
}

/// A node that was created with parameters is of the kind that the parameters
/// belong to.
pub proof fn law_kind_and_params_agree(spec: NodeSpecView)
    requires
        crate::control::controller::spec_fault(spec) is None,
    ensures
        spec.params is Some ==> settled_kind(spec) == Some(spec.params->0.kind),
        spec.params is None ==> settled_kind(spec) == spec.kind,
{
}

} // verus!

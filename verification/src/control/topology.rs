//! The topology of the audio graph: nodes with their ports, and links.

use crate::port::PortMeta;
use vstd::prelude::*;

verus! {

/// Identifies a node.
pub type NodeId = usize;

/// Identifies a link: its place in the list of links.
pub type LinkId = usize;

/// A link from an output port to an input port, each a node and a port index.
#[derive(Debug, Clone, Copy, PartialEq, Eq)]
pub struct SnapshotEdge {
    /// Node and output port that the link starts at.
    pub from: (NodeId, usize),
    /// Node and input port that the link ends at.
    pub to: (NodeId, usize),
}

/// A node and its ports.
#[derive(Debug, PartialEq, Eq)]
pub struct NodeSnapshot {
    /// The node.
    pub id: NodeId,
    /// Its input ports.
    pub inputs: Vec<PortMeta>,
    /// Its output ports.
    pub outputs: Vec<PortMeta>,
}

/// The contents of a [`NodeSnapshot`].
#[verifier::ext_equal]
pub struct NodeView {
    /// The node.
    pub id: NodeId,
    /// Its input ports.
    pub inputs: Seq<PortMeta>,
    /// Its output ports.
    pub outputs: Seq<PortMeta>,
}

impl View for NodeSnapshot {
    type V = NodeView;

    open spec fn view(&self) -> NodeView {
        NodeView { id: self.id, inputs: self.inputs@, outputs: self.outputs@ }
    }
}

impl Clone for NodeSnapshot {
    /// A copy with the same contents.
    fn clone(&self) -> (r: Self)
        ensures
            r@ == self@,
    {
        let r = NodeSnapshot {
            id: self.id,
            inputs: self.inputs.clone(),
            outputs: self.outputs.clone(),
        };
        proof {
            assert(r.inputs@ =~= self.inputs@);
            assert(r.outputs@ =~= self.outputs@);
        }
        r
    }
}

/// The topology of a graph. Links keep their order; a [`LinkId`] is a place in
/// it.
#[derive(Debug, PartialEq, Eq)]
pub struct TopologySnapshot {
    /// All nodes.
    pub nodes: Vec<NodeSnapshot>,
    /// All links.
    pub edges: Vec<SnapshotEdge>,
}

/// The contents of a [`TopologySnapshot`].
#[verifier::ext_equal]
pub struct Topology {
    /// All nodes.
    pub nodes: Seq<NodeView>,
    /// All links.
    pub edges: Seq<SnapshotEdge>,
}

/// The contents of a list of nodes.
pub open spec fn node_views(nodes: Seq<NodeSnapshot>) -> Seq<NodeView> {
    nodes.map_values(|n: NodeSnapshot| n@)
}

impl View for TopologySnapshot {
    type V = Topology;

    open spec fn view(&self) -> Topology {
        Topology { nodes: node_views(self.nodes@), edges: self.edges@ }
    }
}

/// A change of a topology.
#[derive(Debug, PartialEq, Eq)]
pub enum Mutation {
    /// Adds a node, or replaces the node with the same id.
    AddNode(NodeSnapshot),
    /// Removes a node and every link that touches it.
    RemoveNode(NodeId),
    /// Adds a link behind the others.
    AddLink(SnapshotEdge),
    /// Removes the link at a place; later links move up.
    RemoveLink(LinkId),
}

/// The contents of a [`Mutation`].
pub enum MutationView {
    /// See [`Mutation::AddNode`].
    AddNode(NodeView),
    /// See [`Mutation::RemoveNode`].
    RemoveNode(NodeId),
    /// See [`Mutation::AddLink`].
    AddLink(SnapshotEdge),
    /// See [`Mutation::RemoveLink`].
    RemoveLink(LinkId),
}

impl View for Mutation {
    type V = MutationView;

    open spec fn view(&self) -> MutationView {
        match self {
            Mutation::AddNode(n) => MutationView::AddNode(n@),
            Mutation::RemoveNode(id) => MutationView::RemoveNode(*id),
            Mutation::AddLink(e) => MutationView::AddLink(*e),
            Mutation::RemoveLink(id) => MutationView::RemoveLink(*id),
        }
    }
}

/// Whether a link starts or ends at node `id`.
pub open spec fn touches(e: SnapshotEdge, id: NodeId) -> bool {
    e.from.0 == id || e.to.0 == id
}

/// The place of the first node with the given id, or -1.
pub open spec fn place_of(nodes: Seq<NodeView>, id: NodeId) -> int
    decreases nodes.len(),
{
    if nodes.len() == 0 {
        -1
    } else if place_of(nodes.drop_last(), id) >= 0 {
        place_of(nodes.drop_last(), id)
    } else if nodes.last().id == id {
        nodes.len() - 1
    } else {
        -1
    }
}

/// The nodes other than `id`, in their order.
pub open spec fn nodes_without(nodes: Seq<NodeView>, id: NodeId) -> Seq<NodeView>
    decreases nodes.len(),
{
    if nodes.len() == 0 {
        Seq::empty()
    } else if nodes.last().id == id {
        nodes_without(nodes.drop_last(), id)
    } else {
        nodes_without(nodes.drop_last(), id).push(nodes.last())
    }
}

/// The links that do not touch `id`, in their order.
pub open spec fn edges_without(edges: Seq<SnapshotEdge>, id: NodeId) -> Seq<SnapshotEdge>
    decreases edges.len(),
{
    if edges.len() == 0 {
        Seq::empty()
    } else if touches(edges.last(), id) {
        edges_without(edges.drop_last(), id)
    } else {
        edges_without(edges.drop_last(), id).push(edges.last())
    }
}

impl Topology {
    /// The topology without nodes and links.
    pub open spec fn empty() -> Topology {
        Topology { nodes: Seq::empty(), edges: Seq::empty() }
    }

    /// Whether there is a node with the given id.
    pub open spec fn has(self, id: NodeId) -> bool {
        place_of(self.nodes, id) >= 0
    }

    /// The first node with the given id.
    pub open spec fn get(self, id: NodeId) -> NodeView {
        self.nodes[place_of(self.nodes, id)]
    }

    /// Whether no two nodes share an id.
    pub open spec fn ids_are_unique(self) -> bool {
        forall|i: int, j: int|
            #![trigger self.nodes[i], self.nodes[j]]
            0 <= i < j < self.nodes.len() ==> self.nodes[i].id != self.nodes[j].id
    }

    /// Whether every link starts and ends at a node.
    pub open spec fn links_are_anchored(self) -> bool {
        forall|i: int|
            0 <= i < self.edges.len() ==> self.has((#[trigger] self.edges[i]).from.0) && self.has(
                self.edges[i].to.0,
            )
    }

    /// The topology after a mutation.
    pub open spec fn after(self, m: MutationView) -> Topology {
        match m {
            MutationView::AddNode(n) => Topology {
                nodes: if self.has(n.id) {
                    self.nodes.update(place_of(self.nodes, n.id), n)
                } else {
                    self.nodes.push(n)
                },
                edges: self.edges,
            },
            MutationView::RemoveNode(id) => Topology {
                nodes: nodes_without(self.nodes, id),
                edges: edges_without(self.edges, id),
            },
            MutationView::AddLink(e) => Topology { nodes: self.nodes, edges: self.edges.push(e) },
            MutationView::RemoveLink(id) => Topology {
                nodes: self.nodes,
                edges: if id < self.edges.len() {
                    self.edges.remove(id as int)
                } else {
                    self.edges
                },
            },
        }
    }
}

/// The place of a node is the place of the first node with its id.
pub proof fn lemma_place_of(nodes: Seq<NodeView>, id: NodeId)
    ensures
        -1 <= place_of(nodes, id) < nodes.len(),
        place_of(nodes, id) >= 0 ==> nodes[place_of(nodes, id)].id == id,
        forall|i: int| 0 <= i < place_of(nodes, id) ==> (#[trigger] nodes[i]).id != id,
        place_of(nodes, id) < 0 ==> forall|i: int|
            0 <= i < nodes.len() ==> (#[trigger] nodes[i]).id != id,
    decreases nodes.len(),
{
    if nodes.len() > 0 {
        let front = nodes.drop_last();
        lemma_place_of(front, id);
        assert forall|i: int| 0 <= i < front.len() implies (#[trigger] nodes[i]) == front[i] by {}
    }
}

/// A place with the id and none before it is the place of the node.
pub proof fn lemma_place_is(nodes: Seq<NodeView>, id: NodeId, at: int)
    requires
        0 <= at < nodes.len(),
        nodes[at].id == id,
        forall|i: int| 0 <= i < at ==> (#[trigger] nodes[i]).id != id,
    ensures
        place_of(nodes, id) == at,
{
    lemma_place_of(nodes, id);
}

/// A list in which no node has the id has no place for it.
pub proof fn lemma_no_place(nodes: Seq<NodeView>, id: NodeId)
    requires
        forall|i: int| 0 <= i < nodes.len() ==> (#[trigger] nodes[i]).id != id,
    ensures
        place_of(nodes, id) == -1,
{
    lemma_place_of(nodes, id);
}

impl TopologySnapshot {
    /// The topology without nodes and links.
    pub fn new() -> (t: Self)
        ensures
            t@ == Topology::empty(),
    {
        let t = TopologySnapshot { nodes: Vec::new(), edges: Vec::new() };
        proof {
            assert(t@ =~= Topology::empty());
        }
        t
    }

    /// The place of the first node with the given id.
    pub fn place(&self, id: NodeId) -> (r: Option<usize>)
        ensures
            match r {
                Some(i) => i == place_of(self@.nodes, id) && i < self.nodes@.len(),
                None => !self@.has(id),
            },
    {
        let mut i: usize = 0;
        while i < self.nodes.len()
            invariant
                i <= self.nodes@.len(),
                forall|k: int| 0 <= k < i ==> (#[trigger] self@.nodes[k]).id != id,
            decreases self.nodes@.len() - i,
        {
            assert(self@.nodes[i as int].id == self.nodes@[i as int].id);
            if self.nodes[i].id == id {
                proof {
                    lemma_place_is(self@.nodes, id, i as int);
                }
                return Some(i);
            }
            i = i + 1;
        }
        proof {
            lemma_no_place(self@.nodes, id);
        }
        None
    }

    /// The first node with the given id.
    pub fn node(&self, id: NodeId) -> (r: Option<&NodeSnapshot>)
        ensures
            match r {
                Some(n) => self@.has(id) && n@ == self@.get(id),
                None => !self@.has(id),
            },
    {
        match self.place(id) {
            Some(i) => Some(&self.nodes[i]),
            None => None,
        }
    }

    /// Applies a mutation.
    pub fn apply(&mut self, mutation: &Mutation)
        ensures
            final(self)@ == old(self)@.after(mutation@),
    {
        match mutation {
            Mutation::AddNode(n) => {
                let ghost before = self@;
                match self.place(n.id) {
                    Some(i) => {
                        self.nodes.set(i, n.clone());
                        proof {
                            assert(self@ =~= before.after(mutation@));
                        }
                    },
                    None => {
                        self.nodes.push(n.clone());
                        proof {
                            assert(self@ =~= before.after(mutation@));
                        }
                    },
                }
            },
            Mutation::RemoveNode(id) => {
                self.remove_node(*id);
            },
            Mutation::AddLink(e) => {
                self.edges.push(*e);
                proof {
                    assert(self@ =~= old(self)@.after(mutation@));
                }
            },
            Mutation::RemoveLink(id) => {
                if *id < self.edges.len() {
                    let _ = self.edges.remove(*id);
                }
                proof {
                    assert(self@ =~= old(self)@.after(mutation@));
                }
            },
        }
    }

    fn remove_node(&mut self, id: NodeId)
        ensures
            final(self)@ == old(self)@.after(MutationView::RemoveNode(id)),
    {
        let ghost before = self@;
        let mut nodes: Vec<NodeSnapshot> = Vec::new();
        let mut i: usize = 0;
        while i < self.nodes.len()
            invariant
                i <= self.nodes@.len(),
                self@ == before,
                node_views(nodes@) == nodes_without(before.nodes.take(i as int), id),
            decreases self.nodes@.len() - i,
        {
            let ghost next = before.nodes.take(i + 1);
            proof {
                assert(next.drop_last() =~= before.nodes.take(i as int));
                assert(next.last() == self.nodes@[i as int]@);
            }
            if self.nodes[i].id != id {
                let ghost kept = nodes@;
                nodes.push(self.nodes[i].clone());
                proof {
                    assert(node_views(nodes@) =~= node_views(kept).push(next.last()));
                }
            }
            i = i + 1;
        }
        let mut edges: Vec<SnapshotEdge> = Vec::new();
        let mut k: usize = 0;
        while k < self.edges.len()
            invariant
                k <= self.edges@.len(),
                self@ == before,
                edges@ == edges_without(before.edges.take(k as int), id),
            decreases self.edges@.len() - k,
        {
            let e = self.edges[k];
            proof {
                let next = before.edges.take(k + 1);
                assert(next.drop_last() =~= before.edges.take(k as int));
                assert(next.last() == e);
            }
            if !(e.from.0 == id || e.to.0 == id) {
                edges.push(e);
            }
            k = k + 1;
        }
        proof {
            assert(before.nodes.take(before.nodes.len() as int) =~= before.nodes);
            assert(before.edges.take(before.edges.len() as int) =~= before.edges);
        }
        self.nodes = nodes;
        self.edges = edges;
        proof {
            assert(self@ =~= before.after(MutationView::RemoveNode(id)));
        }
    }
}

impl Clone for TopologySnapshot {
    /// A copy with the same contents.
    fn clone(&self) -> (r: Self)
        ensures
            r@ == self@,
    {
        let mut nodes: Vec<NodeSnapshot> = Vec::new();
        let mut i: usize = 0;
        while i < self.nodes.len()
            invariant
                i <= self.nodes@.len(),
                node_views(nodes@) =~= node_views(self.nodes@).take(i as int),
            decreases self.nodes@.len() - i,
        {
            let ghost kept = nodes@;
            nodes.push(self.nodes[i].clone());
            proof {
                assert(node_views(nodes@) =~= node_views(kept).push(self.nodes@[i as int]@));
            }
            i = i + 1;
        }
        let r = TopologySnapshot { nodes, edges: self.edges.clone() };
        proof {
            assert(r.edges@ =~= self.edges@);
            assert(r@ =~= self@);
        }
        r
    }
}

/// What is left after a removal: no node with the id, every other node that was
/// there, and no new one.
pub proof fn lemma_nodes_without(nodes: Seq<NodeView>, id: NodeId)
    ensures
        nodes_without(nodes, id).len() <= nodes.len(),
        forall|i: int|
            0 <= i < nodes_without(nodes, id).len() ==> (#[trigger] nodes_without(nodes, id)[i]).id
                != id && nodes.contains(nodes_without(nodes, id)[i]),
        forall|i: int|
            0 <= i < nodes.len() && (#[trigger] nodes[i]).id != id ==> nodes_without(
                nodes,
                id,
            ).contains(nodes[i]),
    decreases nodes.len(),
{
    if nodes.len() > 0 {
        let front = nodes.drop_last();
        let left = nodes_without(front, id);
        let all = nodes_without(nodes, id);
        lemma_nodes_without(front, id);
        assert forall|i: int| 0 <= i < all.len() implies (#[trigger] all[i]).id != id
            && nodes.contains(all[i]) by {
            if i < left.len() {
                assert(all[i] == left[i]);
                assert(left[i].id != id && front.contains(left[i]));
                let k = choose|k: int| 0 <= k < front.len() && front[k] == left[i];
                assert(nodes[k] == left[i]);
            } else {
                assert(nodes[nodes.len() - 1] == all[i]);
            }
        }
        assert forall|i: int| 0 <= i < nodes.len() && (#[trigger] nodes[i]).id != id implies all.contains(
            nodes[i],
        ) by {
            if i < front.len() {
                assert(front[i] == nodes[i]);
                assert(left.contains(front[i]));
                let k = choose|k: int| 0 <= k < left.len() && left[k] == front[i];
                assert(all[k] == nodes[i]);
            } else {
                assert(all[all.len() - 1] == nodes[i]);
            }
        }
    }
}

/// What is left after a removal: no link that touches the node, every other
/// link that was there, and no new one.
pub proof fn lemma_edges_without(edges: Seq<SnapshotEdge>, id: NodeId)
    ensures
        edges_without(edges, id).len() <= edges.len(),
        forall|i: int|
            0 <= i < edges_without(edges, id).len() ==> !touches(
                #[trigger] edges_without(edges, id)[i],
                id,
            ) && edges.contains(edges_without(edges, id)[i]),
        forall|i: int|
            0 <= i < edges.len() && !touches(#[trigger] edges[i], id) ==> edges_without(
                edges,
                id,
            ).contains(edges[i]),
    decreases edges.len(),
{
    if edges.len() > 0 {
        let front = edges.drop_last();
        let left = edges_without(front, id);
        let all = edges_without(edges, id);
        lemma_edges_without(front, id);
        assert forall|i: int| 0 <= i < all.len() implies !touches(#[trigger] all[i], id)
            && edges.contains(all[i]) by {
            if i < left.len() {
                assert(all[i] == left[i]);
                assert(!touches(left[i], id) && front.contains(left[i]));
                let k = choose|k: int| 0 <= k < front.len() && front[k] == left[i];
                assert(edges[k] == left[i]);
            } else {
                assert(edges[edges.len() - 1] == all[i]);
            }
        }
        assert forall|i: int|
            0 <= i < edges.len() && !touches(#[trigger] edges[i], id) implies all.contains(
            edges[i],
        ) by {
            if i < front.len() {
                assert(front[i] == edges[i]);
                assert(left.contains(front[i]));
                let k = choose|k: int| 0 <= k < left.len() && left[k] == front[i];
                assert(all[k] == edges[i]);
            } else {
                assert(all[all.len() - 1] == edges[i]);
            }
        }
    }
}

} // verus!

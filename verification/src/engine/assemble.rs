//! Building a graph from a topology.
//!
//! Ids of a topology may have gaps. In the graph a node is identified by its
//! place, so every link is carried over to the places of the nodes it joins.

use crate::control::topology::{NodeId, NodeView, SnapshotEdge, Topology, TopologySnapshot};
use crate::graph::{
    block_fits, compile_graph, graph_acts, graph_links, graph_nodes, graph_rings, graph_setup,
    law_ranked_links_are_fine, link_ports, links_in_range, refusal, ring_at, stuck_nodes, GraphAct,
    GraphConfig, GraphFaultView, NodeShape, PortRef, RingNode,
};
use crate::port::{PortDir, PortMeta, SampleFormat};
use crate::text::{decimal, with_number};
use std::collections::HashMap;
use vstd::prelude::*;

verus! {

broadcast use vstd::std_specs::hash::group_hash_axioms;

/// Makes the nodes of a topology.
pub trait NodeFactory: Sized {
    /// Whether the factory is in order.
    spec fn wf(&self) -> bool;

    /// Whether there is a node for the id.
    spec fn knows(&self, id: NodeId) -> bool;

    /// What the graph knows of the node for the id.
    spec fn shape(&self, id: NodeId) -> NodeShape;

    /// Whether `node`, the ring node that a graph has for the id, if it has one, is the
    /// one that the factory made last for it: where the factory keeps an end of a ring
    /// for the id, it is an end of that node's ring.
    spec fn tied(&self, id: NodeId, node: Option<RingNode>) -> bool;

    /// Makes the node for the id and adds it to the graph, behind the others;
    /// gives its place, or nothing where the id is unknown.
    fn build(&mut self, id: NodeId, graph: &mut audio_graph_bsd::Graph) -> (r: Option<usize>)
        requires
            old(self).wf(),
        ensures
            final(self).wf(),
            r is Some <==> old(self).knows(id),
            r is Some ==> r->0 == graph_nodes(*old(graph)).len(),
            r is Some ==> graph_nodes(*final(graph)) == graph_nodes(*old(graph)).push(
                old(self).shape(id),
            ),
            r is Some ==> graph_rings(*final(graph)).remove(r->0) == graph_rings(
                *old(graph),
            ).remove(r->0),
            r is Some ==> graph_links(*final(graph)) == graph_links(*old(graph)),
            r is Some ==> graph_setup(*final(graph)) == graph_setup(*old(graph)),
            r is Some ==> graph_acts(*final(graph)) == graph_acts(*old(graph)),
            r is Some ==> final(self).tied(id, ring_at(graph_rings(*final(graph)), r->0)),
            forall|k: NodeId, n: Option<RingNode>|
                k != id ==> #[trigger] final(self).tied(k, n) == old(self).tied(k, n),
            forall|k: NodeId| #[trigger] final(self).knows(k) == old(self).knows(k),
            forall|k: NodeId| #[trigger] final(self).shape(k) == old(self).shape(k),
    ;
}

/// Errors from building a graph.
#[derive(Debug, Clone, PartialEq, Eq)]
pub enum EngineError {
    /// The graph could not be built; carries the reason.
    Build(String),
}

impl EngineError {
    /// The text of the error.
    pub open spec fn text(self) -> Seq<char> {
        match self {
            EngineError::Build(m) => "graph build/compile failed: "@ + m@,
        }
    }

    /// The text of the error.
    pub fn message(&self) -> (s: String)
        ensures
            s@ == self.text(),
    {
        match self {
            EngineError::Build(m) => {
                let mut s = "graph build/compile failed: ".to_owned();
                s.append(m.as_str());
                s
            },
        }
    }
}

/// The places of the nodes; of nodes with the same id the last one counts.
pub open spec fn places(nodes: Seq<NodeView>) -> Map<NodeId, usize>
    decreases nodes.len(),
{
    if nodes.len() == 0 {
        Map::empty()
    } else {
        places(nodes.drop_last()).insert(nodes.last().id, (nodes.len() - 1) as usize)
    }
}

/// The first node that the factory does not know.
pub open spec fn first_unknown<F: NodeFactory>(nodes: Seq<NodeView>, factory: F) -> Option<NodeId>
    decreases nodes.len(),
{
    if nodes.len() == 0 {
        None
    } else {
        match first_unknown(nodes.drop_last(), factory) {
            Some(id) => Some(id),
            None => if factory.knows(nodes.last().id) {
                None
            } else {
                Some(nodes.last().id)
            },
        }
    }
}

/// What the graph knows of the nodes.
pub open spec fn shapes<F: NodeFactory>(nodes: Seq<NodeView>, factory: F) -> Seq<NodeShape> {
    nodes.map_values(|n: NodeView| factory.shape(n.id))
}

/// The links of the graph, or why there is none: the first link that starts or
/// ends at no node, or that the graph refuses.
pub open spec fn wiring(
    shapes: Seq<NodeShape>,
    places: Map<NodeId, usize>,
    edges: Seq<SnapshotEdge>,
) -> Result<Seq<(PortRef, PortRef)>, Seq<char>>
    decreases edges.len(),
{
    if edges.len() == 0 {
        Ok(Seq::empty())
    } else {
        let e = edges.last();
        match wiring(shapes, places, edges.drop_last()) {
            Err(text) => Err(text),
            Ok(links) => if !places.contains_key(e.from.0) {
                Err("edge from unknown node "@ + decimal(e.from.0 as nat))
            } else if !places.contains_key(e.to.0) {
                Err("edge to unknown node "@ + decimal(e.to.0 as nat))
            } else {
                let from = (places[e.from.0], e.from.1);
                let to = (places[e.to.0], e.to.1);
                match refusal(shapes, from, to) {
                    Some(fault) => Err(fault.text()),
                    None => Ok(links.push((from, to))),
                }
            },
        }
    }
}

/// The links of the graph that a topology and a factory make, or why there is no
/// graph.
pub open spec fn plan<F: NodeFactory>(t: Topology, factory: F) -> Result<
    Seq<(PortRef, PortRef)>,
    Seq<char>,
> {
    match first_unknown(t.nodes, factory) {
        Some(id) => Err("factory returned None for node "@ + decimal(id as nat)),
        None => match wiring(shapes(t.nodes, factory), places(t.nodes), t.edges) {
            Err(text) => Err(text),
            Ok(links) => {
                let stuck = stuck_nodes(t.nodes.len(), links);
                if stuck.len() > 0 {
                    Err(GraphFaultView::CycleDetected(stuck).text())
                } else {
                    Ok(links)
                }
            },
        },
    }
}

proof fn lemma_unknown_stays<F: NodeFactory>(nodes: Seq<NodeView>, factory: F, n: int)
    requires
        0 <= n <= nodes.len(),
    ensures
        first_unknown(nodes.take(n), factory) is Some ==> first_unknown(nodes, factory)
            == first_unknown(nodes.take(n), factory),
    decreases nodes.len() - n,
{
    if n < nodes.len() {
        lemma_unknown_stays(nodes, factory, n + 1);
        assert(nodes.take(n + 1).drop_last() =~= nodes.take(n));
    } else {
        assert(nodes.take(n) =~= nodes);
    }
}

proof fn lemma_wiring_fault_stays(
    shapes: Seq<NodeShape>,
    places: Map<NodeId, usize>,
    edges: Seq<SnapshotEdge>,
    n: int,
)
    requires
        0 <= n <= edges.len(),
    ensures
        wiring(shapes, places, edges.take(n)) is Err ==> wiring(shapes, places, edges) == wiring(
            shapes,
            places,
            edges.take(n),
        ),
    decreases edges.len() - n,
{
    if n < edges.len() {
        lemma_wiring_fault_stays(shapes, places, edges, n + 1);
        assert(edges.take(n + 1).drop_last() =~= edges.take(n));
    } else {
        assert(edges.take(n) =~= edges);
    }
}

/// Whether a factory is tied to the nodes that a graph has for the ids of a topology.
pub open spec fn all_tied<F: NodeFactory>(
    factory: F,
    nodes: Seq<NodeView>,
    rings: Map<usize, RingNode>,
) -> bool {
    forall|id: NodeId| #[trigger]
        places(nodes).contains_key(id) ==> factory.tied(id, ring_at(rings, places(nodes)[id]))
}

/// Builds and compiles the graph of a topology. What the factory keeps of the nodes
/// afterwards belongs to this graph.
pub fn build_graph<F: NodeFactory>(
    snapshot: &TopologySnapshot,
    config: GraphConfig,
    factory: &mut F,
) -> (r: Result<audio_graph_bsd::Graph, EngineError>)
    requires
        block_fits(config.channels, config.num_frames),
        old(factory).wf(),
    ensures
        final(factory).wf(),
        match plan(snapshot@, *old(factory)) {
            Err(text) => r matches Err(EngineError::Build(m)) && m@ == text,
            Ok(links) => r is Ok && {
                let g = r->Ok_0;
                &&& graph_nodes(g) == shapes(snapshot@.nodes, *old(factory))
                &&& graph_links(g) == links
                &&& graph_setup(g) == Some(config)
                &&& graph_acts(g) == Seq::<GraphAct>::empty()
                &&& all_tied(*final(factory), snapshot@.nodes, graph_rings(g))
            },
        },
        forall|k: NodeId| #[trigger] final(factory).knows(k) == old(factory).knows(k),
        forall|k: NodeId| #[trigger] final(factory).shape(k) == old(factory).shape(k),
{
    let ghost t = snapshot@;
    let ghost f = *factory;
    let mut g = audio_graph_bsd::Graph::new();
    let mut id_map: HashMap<NodeId, usize> = HashMap::new();
    proof {
        assert(id_map@ =~= places(t.nodes.take(0)));
        assert(graph_nodes(g) =~= shapes(t.nodes.take(0), f));
    }
    let mut i: usize = 0;
    while i < snapshot.nodes.len()
        invariant
            i <= snapshot.nodes@.len(),
            t == snapshot@,
            f == *old(factory),
            factory.wf(),
            forall|k: NodeId| #[trigger] factory.knows(k) == f.knows(k),
            forall|k: NodeId| #[trigger] factory.shape(k) == f.shape(k),
            first_unknown(t.nodes.take(i as int), f) is None,
            id_map@ == places(t.nodes.take(i as int)),
            graph_nodes(g) == shapes(t.nodes.take(i as int), f),
            all_tied(*factory, t.nodes.take(i as int), graph_rings(g)),
            graph_links(g) == Seq::<(PortRef, PortRef)>::empty(),
            graph_setup(g) is None,
            graph_acts(g) == Seq::<GraphAct>::empty(),
        decreases snapshot.nodes@.len() - i,
    {
        let id: NodeId = snapshot.nodes[i].id;
        let ghost next = t.nodes.take(i + 1);
        proof {
            assert(next.drop_last() =~= t.nodes.take(i as int));
            assert(next.last().id == id);
            lemma_unknown_stays(t.nodes, f, i + 1);
        }
        let ghost known = factory.knows(id);
        let ghost shape = factory.shape(id);
        assert(known == f.knows(id));
        assert(shape == f.shape(id));
        let ghost made = *factory;
        let ghost rings = graph_rings(g);
        match factory.build(id, &mut g) {
            None => {
                return Err(
                    EngineError::Build(with_number("factory returned None for node ", id as u64)),
                );
            },
            Some(place) => {
                id_map.insert(id, place);
                proof {
                    assert(graph_nodes(g) =~= shapes(next, f));
                    assert(id_map@ =~= places(next));
                    let front = t.nodes.take(i as int);
                    assert forall|other: NodeId| #[trigger]
                        places(next).contains_key(other) implies factory.tied(
                        other,
                        ring_at(graph_rings(g), places(next)[other]),
                    ) by {
                        if other != id {
                            lemma_places(front, other);
                            let at = places(front)[other];
                            assert(places(front).contains_key(other));
                            assert(made.tied(other, ring_at(rings, at)));
                            assert(graph_rings(g).remove(place).contains_key(at) == rings.remove(
                                place,
                            ).contains_key(at));
                            assert(graph_rings(g).remove(place)[at] == rings.remove(place)[at]);
                            assert(ring_at(graph_rings(g), at) == ring_at(rings, at));
                        }
                    }
                }
            },
        }
        i = i + 1;
    }
    proof {
        assert(t.nodes.take(i as int) =~= t.nodes);
    }
    let ghost all = shapes(t.nodes, f);
    let ghost map = places(t.nodes);
    let mut k: usize = 0;
    while k < snapshot.edges.len()
        invariant
            k <= snapshot.edges@.len(),
            t == snapshot@,
            f == *old(factory),
            factory.wf(),
            forall|k: NodeId| #[trigger] factory.knows(k) == f.knows(k),
            forall|k: NodeId| #[trigger] factory.shape(k) == f.shape(k),
            first_unknown(t.nodes, f) is None,
            all == shapes(t.nodes, f),
            map == places(t.nodes),
            id_map@ == map,
            graph_nodes(g) == all,
            all_tied(*factory, t.nodes, graph_rings(g)),
            wiring(all, map, t.edges.take(k as int)) == Ok::<Seq<(PortRef, PortRef)>, Seq<char>>(
                graph_links(g),
            ),
            links_in_range(all.len(), graph_links(g)),
            graph_setup(g) is None,
            graph_acts(g) == Seq::<GraphAct>::empty(),
        decreases snapshot.edges@.len() - k,
    {
        let e = snapshot.edges[k];
        proof {
            let next = t.edges.take(k + 1);
            assert(next.drop_last() =~= t.edges.take(k as int));
            assert(next.last() == e);
            lemma_wiring_fault_stays(all, map, t.edges, k + 1);
        }
        let from: usize = match id_map.get(&e.from.0) {
            Some(n) => *n,
            None => {
                return Err(
                    EngineError::Build(with_number("edge from unknown node ", e.from.0 as u64)),
                );
            },
        };
        let to: usize = match id_map.get(&e.to.0) {
            Some(n) => *n,
            None => {
                return Err(
                    EngineError::Build(with_number("edge to unknown node ", e.to.0 as u64)),
                );
            },
        };
        match link_ports(&mut g, (from, e.from.1), (to, e.to.1)) {
            Ok(_) => {},
            Err(fault) => {
                return Err(EngineError::Build(fault.message()));
            },
        }
        k = k + 1;
    }
    proof {
        assert(t.edges.take(k as int) =~= t.edges);
    }
    match compile_graph(&mut g, config) {
        Ok(()) => Ok(g),
        Err(fault) => Err(EngineError::Build(fault.message())),
    }
}

/// One mono port.
pub fn mono_port(direction: PortDir) -> (ports: Vec<PortMeta>)
    ensures
        ports@ == seq![PortMeta { direction, channels: 1, sample_format: SampleFormat::F32 }],
{
    let mut ports: Vec<PortMeta> = Vec::new();
    ports.push(PortMeta { direction, channels: 1, sample_format: SampleFormat::F32 });
    proof {
        assert(ports@ =~= seq![
            PortMeta { direction, channels: 1, sample_format: SampleFormat::F32 },
        ]);
    }
    ports
}

proof fn lemma_places(nodes: Seq<NodeView>, id: NodeId)
    requires
        nodes.len() <= usize::MAX,
    ensures
        places(nodes).contains_key(id) <==> exists|i: int|
            0 <= i < nodes.len() && (#[trigger] nodes[i]).id == id,
        places(nodes).contains_key(id) ==> places(nodes)[id] < nodes.len()
            && nodes[places(nodes)[id] as int].id == id,
    decreases nodes.len(),
{
    if nodes.len() > 0 {
        let front = nodes.drop_last();
        lemma_places(front, id);
        assert forall|i: int| 0 <= i < front.len() implies front[i] == #[trigger] nodes[i] by {}
        if nodes.last().id == id {
            assert(nodes[nodes.len() - 1].id == id);
        } else if places(nodes).contains_key(id) {
            assert(places(front).contains_key(id));
            let i = choose|i: int| 0 <= i < front.len() && (#[trigger] front[i]).id == id;
            assert(nodes[i].id == id);
        }
        if exists|i: int| 0 <= i < nodes.len() && (#[trigger] nodes[i]).id == id {
            let i = choose|i: int| 0 <= i < nodes.len() && (#[trigger] nodes[i]).id == id;
            if i < front.len() {
                assert(front[i].id == id);
            }
        }
    }
}

/// Every link of the graph joins the nodes that the link of the topology joins,
/// at the same ports: the place of an end holds a node with the id of that end.
pub proof fn law_links_are_carried_over(
    nodes: Seq<NodeView>,
    shapes: Seq<NodeShape>,
    edges: Seq<SnapshotEdge>,
    i: int,
)
    requires
        nodes.len() <= usize::MAX,
        wiring(shapes, places(nodes), edges) is Ok,
        0 <= i < edges.len(),
    ensures
        wiring(shapes, places(nodes), edges)->Ok_0.len() == edges.len(),
        ({
            let link = wiring(shapes, places(nodes), edges)->Ok_0[i];
            &&& link.0.0 < nodes.len() && nodes[link.0.0 as int].id == edges[i].from.0
            &&& link.1.0 < nodes.len() && nodes[link.1.0 as int].id == edges[i].to.0
            &&& link.0.1 == edges[i].from.1
            &&& link.1.1 == edges[i].to.1
        }),
    decreases edges.len(),
{
    let e = edges.last();
    lemma_places(nodes, e.from.0);
    lemma_places(nodes, e.to.0);
    if edges.len() == 1 {
        assert(edges.drop_last() =~= Seq::empty());
        assert(wiring(shapes, places(nodes), edges.drop_last()) == Ok::<
            Seq<(PortRef, PortRef)>,
            Seq<char>,
        >(Seq::empty()));
    } else if i < edges.len() - 1 {
        law_links_are_carried_over(nodes, shapes, edges.drop_last(), i);
    } else {
        law_links_are_carried_over(nodes, shapes, edges.drop_last(), 0);
    }
}

proof fn lemma_wiring_in_range(
    shapes: Seq<NodeShape>,
    places: Map<NodeId, usize>,
    edges: Seq<SnapshotEdge>,
)
    ensures
        wiring(shapes, places, edges) is Ok ==> links_in_range(
            shapes.len(),
            wiring(shapes, places, edges)->Ok_0,
        ),
    decreases edges.len(),
{
    if edges.len() > 0 {
        lemma_wiring_in_range(shapes, places, edges.drop_last());
    }
}

/// A topology that the factory knows all nodes of, and whose links the graph takes
/// one by one, is built where the nodes can be ranked so that every link leads to a
/// higher rank.
pub proof fn law_ranked_topologies_are_built<F: NodeFactory>(
    t: Topology,
    factory: F,
    rank: Seq<nat>,
)
    requires
        first_unknown(t.nodes, factory) is None,
        wiring(shapes(t.nodes, factory), places(t.nodes), t.edges) is Ok,
        rank.len() == t.nodes.len(),
        ({
            let links = wiring(shapes(t.nodes, factory), places(t.nodes), t.edges)->Ok_0;
            forall|k: int|
                0 <= k < links.len() ==> rank[(#[trigger] links[k]).0.0 as int]
                    < rank[links[k].1.0 as int]
        }),
    ensures
        plan(t, factory) == wiring(shapes(t.nodes, factory), places(t.nodes), t.edges),
{
    let links = wiring(shapes(t.nodes, factory), places(t.nodes), t.edges)->Ok_0;
    lemma_wiring_in_range(shapes(t.nodes, factory), places(t.nodes), t.edges);
    law_ranked_links_are_fine(t.nodes.len(), links, rank);
}

/// In a topology whose links are anchored no link starts or ends at an unknown
/// node.
pub proof fn law_anchored_links_have_places(t: Topology, i: int)
    requires
        t.nodes.len() <= usize::MAX,
        t.links_are_anchored(),
        0 <= i < t.edges.len(),
    ensures
        places(t.nodes).contains_key(t.edges[i].from.0),
        places(t.nodes).contains_key(t.edges[i].to.0),
{
    let e = t.edges[i];
    crate::control::topology::lemma_place_of(t.nodes, e.from.0);
    crate::control::topology::lemma_place_of(t.nodes, e.to.0);
    lemma_places(t.nodes, e.from.0);
    lemma_places(t.nodes, e.to.0);
    assert(t.nodes[crate::control::topology::place_of(t.nodes, e.from.0)].id == e.from.0);
    assert(t.nodes[crate::control::topology::place_of(t.nodes, e.to.0)].id == e.to.0);
}

/// Each node of a topology is found at its own place. Of nodes with the same id the last
/// one counts, and an id that no node has is not found.
pub proof fn law_places_of_nodes(nodes: Seq<NodeView>, id: NodeId, i: int)
    requires
        nodes.len() <= usize::MAX,
    ensures
        0 <= i < nodes.len() && nodes[i].id == id && (forall|k: int|
            i < k < nodes.len() ==> (#[trigger] nodes[k]).id != id) ==> places(nodes).contains_key(
            id,
        ) && places(nodes)[id] == i,
        places(nodes).contains_key(id) <==> exists|k: int|
            0 <= k < nodes.len() && (#[trigger] nodes[k]).id == id,
    decreases nodes.len(),
{
    if nodes.len() > 0 {
        let rest = nodes.drop_last();
        let end = nodes.len() - 1;
        law_places_of_nodes(rest, id, i);
        if 0 <= i < end {
            assert(rest[i] == nodes[i]);
            assert forall|k: int| i < k < rest.len() && (forall|j: int|
                i < j < nodes.len() ==> (#[trigger] nodes[j]).id != id) implies (
            #[trigger] rest[k]).id != id by {
                assert(rest[k] == nodes[k]);
            }
            if forall|j: int| i < j < nodes.len() ==> (#[trigger] nodes[j]).id != id {
                assert(nodes[end].id != id);
            }
        }
        if places(nodes).contains_key(id) {
            if nodes[end].id != id {
                let k = choose|k: int| 0 <= k < rest.len() && (#[trigger] rest[k]).id == id;
                assert(nodes[k].id == id);
            } else {
                assert(nodes[end].id == id);
            }
        }
        if exists|k: int| 0 <= k < nodes.len() && (#[trigger] nodes[k]).id == id {
            let k = choose|k: int| 0 <= k < nodes.len() && (#[trigger] nodes[k]).id == id;
            if k < end {
                assert(rest[k].id == id);
            }
        }
    }
}

/// The node that is reported as unknown is the first one that the factory does not know,
/// and none is reported where it knows them all.
pub proof fn law_the_first_unknown_node_is_reported<F: NodeFactory>(
    t: Topology,
    factory: F,
    i: int,
)
    ensures
        0 <= i < t.nodes.len() && !factory.knows(t.nodes[i].id) && (forall|k: int|
            0 <= k < i ==> factory.knows((#[trigger] t.nodes[k]).id)) ==> plan(t, factory)
            == Err::<Seq<(PortRef, PortRef)>, Seq<char>>(
            "factory returned None for node "@ + decimal(t.nodes[i].id as nat),
        ),
        (forall|k: int| 0 <= k < t.nodes.len() ==> factory.knows((#[trigger] t.nodes[k]).id))
            <==> first_unknown(t.nodes, factory) is None,
{
    lemma_all_known(t.nodes, factory, t.nodes.len() as int);
    assert(t.nodes.take(t.nodes.len() as int) =~= t.nodes);
    if first_unknown(t.nodes, factory) is None {
        assert forall|k: int| 0 <= k < t.nodes.len() implies factory.knows(
            (#[trigger] t.nodes[k]).id,
        ) by {
            lemma_known(t.nodes, factory, k);
        }
    }
    if 0 <= i < t.nodes.len() && !factory.knows(t.nodes[i].id) && (forall|k: int|
        0 <= k < i ==> factory.knows((#[trigger] t.nodes[k]).id)) {
        lemma_all_known(t.nodes, factory, i);
        lemma_unknown_stays(t.nodes, factory, i + 1);
        assert(t.nodes.take(i + 1).drop_last() =~= t.nodes.take(i));
    }
}

proof fn lemma_all_known<F: NodeFactory>(nodes: Seq<NodeView>, factory: F, n: int)
    requires
        0 <= n <= nodes.len(),
    ensures
        (forall|k: int| 0 <= k < n ==> factory.knows((#[trigger] nodes[k]).id)) ==> first_unknown(
            nodes.take(n),
            factory,
        ) is None,
    decreases n,
{
    if n > 0 {
        lemma_all_known(nodes, factory, n - 1);
        assert(nodes.take(n).drop_last() =~= nodes.take(n - 1));
        if forall|k: int| 0 <= k < n ==> factory.knows((#[trigger] nodes[k]).id) {
            assert(factory.knows(nodes[n - 1].id));
        }
    }
}

proof fn lemma_known<F: NodeFactory>(nodes: Seq<NodeView>, factory: F, k: int)
    requires
        first_unknown(nodes, factory) is None,
        0 <= k < nodes.len(),
    ensures
        factory.knows(nodes[k].id),
    decreases nodes.len(),
{
    if k < nodes.len() - 1 {
        lemma_known(nodes.drop_last(), factory, k);
        assert(nodes.drop_last()[k] == nodes[k]);
    }
}

/// Links can be carried over exactly when each of them starts and ends at a node that has
/// a place and the graph accepts it between those places. Link by link, they then run
/// between those places and the same ports.
pub proof fn law_which_links_can_be_carried_over(
    shapes: Seq<NodeShape>,
    places: Map<NodeId, usize>,
    edges: Seq<SnapshotEdge>,
)
    ensures
        wiring(shapes, places, edges) is Ok <==> forall|k: int|
            0 <= k < edges.len() ==> {
                let e = #[trigger] edges[k];
                &&& places.contains_key(e.from.0)
                &&& places.contains_key(e.to.0)
                &&& refusal(shapes, (places[e.from.0], e.from.1), (places[e.to.0], e.to.1)) is None
            },
        wiring(shapes, places, edges) matches Ok(links) ==> links.len() == edges.len() && forall|k:
            int|
            0 <= k < links.len() ==> (#[trigger] links[k]).0 == (
                places[edges[k].from.0],
                edges[k].from.1,
            ) && links[k].1 == (places[edges[k].to.0], edges[k].to.1),
    decreases edges.len(),
{
    if edges.len() > 0 {
        let rest = edges.drop_last();
        let end = edges.len() - 1;
        law_which_links_can_be_carried_over(shapes, places, rest);
        if wiring(shapes, places, edges) is Ok {
            assert forall|k: int| 0 <= k < edges.len() implies {
                let e = #[trigger] edges[k];
                &&& places.contains_key(e.from.0)
                &&& places.contains_key(e.to.0)
                &&& refusal(shapes, (places[e.from.0], e.from.1), (places[e.to.0], e.to.1)) is None
            } by {
                if k < end {
                    assert(rest[k] == edges[k]);
                }
            }
            let links = wiring(shapes, places, edges)->Ok_0;
            assert forall|k: int| 0 <= k < links.len() implies (#[trigger] links[k]).0 == (
                places[edges[k].from.0],
                edges[k].from.1,
            ) && links[k].1 == (places[edges[k].to.0], edges[k].to.1) by {
                if k < end {
                    assert(links[k] == wiring(shapes, places, rest)->Ok_0[k]);
                    assert(rest[k] == edges[k]);
                }
            }
        }
        if forall|k: int|
            0 <= k < edges.len() ==> {
                let e = #[trigger] edges[k];
                &&& places.contains_key(e.from.0)
                &&& places.contains_key(e.to.0)
                &&& refusal(shapes, (places[e.from.0], e.from.1), (places[e.to.0], e.to.1)) is None
            } {
            assert forall|k: int| 0 <= k < rest.len() implies {
                let e = #[trigger] rest[k];
                &&& places.contains_key(e.from.0)
                &&& places.contains_key(e.to.0)
                &&& refusal(shapes, (places[e.from.0], e.from.1), (places[e.to.0], e.to.1)) is None
            } by {
                assert(rest[k] == edges[k]);
            }
            assert(places.contains_key(edges[end].from.0));
        }
    }
}

/// A graph can be built exactly when the factory knows every node, every link can be
/// carried over, and the links run in no circle.
pub proof fn law_when_a_graph_can_be_built<F: NodeFactory>(t: Topology, factory: F)
    ensures
        plan(t, factory) is Ok <==> {
            &&& forall|k: int| 0 <= k < t.nodes.len() ==> factory.knows((#[trigger] t.nodes[k]).id)
            &&& wiring(shapes(t.nodes, factory), places(t.nodes), t.edges) matches Ok(links)
            &&& stuck_nodes(t.nodes.len(), links).len() == 0
        },
        shapes(t.nodes, factory).len() == t.nodes.len(),
        forall|k: int|
            0 <= k < t.nodes.len() ==> #[trigger] shapes(t.nodes, factory)[k] == factory.shape(
                t.nodes[k].id,
            ),
{
    law_the_first_unknown_node_is_reported(t, factory, 0);
}

/// What is shown of an error ends in the reason.
pub proof fn law_engine_errors_end_in_the_reason(e: EngineError)
    ensures
        e matches EngineError::Build(m) ==> crate::text::ends_in(e.text(), m@) && e.text().take("graph build/compile failed: "@.len() as int) == "graph build/compile failed: "@,
{
    match e {
        EngineError::Build(m) => crate::text::lemma_ends_in("graph build/compile failed: "@, m@),
    }
}

} // verus!

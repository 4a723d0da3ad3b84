//! What single requests to the control surface come to, in terms of the lists of nodes and
//! links before and behind them.

use crate::control::controller::{
    asked, entry, link_fault, linked, mutations, next_id, settled_kind, spec_fault, store_fault,
    ControllerView, GraphController, ImportStep,
};
use crate::control::laws::law_new_id_is_unused;
use crate::control::model::{ControlError, ControlErrorView, NodeSpecView, PresetLink, PresetView};
use crate::control::store::{SessionStore, StoreErrorView};
use crate::control::topology::{
    edges_without, lemma_no_place, lemma_place_is, lemma_place_of, nodes_without, LinkId,
    MutationView, NodeId, NodeView, SnapshotEdge, Topology, TopologySnapshot,
};
use crate::port::{PortDir, SampleFormat};
use crate::text::is_white_space;
use vstd::prelude::*;

verus! {

/// Whether no node has the given id.
pub open spec fn is_missing(nodes: Seq<NodeView>, id: NodeId) -> bool {
    forall|i: int| 0 <= i < nodes.len() ==> (#[trigger] nodes[i]).id != id
}

/// Whether node `i` is the first one with the given id.
pub open spec fn is_first(nodes: Seq<NodeView>, id: NodeId, i: int) -> bool {
    &&& 0 <= i < nodes.len()
    &&& nodes[i].id == id
    &&& forall|k: int| 0 <= k < i ==> (#[trigger] nodes[k]).id != id
}

/// A topology has exactly the nodes that its list holds, and of several with one id the
/// first one counts.
pub proof fn law_which_nodes_there_are(t: Topology, id: NodeId, i: int)
    ensures
        is_missing(t.nodes, id) <==> !t.has(id),
        is_first(t.nodes, id, i) ==> t.has(id) && t.get(id) == t.nodes[i],
{
    lemma_place_of(t.nodes, id);
    if is_missing(t.nodes, id) {
        lemma_no_place(t.nodes, id);
    }
    if is_first(t.nodes, id, i) {
        lemma_place_is(t.nodes, id, i);
    }
}

/// A link between two nodes that exist is accepted exactly when the first has the output
/// port and the second the input port, whatever their ids. Else the request is bad. Where
/// one of the nodes is missing, it is refused.
pub proof fn law_which_links_are_accepted(
    t: Topology,
    from: NodeId,
    from_port: u16,
    to: NodeId,
    to_port: u16,
    i: int,
    j: int,
)
    ensures
        is_first(t.nodes, from, i) && is_first(t.nodes, to, j) ==> {
            let fault = link_fault(t, from, from_port, to, to_port);
            let fits = from_port < t.nodes[i].outputs.len() && to_port < t.nodes[j].inputs.len();
            &&& fault is None <==> fits
            &&& !fits ==> fault matches Some(ControlErrorView::BadRequest(_))
        },
        is_missing(t.nodes, from) ==> link_fault(t, from, from_port, to, to_port) matches Some(
            ControlErrorView::NotFound(_),
        ),
        is_first(t.nodes, from, i) && from_port < t.nodes[i].outputs.len() && is_missing(
            t.nodes,
            to,
        ) ==> link_fault(t, from, from_port, to, to_port) matches Some(
            ControlErrorView::NotFound(_),
        ),
        is_first(t.nodes, from, i) && from_port >= t.nodes[i].outputs.len() ==> link_fault(
            t,
            from,
            from_port,
            to,
            to_port,
        ) matches Some(ControlErrorView::BadRequest(_)),
{
    law_which_nodes_there_are(t, from, i);
    law_which_nodes_there_are(t, to, j);
}

/// A request for a link between ports that exist hands the link to the store. Where the
/// store takes it, it stands behind all others, its place is its id, and nothing else has
/// changed. A request for ports that do not exist fails and changes nothing.
pub proof fn law_what_a_link_request_does<S: SessionStore>(
    before: &GraphController<S>,
    after: &GraphController<S>,
    from: NodeId,
    from_port: u16,
    to: NodeId,
    to_port: u16,
    r: Result<LinkId, ControlError>,
    i: int,
    j: int,
)
    requires
        linked(before, after, from, from_port, to, to_port, r),
        is_first(before@.topology.nodes, from, i),
        is_first(before@.topology.nodes, to, j),
    ensures
        ({
            let nodes = before@.topology.nodes;
            let fits = from_port < nodes[i].outputs.len() && to_port < nodes[j].inputs.len();
            let e = SnapshotEdge { from: (from, from_port as usize), to: (to, to_port as usize) };
            let answer = before.store().answer(MutationView::AddLink(e));
            &&& !fits ==> r is Err && *after == *before
            &&& fits ==> (r is Ok <==> answer is Ok)
            &&& r matches Ok(id) ==> {
                &&& id == before@.topology.edges.len() as usize
                &&& after@.topology.edges == before@.topology.edges.push(e)
                &&& after@.topology.nodes == nodes
                &&& after@.labels == before@.labels
                &&& after@.kinds == before@.kinds
                &&& after@.params == before@.params
            }
            &&& fits && r is Err ==> {
                &&& after@.labels == before@.labels
                &&& after@.kinds == before@.kinds
                &&& after@.params == before@.params
            }
        }),
{
    law_which_links_are_accepted(before@.topology, from, from_port, to, to_port, i, j);
}

/// A request for a node is refused exactly when its label holds nothing but white space,
/// or when it names a kind that is not that of its parameters.
pub proof fn law_which_nodes_are_accepted(spec: NodeSpecView, i: int)
    ensures
        0 <= i < spec.label.len() && !is_white_space(spec.label[i]) ==> {
            &&& spec.kind is None || spec.params is None ==> spec_fault(spec) is None
            &&& spec.kind is Some && spec.params is Some ==> (spec_fault(spec) is None <==> spec.kind->0
                == spec.params->0.kind)
        },
        (forall|k: int| 0 <= k < spec.label.len() ==> is_white_space(#[trigger] spec.label[k]))
            ==> spec_fault(spec) is Some,
        spec_fault(spec) matches Some(e) ==> e is BadRequest,
        spec.kind is Some ==> settled_kind(spec) == spec.kind,
        spec.kind is None && spec.params is None ==> settled_kind(spec) is None,
        spec.kind is None ==> (spec.params matches Some(p) ==> settled_kind(spec) == Some(p.kind)),
{
}

/// The first node has the id 1, and a later one the id behind the greatest in use, as long
/// as there is one.
pub proof fn law_ids_count_up(t: Topology, i: int)
    ensures
        t.nodes.len() == 0 ==> next_id(t) == 1,
        0 <= i < t.nodes.len() && (forall|k: int|
            0 <= k < t.nodes.len() ==> (#[trigger] t.nodes[k]).id <= t.nodes[i].id) && t.nodes[i].id
            < usize::MAX ==> next_id(t) == t.nodes[i].id + 1,
        0 <= i < t.nodes.len() && t.nodes[i].id == usize::MAX ==> next_id(t) == usize::MAX,
{
    lemma_greatest_is_there(t.nodes);
    if 0 <= i < t.nodes.len() {
        let k = choose|k: int|
            0 <= k < t.nodes.len() && (#[trigger] t.nodes[k]).id
                == crate::control::controller::greatest_id(t.nodes);
        assert(t.nodes[k].id >= t.nodes[i].id);
    }
}

proof fn lemma_greatest_is_there(nodes: Seq<NodeView>)
    ensures
        forall|i: int|
            0 <= i < nodes.len() ==> (#[trigger] nodes[i]).id
                <= crate::control::controller::greatest_id(nodes),
        nodes.len() > 0 ==> exists|k: int|
            0 <= k < nodes.len() && (#[trigger] nodes[k]).id
                == crate::control::controller::greatest_id(nodes),
        nodes.len() == 0 ==> crate::control::controller::greatest_id(nodes) == 0,
    decreases nodes.len(),
{
    if nodes.len() > 0 {
        let front = nodes.drop_last();
        let most = crate::control::controller::greatest_id(nodes);
        lemma_greatest_is_there(front);
        assert forall|i: int| 0 <= i < nodes.len() implies (#[trigger] nodes[i]).id <= most by {
            if i < front.len() {
                assert(nodes[i] == front[i]);
            }
        }
        let end = nodes.len() - 1;
        if nodes[end].id == most {
            assert(nodes[end].id == most);
        } else if front.len() > 0 {
            let k = choose|k: int|
                0 <= k < front.len() && (#[trigger] front[k]).id
                    == crate::control::controller::greatest_id(front);
            assert(nodes[k].id == most);
        }
    }
}

/// Nodes are listed in their order, each with its id, the count of its ports on either
/// side, the label that it was given or one made of its id, and the kind and parameters
/// that it was given, if any.
pub proof fn law_nodes_are_listed(v: ControllerView, i: int)
    requires
        0 <= i < v.topology.nodes.len(),
    ensures
        v.cards().len() == v.topology.nodes.len(),
        ({
            let n = v.topology.nodes[i];
            let card = v.cards()[i];
            &&& card.id == n.id
            &&& n.inputs.len() <= u16::MAX ==> card.inputs == n.inputs.len()
            &&& n.outputs.len() <= u16::MAX ==> card.outputs == n.outputs.len()
            &&& v.labels.contains_key(n.id) ==> card.label == v.labels[n.id]
            &&& !v.labels.contains_key(n.id) ==> card.label == "node-"@ + crate::text::decimal(
                n.id as nat,
            )
            &&& v.kinds.contains_key(n.id) ==> card.kind == Some(v.kinds[n.id])
            &&& !v.kinds.contains_key(n.id) ==> card.kind is None
            &&& v.params.contains_key(n.id) ==> card.params == Some(v.params[n.id])
            &&& !v.params.contains_key(n.id) ==> card.params is None
        }),
{
}

/// Links are listed in their order, each with its place and the nodes and ports at its
/// two ends.
pub proof fn law_links_are_listed(v: ControllerView, i: int)
    requires
        0 <= i < v.topology.edges.len(),
    ensures
        v.links().len() == v.topology.edges.len(),
        ({
            let e = v.topology.edges[i];
            let info = v.links()[i];
            &&& i <= usize::MAX ==> info.id == i
            &&& info.from == e.from.0
            &&& info.to == e.to.0
            &&& e.from.1 <= u16::MAX ==> info.from_port == e.from.1
            &&& e.to.1 <= u16::MAX ==> info.to_port == e.to.1
        }),
{
}

/// A preset holds what is listed: all nodes and all links, in their order.
pub proof fn law_presets_hold_what_is_listed(v: ControllerView, i: int)
    ensures
        v.preset().version == 1,
        v.preset().nodes == v.cards(),
        v.preset().links.len() == v.links().len(),
        0 <= i < v.topology.edges.len() ==> v.preset().links[i] == (PresetLink {
            from: v.links()[i].from,
            from_port: v.links()[i].from_port,
            to: v.links()[i].to,
            to_port: v.links()[i].to_port,
        }),
{
}

/// A new node is put behind the others, with as many ports as were asked for, each with
/// one channel of 32-bit floats; the links stay.
pub proof fn law_what_a_new_node_looks_like(v: ControllerView, spec: NodeSpecView, i: int)
    requires
        crate::control::controller::greatest_id(v.topology.nodes) < usize::MAX,
    ensures
        ({
            let nodes = v.with_node(spec).topology.nodes;
            let n = nodes.last();
            &&& nodes.drop_last() == v.topology.nodes
            &&& n.id == next_id(v.topology)
            &&& n.inputs.len() == spec.inputs
            &&& n.outputs.len() == spec.outputs
            &&& 0 <= i < spec.inputs ==> n.inputs[i].direction == PortDir::Input
                && n.inputs[i].channels == 1 && n.inputs[i].sample_format == SampleFormat::F32
            &&& 0 <= i < spec.outputs ==> n.outputs[i].direction == PortDir::Output
                && n.outputs[i].channels == 1 && n.outputs[i].sample_format == SampleFormat::F32
        }),
        v.with_node(spec).topology.edges == v.topology.edges,
{
    law_new_id_is_unused(v.topology);
    let nodes = v.with_node(spec).topology.nodes;
    assert(nodes.drop_last() =~= v.topology.nodes);
}

/// Putting a node in replaces the first node with its id, or appends the node where there
/// is none. No other node and no link changes.
pub proof fn law_what_adding_a_node_does(t: Topology, n: NodeView, i: int)
    ensures
        is_missing(t.nodes, n.id) ==> t.after(MutationView::AddNode(n)).nodes == t.nodes.push(n),
        is_first(t.nodes, n.id, i) ==> {
            let nodes = t.after(MutationView::AddNode(n)).nodes;
            &&& nodes.len() == t.nodes.len()
            &&& nodes[i] == n
            &&& forall|k: int| 0 <= k < nodes.len() && k != i ==> #[trigger] nodes[k] == t.nodes[k]
        },
        t.after(MutationView::AddNode(n)).edges == t.edges,
{
    law_which_nodes_there_are(t, n.id, i);
    if is_first(t.nodes, n.id, i) {
        lemma_place_is(t.nodes, n.id, i);
    }
}

/// Removing a node leaves exactly the nodes with another id and the links that neither
/// start nor end there, all in their order.
pub proof fn law_what_removing_a_node_does(t: Topology, id: NodeId)
    ensures
        t.after(MutationView::RemoveNode(id)).nodes == t.nodes.filter(|n: NodeView| n.id != id),
        t.after(MutationView::RemoveNode(id)).edges == t.edges.filter(
            |e: SnapshotEdge| e.from.0 != id && e.to.0 != id,
        ),
{
    lemma_nodes_filter(t.nodes, id);
    lemma_edges_filter(t.edges, id);
}

proof fn lemma_nodes_filter(nodes: Seq<NodeView>, id: NodeId)
    ensures
        nodes_without(nodes, id) == nodes.filter(|n: NodeView| n.id != id),
    decreases nodes.len(),
{
    reveal(Seq::filter);
    if nodes.len() > 0 {
        lemma_nodes_filter(nodes.drop_last(), id);
    }
}

proof fn lemma_edges_filter(edges: Seq<SnapshotEdge>, id: NodeId)
    ensures
        edges_without(edges, id) == edges.filter(
            |e: SnapshotEdge| e.from.0 != id && e.to.0 != id,
        ),
    decreases edges.len(),
{
    reveal(Seq::filter);
    if edges.len() > 0 {
        lemma_edges_filter(edges.drop_last(), id);
    }
}

/// Links are put in behind the others, and a link that is taken out leaves the others in
/// their order; neither touches a node. A place without a link changes nothing.
pub proof fn law_what_link_mutations_do(t: Topology, e: SnapshotEdge, at: LinkId)
    ensures
        t.after(MutationView::AddLink(e)) == (Topology { nodes: t.nodes, edges: t.edges.push(e) }),
        at < t.edges.len() ==> t.after(MutationView::RemoveLink(at)) == (Topology {
            nodes: t.nodes,
            edges: t.edges.take(at as int) + t.edges.skip(at + 1),
        }),
        at >= t.edges.len() ==> t.after(MutationView::RemoveLink(at)) == t,
{
    if at < t.edges.len() {
        assert(t.edges.remove(at as int) =~= t.edges.take(at as int) + t.edges.skip(at + 1));
    }
}

/// Whatever a store gives as its reason, it is passed on as an error of the graph.
pub proof fn law_store_refusals_are_graph_errors(e: StoreErrorView)
    ensures
        store_fault(e) is Graph,
        e matches StoreErrorView::InvalidMutation(m) ==> store_fault(e)->Graph_0 == m,
        e matches StoreErrorView::Persistence(m) ==> store_fault(e)->Graph_0 == m,
        e matches StoreErrorView::Unimplemented(m) ==> store_fault(e)->Graph_0 == "store: "@ + m,
{
}

/// The status of an answer depends on what kind of error it is, never on its text.
pub proof fn law_statuses(e: ControlErrorView)
    ensures
        e is BadRequest <==> e.status() == 400,
        e is NotFound <==> e.status() == 404,
        e is Graph <==> e.status() == 422,
        e is Unimplemented <==> e.status() == 501,
{
}

/// An import asks the store first to remove each node that is there, then to add each
/// saved node, and last to add each saved link, always in their order and for nothing
/// else.
pub proof fn law_what_an_import_asks_for(v: ControllerView, p: PresetView, i: int)
    ensures
        ({
            let count = v.topology.nodes.len();
            let new = p.nodes.len();
            let requests = mutations(v.import_steps(p));
            &&& requests.len() == count + new + p.links.len()
            &&& 0 <= i < count ==> requests[i] == MutationView::RemoveNode(v.topology.nodes[i].id)
            &&& 0 <= i < new ==> {
                &&& requests[count + i] matches MutationView::AddNode(n)
                &&& n.id == p.nodes[i].id
                &&& n.inputs.len() == p.nodes[i].inputs
                &&& n.outputs.len() == p.nodes[i].outputs
            }
            &&& 0 <= i < p.links.len() ==> requests[count + new + i] == MutationView::AddLink(
                SnapshotEdge {
                    from: (p.links[i].from, p.links[i].from_port as usize),
                    to: (p.links[i].to, p.links[i].to_port as usize),
                },
            )
        }),
{
    let steps = v.import_steps(p);
    let count = v.topology.nodes.len() as int;
    let new = p.nodes.len() as int;
    if 0 <= i < count {
        assert(mutations(steps)[i] == steps[i].mutation());
    }
    if 0 <= i < new {
        assert(mutations(steps)[count + i] == steps[count + i].mutation());
    }
    if 0 <= i < p.links.len() {
        assert(mutations(steps)[count + new + i] == steps[count + new + i].mutation());
    }
}

/// A step of an import records exactly what the saved node says: its label, and its kind
/// and parameters where it has some. A removal forgets all of them, and a link records
/// nothing.
pub proof fn law_what_an_import_step_records(
    v: ControllerView,
    step: ImportStep,
    other: NodeId,
)
    ensures
        step matches ImportStep::Install(c) ==> {
            let w = v.after_step(step);
            &&& w.label(c.id) == c.label
            &&& c.kind matches Some(k) ==> w.kinds.contains_key(c.id) && w.kinds[c.id] == k
            &&& c.kind is None ==> w.kinds == v.kinds
            &&& c.params matches Some(p) ==> w.params.contains_key(c.id) && w.params[c.id] == p
            &&& c.params is None ==> w.params == v.params
            &&& other != c.id ==> w.label(other) == v.label(other)
            &&& other != c.id ==> entry(w.kinds, other) == entry(v.kinds, other)
            &&& other != c.id ==> entry(w.params, other) == entry(v.params, other)
        },
        step matches ImportStep::Remove(id) ==> {
            let w = v.after_step(step);
            &&& !w.labels.contains_key(id)
            &&& !w.kinds.contains_key(id)
            &&& !w.params.contains_key(id)
        },
        step is Connect ==> v.after_step(step).same_registries(v),
{
}

/// Without a step the state stays as it is, and the last step of several starts from where the
/// others have led.
pub proof fn law_import_steps_follow_each_other(
    v: ControllerView,
    steps: Seq<ImportStep>,
    step: ImportStep,
)
    ensures
        v.after_steps(Seq::empty()) == v,
        v.after_steps(steps.push(step)) == v.after_steps(steps).after_step(step),
{
    assert(steps.push(step).drop_last() =~= steps);
}

/// A new node is recorded with its label, and with the kind and the parameters that it was
/// asked for with; nothing that is recorded of another node changes.
pub proof fn law_what_is_recorded_of_a_new_node(
    v: ControllerView,
    spec: NodeSpecView,
    other: NodeId,
)
    ensures
        ({
            let id = next_id(v.topology);
            let w = v.with_node(spec);
            &&& w.label(id) == spec.label
            &&& spec.kind is Some ==> entry(w.kinds, id) == spec.kind
            &&& spec.params is Some ==> entry(w.params, id) == spec.params
            &&& spec.kind is None ==> (spec.params matches Some(p) ==> entry(w.kinds, id) == Some(
                p.kind,
            ))
            &&& other != id ==> w.label(other) == v.label(other)
            &&& other != id ==> entry(w.kinds, other) == entry(v.kinds, other)
            &&& other != id ==> entry(w.params, other) == entry(v.params, other)
        }),
{
}

/// What is recorded of a node is found under its id, and nothing where nothing is recorded.
pub proof fn law_what_is_found_under_an_id<V>(m: Map<NodeId, V>, id: NodeId, value: V)
    ensures
        entry(m.insert(id, value), id) == Some(value),
        entry(m.remove(id), id) is None,
        entry(m, id) is Some <==> m.contains_key(id),
{
}

/// A request that the store refuses changes nothing that is recorded, and every request is
/// noted, with whether it was applied.
pub proof fn law_what_a_refused_request_leaves<S: SessionStore>(
    before: &GraphController<S>,
    after: &GraphController<S>,
    m: MutationView,
)
    requires
        asked(before, after, m),
    ensures
        after.store().requests().made.len() == before.store().requests().made.len() + 1,
        after.store().requests().made.last().mutation == m,
        after.store().requests().made.last().applied <==> before.store().answer(m) is Ok,
        before.store().answer(m) is Err ==> after@.labels == before@.labels && after@.kinds
            == before@.kinds && after@.params == before@.params,
{
}

/// What is shown of an error says what kind it is and ends in the reason.
pub proof fn law_control_errors_end_in_the_reason(e: ControlErrorView)
    ensures
        e matches ControlErrorView::Unimplemented(m) ==> crate::text::ends_in(e.text(), m) && e.text().take("not implemented: "@.len() as int) == "not implemented: "@,
        e matches ControlErrorView::BadRequest(m) ==> crate::text::ends_in(e.text(), m) && e.text().take("bad request: "@.len() as int) == "bad request: "@,
        e matches ControlErrorView::Graph(m) ==> crate::text::ends_in(e.text(), m) && e.text().take("graph: "@.len() as int) == "graph: "@,
        e matches ControlErrorView::NotFound(m) ==> crate::text::ends_in(e.text(), m) && e.text().take("not found: "@.len() as int) == "not found: "@,
{
    match e {
        ControlErrorView::Unimplemented(m) => crate::text::lemma_ends_in("not implemented: "@, m),
        ControlErrorView::BadRequest(m) => crate::text::lemma_ends_in("bad request: "@, m),
        ControlErrorView::Graph(m) => crate::text::lemma_ends_in("graph: "@, m),
        ControlErrorView::NotFound(m) => crate::text::lemma_ends_in("not found: "@, m),
    }
}

/// A snapshot is what its lists hold: node by node, in their order, with their ports, and
/// all links.
pub proof fn law_snapshots_hold_their_lists(t: TopologySnapshot, i: int)
    ensures
        t@.nodes.len() == t.nodes@.len(),
        t@.edges == t.edges@,
        0 <= i < t.nodes@.len() ==> {
            &&& t@.nodes[i].id == t.nodes@[i].id
            &&& t@.nodes[i].inputs == t.nodes@[i].inputs@
            &&& t@.nodes[i].outputs == t.nodes@[i].outputs@
        },
{
}

} // verus!

//! The controller: carries out requests against a session store and remembers
//! what the topology has no place for.
//!
//! The store holds nodes, ports and links. Labels, kinds and parameters live
//! beside it, in registries keyed by node, and are lost with the controller
//! unless a preset keeps them.

use crate::control::model::{
    params_view, preset_cards, text_view, ControlError, ControlErrorView, LinkInfo, ModuleId,
    NodeCard, NodeInfo, NodeSpec, NodeSpecView, Preset, PresetLink, PresetNode, PresetView,
    PRESET_VERSION,
};
use crate::control::params::{NodeParams, NodeParamsView};
use crate::control::store::{Requests, SessionStore, StoreError, StoreErrorView};
use crate::control::topology::{
    LinkId, Mutation, MutationView, NodeId, NodeSnapshot, NodeView, SnapshotEdge, Topology,
    TopologySnapshot,
};
use crate::port::{PortDir, PortMeta, SampleFormat};
use crate::text::{append_decimal, blank, decimal, is_blank, same_text, with_number};
use std::collections::HashMap;
use vstd::prelude::*;

verus! {

broadcast use vstd::std_specs::hash::group_hash_axioms;

/// Kinds of nodes.
pub type KindRegistry = HashMap<NodeId, String>;

/// Parameters of nodes.
pub type ParamsRegistry = HashMap<NodeId, NodeParams>;

/// The contents of a registry of texts.
pub open spec fn texts(m: Map<NodeId, String>) -> Map<NodeId, Seq<char>> {
    m.map_values(|s: String| s@)
}

/// The contents of a registry of parameters.
pub open spec fn settings(m: Map<NodeId, NodeParams>) -> Map<NodeId, NodeParamsView> {
    m.map_values(|p: NodeParams| p@)
}

/// What a controller holds: the store's topology and the registries.
#[verifier::ext_equal]
pub struct ControllerView {
    /// The topology.
    pub topology: Topology,
    /// Labels of nodes.
    pub labels: Map<NodeId, Seq<char>>,
    /// Kinds of nodes.
    pub kinds: Map<NodeId, Seq<char>>,
    /// Parameters of nodes.
    pub params: Map<NodeId, NodeParamsView>,
}

/// The entry of a registry, where there is one.
pub open spec fn entry<V>(m: Map<NodeId, V>, id: NodeId) -> Option<V> {
    if m.contains_key(id) {
        Some(m[id])
    } else {
        None
    }
}

/// A registry with an entry set, where there is something to set.
pub open spec fn with_entry<V>(m: Map<NodeId, V>, id: NodeId, value: Option<V>) -> Map<NodeId, V> {
    match value {
        Some(v) => m.insert(id, v),
        None => m,
    }
}

/// `count` mono ports.
pub open spec fn mono_ports(count: u16, direction: PortDir) -> Seq<PortMeta> {
    Seq::new(
        count as nat,
        |i: int| PortMeta { direction, channels: 1, sample_format: SampleFormat::F32 },
    )
}

/// The node that a request or a preset asks for.
pub open spec fn plain_node(id: NodeId, inputs: u16, outputs: u16) -> NodeView {
    NodeView {
        id,
        inputs: mono_ports(inputs, PortDir::Input),
        outputs: mono_ports(outputs, PortDir::Output),
    }
}

/// The greatest id in use, or 0.
pub open spec fn greatest_id(nodes: Seq<NodeView>) -> NodeId
    decreases nodes.len(),
{
    if nodes.len() == 0 {
        0
    } else if nodes.last().id > greatest_id(nodes.drop_last()) {
        nodes.last().id
    } else {
        greatest_id(nodes.drop_last())
    }
}

/// The id of the next node: one more than the greatest, or the greatest number
/// there is.
pub open spec fn next_id(t: Topology) -> NodeId {
    if greatest_id(t.nodes) == usize::MAX {
        usize::MAX
    } else {
        (greatest_id(t.nodes) + 1) as usize
    }
}

/// The error that reports what a store answered.
pub open spec fn store_fault(e: StoreErrorView) -> ControlErrorView {
    match e {
        StoreErrorView::InvalidMutation(m) => ControlErrorView::Graph(m),
        StoreErrorView::Persistence(m) => ControlErrorView::Graph(m),
        StoreErrorView::Unimplemented(m) => ControlErrorView::Graph("store: "@ + m),
    }
}

/// The kind of a new node: the kind asked for, else that of its parameters.
pub open spec fn settled_kind(spec: NodeSpecView) -> Option<Seq<char>> {
    match (spec.kind, spec.params) {
        (None, Some(p)) => Some(p.kind),
        _ => spec.kind,
    }
}

/// What is wrong with a request for a node.
pub open spec fn spec_fault(spec: NodeSpecView) -> Option<ControlErrorView> {
    if is_blank(spec.label) {
        Some(ControlErrorView::BadRequest("node label must not be empty"@))
    } else {
        match (spec.kind, spec.params) {
            (Some(k), Some(p)) => if k != p.kind {
                Some(
                    ControlErrorView::BadRequest(
                        "params variant '"@ + p.kind + "' does not match kind '"@ + k + "'"@,
                    ),
                )
            } else {
                None
            },
            _ => None,
        }
    }
}

/// What is wrong with a request for a link.
pub open spec fn link_fault(
    t: Topology,
    from: NodeId,
    from_port: u16,
    to: NodeId,
    to_port: u16,
) -> Option<ControlErrorView> {
    if !t.has(from) {
        Some(ControlErrorView::NotFound("source node "@ + decimal(from as nat)))
    } else if from_port >= t.get(from).outputs.len() {
        Some(
            ControlErrorView::BadRequest(
                "source node "@ + decimal(from as nat) + " has "@ + decimal(
                    t.get(from).outputs.len(),
                ) + " output port(s); from_port "@ + decimal(from_port as nat)
                    + " is out of range"@,
            ),
        )
    } else if !t.has(to) {
        Some(ControlErrorView::NotFound("destination node "@ + decimal(to as nat)))
    } else if to_port >= t.get(to).inputs.len() {
        Some(
            ControlErrorView::BadRequest(
                "destination node "@ + decimal(to as nat) + " has "@ + decimal(
                    t.get(to).inputs.len(),
                ) + " input port(s); to_port "@ + decimal(to_port as nat) + " is out of range"@,
            ),
        )
    } else {
        None
    }
}

/// A link between two ports.
pub open spec fn edge(from: NodeId, from_port: u16, to: NodeId, to_port: u16) -> SnapshotEdge {
    SnapshotEdge { from: (from, from_port as usize), to: (to, to_port as usize) }
}

/// One step of an import.
pub enum ImportStep {
    /// A node goes.
    Remove(NodeId),
    /// A saved node comes.
    Install(NodeCard),
    /// A saved link comes.
    Connect(PresetLink),
}

/// The mutations of several steps.
pub open spec fn mutations(steps: Seq<ImportStep>) -> Seq<MutationView> {
    steps.map_values(|s: ImportStep| s.mutation())
}

impl ImportStep {
    /// The mutation of the step.
    pub open spec fn mutation(self) -> MutationView {
        match self {
            ImportStep::Remove(id) => MutationView::RemoveNode(id),
            ImportStep::Install(c) => MutationView::AddNode(
                plain_node(c.id, c.inputs, c.outputs),
            ),
            ImportStep::Connect(l) => MutationView::AddLink(
                edge(l.from, l.from_port, l.to, l.to_port),
            ),
        }
    }
}

impl ControllerView {
    /// The label of a node: the one on record, or one made of its id.
    pub open spec fn label(self, id: NodeId) -> Seq<char> {
        if self.labels.contains_key(id) {
            self.labels[id]
        } else {
            "node-"@ + decimal(id as nat)
        }
    }

    /// What is known of a node.
    pub open spec fn card(self, n: NodeView) -> NodeCard {
        NodeCard {
            id: n.id,
            label: self.label(n.id),
            inputs: n.inputs.len() as u16,
            outputs: n.outputs.len() as u16,
            kind: entry(self.kinds, n.id),
            params: entry(self.params, n.id),
        }
    }

    /// What is known of every node.
    pub open spec fn cards(self) -> Seq<NodeCard> {
        self.topology.nodes.map_values(|n: NodeView| self.card(n))
    }

    /// Every link.
    pub open spec fn links(self) -> Seq<LinkInfo> {
        Seq::new(
            self.topology.edges.len(),
            |i: int|
                LinkInfo {
                    id: i as usize,
                    from: self.topology.edges[i].from.0,
                    from_port: self.topology.edges[i].from.1 as u16,
                    to: self.topology.edges[i].to.0,
                    to_port: self.topology.edges[i].to.1 as u16,
                },
        )
    }

    /// Every link, as a preset saves it.
    pub open spec fn saved_links(self) -> Seq<PresetLink> {
        Seq::new(
            self.topology.edges.len(),
            |i: int|
                PresetLink {
                    from: self.topology.edges[i].from.0,
                    from_port: self.topology.edges[i].from.1 as u16,
                    to: self.topology.edges[i].to.0,
                    to_port: self.topology.edges[i].to.1 as u16,
                },
        )
    }

    /// The preset of the whole state.
    pub open spec fn preset(self) -> PresetView {
        PresetView { version: PRESET_VERSION, nodes: self.cards(), links: self.saved_links() }
    }

    /// Whether the registries are the same.
    pub open spec fn same_registries(self, other: ControllerView) -> bool {
        self.labels == other.labels && self.kinds == other.kinds && self.params == other.params
    }

    /// The state with the node that a request asks for.
    pub open spec fn with_node(self, spec: NodeSpecView) -> ControllerView {
        let id = next_id(self.topology);
        ControllerView {
            topology: self.topology.after(
                MutationView::AddNode(plain_node(id, spec.inputs, spec.outputs)),
            ),
            labels: self.labels.insert(id, spec.label),
            kinds: with_entry(self.kinds, id, settled_kind(spec)),
            params: with_entry(self.params, id, spec.params),
        }
    }

    /// The state with another topology.
    pub open spec fn with_topology(self, m: MutationView) -> ControllerView {
        ControllerView {
            topology: self.topology.after(m),
            labels: self.labels,
            kinds: self.kinds,
            params: self.params,
        }
    }

    /// The state without a node and its links.
    pub open spec fn without_node(self, id: NodeId) -> ControllerView {
        ControllerView {
            topology: self.topology.after(MutationView::RemoveNode(id)),
            labels: self.labels.remove(id),
            kinds: self.kinds.remove(id),
            params: self.params.remove(id),
        }
    }

    /// The state after one step of an import.
    pub open spec fn after_step(self, step: ImportStep) -> ControllerView {
        match step {
            ImportStep::Remove(id) => self.without_node(id),
            ImportStep::Install(c) => ControllerView {
                topology: self.topology.after(step.mutation()),
                labels: self.labels.insert(c.id, c.label),
                kinds: with_entry(self.kinds, c.id, c.kind),
                params: with_entry(self.params, c.id, c.params),
            },
            ImportStep::Connect(_) => self.with_topology(step.mutation()),
        }
    }

    /// The state after several steps of an import.
    pub open spec fn after_steps(self, steps: Seq<ImportStep>) -> ControllerView
        decreases steps.len(),
    {
        if steps.len() == 0 {
            self
        } else {
            self.after_steps(steps.drop_last()).after_step(steps.last())
        }
    }

    /// The steps of an import: every node goes, then the saved nodes come, then
    /// the saved links.
    pub open spec fn import_steps(self, preset: PresetView) -> Seq<ImportStep> {
        self.topology.nodes.map_values(|n: NodeView| ImportStep::Remove(n.id))
            + preset.nodes.map_values(|c: NodeCard| ImportStep::Install(c))
            + preset.links.map_values(|l: PresetLink| ImportStep::Connect(l))
    }

    /// The state after an import.
    pub open spec fn imported(self, preset: PresetView) -> ControllerView {
        self.after_steps(self.import_steps(preset))
    }
}

/// The control surface.
pub trait ControlApi {
    /// Describes every node.
    fn list_nodes(&self) -> Vec<NodeInfo>;

    /// Describes every link.
    fn list_links(&self) -> Vec<LinkInfo>;

    /// Installs a new node.
    fn create_node(&mut self, spec: NodeSpec) -> Result<NodeId, ControlError>;

    /// Connects the first output of `from` to the first input of `to`.
    fn link(&mut self, from: NodeId, to: NodeId) -> Result<LinkId, ControlError>;

    /// Loads a plugin module.
    fn load_module(&self, path: &str) -> Result<ModuleId, ControlError>;

    /// Removes a node, and with it the links that touch it.
    fn delete_node(&mut self, id: NodeId) -> Result<(), ControlError>;

    /// Removes a link. Later links move up.
    fn delete_link(&mut self, id: LinkId) -> Result<(), ControlError>;
}

/// Carries out requests against a session store.
pub struct GraphController<S> {
    store: S,
    labels: HashMap<NodeId, String>,
    kinds: KindRegistry,
    params: ParamsRegistry,
}

impl<S: SessionStore> View for GraphController<S> {
    type V = ControllerView;

    closed spec fn view(&self) -> ControllerView {
        ControllerView {
            topology: self.store.topology(),
            labels: texts(self.labels@),
            kinds: texts(self.kinds@),
            params: settings(self.params@),
        }
    }
}

impl<S: SessionStore> GraphController<S> {
    /// The store.
    pub closed spec fn store(self) -> S {
        self.store
    }

    /// A controller of `store`, with empty registries.
    pub fn new(store: S) -> (c: Self)
        ensures
            c.store() == store,
            c@ == (ControllerView {
                topology: store.topology(),
                labels: Map::empty(),
                kinds: Map::empty(),
                params: Map::empty(),
            }),
    {
        let c = GraphController::new_with_registries(store, HashMap::new(), HashMap::new());
        proof {
            assert(c@.kinds =~= Map::empty());
            assert(c@.params =~= Map::empty());
        }
        c
    }

    /// A controller of `store`, with kinds that are known already.
    pub fn new_with_kind_registry(store: S, kinds: KindRegistry) -> (c: Self)
        ensures
            c.store() == store,
            c@ == (ControllerView {
                topology: store.topology(),
                labels: Map::empty(),
                kinds: texts(kinds@),
                params: Map::empty(),
            }),
    {
        let c = GraphController::new_with_registries(store, kinds, HashMap::new());
        proof {
            assert(c@.params =~= Map::empty());
        }
        c
    }

    /// A controller of `store`, with kinds and parameters that are known already.
    pub fn new_with_registries(store: S, kinds: KindRegistry, params: ParamsRegistry) -> (c: Self)
        ensures
            c.store() == store,
            c@ == (ControllerView {
                topology: store.topology(),
                labels: Map::empty(),
                kinds: texts(kinds@),
                params: settings(params@),
            }),
    {
        let c = GraphController { store, labels: HashMap::new(), kinds, params };
        proof {
            assert(c@.labels =~= Map::empty());
        }
        c
    }

    /// The kind on record for a node.
    pub fn kind_of(&self, id: NodeId) -> (k: Option<String>)
        ensures
            text_view(k) == entry(self@.kinds, id),
    {
        match self.kinds.get(&id) {
            Some(k) => Some(k.clone()),
            None => None,
        }
    }

    /// The parameters on record for a node.
    pub fn params_of(&self, id: NodeId) -> (p: Option<NodeParams>)
        ensures
            params_view(p) == entry(self@.params, id),
    {
        match self.params.get(&id) {
            Some(p) => Some(p.clone()),
            None => None,
        }
    }

    /// The label of a node: the one on record, or one made of its id.
    pub fn label_of(&self, id: NodeId) -> (s: String)
        ensures
            s@ == self@.label(id),
    {
        match self.labels.get(&id) {
            Some(s) => s.clone(),
            None => with_number("node-", id as u64),
        }
    }

    fn record(
        &mut self,
        id: NodeId,
        label: String,
        kind: Option<String>,
        params: Option<NodeParams>,
    )
        ensures
            final(self).store() == old(self).store(),
            final(self)@.topology == old(self)@.topology,
            final(self)@.labels == old(self)@.labels.insert(id, label@),
            final(self)@.kinds == with_entry(old(self)@.kinds, id, text_view(kind)),
            final(self)@.params == with_entry(old(self)@.params, id, params_view(params)),
    {
        let ghost before = self@;
        self.labels.insert(id, label);
        if let Some(k) = kind {
            self.kinds.insert(id, k);
        }
        if let Some(p) = params {
            self.params.insert(id, p);
        }
        proof {
            assert(self@.labels =~= before.labels.insert(id, label@));
            assert(self@.kinds =~= with_entry(before.kinds, id, text_view(kind)));
            assert(self@.params =~= with_entry(before.params, id, params_view(params)));
        }
    }

    fn forget(&mut self, id: NodeId)
        ensures
            final(self).store() == old(self).store(),
            final(self)@.topology == old(self)@.topology,
            final(self)@.labels == old(self)@.labels.remove(id),
            final(self)@.kinds == old(self)@.kinds.remove(id),
            final(self)@.params == old(self)@.params.remove(id),
    {
        let ghost before = self@;
        let _ = self.labels.remove(&id);
        let _ = self.kinds.remove(&id);
        let _ = self.params.remove(&id);
        proof {
            assert(self@.labels =~= before.labels.remove(id));
            assert(self@.kinds =~= before.kinds.remove(id));
            assert(self@.params =~= before.params.remove(id));
        }
    }
}

/// `count` mono ports.
pub fn build_ports(count: u16, dir: PortDir) -> (ports: Vec<PortMeta>)
    ensures
        ports@ == mono_ports(count, dir),
{
    let mut ports: Vec<PortMeta> = Vec::new();
    let mut i: u16 = 0;
    while i < count
        invariant
            i <= count,
            ports@ =~= mono_ports(i, dir),
        decreases count - i,
    {
        ports.push(PortMeta { direction: dir, channels: 1, sample_format: SampleFormat::F32 });
        i = i + 1;
    }
    ports
}

/// The error that reports what a store answered.
pub fn store_err_to_control(e: StoreError) -> (c: ControlError)
    ensures
        c@ == store_fault(e@),
{
    match e {
        StoreError::InvalidMutation(m) => ControlError::Graph(m),
        StoreError::Persistence(m) => ControlError::Graph(m),
        StoreError::Unimplemented(m) => {
            let mut s = "store: ".to_owned();
            s.append(m);
            ControlError::Graph(s)
        },
    }
}

/// The id of the newest of `count` links.
pub fn newest_link(count: usize) -> (r: Result<LinkId, ControlError>)
    ensures
        if count > 0 {
            r == Ok::<LinkId, ControlError>((count - 1) as usize)
        } else {
            r matches Err(e) && e@ == ControlErrorView::Graph("link mutation did not persist"@)
        },
{
    if count > 0 {
        Ok(count - 1)
    } else {
        Err(ControlError::Graph("link mutation did not persist".to_owned()))
    }
}

/// The id of the next node of a topology.
pub fn fresh_id(t: &TopologySnapshot) -> (id: NodeId)
    ensures
        id == next_id(t@),
{
    let mut max: NodeId = 0;
    let mut i: usize = 0;
    while i < t.nodes.len()
        invariant
            i <= t.nodes@.len(),
            max == greatest_id(t@.nodes.take(i as int)),
        decreases t.nodes@.len() - i,
    {
        let id: NodeId = t.nodes[i].id;
        proof {
            let next = t@.nodes.take(i + 1);
            assert(next.drop_last() =~= t@.nodes.take(i as int));
            assert(next.last().id == id);
        }
        if id > max {
            max = id;
        }
        i = i + 1;
    }
    proof {
        assert(t@.nodes.take(i as int) =~= t@.nodes);
    }
    if max == usize::MAX {
        usize::MAX
    } else {
        max + 1
    }
}

/// Checks a request for a node and settles its kind.
pub fn settle_spec(spec: &NodeSpec) -> (r: Result<Option<String>, ControlError>)
    ensures
        match spec_fault(spec@) {
            Some(e) => r matches Err(f) && f@ == e,
            None => r matches Ok(kind) && text_view(kind) == settled_kind(spec@),
        },
{
    if blank(spec.label.as_str()) {
        return Err(ControlError::BadRequest("node label must not be empty".to_owned()));
    }
    match (&spec.kind, &spec.params) {
        (Some(kind), Some(params)) => {
            let actual = params.kind_name();
            if !same_text(kind.as_str(), actual) {
                let mut text = "params variant '".to_owned();
                text.append(actual);
                text.append("' does not match kind '");
                text.append(kind.as_str());
                text.append("'");
                return Err(ControlError::BadRequest(text));
            }
            Ok(Some(kind.clone()))
        },
        (Some(kind), None) => Ok(Some(kind.clone())),
        (None, Some(params)) => Ok(Some(params.kind_name().to_owned())),
        (None, None) => Ok(None),
    }
}

/// Checks a request for a link against a topology.
pub fn check_link(t: &TopologySnapshot, from: NodeId, from_port: u16, to: NodeId, to_port: u16) -> (r:
    Result<(), ControlError>)
    ensures
        match link_fault(t@, from, from_port, to, to_port) {
            Some(e) => r matches Err(f) && f@ == e,
            None => r is Ok,
        },
{
    let outputs: usize = match t.node(from) {
        Some(n) => n.outputs.len(),
        None => {
            return Err(ControlError::NotFound(with_number("source node ", from as u64)));
        },
    };
    if from_port as usize >= outputs {
        let mut text = with_number("source node ", from as u64);
        text.append(" has ");
        append_decimal(&mut text, outputs as u64);
        text.append(" output port(s); from_port ");
        append_decimal(&mut text, from_port as u64);
        text.append(" is out of range");
        return Err(ControlError::BadRequest(text));
    }
    let inputs: usize = match t.node(to) {
        Some(n) => n.inputs.len(),
        None => {
            return Err(ControlError::NotFound(with_number("destination node ", to as u64)));
        },
    };
    if to_port as usize >= inputs {
        let mut text = with_number("destination node ", to as u64);
        text.append(" has ");
        append_decimal(&mut text, inputs as u64);
        text.append(" input port(s); to_port ");
        append_decimal(&mut text, to_port as u64);
        text.append(" is out of range");
        return Err(ControlError::BadRequest(text));
    }
    Ok(())
}

impl<S: SessionStore> ControlApi for GraphController<S> {
    fn list_nodes(&self) -> (r: Vec<NodeInfo>)
        ensures
            r@.map_values(|n: NodeInfo| n@) == self@.cards(),
    {
        let topo = self.store.get_topology();
        let ghost state = self@;
        let mut r: Vec<NodeInfo> = Vec::new();
        let mut i: usize = 0;
        while i < topo.nodes.len()
            invariant
                i <= topo.nodes@.len(),
                state == self@,
                topo@ == state.topology,
                r@.map_values(|n: NodeInfo| n@) == state.cards().take(i as int),
            decreases topo.nodes@.len() - i,
        {
            let n = &topo.nodes[i];
            assert(n@ == state.topology.nodes[i as int]);
            let info = NodeInfo {
                id: n.id,
                label: self.label_of(n.id),
                inputs: n.inputs.len() as u16,
                outputs: n.outputs.len() as u16,
                kind: self.kind_of(n.id),
                params: self.params_of(n.id),
            };
            let ghost listed = r@;
            r.push(info);
            proof {
                assert(info@ == state.card(n@));
                assert(r@.map_values(|n: NodeInfo| n@) =~= listed.map_values(
                    |n: NodeInfo| n@,
                ).push(info@));
                assert(state.cards().take(i + 1) =~= state.cards().take(i as int).push(info@));
            }
            i = i + 1;
        }
        proof {
            assert(state.cards().take(i as int) =~= state.cards());
        }
        r
    }

    fn list_links(&self) -> (r: Vec<LinkInfo>)
        ensures
            r@ == self@.links(),
    {
        let topo = self.store.get_topology();
        let mut r: Vec<LinkInfo> = Vec::new();
        let mut i: usize = 0;
        while i < topo.edges.len()
            invariant
                i <= topo.edges@.len(),
                topo@ == self@.topology,
                r@ =~= self@.links().take(i as int),
            decreases topo.edges@.len() - i,
        {
            let e = topo.edges[i];
            r.push(
                LinkInfo {
                    id: i,
                    from: e.from.0,
                    from_port: e.from.1 as u16,
                    to: e.to.0,
                    to_port: e.to.1 as u16,
                },
            );
            i = i + 1;
        }
        proof {
            assert(r@ =~= self@.links());
        }
        r
    }

    fn create_node(&mut self, spec: NodeSpec) -> (r: Result<NodeId, ControlError>)
        ensures
            match spec_fault(spec@) {
                Some(e) => {
                    &&& r matches Err(f) && f@ == e
                    &&& *final(self) == *old(self)
                },
                None => {
                    let id = next_id(old(self)@.topology);
                    let m = MutationView::AddNode(plain_node(id, spec@.inputs, spec@.outputs));
                    &&& asked(old(self), final(self), m)
                    &&& match old(self).store().answer(m) {
                        Ok(_) => {
                            &&& r == Ok::<NodeId, ControlError>(id)
                            &&& final(self)@ == old(self)@.with_node(spec@)
                        },
                        Err(e) => r matches Err(f) && f@ == store_fault(e),
                    }
                },
            },
            old(self).store().applies_all() ==> final(self).store().applies_all(),
    {
        let ghost before = self@;
        let kind = match settle_spec(&spec) {
            Ok(kind) => kind,
            Err(e) => {
                return Err(e);
            },
        };
        let topo = self.store.get_topology();
        let id: NodeId = fresh_id(&topo);
        let node = NodeSnapshot {
            id,
            inputs: build_ports(spec.inputs, PortDir::Input),
            outputs: build_ports(spec.outputs, PortDir::Output),
        };
        assert(node@ =~= plain_node(id, spec@.inputs, spec@.outputs));
        match self.store.apply_mutation(Mutation::AddNode(node)) {
            Ok(_) => {},
            Err(e) => {
                return Err(store_err_to_control(e));
            },
        }
        self.record(id, spec.label, kind, spec.params);
        proof {
            assert(self@ =~= before.with_node(spec@));
        }
        Ok(id)
    }

    fn link(&mut self, from: NodeId, to: NodeId) -> (r: Result<LinkId, ControlError>)
        ensures
            linked(old(self), final(self), from, 0, to, 0, r),
    {
        self.link_ports(from, 0, to, 0)
    }

    fn load_module(&self, path: &str) -> (r: Result<ModuleId, ControlError>)
        ensures
            r matches Err(e) && e@ == ControlErrorView::Unimplemented(
                "hot plugin loading is M15 (P1); MVP is static-link only"@,
            ),
    {
        Err(ControlError::Unimplemented("hot plugin loading is M15 (P1); MVP is static-link only"))
    }

    fn delete_node(&mut self, id: NodeId) -> (r: Result<(), ControlError>)
        ensures
            if !old(self)@.topology.has(id) {
                &&& r matches Err(f) && f@ == ControlErrorView::NotFound(
                    "node "@ + decimal(id as nat),
                )
                &&& *final(self) == *old(self)
            } else {
                &&& asked(old(self), final(self), MutationView::RemoveNode(id))
                &&& match old(self).store().answer(MutationView::RemoveNode(id)) {
                    Ok(_) => r is Ok && final(self)@ == old(self)@.without_node(id),
                    Err(e) => r matches Err(f) && f@ == store_fault(e),
                }
            },
            old(self).store().applies_all() ==> final(self).store().applies_all(),
    {
        let ghost before = self@;
        let topo = self.store.get_topology();
        if topo.node(id).is_none() {
            return Err(ControlError::NotFound(with_number("node ", id as u64)));
        }
        match self.store.apply_mutation(Mutation::RemoveNode(id)) {
            Ok(_) => {},
            Err(e) => {
                return Err(store_err_to_control(e));
            },
        }
        self.forget(id);
        proof {
            assert(self@ =~= before.without_node(id));
        }
        Ok(())
    }

    fn delete_link(&mut self, id: LinkId) -> (r: Result<(), ControlError>)
        ensures
            if id >= old(self)@.topology.edges.len() {
                &&& r matches Err(f) && f@ == ControlErrorView::NotFound(
                    "link "@ + decimal(id as nat),
                )
                &&& *final(self) == *old(self)
            } else {
                &&& asked(old(self), final(self), MutationView::RemoveLink(id))
                &&& match old(self).store().answer(MutationView::RemoveLink(id)) {
                    Ok(_) => r is Ok && final(self)@ == old(self)@.with_topology(
                        MutationView::RemoveLink(id),
                    ),
                    Err(e) => r matches Err(f) && f@ == store_fault(e),
                }
            },
            old(self).store().applies_all() ==> final(self).store().applies_all(),
    {
        let topo = self.store.get_topology();
        if id >= topo.edges.len() {
            return Err(ControlError::NotFound(with_number("link ", id as u64)));
        }
        match self.store.apply_mutation(Mutation::RemoveLink(id)) {
            Ok(_) => Ok(()),
            Err(e) => Err(store_err_to_control(e)),
        }
    }
}

/// Whether the store was asked for one mutation and nothing else. Where it refused,
/// it stands as its refusal left it and the registries are as they were.
pub open spec fn asked<S: SessionStore>(
    before: &GraphController<S>,
    after: &GraphController<S>,
    m: MutationView,
) -> bool {
    &&& after.store().requests() == before.store().requests().with(
        m,
        before.store().answer(m) is Ok,
    )
    &&& before.store().answer(m) is Err ==> {
        &&& before.store().refuses(m, after.store())
        &&& after@.same_registries(before@)
    }
}

/// Whether an import got to its step `k`: `stores` are the store at the start and after
/// each step before, every one of which was put to the store and applied.
pub open spec fn got_to<S: SessionStore>(
    before: &GraphController<S>,
    preset: PresetView,
    k: int,
    stores: Seq<S>,
) -> bool {
    let steps = before@.import_steps(preset);
    &&& 0 <= k <= steps.len()
    &&& stores.len() == k + 1
    &&& stores[0] == before.store()
    &&& forall|i: int| 0 <= i < k ==> (#[trigger] stores[i]).answer(steps[i].mutation()) is Ok
    &&& forall|i: int|
        0 <= i <= k ==> {
            &&& (#[trigger] stores[i]).topology() == before@.after_steps(steps.take(i)).topology
            &&& stores[i].requests() == before.store().requests().with_all(
                mutations(steps.take(i)),
            )
        }
}

/// Whether an import was carried out: every step was applied, and nothing else was asked
/// for.
pub open spec fn carried_out<S: SessionStore>(
    before: &GraphController<S>,
    after: &GraphController<S>,
    preset: PresetView,
) -> bool {
    let count = before@.import_steps(preset).len() as int;
    &&& after@ == before@.imported(preset)
    &&& exists|stores: Seq<S>| #[trigger]
        got_to(before, preset, count, stores) && stores[count] == after.store()
}

/// Whether an import came to a stop at its step `k`: the store with the steps before
/// carried out refuses that step, and its refusal is what is reported. The store stands
/// as the refusal left it, and was asked for nothing else. The registries stand as they
/// do after the steps before.
pub open spec fn stopped_at<S: SessionStore>(
    before: &GraphController<S>,
    after: &GraphController<S>,
    preset: PresetView,
    error: ControlErrorView,
    k: int,
    stores: Seq<S>,
) -> bool {
    let steps = before@.import_steps(preset);
    let m = steps[k].mutation();
    &&& 0 <= k < steps.len()
    &&& got_to(before, preset, k, stores)
    &&& stores[k].answer(m) matches Err(e) && error == store_fault(e)
    &&& stores[k].refuses(m, after.store())
    &&& after.store().requests() == before.store().requests().with_all(
        mutations(steps.take(k)),
    ).with(m, false)
    &&& after@.same_registries(before@.after_steps(steps.take(k)))
}

/// Whether an import came to a stop at one of its steps.
pub open spec fn stopped<S: SessionStore>(
    before: &GraphController<S>,
    after: &GraphController<S>,
    preset: PresetView,
    error: ControlErrorView,
) -> bool {
    exists|k: int, stores: Seq<S>| #[trigger]
        stopped_at(before, after, preset, error, k, stores)
}

/// A request that is refused behind others shows.
proof fn lemma_refusal_shows(before: Requests, more: Seq<MutationView>, m: MutationView)
    ensures
        before.with_all(more).with(m, false).refused_since(before),
{
    let after = before.with_all(more).with(m, false);
    assert(!after.made[(before.made.len() + more.len()) as int].applied);
}

/// One more step that is applied takes an import one step further.
proof fn lemma_got_further<S: SessionStore>(
    before: &GraphController<S>,
    preset: PresetView,
    k: int,
    stores: Seq<S>,
    next: S,
)
    requires
        got_to(before, preset, k, stores),
        k < before@.import_steps(preset).len(),
        stores[k].answer(before@.import_steps(preset)[k].mutation()) is Ok,
        next.topology() == before@.after_steps(
            before@.import_steps(preset).take(k + 1),
        ).topology,
        next.requests() == stores[k].requests().with(
            before@.import_steps(preset)[k].mutation(),
            true,
        ),
    ensures
        got_to(before, preset, k + 1, stores.push(next)),
{
    let steps = before@.import_steps(preset);
    let r = before.store().requests();
    let m = steps[k].mutation();
    assert(mutations(steps.take(k + 1)) =~= mutations(steps.take(k)).push(m));
    assert(r.with_all(mutations(steps.take(k))).with(m, true) =~= r.with_all(
        mutations(steps.take(k + 1)),
    ));
    let all = stores.push(next);
    assert forall|i: int| 0 <= i < k + 1 implies (#[trigger] all[i]).answer(
        steps[i].mutation(),
    ) is Ok by {
        assert(all[i] == stores[i]);
    }
    assert forall|i: int| 0 <= i <= k + 1 implies {
        &&& (#[trigger] all[i]).topology() == before@.after_steps(steps.take(i)).topology
        &&& all[i].requests() == r.with_all(mutations(steps.take(i)))
    } by {
        if i <= k {
            assert(all[i] == stores[i]);
        }
    }
}

/// What a request for a link does: a request that is wrong changes nothing, and
/// any other is put to the store. A link that the store takes is the last one.
pub open spec fn linked<S: SessionStore>(
    before: &GraphController<S>,
    after: &GraphController<S>,
    from: NodeId,
    from_port: u16,
    to: NodeId,
    to_port: u16,
    r: Result<LinkId, ControlError>,
) -> bool {
    let m = MutationView::AddLink(edge(from, from_port, to, to_port));
    &&& match link_fault(before@.topology, from, from_port, to, to_port) {
        Some(e) => {
            &&& r matches Err(f) && f@ == e
            &&& *after == *before
        },
        None => {
            &&& asked(before, after, m)
            &&& match before.store().answer(m) {
                Ok(_) => {
                    &&& r == Ok::<LinkId, ControlError>(before@.topology.edges.len() as usize)
                    &&& after@ == before@.with_topology(m)
                },
                Err(e) => r matches Err(f) && f@ == store_fault(e),
            }
        },
    }
    &&& before.store().applies_all() ==> after.store().applies_all()
}

impl<S: SessionStore> GraphController<S> {
    /// Links an output port of `from` to an input port of `to`.
    pub fn link_ports(&mut self, from: NodeId, from_port: u16, to: NodeId, to_port: u16) -> (r:
        Result<LinkId, ControlError>)
        ensures
            linked(old(self), final(self), from, from_port, to, to_port, r),
    {
        let topo = self.store.get_topology();
        match check_link(&topo, from, from_port, to, to_port) {
            Ok(()) => {},
            Err(e) => {
                return Err(e);
            },
        }
        let e = SnapshotEdge { from: (from, from_port as usize), to: (to, to_port as usize) };
        match self.store.apply_mutation(Mutation::AddLink(e)) {
            Ok(_) => {},
            Err(e) => {
                return Err(store_err_to_control(e));
            },
        }
        let now = self.store.get_topology();
        assert(now.edges@.len() == topo.edges@.len() + 1);
        newest_link(now.edges.len())
    }

    /// Saves the whole state: nodes with labels, kinds and parameters, and links.
    pub fn export_preset(&self) -> (p: Preset)
        ensures
            p@ == self@.preset(),
    {
        let infos: Vec<NodeInfo> = self.list_nodes();
        let mut nodes: Vec<PresetNode> = Vec::new();
        let mut i: usize = 0;
        while i < infos.len()
            invariant
                i <= infos@.len(),
                infos@.map_values(|n: NodeInfo| n@) == self@.cards(),
                preset_cards(nodes@) =~= self@.cards().take(i as int),
            decreases infos@.len() - i,
        {
            let n = &infos[i];
            assert(n@ == infos@.map_values(|n: NodeInfo| n@)[i as int]);
            let kind = match &n.kind {
                Some(k) => Some(k.clone()),
                None => None,
            };
            let params = match &n.params {
                Some(p) => Some(p.clone()),
                None => None,
            };
            let saved = PresetNode {
                id: n.id,
                label: n.label.clone(),
                inputs: n.inputs,
                outputs: n.outputs,
                kind,
                params,
            };
            assert(saved@ == n@);
            let ghost done = nodes@;
            nodes.push(saved);
            proof {
                assert(preset_cards(nodes@) =~= preset_cards(done).push(saved@));
            }
            i = i + 1;
        }
        let infos: Vec<LinkInfo> = self.list_links();
        let mut links: Vec<PresetLink> = Vec::new();
        let mut k: usize = 0;
        while k < infos.len()
            invariant
                k <= infos@.len(),
                infos@ == self@.links(),
                links@ =~= self@.saved_links().take(k as int),
            decreases infos@.len() - k,
        {
            let l = infos[k];
            links.push(
                PresetLink { from: l.from, from_port: l.from_port, to: l.to, to_port: l.to_port },
            );
            k = k + 1;
        }
        let p = Preset { version: PRESET_VERSION, nodes, links };
        proof {
            assert(p@ =~= self@.preset());
        }
        p
    }

    /// Replaces the whole state by a preset: every node goes, then the saved
    /// nodes come with the ids they had, then the saved links. Where the store
    /// refuses a step, the steps before it stay done.
    pub fn import_preset(&mut self, preset: &Preset) -> (r: Result<(), ControlError>)
        ensures
            r is Ok ==> carried_out(old(self), final(self), preset@),
            r is Err ==> stopped(old(self), final(self), preset@, r->Err_0@),
            r is Err <==> final(self).store().requests().refused_since(
                old(self).store().requests(),
            ),
            old(self)@.import_steps(preset@).len() > 0 && old(self).store().answer(
                old(self)@.import_steps(preset@)[0].mutation(),
            ) is Err ==> r is Err,
            old(self).store().applies_all() ==> r is Ok && final(self).store().applies_all(),
    {
        let ghost before = self@;
        let ghost sure = self.store.applies_all();
        let ghost steps = before.import_steps(preset@);
        let topo = self.store.get_topology();
        let ghost n0 = topo.nodes@.len();
        let ghost n1 = preset.nodes@.len();
        let ghost n2 = preset.links@.len();
        let ghost log = self.store.requests();
        let ghost mut stores = seq![self.store];
        assert(steps.take(0) =~= Seq::empty());
        assert(log.with_all(mutations(steps.take(0))) =~= log);

        let mut i: usize = 0;
        while i < topo.nodes.len()
            invariant
                i <= n0,
                n0 == topo.nodes@.len(),
                topo@ == before.topology,
                steps == before.import_steps(preset@),
                before == old(self)@,
                sure == old(self).store().applies_all(),
                sure ==> self.store().applies_all(),
                self@ == before.after_steps(steps.take(i as int)),
                got_to(old(self), preset@, i as int, stores),
                stores[i as int] == self.store(),
                log == old(self).store().requests(),
            decreases topo.nodes@.len() - i,
        {
            let id: NodeId = topo.nodes[i].id;
            proof {
                assert(steps[i as int] == ImportStep::Remove(id));
                lemma_one_more_step(before, steps, i as int);
            }
            let ghost now = self@;
            match self.store.apply_mutation(Mutation::RemoveNode(id)) {
                Ok(_) => {},
                Err(e) => {
                    let error = store_err_to_control(e);
                    proof {
                        assert(stopped_at(old(self), self, preset@, error@, i as int, stores));
                        lemma_refusal_shows(log, mutations(steps.take(i as int)), steps[i as int].mutation());
                    }
                    return Err(error);
                },
            }
            self.forget(id);
            proof {
                assert(self@ =~= now.without_node(id));
                lemma_got_further(old(self), preset@, i as int, stores, self.store);
                stores = stores.push(self.store);
            }
            i = i + 1;
        }

        let mut k: usize = 0;
        while k < preset.nodes.len()
            invariant
                k <= n1,
                n0 == before.topology.nodes.len(),
                n1 == preset.nodes@.len(),
                steps == before.import_steps(preset@),
                before == old(self)@,
                sure == old(self).store().applies_all(),
                sure ==> self.store().applies_all(),
                self@ == before.after_steps(steps.take(n0 + k)),
                got_to(old(self), preset@, n0 + k, stores),
                stores[n0 + k] == self.store(),
                log == old(self).store().requests(),
            decreases preset.nodes@.len() - k,
        {
            let node = &preset.nodes[k];
            proof {
                assert(preset@.nodes[k as int] == node@);
                assert(steps[n0 + k] == ImportStep::Install(node@));
                lemma_one_more_step(before, steps, n0 + k);
            }
            let snapshot = NodeSnapshot {
                id: node.id,
                inputs: build_ports(node.inputs, PortDir::Input),
                outputs: build_ports(node.outputs, PortDir::Output),
            };
            assert(snapshot@ =~= plain_node(node.id, node.inputs, node.outputs));
            let ghost now = self@;
            match self.store.apply_mutation(Mutation::AddNode(snapshot)) {
                Ok(_) => {},
                Err(e) => {
                    let error = store_err_to_control(e);
                    proof {
                        assert(stopped_at(old(self), self, preset@, error@, n0 + k, stores));
                        lemma_refusal_shows(log, mutations(steps.take(n0 + k)), steps[n0 + k].mutation());
                    }
                    return Err(error);
                },
            }
            let kind = match &node.kind {
                Some(v) => Some(v.clone()),
                None => None,
            };
            let params = match &node.params {
                Some(v) => Some(v.clone()),
                None => None,
            };
            self.record(node.id, node.label.clone(), kind, params);
            proof {
                assert(self@ =~= now.after_step(ImportStep::Install(node@)));
                lemma_got_further(old(self), preset@, n0 + k, stores, self.store);
                stores = stores.push(self.store);
            }
            k = k + 1;
        }

        let mut j: usize = 0;
        while j < preset.links.len()
            invariant
                j <= n2,
                n0 == before.topology.nodes.len(),
                n1 == preset.nodes@.len(),
                n2 == preset.links@.len(),
                steps == before.import_steps(preset@),
                before == old(self)@,
                sure == old(self).store().applies_all(),
                sure ==> self.store().applies_all(),
                self@ == before.after_steps(steps.take(n0 + n1 + j)),
                got_to(old(self), preset@, n0 + n1 + j, stores),
                stores[n0 + n1 + j] == self.store(),
                log == old(self).store().requests(),
            decreases preset.links@.len() - j,
        {
            let link = preset.links[j];
            proof {
                assert(steps[n0 + n1 + j] == ImportStep::Connect(link));
                lemma_one_more_step(before, steps, n0 + n1 + j);
            }
            let e = SnapshotEdge {
                from: (link.from, link.from_port as usize),
                to: (link.to, link.to_port as usize),
            };
            let ghost now = self@;
            match self.store.apply_mutation(Mutation::AddLink(e)) {
                Ok(_) => {},
                Err(e) => {
                    let error = store_err_to_control(e);
                    proof {
                        assert(stopped_at(old(self), self, preset@, error@, n0 + n1 + j, stores));
                        lemma_refusal_shows(log, mutations(steps.take(n0 + n1 + j)), steps[n0 + n1 + j].mutation());
                    }
                    return Err(error);
                },
            }
            proof {
                assert(self@ =~= now.after_step(ImportStep::Connect(link)));
                lemma_got_further(old(self), preset@, n0 + n1 + j, stores, self.store);
                stores = stores.push(self.store);
            }
            j = j + 1;
        }
        proof {
            assert(steps.take((n0 + n1 + n2) as int) =~= steps);
            assert(got_to(old(self), preset@, steps.len() as int, stores));
        }
        Ok(())
    }
}

/// One more step of a list of steps.
proof fn lemma_one_more_step(v: ControllerView, steps: Seq<ImportStep>, k: int)
    requires
        0 <= k < steps.len(),
    ensures
        v.after_steps(steps.take(k + 1)) == v.after_steps(steps.take(k)).after_step(steps[k]),
{
    assert(steps.take(k + 1).drop_last() =~= steps.take(k));
}

} // verus!

//! The real-time graph engine, its ring nodes and its rings, and what is taken as
//! known of them.
//!
//! The graph itself is `audio_graph_bsd::Graph`, its ring nodes are
//! `audio_graph_bsd::RingSource` and `RingSink`, and the rings are those of
//! `rtrb`. Nothing in here is proved of them: each contract states what the code
//! of those crates does.

use crate::port::{PortDir, PortMeta, SampleFormat};
use crate::text::{append_decimal, decimal, with_number};
use audio_core_bsd::{AudioFrame, ProcessContext};
use audio_graph_bsd::{FlushError, GraphError, RingSink, RingSource};
use rtrb::{Consumer, Producer};
use vstd::prelude::*;

verus! {

/// The graph of the real-time engine.
#[verifier::external_type_specification]
#[verifier::external_body]
pub struct ExGraph(audio_graph_bsd::Graph);

/// A block of audio as the graph carries it.
#[verifier::external_type_specification]
#[verifier::external_body]
pub struct ExAudioFrame(AudioFrame);

/// What a cycle knows of itself.
#[verifier::external_type_specification]
#[verifier::external_body]
pub struct ExProcessContext(ProcessContext);

/// A sink that could not be flushed.
#[verifier::external_type_specification]
#[verifier::external_body]
pub struct ExFlushError(FlushError);

/// A node that feeds the graph from a ring.
#[verifier::external_type_specification]
#[verifier::external_body]
pub struct ExRingSource(RingSource);

/// A node that feeds a ring from the graph.
#[verifier::external_type_specification]
#[verifier::external_body]
pub struct ExRingSink(RingSink);

/// The writing end of a ring.
#[verifier::external_type_specification]
#[verifier::external_body]
#[verifier::reject_recursive_types(T)]
pub struct ExProducer<T>(Producer<T>);

/// The reading end of a ring.
#[verifier::external_type_specification]
#[verifier::external_body]
#[verifier::reject_recursive_types(T)]
pub struct ExConsumer<T>(Consumer<T>);

/// A node of a graph and one of its ports.
pub type PortRef = (usize, usize);

/// What a graph knows of a node.
#[verifier::ext_equal]
pub struct NodeShape {
    /// Its input ports.
    pub inputs: Seq<PortMeta>,
    /// Its output ports.
    pub outputs: Seq<PortMeta>,
    /// Whether it is flushed between cycles.
    pub sink: bool,
}

/// The sizes that a graph is compiled for.
#[derive(Debug, Clone, Copy, PartialEq, Eq, Structural)]
pub struct GraphConfig {
    /// Frames of a cycle, per channel.
    pub num_frames: usize,
    /// Sample rate in Hz.
    pub sample_rate: u32,
    /// Channels of every port.
    pub channels: u16,
}

impl GraphConfig {
    /// A configuration of the given sizes.
    pub fn new(num_frames: usize, sample_rate: u32, channels: u16) -> (c: Self)
        ensures
            c == (GraphConfig { num_frames, sample_rate, channels }),
    {
        GraphConfig { num_frames, sample_rate, channels }
    }
}

/// Whether a block of this size can be allocated at all.
pub open spec fn block_fits(channels: u16, num_frames: usize) -> bool {
    4 * (channels * num_frames) <= isize::MAX
}

/// Whether a ring of this capacity can be allocated at all.
pub open spec fn ring_fits(capacity: usize) -> bool {
    32 * capacity <= isize::MAX
}

/// The nodes of a graph, by their ids.
pub uninterp spec fn graph_nodes(g: audio_graph_bsd::Graph) -> Seq<NodeShape>;

/// The links of a graph, in the order in which they were made.
pub uninterp spec fn graph_links(g: audio_graph_bsd::Graph) -> Seq<(PortRef, PortRef)>;

/// The sizes that a graph has been compiled for.
pub uninterp spec fn graph_setup(g: audio_graph_bsd::Graph) -> Option<GraphConfig>;

/// What is done to a graph while it runs.
pub enum GraphAct {
    /// Every node was run once, over the blocks of one cycle.
    Pass,
    /// Every sink was flushed.
    Flush,
}

/// What has been done to a graph so far, the oldest first.
pub uninterp spec fn graph_acts(g: audio_graph_bsd::Graph) -> Seq<GraphAct>;

/// Whether links run between nodes that are there.
pub open spec fn links_in_range(count: nat, links: Seq<(PortRef, PortRef)>) -> bool {
    forall|k: int|
        0 <= k < links.len() ==> (#[trigger] links[k]).0.0 < count && links[k].1.0 < count
}

/// Whether a link leads from a node of a set to a node.
#[verifier::opaque]
pub open spec fn is_fed(links: Seq<(PortRef, PortRef)>, set: Set<usize>, n: usize) -> bool {
    exists|k: int|
        0 <= k < links.len() && (#[trigger] links[k]).1.0 == n && set.contains(links[k].0.0)
}

/// Whether every node of a set is fed by a node of the set.
pub open spec fn feeds_itself(
    count: nat,
    links: Seq<(PortRef, PortRef)>,
    set: Set<usize>,
) -> bool {
    forall|n: usize| #[trigger] set.contains(n) ==> n < count && is_fed(links, set, n)
}

/// Whether a node can never be brought into an order: it is in a circle of links
/// or behind one.
pub open spec fn is_stuck(count: nat, links: Seq<(PortRef, PortRef)>, n: usize) -> bool {
    exists|set: Set<usize>| #[trigger] feeds_itself(count, links, set) && set.contains(n)
}

/// The nodes that can never be brought into an order, from the first on.
pub open spec fn stuck_nodes(count: nat, links: Seq<(PortRef, PortRef)>) -> Seq<usize> {
    Seq::new(count, |i: int| i as usize).filter(|n: usize| is_stuck(count, links, n))
}

/// What a ring node was made with.
#[verifier::ext_equal]
pub struct RingNode {
    /// Channels of its port.
    pub channels: u16,
    /// Sample rate in Hz.
    pub sample_rate: u32,
    /// Frames of a block, per channel.
    pub num_frames: usize,
    /// The ring that it drains or fills.
    pub ring: int,
}

/// The ring nodes of a graph, by their ids.
pub uninterp spec fn graph_rings(g: audio_graph_bsd::Graph) -> Map<usize, RingNode>;

/// The ring node at a place, where there is one.
pub open spec fn ring_at(rings: Map<usize, RingNode>, place: usize) -> Option<RingNode> {
    if rings.contains_key(place) {
        Some(rings[place])
    } else {
        None
    }
}

/// What a source was made with.
pub uninterp spec fn source_setup(s: RingSource) -> RingNode;

/// What a sink was made with.
pub uninterp spec fn sink_setup(s: RingSink) -> RingNode;

/// One end of a ring.
#[verifier::ext_equal]
pub struct RingEnd {
    /// The ring.
    pub ring: int,
    /// Blocks that it has room for.
    pub capacity: usize,
    /// Blocks that went through this end so far, the oldest first.
    pub blocks: Seq<AudioFrame>,
}

impl RingEnd {
    /// The end after one more block went through it.
    pub open spec fn with_block(self, frame: AudioFrame) -> RingEnd {
        RingEnd { blocks: self.blocks.push(frame), ..self }
    }
}

/// The writing end of a ring.
pub uninterp spec fn writing_end(p: Producer<AudioFrame>) -> RingEnd;

/// The reading end of a ring.
pub uninterp spec fn reading_end(c: Consumer<AudioFrame>) -> RingEnd;

/// Why a graph refuses a link, a compilation or a cycle.
#[derive(Debug, PartialEq, Eq)]
pub enum GraphFault {
    /// The links run in a circle; these nodes are in it or behind it.
    CycleDetected {
        /// The nodes.
        nodes: Vec<usize>,
    },
    /// A node has no such port.
    PortNotFound {
        /// The node.
        node: usize,
        /// The port.
        port: usize,
    },
    /// A link does not run from an output to an input.
    PortDirectionMismatch {
        /// Where it starts.
        from: PortRef,
        /// Where it ends.
        to: PortRef,
    },
    /// The ends of a link differ in channels or sample format.
    PortIncompatible {
        /// Where it starts.
        from: PortRef,
        /// Where it ends.
        to: PortRef,
    },
    /// The graph has not been compiled.
    NotCompiled,
    /// The graph has been compiled already.
    AlreadyCompiled,
    /// There is no such node.
    NodeNotFound(usize),
}

/// The contents of a [`GraphFault`].
pub enum GraphFaultView {
    /// See [`GraphFault::CycleDetected`].
    CycleDetected(Seq<usize>),
    /// See [`GraphFault::PortNotFound`].
    PortNotFound(usize, usize),
    /// See [`GraphFault::PortDirectionMismatch`].
    PortDirectionMismatch(PortRef, PortRef),
    /// See [`GraphFault::PortIncompatible`].
    PortIncompatible(PortRef, PortRef),
    /// See [`GraphFault::NotCompiled`].
    NotCompiled,
    /// See [`GraphFault::AlreadyCompiled`].
    AlreadyCompiled,
    /// See [`GraphFault::NodeNotFound`].
    NodeNotFound(usize),
}

impl View for GraphFault {
    type V = GraphFaultView;

    open spec fn view(&self) -> GraphFaultView {
        match self {
            GraphFault::CycleDetected { nodes } => GraphFaultView::CycleDetected(nodes@),
            GraphFault::PortNotFound { node, port } => GraphFaultView::PortNotFound(*node, *port),
            GraphFault::PortDirectionMismatch { from, to } => GraphFaultView::PortDirectionMismatch(
                *from,
                *to,
            ),
            GraphFault::PortIncompatible { from, to } => GraphFaultView::PortIncompatible(
                *from,
                *to,
            ),
            GraphFault::NotCompiled => GraphFaultView::NotCompiled,
            GraphFault::AlreadyCompiled => GraphFaultView::AlreadyCompiled,
            GraphFault::NodeNotFound(n) => GraphFaultView::NodeNotFound(*n),
        }
    }
}

/// A port reference as a text.
pub open spec fn ref_text(r: PortRef) -> Seq<char> {
    "("@ + decimal(r.0 as nat) + ", "@ + decimal(r.1 as nat) + ")"@
}

/// The members of a list as a text, with commas between them.
pub open spec fn members_text(nodes: Seq<usize>) -> Seq<char>
    decreases nodes.len(),
{
    if nodes.len() == 0 {
        Seq::empty()
    } else if nodes.len() == 1 {
        decimal(nodes[0] as nat)
    } else {
        members_text(nodes.drop_last()) + ", "@ + decimal(nodes.last() as nat)
    }
}

impl GraphFaultView {
    /// The text of the fault.
    pub open spec fn text(self) -> Seq<char> {
        match self {
            GraphFaultView::CycleDetected(nodes) => "cycle detected in graph; unresolved nodes: ["@
                + members_text(nodes) + "]"@,
            GraphFaultView::PortNotFound(node, port) => "port "@ + decimal(port as nat)
                + " not found on node "@ + decimal(node as nat),
            GraphFaultView::PortDirectionMismatch(from, to) => "port direction mismatch: "@
                + ref_text(from) + " -> "@ + ref_text(to) + " (expected Output -> Input)"@,
            GraphFaultView::PortIncompatible(from, to) => "ports incompatible: "@ + ref_text(from)
                + " -> "@ + ref_text(to) + " (channels or sample format differ)"@,
            GraphFaultView::NotCompiled => "graph is not compiled; call Graph::compile first"@,
            GraphFaultView::AlreadyCompiled => "graph is already compiled"@,
            GraphFaultView::NodeNotFound(n) => "node "@ + decimal(n as nat) + " not found"@,
        }
    }
}

fn append_ref(s: &mut String, r: PortRef)
    ensures
        final(s)@ == old(s)@ + ref_text(r),
{
    let ghost start = s@;
    s.append("(");
    append_decimal(s, r.0 as u64);
    s.append(", ");
    append_decimal(s, r.1 as u64);
    s.append(")");
    proof {
        assert(s@ =~= start + ref_text(r));
    }
}

fn append_members(s: &mut String, nodes: &Vec<usize>)
    ensures
        final(s)@ == old(s)@ + members_text(nodes@),
{
    let ghost start = s@;
    proof {
        assert(start + members_text(nodes@.take(0)) =~= start);
    }
    let mut i: usize = 0;
    while i < nodes.len()
        invariant
            i <= nodes@.len(),
            s@ == start + members_text(nodes@.take(i as int)),
        decreases nodes@.len() - i,
    {
        proof {
            assert(nodes@.take(i + 1).drop_last() =~= nodes@.take(i as int));
        }
        if i > 0 {
            s.append(", ");
        }
        append_decimal(s, nodes[i] as u64);
        proof {
            assert(s@ =~= start + members_text(nodes@.take(i + 1)));
        }
        i = i + 1;
    }
    proof {
        assert(nodes@.take(i as int) =~= nodes@);
    }
}

impl GraphFault {
    /// The text of the fault.
    pub fn message(&self) -> (s: String)
        ensures
            s@ == self@.text(),
    {
        match self {
            GraphFault::CycleDetected { nodes } => {
                let mut s = "cycle detected in graph; unresolved nodes: [".to_owned();
                append_members(&mut s, nodes);
                s.append("]");
                s
            },
            GraphFault::PortNotFound { node, port } => {
                let mut s = with_number("port ", *port as u64);
                s.append(" not found on node ");
                append_decimal(&mut s, *node as u64);
                s
            },
            GraphFault::PortDirectionMismatch { from, to } => {
                let mut s = "port direction mismatch: ".to_owned();
                append_ref(&mut s, *from);
                s.append(" -> ");
                append_ref(&mut s, *to);
                s.append(" (expected Output -> Input)");
                s
            },
            GraphFault::PortIncompatible { from, to } => {
                let mut s = "ports incompatible: ".to_owned();
                append_ref(&mut s, *from);
                s.append(" -> ");
                append_ref(&mut s, *to);
                s.append(" (channels or sample format differ)");
                s
            },
            GraphFault::NotCompiled => "graph is not compiled; call Graph::compile first".to_owned(),
            GraphFault::AlreadyCompiled => "graph is already compiled".to_owned(),
            GraphFault::NodeNotFound(n) => {
                let mut s = with_number("node ", *n as u64);
                s.append(" not found");
                s
            },
        }
    }
}

/// Why a graph with the given nodes refuses a link.
pub open spec fn refusal(nodes: Seq<NodeShape>, from: PortRef, to: PortRef) -> Option<
    GraphFaultView,
> {
    if from.0 >= nodes.len() {
        Some(GraphFaultView::NodeNotFound(from.0))
    } else if to.0 >= nodes.len() {
        Some(GraphFaultView::NodeNotFound(to.0))
    } else if from.1 >= nodes[from.0 as int].outputs.len() {
        Some(GraphFaultView::PortNotFound(from.0, from.1))
    } else if to.1 >= nodes[to.0 as int].inputs.len() {
        Some(GraphFaultView::PortNotFound(to.0, to.1))
    } else {
        let a = nodes[from.0 as int].outputs[from.1 as int];
        let b = nodes[to.0 as int].inputs[to.1 as int];
        if a.direction != PortDir::Output || b.direction != PortDir::Input {
            Some(GraphFaultView::PortDirectionMismatch(from, to))
        } else if a.channels != b.channels || a.sample_format != b.sample_format {
            Some(GraphFaultView::PortIncompatible(from, to))
        } else {
            None
        }
    }
}

/// `Graph::new` makes a graph without nodes and links, not compiled, to which nothing
/// has been done.
pub assume_specification[ audio_graph_bsd::Graph::new ]() -> (g: audio_graph_bsd::Graph)
    ensures
        graph_nodes(g) == Seq::<NodeShape>::empty(),
        graph_rings(g).dom() == Set::<usize>::empty(),
        graph_links(g) == Seq::<(PortRef, PortRef)>::empty(),
        graph_setup(g) is None,
        graph_acts(g) == Seq::<GraphAct>::empty(),
;

/// `Graph::link` checks, in this order, that both nodes exist, that both ports
/// exist, that the link runs from an output to an input, and that channels and
/// sample formats agree. A link that passes is added behind the others and
/// identified by its place; the graph is otherwise left alone.
#[verifier::external_body]
pub(crate) fn link_ports(g: &mut audio_graph_bsd::Graph, from: PortRef, to: PortRef) -> (r: Result<
    usize,
    GraphFault,
>)
    ensures
        match refusal(graph_nodes(*old(g)), from, to) {
            None => r == Ok::<usize, GraphFault>(graph_links(*old(g)).len() as usize)
                && graph_links(*final(g)) == graph_links(*old(g)).push((from, to)),
            Some(fault) => r is Err && r->Err_0@ == fault && graph_links(*final(g)) == graph_links(
                *old(g),
            ),
        },
        graph_nodes(*final(g)) == graph_nodes(*old(g)),
        graph_rings(*final(g)) == graph_rings(*old(g)),
        graph_setup(*final(g)) == graph_setup(*old(g)),
        graph_acts(*final(g)) == graph_acts(*old(g)),
{
    g.link(from, to).map_err(
        |e| match e {
            GraphError::CycleDetected { nodes } => GraphFault::CycleDetected { nodes },
            GraphError::PortNotFound { node, port } => GraphFault::PortNotFound { node, port },
            GraphError::PortDirectionMismatch { from, to } => GraphFault::PortDirectionMismatch { from, to },
            GraphError::PortIncompatible { from, to } => GraphFault::PortIncompatible { from, to },
            GraphError::NotCompiled => GraphFault::NotCompiled,
            GraphError::AlreadyCompiled => GraphFault::AlreadyCompiled,
            GraphError::NodeNotFound(n) => GraphFault::NodeNotFound(n),
        },
    )
}

/// `Graph::compile` refuses a graph that is compiled already, and one with nodes
/// that are in a circle of links or behind one; it names these nodes. It fixes the
/// sizes of any other graph. It allocates a block for every port, so a block has
/// to fit into memory. What it makes of links to nodes that are not there is left
/// unsaid.
#[verifier::external_body]
pub(crate) fn compile_graph(g: &mut audio_graph_bsd::Graph, config: GraphConfig) -> (r: Result<(), GraphFault>)
    requires
        block_fits(config.channels, config.num_frames),
    ensures
        graph_setup(*old(g)) is Some ==> r is Err && r->Err_0@ == GraphFaultView::AlreadyCompiled
            && graph_setup(*final(g)) == graph_setup(*old(g)),
        graph_setup(*old(g)) is None && links_in_range(
            graph_nodes(*old(g)).len(),
            graph_links(*old(g)),
        ) ==> {
            let stuck = stuck_nodes(graph_nodes(*old(g)).len(), graph_links(*old(g)));
            if stuck.len() > 0 {
                r is Err && r->Err_0@ == GraphFaultView::CycleDetected(stuck) && graph_setup(
                    *final(g),
                ) is None
            } else {
                r is Ok && graph_setup(*final(g)) == Some(config)
            }
        },
        graph_nodes(*final(g)) == graph_nodes(*old(g)),
        graph_rings(*final(g)) == graph_rings(*old(g)),
        graph_links(*final(g)) == graph_links(*old(g)),
        graph_acts(*final(g)) == graph_acts(*old(g)),
{
    let config = audio_graph_bsd::GraphConfig::new(config.num_frames, config.sample_rate, config.channels);
    g.compile(config).map_err(
        |e| match e {
            GraphError::CycleDetected { nodes } => GraphFault::CycleDetected { nodes },
            GraphError::PortNotFound { node, port } => GraphFault::PortNotFound { node, port },
            GraphError::PortDirectionMismatch { from, to } => GraphFault::PortDirectionMismatch { from, to },
            GraphError::PortIncompatible { from, to } => GraphFault::PortIncompatible { from, to },
            GraphError::NotCompiled => GraphFault::NotCompiled,
            GraphError::AlreadyCompiled => GraphFault::AlreadyCompiled,
            GraphError::NodeNotFound(n) => GraphFault::NodeNotFound(n),
        },
    )
}

/// `Graph::process_cycle` makes one pass over a compiled graph, and refuses any other,
/// to which it does nothing. Nodes, links and sizes stay. What the nodes do to the
/// audio is left unsaid, as is whether a node that a factory brought along panics.
#[verifier::external_body]
pub(crate) fn run_graph(g: &mut audio_graph_bsd::Graph, ctx: &mut ProcessContext) -> (compiled:
    bool)
    ensures
        compiled == (graph_setup(*old(g)) is Some),
        graph_acts(*final(g)) == if compiled {
            graph_acts(*old(g)).push(GraphAct::Pass)
        } else {
            graph_acts(*old(g))
        },
        graph_nodes(*final(g)) == graph_nodes(*old(g)),
        graph_rings(*final(g)) == graph_rings(*old(g)),
        graph_links(*final(g)) == graph_links(*old(g)),
        graph_setup(*final(g)) == graph_setup(*old(g)),
{
    g.process_cycle(ctx).is_ok()
}

/// The count of sinks among nodes.
pub open spec fn sink_count(nodes: Seq<NodeShape>) -> nat
    decreases nodes.len(),
{
    if nodes.len() == 0 {
        0
    } else {
        sink_count(nodes.drop_last()) + if nodes.last().sink {
            1nat
        } else {
            0nat
        }
    }
}

/// `Graph::flush_sinks` flushes every sink and tells how many there are, with
/// the first failure among them. Whether a sink fails depends on its ring, which
/// another thread may be draining, so that is left open. Nodes, links and sizes
/// stay.
pub assume_specification[ audio_graph_bsd::Graph::flush_sinks ](g: &mut audio_graph_bsd::Graph) -> (r: (usize, Option<FlushError>))
    ensures
        r.0 == sink_count(graph_nodes(*old(g))),
        sink_count(graph_nodes(*old(g))) == 0 ==> r.1 is None,
        graph_acts(*final(g)) == graph_acts(*old(g)).push(GraphAct::Flush),
        graph_nodes(*final(g)) == graph_nodes(*old(g)),
        graph_rings(*final(g)) == graph_rings(*old(g)),
        graph_links(*final(g)) == graph_links(*old(g)),
        graph_setup(*final(g)) == graph_setup(*old(g)),
;

/// The node that the `j`-th link of a walk leads to.
pub open spec fn led_to(links: Seq<(PortRef, PortRef)>, walk: Seq<int>, j: int) -> usize {
    links[walk[j]].1.0
}

/// Whether the `j`-th link of a walk starts where the one before leads to, round
/// the walk.
pub open spec fn goes_on(links: Seq<(PortRef, PortRef)>, walk: Seq<int>, j: int) -> bool {
    let before = if j == 0 {
        walk.len() - 1
    } else {
        j - 1
    };
    0 <= walk[j] < links.len() && links[walk[j]].0.0 == led_to(links, walk, before)
}

/// A circle of links is found: where links follow one another and come back to
/// where they started, every node that they lead to is stuck.
pub proof fn law_circles_are_found(
    count: nat,
    links: Seq<(PortRef, PortRef)>,
    walk: Seq<int>,
    i: int,
)
    requires
        links_in_range(count, links),
        forall|j: int| 0 <= j < walk.len() ==> #[trigger] goes_on(links, walk, j),
        0 <= i < walk.len(),
    ensures
        is_stuck(count, links, led_to(links, walk, i)),
        stuck_nodes(count, links).len() > 0,
{
    let set = Set::new(
        |n: usize| exists|j: int| 0 <= j < walk.len() && #[trigger] led_to(links, walk, j) == n,
    );
    assert forall|n: usize| #[trigger] set.contains(n) implies n < count && is_fed(
        links,
        set,
        n,
    ) by {
        reveal(is_fed);
        let j = choose|j: int| 0 <= j < walk.len() && #[trigger] led_to(links, walk, j) == n;
        assert(goes_on(links, walk, j));
        let before = if j == 0 {
            walk.len() - 1
        } else {
            j - 1
        };
        let k = walk[j];
        assert(led_to(links, walk, before) == links[k].0.0);
        assert(set.contains(links[k].0.0));
        assert(links[k].1.0 == n);
    }
    assert(feeds_itself(count, links, set));
    let n = led_to(links, walk, i);
    assert(set.contains(n));
    let all = Seq::new(count, |i: int| i as usize);
    assert(all[n as int] == n);
    lemma_filter_keeps(all, |m: usize| is_stuck(count, links, m), n as int);
}

proof fn lemma_filter_keeps(s: Seq<usize>, f: spec_fn(usize) -> bool, i: int)
    requires
        0 <= i < s.len(),
        f(s[i]),
    ensures
        s.filter(f).len() > 0,
    decreases s.len(),
{
    reveal(Seq::filter);
    if i < s.len() - 1 {
        lemma_filter_keeps(s.drop_last(), f, i);
    }
}

proof fn lemma_filter_drops(s: Seq<usize>, f: spec_fn(usize) -> bool)
    requires
        forall|i: int| 0 <= i < s.len() ==> !f(#[trigger] s[i]),
    ensures
        s.filter(f).len() == 0,
    decreases s.len(),
{
    reveal(Seq::filter);
    if s.len() > 0 {
        lemma_filter_drops(s.drop_last(), f);
    }
}

/// No node is stuck where the nodes can be ranked so that every link leads to a
/// higher rank.
pub proof fn law_ranked_links_are_fine(count: nat, links: Seq<(PortRef, PortRef)>, rank: Seq<nat>)
    requires
        rank.len() == count,
        links_in_range(count, links),
        forall|k: int|
            0 <= k < links.len() ==> rank[(#[trigger] links[k]).0.0 as int]
                < rank[links[k].1.0 as int],
    ensures
        forall|n: usize| !is_stuck(count, links, n),
        stuck_nodes(count, links).len() == 0,
{
    assert forall|n: usize| !is_stuck(count, links, n) by {
        if is_stuck(count, links, n) {
            let set = choose|set: Set<usize>| #[trigger]
                feeds_itself(count, links, set) && set.contains(n);
            lemma_no_lowest(count, links, rank, set, n);
        }
    }
    lemma_filter_drops(
        Seq::new(count, |i: int| i as usize),
        |n: usize| is_stuck(count, links, n),
    );
}

proof fn lemma_no_lowest(
    count: nat,
    links: Seq<(PortRef, PortRef)>,
    rank: Seq<nat>,
    set: Set<usize>,
    n: usize,
)
    requires
        rank.len() == count,
        links_in_range(count, links),
        forall|k: int|
            0 <= k < links.len() ==> rank[(#[trigger] links[k]).0.0 as int]
                < rank[links[k].1.0 as int],
        feeds_itself(count, links, set),
    ensures
        !set.contains(n),
    decreases rank[n as int],
{
    if set.contains(n) {
        reveal(is_fed);
        let k = choose|k: int|
            0 <= k < links.len() && (#[trigger] links[k]).1.0 == n && set.contains(links[k].0.0);
        lemma_no_lowest(count, links, rank, set, links[k].0.0);
    }
}

/// One port of a ring node.
pub open spec fn ring_port(direction: PortDir, channels: u16) -> PortMeta {
    PortMeta { direction, channels, sample_format: SampleFormat::F32 }
}

/// What the graph knows of a source with the given channels.
pub open spec fn source_shape(channels: u16) -> NodeShape {
    NodeShape {
        inputs: Seq::empty(),
        outputs: seq![ring_port(PortDir::Output, channels)],
        sink: false,
    }
}

/// What the graph knows of a sink with the given channels.
pub open spec fn sink_shape(channels: u16) -> NodeShape {
    NodeShape { inputs: seq![ring_port(PortDir::Input, channels)], outputs: Seq::empty(), sink: true }
}

/// `Graph::add_node` adds a node behind the others and identifies it by its
/// place; a source has no input and one output, of its channels, in 32-bit
/// floats.
#[verifier::external_body]
pub(crate) fn add_source(g: &mut audio_graph_bsd::Graph, source: RingSource) -> (id: usize)
    ensures
        id == graph_nodes(*old(g)).len(),
        graph_nodes(*final(g)) == graph_nodes(*old(g)).push(
            source_shape(source_setup(source).channels),
        ),
        graph_rings(*final(g)) == graph_rings(*old(g)).insert(id, source_setup(source)),
        graph_links(*final(g)) == graph_links(*old(g)),
        graph_setup(*final(g)) == graph_setup(*old(g)),
        graph_acts(*final(g)) == graph_acts(*old(g)),
{
    g.add_node(Box::new(source))
}

/// `Graph::add_sink` adds a node that is flushed between cycles behind the
/// others and identifies it by its place; a sink has one input, of its channels,
/// in 32-bit floats, and no output.
#[verifier::external_body]
pub(crate) fn add_sink(g: &mut audio_graph_bsd::Graph, sink: RingSink) -> (id: usize)
    ensures
        id == graph_nodes(*old(g)).len(),
        graph_nodes(*final(g)) == graph_nodes(*old(g)).push(sink_shape(sink_setup(sink).channels)),
        graph_rings(*final(g)) == graph_rings(*old(g)).insert(id, sink_setup(sink)),
        graph_links(*final(g)) == graph_links(*old(g)),
        graph_setup(*final(g)) == graph_setup(*old(g)),
        graph_acts(*final(g)) == graph_acts(*old(g)),
{
    g.add_sink(Box::new(sink))
}

/// `RingSource::new` makes a source that drains the ring of the given end, of the
/// given channels, sample rate and frames. It allocates a block, which has to fit
/// into memory.
pub assume_specification[ RingSource::new ](
    consumer: Consumer<AudioFrame>,
    channels: u16,
    sample_rate: u32,
    num_frames: usize,
) -> (s: RingSource)
    requires
        block_fits(channels, num_frames),
    ensures
        source_setup(s) == (RingNode {
            channels,
            sample_rate,
            num_frames,
            ring: reading_end(consumer).ring,
        }),
;

/// `RingSink::new` makes a sink that fills the ring of the given end, of the given
/// channels, sample rate and frames. It allocates a block, which has to fit into
/// memory.
pub assume_specification[ RingSink::new ](
    producer: Producer<AudioFrame>,
    channels: u16,
    sample_rate: u32,
    num_frames: usize,
) -> (s: RingSink)
    requires
        block_fits(channels, num_frames),
    ensures
        sink_setup(s) == (RingNode {
            channels,
            sample_rate,
            num_frames,
            ring: writing_end(producer).ring,
        }),
;

/// `rtrb::RingBuffer::new` makes the two ends of a ring with room for the given
/// count of blocks. It allocates the room, which has to fit into memory.
#[verifier::external_body]
pub(crate) fn new_ring(capacity: usize) -> (ends: (Producer<AudioFrame>, Consumer<AudioFrame>))
    requires
        ring_fits(capacity),
    ensures
        writing_end(ends.0) == reading_end(ends.1),
        writing_end(ends.0).capacity == capacity,
        writing_end(ends.0).blocks == Seq::<AudioFrame>::empty(),
{
    rtrb::RingBuffer::new(capacity)
}

/// `rtrb::Producer::push` puts a block into the ring, or hands it back where
/// there is no room. Whether there is room depends on the other end, which
/// another thread may hold. But a ring that fewer blocks went into than it holds has
/// room in any case, and a ring without capacity never has any.
#[verifier::external_body]
pub(crate) fn push_block(p: &mut Producer<AudioFrame>, frame: AudioFrame) -> (r: Result<
    (),
    AudioFrame,
>)
    ensures
        match r {
            Ok(()) => writing_end(*final(p)) == writing_end(*old(p)).with_block(frame),
            Err(f) => f == frame && writing_end(*final(p)) == writing_end(*old(p)),
        },
        writing_end(*old(p)).blocks.len() < writing_end(*old(p)).capacity ==> r is Ok,
        writing_end(*old(p)).capacity == 0 ==> r is Err,
{
    p.push(frame).map_err(
        |e| match e {
            rtrb::PushError::Full(frame) => frame,
        },
    )
}

/// `rtrb::Consumer::pop` takes the oldest block out of the ring, where there is
/// one. Whether there is one depends on the other end, which another thread may
/// hold; a ring without capacity never has any.
#[verifier::external_body]
pub(crate) fn pop_block(c: &mut Consumer<AudioFrame>) -> (r: Option<AudioFrame>)
    ensures
        match r {
            Some(f) => reading_end(*final(c)) == reading_end(*old(c)).with_block(f),
            None => reading_end(*final(c)) == reading_end(*old(c)),
        },
        reading_end(*old(c)).capacity == 0 ==> r is None,
{
    c.pop().ok()
}

/// A link is accepted exactly when both nodes exist, the first has the output port and the
/// second the input port, the link runs from an output to an input, and channels and
/// sample formats agree.
pub proof fn law_which_links_a_graph_accepts(nodes: Seq<NodeShape>, from: PortRef, to: PortRef)
    ensures
        refusal(nodes, from, to) is None <==> {
            &&& from.0 < nodes.len()
            &&& to.0 < nodes.len()
            &&& from.1 < nodes[from.0 as int].outputs.len()
            &&& to.1 < nodes[to.0 as int].inputs.len()
            &&& nodes[from.0 as int].outputs[from.1 as int].direction == PortDir::Output
            &&& nodes[to.0 as int].inputs[to.1 as int].direction == PortDir::Input
            &&& nodes[from.0 as int].outputs[from.1 as int].channels
                == nodes[to.0 as int].inputs[to.1 as int].channels
            &&& nodes[from.0 as int].outputs[from.1 as int].sample_format
                == nodes[to.0 as int].inputs[to.1 as int].sample_format
        },
        from.0 >= nodes.len() ==> refusal(nodes, from, to) == Some(
            GraphFaultView::NodeNotFound(from.0),
        ),
        from.0 < nodes.len() && to.0 >= nodes.len() ==> refusal(nodes, from, to) == Some(
            GraphFaultView::NodeNotFound(to.0),
        ),
        from.0 < nodes.len() && to.0 < nodes.len() && from.1
            >= nodes[from.0 as int].outputs.len() ==> refusal(nodes, from, to) == Some(
            GraphFaultView::PortNotFound(from.0, from.1),
        ),
{
}

/// Sinks are counted one by one, and nothing else is.
pub proof fn law_sinks_are_counted(nodes: Seq<NodeShape>, n: NodeShape)
    ensures
        sink_count(Seq::empty()) == 0,
        n.sink ==> sink_count(nodes.push(n)) == sink_count(nodes) + 1,
        !n.sink ==> sink_count(nodes.push(n)) == sink_count(nodes),
{
    assert(nodes.push(n).drop_last() =~= nodes);
}

} // verus!

//! Running a graph cycle by cycle, and replacing it while it runs.

use crate::control::store::SessionStore;
use crate::control::topology::NodeId;
use crate::engine::assemble::{all_tied, build_graph, plan, shapes, EngineError, NodeFactory};
use crate::graph::{
    block_fits, graph_acts, graph_links, graph_nodes, graph_rings, graph_setup, run_graph,
    sink_count, GraphAct, GraphConfig,
};
use audio_core_bsd::ProcessContext;
use vstd::prelude::*;

verus! {

/// A place for a rebuilt graph on its way to the engine. Of several graphs the
/// latest one wins.
pub struct RebuildSlot {
    pending: Option<audio_graph_bsd::Graph>,
}

impl RebuildSlot {
    /// The graph that waits.
    pub closed spec fn pending(self) -> Option<audio_graph_bsd::Graph> {
        self.pending
    }

    /// An empty slot.
    pub fn new() -> (s: Self)
        ensures
            s.pending() is None,
    {
        RebuildSlot { pending: None }
    }

    /// Puts a graph into the slot, in place of any graph that waits there.
    pub fn deposit(&mut self, graph: audio_graph_bsd::Graph)
        ensures
            final(self).pending() == Some(graph),
    {
        self.pending = Some(graph);
    }

    /// Takes the graph out of the slot.
    pub fn take(&mut self) -> (g: Option<audio_graph_bsd::Graph>)
        ensures
            g == old(self).pending(),
            final(self).pending() is None,
    {
        self.pending.take()
    }

    /// Whether a graph waits, without taking it.
    pub fn peek(&self) -> (g: Option<&audio_graph_bsd::Graph>)
        ensures
            match self.pending() {
                Some(p) => g == Some(&p),
                None => g is None,
            },
    {
        match &self.pending {
            Some(g) => Some(g),
            None => None,
        }
    }
}

/// An empty slot.
pub fn rebuild_slot() -> (s: RebuildSlot)
    ensures
        s.pending() is None,
{
    RebuildSlot::new()
}

/// How a cycle went.
#[derive(Debug, Clone, Copy, PartialEq, Eq, Structural)]
pub struct CycleReport {
    /// Whether the graph could run.
    pub processed: bool,
    /// Sinks that were flushed.
    pub flushed: usize,
    /// Whether a sink failed.
    pub sink_failed: bool,
}

/// The report of a cycle: whether the graph could run, the sinks that were flushed, and
/// whether one of them failed.
pub fn cycle_report(processed: bool, flushed: usize, failed: bool) -> (r: CycleReport)
    ensures
        r == (CycleReport { processed, flushed, sink_failed: failed }),
{
    CycleReport { processed, flushed, sink_failed: failed }
}

/// Whether a graph went through one cycle: one pass, where it is compiled, and then
/// one flush. What it is made of stays.
pub open spec fn cycled(before: audio_graph_bsd::Graph, after: audio_graph_bsd::Graph) -> bool {
    let ran = if graph_setup(before) is Some {
        graph_acts(before).push(GraphAct::Pass)
    } else {
        graph_acts(before)
    };
    &&& graph_acts(after) == ran.push(GraphAct::Flush)
    &&& graph_nodes(after) == graph_nodes(before)
    &&& graph_rings(after) == graph_rings(before)
    &&& graph_links(after) == graph_links(before)
    &&& graph_setup(after) == graph_setup(before)
}

/// Whether a graph that is not at hand any more went through one cycle at the end.
pub open spec fn retired(before: audio_graph_bsd::Graph) -> bool {
    exists|after: audio_graph_bsd::Graph| #[trigger] cycled(before, after)
}

/// Owns the live graph.
pub struct GraphEngine {
    graph: audio_graph_bsd::Graph,
}

impl GraphEngine {
    /// The live graph.
    pub closed spec fn live(self) -> audio_graph_bsd::Graph {
        self.graph
    }

    /// An engine with a live graph.
    pub fn new(graph: audio_graph_bsd::Graph) -> (e: Self)
        ensures
            e.live() == graph,
    {
        GraphEngine { graph }
    }

    /// The live graph.
    pub fn graph(&self) -> (g: &audio_graph_bsd::Graph)
        ensures
            *g == self.live(),
    {
        &self.graph
    }

    /// Makes one pass over the live graph and then flushes its sinks. Failures are
    /// reported, and stop nothing.
    pub fn run_cycle(&mut self, ctx: &mut ProcessContext) -> (r: CycleReport)
        ensures
            r.processed == (graph_setup(old(self).live()) is Some),
            r.flushed == sink_count(graph_nodes(old(self).live())),
            r.flushed == 0 ==> !r.sink_failed,
            cycled(old(self).live(), final(self).live()),
    {
        let processed = run_graph(&mut self.graph, ctx);
        let (flushed, failure) = self.graph.flush_sinks();
        cycle_report(processed, flushed, failure.is_some())
    }

    /// Replaces the live graph by the graph that waits in the slot, if one does.
    pub fn swap_in(&mut self, slot: &mut RebuildSlot) -> (swapped: bool)
        ensures
            swapped == (old(slot).pending() is Some),
            final(slot).pending() is None,
            match old(slot).pending() {
                Some(g) => final(self).live() == g,
                None => *final(self) == *old(self),
            },
    {
        match slot.take() {
            Some(g) => {
                self.graph = g;
                true
            },
            None => false,
        }
    }

    /// Runs one cycle, flushes, and only then replaces the live graph by the one
    /// that waits in the slot: a graph that waits is first run by the next step.
    pub fn step(&mut self, ctx: &mut ProcessContext, slot: &mut RebuildSlot) -> (r: (
        CycleReport,
        bool,
    ))
        ensures
            r.0.processed == (graph_setup(old(self).live()) is Some),
            r.0.flushed == sink_count(graph_nodes(old(self).live())),
            r.0.flushed == 0 ==> !r.0.sink_failed,
            r.1 == (old(slot).pending() is Some),
            final(slot).pending() is None,
            match old(slot).pending() {
                Some(g) => final(self).live() == g && retired(old(self).live()),
                None => cycled(old(self).live(), final(self).live()),
            },
    {
        let report = self.run_cycle(ctx);
        assert(cycled(old(self).live(), self.live()));
        let swapped = self.swap_in(slot);
        (report, swapped)
    }
}

/// Builds the graph of the store's topology and puts it into the slot; what the factory
/// keeps of the nodes then belongs to the graph in the slot. Where it cannot be built,
/// the slot stays as it was.
pub fn rebuild_once<S: SessionStore, F: NodeFactory>(
    store: &S,
    config: GraphConfig,
    factory: &mut F,
    slot: &mut RebuildSlot,
) -> (r: Result<(), EngineError>)
    requires
        block_fits(config.channels, config.num_frames),
        old(factory).wf(),
    ensures
        final(factory).wf(),
        match plan(store.topology(), *old(factory)) {
            Err(text) => {
                &&& r matches Err(EngineError::Build(m)) && m@ == text
                &&& *final(slot) == *old(slot)
            },
            Ok(links) => r is Ok && final(slot).pending() is Some && {
                let g = final(slot).pending()->0;
                &&& graph_nodes(g) == shapes(store.topology().nodes, *old(factory))
                &&& graph_links(g) == links
                &&& graph_setup(g) == Some(config)
                &&& graph_acts(g) == Seq::<GraphAct>::empty()
                &&& all_tied(*final(factory), store.topology().nodes, graph_rings(g))
            },
        },
        forall|k: NodeId| #[trigger] final(factory).knows(k) == old(factory).knows(k),
        forall|k: NodeId| #[trigger] final(factory).shape(k) == old(factory).shape(k),
{
    let topo = store.get_topology();
    match build_graph(&topo, config, factory) {
        Ok(g) => {
            slot.deposit(g);
            Ok(())
        },
        Err(e) => Err(e),
    }
}

/// What a look at the store's events shows.
#[derive(Debug, Clone, Copy, PartialEq, Eq, Structural)]
pub enum StoreNews {
    /// The topology changed.
    Changed,
    /// Nothing happened.
    Quiet,
    /// Events were missed.
    Lagged,
    /// The store is gone.
    Closed,
}

/// What the rebuild task does next.
#[derive(Debug, Clone, Copy, PartialEq, Eq, Structural)]
pub enum RebuildAction {
    /// Rebuild from the current topology.
    Rebuild,
    /// Wait a moment.
    Wait,
    /// Stop.
    Exit,
}

/// What the rebuild task does next. Missed events are made up for by a rebuild,
/// since the topology itself tells all.
pub fn on_store_news(news: StoreNews) -> (a: RebuildAction)
    ensures
        a is Rebuild <==> (news is Changed || news is Lagged),
        a is Wait <==> news is Quiet,
        a is Exit <==> news is Closed,
{
    match news {
        StoreNews::Changed | StoreNews::Lagged => RebuildAction::Rebuild,
        StoreNews::Quiet => RebuildAction::Wait,
        StoreNews::Closed => RebuildAction::Exit,
    }
}

/// A cycle of a compiled graph is one pass and one flush, in this order, and one of any
/// other graph only a flush. Nothing else happens to the graph.
pub proof fn law_what_a_cycle_does(
    before: audio_graph_bsd::Graph,
    after: audio_graph_bsd::Graph,
)
    requires
        cycled(before, after),
    ensures
        ({
            let done = graph_acts(before).len() as int;
            let acts = graph_acts(after);
            &&& acts.take(done) == graph_acts(before)
            &&& graph_setup(before) is Some ==> {
                &&& acts.len() == done + 2
                &&& acts[done] is Pass
                &&& acts[done + 1] is Flush
            }
            &&& graph_setup(before) is None ==> acts.len() == done + 1 && acts[done] is Flush
        }),
        graph_nodes(after) == graph_nodes(before),
        graph_rings(after) == graph_rings(before),
        graph_links(after) == graph_links(before),
        graph_setup(after) == graph_setup(before),
{
    assert(graph_acts(after).take(graph_acts(before).len() as int) =~= graph_acts(before));
}

} // verus!

//! The bridge between a gateway and the graph's rings. The gateway keeps its ends
//! across rebuilds: each rebuild makes fresh rings and leaves the gateway's ends
//! of them here.

use crate::control::topology::{NodeId, NodeView};
use crate::engine::assemble::{all_tied, places, NodeFactory};
use crate::graph::{
    add_sink, add_source, block_fits, graph_rings, new_ring, pop_block, push_block, reading_end,
    ring_at, ring_fits, sink_setup, sink_shape, source_setup, source_shape, writing_end, NodeShape, RingEnd,
    RingNode,
};
use audio_core_bsd::AudioFrame;
use audio_graph_bsd::{RingSink, RingSource};
use rtrb::{Consumer, Producer};
use vstd::prelude::*;

verus! {

/// Capacity of a ring where none is asked for, in blocks.
pub const DEFAULT_CAPACITY: usize = 128;

/// A gateway's ends of its two rings.
pub struct GatewayBridge {
    channels: u16,
    sample_rate: u32,
    num_frames: usize,
    capacity: usize,
    inbound: Option<Producer<AudioFrame>>,
    outbound: Option<Consumer<AudioFrame>>,
}

/// The sizes that a bridge makes its nodes and rings with.
pub struct BridgeShape {
    /// Channels of a block.
    pub channels: u16,
    /// Sample rate in Hz.
    pub sample_rate: u32,
    /// Frames of a block, per channel.
    pub num_frames: usize,
    /// Capacity of a ring, in blocks.
    pub capacity: usize,
}

impl BridgeShape {
    /// Whether blocks and rings of this size can be allocated at all.
    pub open spec fn fits(self) -> bool {
        block_fits(self.channels, self.num_frames) && ring_fits(self.capacity)
    }

    /// What a ring node of the bridge is made with.
    pub open spec fn ring_node(self, ring: int) -> RingNode {
        RingNode {
            channels: self.channels,
            sample_rate: self.sample_rate,
            num_frames: self.num_frames,
            ring,
        }
    }

    /// One end of a fresh ring of the bridge.
    pub open spec fn fresh_end(self, ring: int) -> RingEnd {
        RingEnd { ring, capacity: self.capacity, blocks: Seq::empty() }
    }
}

impl GatewayBridge {
    /// The sizes that the bridge makes its nodes and rings with.
    pub closed spec fn shape(self) -> BridgeShape {
        BridgeShape {
            channels: self.channels,
            sample_rate: self.sample_rate,
            num_frames: self.num_frames,
            capacity: self.capacity,
        }
    }

    /// The end that blocks are pushed into, once there is a source.
    pub closed spec fn inbound(self) -> Option<Producer<AudioFrame>> {
        self.inbound
    }

    /// The end that blocks are popped from, once there is a sink.
    pub closed spec fn outbound(self) -> Option<Consumer<AudioFrame>> {
        self.outbound
    }

    /// A bridge with the default capacity and no rings yet.
    pub fn new(channels: u16, sample_rate: u32, num_frames: usize) -> (b: Self)
        ensures
            b.shape() == (BridgeShape {
                channels,
                sample_rate,
                num_frames,
                capacity: DEFAULT_CAPACITY,
            }),
            b.inbound() is None,
            b.outbound() is None,
    {
        GatewayBridge::with_capacity(channels, sample_rate, num_frames, DEFAULT_CAPACITY)
    }

    /// A bridge with the given capacity and no rings yet.
    pub fn with_capacity(
        channels: u16,
        sample_rate: u32,
        num_frames: usize,
        capacity: usize,
    ) -> (b: Self)
        ensures
            b.shape() == (BridgeShape { channels, sample_rate, num_frames, capacity }),
            b.inbound() is None,
            b.outbound() is None,
    {
        GatewayBridge {
            channels,
            sample_rate,
            num_frames,
            capacity,
            inbound: None,
            outbound: None,
        }
    }

    /// Makes a fresh inbound ring, keeps its writing end, and gives the source
    /// that drains it.
    pub fn make_source_node(&mut self) -> (s: RingSource)
        requires
            old(self).shape().fits(),
        ensures
            final(self).shape() == old(self).shape(),
            final(self).inbound() is Some,
            writing_end(final(self).inbound()->0) == old(self).shape().fresh_end(
                source_setup(s).ring,
            ),
            source_setup(s) == old(self).shape().ring_node(source_setup(s).ring),
            final(self).outbound() == old(self).outbound(),
    {
        let (producer, consumer) = new_ring(self.capacity);
        self.inbound = Some(producer);
        RingSource::new(consumer, self.channels, self.sample_rate, self.num_frames)
    }

    /// Makes a fresh outbound ring, keeps its reading end, and gives the sink
    /// that fills it.
    pub fn make_sink_node(&mut self) -> (s: RingSink)
        requires
            old(self).shape().fits(),
        ensures
            final(self).shape() == old(self).shape(),
            final(self).outbound() is Some,
            reading_end(final(self).outbound()->0) == old(self).shape().fresh_end(
                sink_setup(s).ring,
            ),
            sink_setup(s) == old(self).shape().ring_node(sink_setup(s).ring),
            final(self).inbound() == old(self).inbound(),
    {
        let (producer, consumer) = new_ring(self.capacity);
        self.outbound = Some(consumer);
        RingSink::new(producer, self.channels, self.sample_rate, self.num_frames)
    }

    /// Pushes a block towards the graph. It is handed back where the ring is full
    /// or where there is no source yet.
    pub fn push_inbound(&mut self, frame: AudioFrame) -> (r: Result<(), AudioFrame>)
        ensures
            push_outcome(*old(self), *final(self), frame, r),
    {
        match self.inbound.as_mut() {
            Some(p) => push_block(p, frame),
            None => Err(frame),
        }
    }

    /// Pops a block that came from the graph; nothing where the ring is empty or
    /// where there is no sink yet.
    pub fn pop_outbound(&mut self) -> (r: Option<AudioFrame>)
        ensures
            pop_outcome(*old(self), *final(self), r),
    {
        match self.outbound.as_mut() {
            Some(c) => pop_block(c),
            None => None,
        }
    }
}

/// What a push towards the graph did: a block that went in is the newest that went
/// through the end; one that did not is handed back, and nothing has changed. A block
/// goes in where fewer went into the ring so far than it holds. There is no way in
/// without a source, nor into a ring without room for any block.
pub open spec fn push_outcome(
    before: GatewayBridge,
    after: GatewayBridge,
    frame: AudioFrame,
    r: Result<(), AudioFrame>,
) -> bool {
    &&& after.shape() == before.shape()
    &&& after.outbound() == before.outbound()
    &&& match before.inbound() {
        None => r == Err::<(), AudioFrame>(frame) && after.inbound() is None,
        Some(p) => {
            &&& after.inbound() is Some
            &&& match r {
                Ok(()) => writing_end(after.inbound()->0) == writing_end(p).with_block(frame),
                Err(f) => f == frame && writing_end(after.inbound()->0) == writing_end(p),
            }
            &&& writing_end(p).blocks.len() < writing_end(p).capacity ==> r is Ok
            &&& writing_end(p).capacity == 0 ==> r is Err
        },
    }
}

/// What a pop from the graph did: a block that came out is the newest that went
/// through the end; where none did, nothing has changed. Nothing comes out without
/// a sink, nor of a ring without room for any block.
pub open spec fn pop_outcome(
    before: GatewayBridge,
    after: GatewayBridge,
    r: Option<AudioFrame>,
) -> bool {
    &&& after.shape() == before.shape()
    &&& after.inbound() == before.inbound()
    &&& match before.outbound() {
        None => r is None && after.outbound() is None,
        Some(c) => {
            &&& after.outbound() is Some
            &&& match r {
                Some(f) => reading_end(after.outbound()->0) == reading_end(c).with_block(f),
                None => reading_end(after.outbound()->0) == reading_end(c),
            }
            &&& reading_end(c).capacity == 0 ==> r is None
        },
    }
}

/// A factory whose only nodes are the two ring nodes of a bridge.
pub struct BridgeFactory {
    bridge: GatewayBridge,
    source: NodeId,
    sink: NodeId,
}

impl BridgeFactory {
    /// The bridge.
    pub closed spec fn bridge(self) -> GatewayBridge {
        self.bridge
    }

    /// The id of the source.
    pub closed spec fn source(self) -> NodeId {
        self.source
    }

    /// The id of the sink.
    pub closed spec fn sink(self) -> NodeId {
        self.sink
    }

    /// A factory for the given ids.
    pub fn new(bridge: GatewayBridge, source: NodeId, sink: NodeId) -> (f: Self)
        ensures
            f.bridge() == bridge,
            f.source() == source,
            f.sink() == sink,
    {
        BridgeFactory { bridge, source, sink }
    }

    /// Pushes a block towards the graph, as [`GatewayBridge::push_inbound`] does.
    pub fn push_inbound(&mut self, frame: AudioFrame) -> (r: Result<(), AudioFrame>)
        ensures
            push_outcome(old(self).bridge(), final(self).bridge(), frame, r),
            final(self).source() == old(self).source(),
            final(self).sink() == old(self).sink(),
    {
        self.bridge.push_inbound(frame)
    }

    /// Pops a block that came from the graph, as [`GatewayBridge::pop_outbound`]
    /// does.
    pub fn pop_outbound(&mut self) -> (r: Option<AudioFrame>)
        ensures
            pop_outcome(old(self).bridge(), final(self).bridge(), r),
            final(self).source() == old(self).source(),
            final(self).sink() == old(self).sink(),
    {
        self.bridge.pop_outbound()
    }
}

impl NodeFactory for BridgeFactory {
    open spec fn wf(&self) -> bool {
        self.bridge().shape().fits()
    }

    open spec fn knows(&self, id: NodeId) -> bool {
        id == self.source() || id == self.sink()
    }

    open spec fn shape(&self, id: NodeId) -> NodeShape {
        if id == self.source() {
            source_shape(self.bridge().shape().channels)
        } else {
            sink_shape(self.bridge().shape().channels)
        }
    }

    open spec fn tied(&self, id: NodeId, node: Option<RingNode>) -> bool {
        let bridge = self.bridge();
        if id == self.source() {
            &&& bridge.inbound() is Some
            &&& node == Some(bridge.shape().ring_node(writing_end(bridge.inbound()->0).ring))
        } else if id == self.sink() {
            &&& bridge.outbound() is Some
            &&& node == Some(bridge.shape().ring_node(reading_end(bridge.outbound()->0).ring))
        } else {
            true
        }
    }

    fn build(&mut self, id: NodeId, graph: &mut audio_graph_bsd::Graph) -> (r: Option<usize>)
        ensures
            final(self).source() == old(self).source(),
            final(self).sink() == old(self).sink(),
            final(self).bridge().shape() == old(self).bridge().shape(),
            id == old(self).source() ==> {
                let end = writing_end(final(self).bridge().inbound()->0);
                &&& final(self).bridge().inbound() is Some
                &&& final(self).bridge().outbound() == old(self).bridge().outbound()
                &&& end == old(self).bridge().shape().fresh_end(end.ring)
                &&& graph_rings(*final(graph)) == graph_rings(*old(graph)).insert(
                    r->0,
                    old(self).bridge().shape().ring_node(end.ring),
                )
            },
            id == old(self).sink() && id != old(self).source() ==> {
                let end = reading_end(final(self).bridge().outbound()->0);
                &&& final(self).bridge().outbound() is Some
                &&& final(self).bridge().inbound() == old(self).bridge().inbound()
                &&& end == old(self).bridge().shape().fresh_end(end.ring)
                &&& graph_rings(*final(graph)) == graph_rings(*old(graph)).insert(
                    r->0,
                    old(self).bridge().shape().ring_node(end.ring),
                )
            },
    {
        if id == self.source {
            let node = self.bridge.make_source_node();
            Some(add_source(graph, node))
        } else if id == self.sink {
            let node = self.bridge.make_sink_node();
            Some(add_sink(graph, node))
        } else {
            None
        }
    }
}

/// A bridge survives a rebuild: after a graph was built for a topology with the source
/// and the sink, blocks are pushed into the ring that this graph's source drains, and
/// popped from the ring that its sink fills.
pub proof fn law_bridge_survives_a_rebuild(
    factory: BridgeFactory,
    nodes: Seq<NodeView>,
    rings: Map<usize, RingNode>,
)
    requires
        all_tied(factory, nodes, rings),
        places(nodes).contains_key(factory.source()),
        places(nodes).contains_key(factory.sink()),
        factory.source() != factory.sink(),
    ensures
        ({
            let bridge = factory.bridge();
            let source = places(nodes)[factory.source()];
            let sink = places(nodes)[factory.sink()];
            &&& bridge.inbound() is Some && bridge.outbound() is Some
            &&& rings.contains_key(source) && rings[source].ring == writing_end(
                bridge.inbound()->0,
            ).ring
            &&& rings.contains_key(sink) && rings[sink].ring == reading_end(
                bridge.outbound()->0,
            ).ring
        }),
{
    assert(factory.tied(factory.source(), ring_at(rings, places(nodes)[factory.source()])));
    assert(factory.tied(factory.sink(), ring_at(rings, places(nodes)[factory.sink()])));
}

/// A block that a push took is the newest that went into the ring, behind all others,
/// and one that it did not take is handed back with the ring as it was. A push has no
/// effect on the way out.
pub proof fn law_what_a_push_does(
    before: GatewayBridge,
    after: GatewayBridge,
    frame: AudioFrame,
    r: Result<(), AudioFrame>,
)
    requires
        push_outcome(before, after, frame, r),
    ensures
        r matches Err(back) ==> back == frame,
        before.inbound() is None ==> r is Err,
        before.inbound() is Some ==> after.inbound() is Some,
        before.inbound() matches Some(p) ==> {
            let was = writing_end(p);
            let is_now = writing_end(after.inbound()->0);
            &&& is_now.ring == was.ring
            &&& is_now.capacity == was.capacity
            &&& r is Ok ==> is_now.blocks == was.blocks.push(frame)
            &&& r is Err ==> is_now.blocks == was.blocks
            &&& was.blocks.len() < was.capacity ==> r is Ok
            &&& was.capacity == 0 ==> r is Err
        },
        after.outbound() == before.outbound(),
        after.shape() == before.shape(),
{
}

/// A block that a pop gave is noted as the newest that came out of the ring, and where
/// there is none the ring is as it was. A pop has no effect on the way in.
pub proof fn law_what_a_pop_does(
    before: GatewayBridge,
    after: GatewayBridge,
    r: Option<AudioFrame>,
)
    requires
        pop_outcome(before, after, r),
    ensures
        before.outbound() is None ==> r is None,
        before.outbound() is Some ==> after.outbound() is Some,
        before.outbound() matches Some(c) ==> {
            let was = reading_end(c);
            let is_now = reading_end(after.outbound()->0);
            &&& is_now.ring == was.ring
            &&& is_now.capacity == was.capacity
            &&& r matches Some(frame) ==> is_now.blocks == was.blocks.push(frame)
            &&& r is None ==> is_now.blocks == was.blocks
            &&& was.capacity == 0 ==> r is None
        },
        after.inbound() == before.inbound(),
        after.shape() == before.shape(),
{
}

/// A bridge factory knows its two ids and no other. For the first it makes a node that
/// only gives audio, for the second one that only takes it.
pub proof fn law_which_nodes_a_bridge_makes(f: BridgeFactory, id: NodeId)
    ensures
        f.knows(id) <==> id == f.source() || id == f.sink(),
        id == f.source() ==> f.shape(id).outputs.len() == 1 && f.shape(id).inputs.len() == 0 && !f.shape(
            id,
        ).sink && f.shape(id).outputs[0].channels == f.bridge().shape().channels,
        id == f.sink() && id != f.source() ==> f.shape(id).outputs.len() == 0 && f.shape(
            id,
        ).inputs.len() == 1 && f.shape(id).sink && f.shape(id).inputs[0].channels
            == f.bridge().shape().channels,
{
}

} // verus!

//! What the gateways share: their configuration, and the two ring nodes that each of
//! them adds to a graph.

use crate::address::ListenAddr;
use crate::graph::{
    add_sink, add_source, block_fits, graph_acts, graph_links, graph_nodes, graph_rings,
    graph_setup, new_ring, reading_end, refusal, sink_shape, source_shape, writing_end, NodeShape,
    RingEnd, RingNode,
};
use crate::port::{PortDir, SampleFormat};
use audio_core_bsd::AudioFrame;
use audio_graph_bsd::{RingSink, RingSource};
use rtrb::{Consumer, Producer};
use vstd::prelude::*;

verus! {

/// Capacity of each ring, in blocks: enough to absorb jitter, little enough to
/// keep latency low.
pub const RING_CAPACITY: usize = 128;

/// The contents of a gateway.
pub struct GatewayConfig {
    /// Address to listen at.
    pub listen_addr: ListenAddr,
    /// Channels of a block.
    pub channels: u16,
    /// Sample rate in Hz.
    pub sample_rate: u32,
    /// Frames of a block, per channel.
    pub num_frames: usize,
}

/// The blocks that a gateway carries.
#[derive(Debug, Clone, Copy, PartialEq, Eq, Structural)]
pub struct BlockSize {
    /// Channels of a block.
    pub channels: u16,
    /// Sample rate in Hz.
    pub sample_rate: u32,
    /// Frames of a block, per channel.
    pub num_frames: usize,
}

impl BlockSize {
    /// What a ring node for such blocks is made with.
    pub open spec fn ring_node(self, ring: int) -> RingNode {
        RingNode {
            channels: self.channels,
            sample_rate: self.sample_rate,
            num_frames: self.num_frames,
            ring,
        }
    }
}

impl GatewayConfig {
    /// The blocks that the gateway carries.
    pub open spec fn block(self) -> BlockSize {
        BlockSize {
            channels: self.channels,
            sample_rate: self.sample_rate,
            num_frames: self.num_frames,
        }
    }
}

/// The configuration that nothing was said about: a loopback address, stereo,
/// 48 kHz, 256 frames.
pub open spec fn default_config() -> GatewayConfig {
    GatewayConfig {
        listen_addr: ListenAddr::any_loopback(),
        channels: 2,
        sample_rate: 48_000,
        num_frames: 256,
    }
}

/// The nodes of a graph after a gateway has added its source and its sink.
pub open spec fn with_ring_nodes(nodes: Seq<NodeShape>, channels: u16) -> Seq<NodeShape> {
    nodes.push(source_shape(channels)).push(sink_shape(channels))
}

/// Whether a gateway added its source, which drains the ring `inbound`, and its sink,
/// which fills the ring `outbound`, and did nothing else to the graph.
pub open spec fn nodes_added(
    before: audio_graph_bsd::Graph,
    after: audio_graph_bsd::Graph,
    block: BlockSize,
    inbound: int,
    outbound: int,
) -> bool {
    let n = graph_nodes(before).len();
    &&& graph_nodes(after) == with_ring_nodes(graph_nodes(before), block.channels)
    &&& graph_rings(after) == graph_rings(before).insert(
        n as usize,
        block.ring_node(inbound),
    ).insert((n + 1) as usize, block.ring_node(outbound))
    &&& graph_links(after) == graph_links(before)
    &&& graph_setup(after) == graph_setup(before)
    &&& graph_acts(after) == graph_acts(before)
}

/// One end of a fresh ring of a gateway.
pub open spec fn fresh_end(ring: int) -> RingEnd {
    RingEnd { ring, capacity: RING_CAPACITY, blocks: Seq::empty() }
}

/// Whether a gateway was registered: what it gives are the places of its two nodes and
/// the other ends of their two rings, both of them fresh.
pub open spec fn registered(
    before: audio_graph_bsd::Graph,
    after: audio_graph_bsd::Graph,
    block: BlockSize,
    r: (usize, usize, Producer<AudioFrame>, Consumer<AudioFrame>),
) -> bool {
    let inbound = writing_end(r.2);
    let outbound = reading_end(r.3);
    &&& r.0 == graph_nodes(before).len()
    &&& r.1 == graph_nodes(before).len() + 1
    &&& inbound == fresh_end(inbound.ring)
    &&& outbound == fresh_end(outbound.ring)
    &&& nodes_added(before, after, block, inbound.ring, outbound.ring)
}

/// Adds a source for inbound blocks and a sink for outbound blocks to a graph. Gives
/// the two nodes, and the worker's ends of the two rings.
pub(crate) fn add_ring_nodes(graph: &mut audio_graph_bsd::Graph, block: BlockSize) -> (r: (
    usize,
    usize,
    Producer<AudioFrame>,
    Consumer<AudioFrame>,
))
    requires
        block_fits(block.channels, block.num_frames),
    ensures
        registered(*old(graph), *final(graph), block, r),
{
    let (inbound_prod, inbound_cons) = new_ring(RING_CAPACITY);
    let (outbound_prod, outbound_cons) = new_ring(RING_CAPACITY);
    let source = RingSource::new(
        inbound_cons,
        block.channels,
        block.sample_rate,
        block.num_frames,
    );
    let src: usize = add_source(graph, source);
    let sink_node = RingSink::new(
        outbound_prod,
        block.channels,
        block.sample_rate,
        block.num_frames,
    );
    let sink: usize = add_sink(graph, sink_node);
    (src, sink, inbound_prod, outbound_cons)
}

/// The source and the sink of a gateway can be linked to each other.
pub proof fn law_ring_nodes_are_linkable(nodes: Seq<NodeShape>, channels: u16)
    requires
        nodes.len() + 1 <= usize::MAX,
    ensures
        refusal(
            with_ring_nodes(nodes, channels),
            (nodes.len() as usize, 0),
            ((nodes.len() + 1) as usize, 0),
        ) is None,
{
}

/// The source of a gateway comes right behind the nodes that were there and has one output
/// and no input, and its sink comes right behind the source and has one input and no
/// output. Both carry 32-bit floats in as many channels as the blocks, and no node that was
/// there changes.
pub proof fn law_what_ring_nodes_look_like(nodes: Seq<NodeShape>, channels: u16, i: int)
    ensures
        ({
            let all = with_ring_nodes(nodes, channels);
            let n = nodes.len() as int;
            &&& all.len() == n + 2
            &&& 0 <= i < n ==> all[i] == nodes[i]
            &&& all[n].inputs.len() == 0 && all[n].outputs.len() == 1 && !all[n].sink
            &&& all[n].outputs[0].direction == PortDir::Output
            &&& all[n].outputs[0].channels == channels
            &&& all[n].outputs[0].sample_format == SampleFormat::F32
            &&& all[n + 1].inputs.len() == 1 && all[n + 1].outputs.len() == 0 && all[n + 1].sink
            &&& all[n + 1].inputs[0].direction == PortDir::Input
            &&& all[n + 1].inputs[0].channels == channels
            &&& all[n + 1].inputs[0].sample_format == SampleFormat::F32
        }),
{
}

/// What a gateway gives for its source and its sink are the ends of their own two rings:
/// what is written into the first is read by the source, and what the sink writes is read
/// from the second. Both rings are empty and hold 128 blocks, and the rest of the graph
/// stays as it was.
pub proof fn law_rings_lead_to_their_nodes(
    before: audio_graph_bsd::Graph,
    after: audio_graph_bsd::Graph,
    block: BlockSize,
    r: (usize, usize, Producer<AudioFrame>, Consumer<AudioFrame>),
    other: usize,
)
    requires
        registered(before, after, block, r),
    ensures
        r.0 == graph_nodes(before).len(),
        r.1 == r.0 + 1,
        graph_nodes(after).len() == graph_nodes(before).len() + 2,
        graph_rings(after).contains_key(r.0),
        graph_rings(after)[r.0].ring == writing_end(r.2).ring,
        graph_rings(after)[r.0].channels == block.channels,
        graph_rings(after)[r.0].sample_rate == block.sample_rate,
        graph_rings(after)[r.0].num_frames == block.num_frames,
        graph_rings(after).contains_key(r.1),
        graph_rings(after)[r.1].ring == reading_end(r.3).ring,
        graph_rings(after)[r.1].channels == block.channels,
        graph_rings(after)[r.1].sample_rate == block.sample_rate,
        graph_rings(after)[r.1].num_frames == block.num_frames,
        writing_end(r.2).blocks.len() == 0,
        writing_end(r.2).capacity == 128,
        reading_end(r.3).blocks.len() == 0,
        reading_end(r.3).capacity == 128,
        other != r.0 && other != r.1 ==> (graph_rings(after).contains_key(other)
            <==> graph_rings(before).contains_key(other)) && graph_rings(after)[other]
            == graph_rings(before)[other],
        graph_links(after) == graph_links(before),
        graph_setup(after) == graph_setup(before),
{
}

/// Where nothing was said, a gateway listens on a loopback address with a port of the
/// system's choice, for two channels at 48000 Hz in blocks of 256 frames.
pub proof fn law_defaults_of_a_gateway()
    ensures
        default_config().listen_addr.ip.loops_back(),
        default_config().listen_addr.port == 0,
        default_config().block() == (BlockSize {
            channels: 2,
            sample_rate: 48_000,
            num_frames: 256,
        }),
{
}

} // verus!

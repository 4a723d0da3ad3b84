//! The browser gateway: the rings between a browser client and the graph.

use crate::address::ListenAddr;
use crate::browser::codec::{FrameSpec, GatewayError};
use crate::gateway::{add_ring_nodes, default_config, registered, BlockSize, GatewayConfig};
use crate::graph::block_fits;
use audio_core_bsd::AudioFrame;
use rtrb::{Consumer, Producer};
use vstd::prelude::*;

pub use crate::gateway::RING_CAPACITY;

verus! {

/// Ways for a browser to connect. Only the first one is served.
#[derive(Debug, Clone, Copy, PartialEq, Eq, Structural)]
pub enum BrowserTransport {
    /// A WebSocket.
    WebSocket,
    /// A WebRTC peer connection.
    WebRtc,
    /// HTTP live streaming.
    Hls,
}

/// The end of the inbound ring that a worker pushes blocks into.
pub type InboundHandle = Producer<AudioFrame>;

/// The end of the outbound ring that a worker pops blocks from.
pub type OutboundHandle = Consumer<AudioFrame>;

/// Configuration of the gateway.
#[derive(Debug, Clone, Copy)]
pub struct BrowserGateway {
    listen_addr: ListenAddr,
    spec: FrameSpec,
    num_frames: usize,
}

impl View for BrowserGateway {
    type V = GatewayConfig;

    closed spec fn view(&self) -> GatewayConfig {
        GatewayConfig {
            listen_addr: self.listen_addr,
            channels: self.spec.channels,
            sample_rate: self.spec.sample_rate,
            num_frames: self.num_frames,
        }
    }
}

impl BrowserGateway {
    /// A gateway that listens at a loopback address: stereo, 48 kHz, 256 frames.
    pub fn new() -> (g: Self)
        ensures
            g@ == default_config(),
    {
        BrowserGateway {
            listen_addr: ListenAddr::loopback(),
            spec: FrameSpec::new(2, 48_000),
            num_frames: 256,
        }
    }

    /// The gateway with another address.
    pub fn with_listen_addr(self, addr: ListenAddr) -> (g: Self)
        ensures
            g@ == (GatewayConfig { listen_addr: addr, ..self@ }),
    {
        let mut g = self;
        g.listen_addr = addr;
        g
    }

    /// The gateway with another channel count.
    pub fn with_channels(self, channels: u16) -> (g: Self)
        ensures
            g@ == (GatewayConfig { channels, ..self@ }),
    {
        let mut g = self;
        g.spec.channels = channels;
        g
    }

    /// The gateway with another sample rate.
    pub fn with_sample_rate(self, sample_rate: u32) -> (g: Self)
        ensures
            g@ == (GatewayConfig { sample_rate, ..self@ }),
    {
        let mut g = self;
        g.spec.sample_rate = sample_rate;
        g
    }

    /// The gateway with another block size.
    pub fn with_num_frames(self, num_frames: usize) -> (g: Self)
        ensures
            g@ == (GatewayConfig { num_frames, ..self@ }),
    {
        let mut g = self;
        g.num_frames = num_frames;
        g
    }

    /// The address to listen at.
    pub fn listen_addr(&self) -> (a: ListenAddr)
        ensures
            a == self@.listen_addr,
    {
        self.listen_addr
    }

    /// The audio shape.
    pub fn spec(&self) -> (s: FrameSpec)
        ensures
            s == (FrameSpec { channels: self@.channels, sample_rate: self@.sample_rate }),
    {
        self.spec
    }

    /// The block size.
    pub fn num_frames(&self) -> (n: usize)
        ensures
            n == self@.num_frames,
    {
        self.num_frames
    }

    /// Adds a source for inbound blocks and a sink for outbound blocks to the
    /// graph. Gives the two nodes, and the worker's ends of the two rings.
    pub fn register(&self, graph: &mut audio_graph_bsd::Graph) -> (r: Result<
        (usize, usize, InboundHandle, OutboundHandle),
        GatewayError,
    >)
        requires
            block_fits(self@.channels, self@.num_frames),
        ensures
            r is Ok,
            registered(*old(graph), *final(graph), self@.block(), r->Ok_0),
    {
        let block = BlockSize {
            channels: self.spec.channels,
            sample_rate: self.spec.sample_rate,
            num_frames: self.num_frames,
        };
        Ok(add_ring_nodes(graph, block))
    }
}

impl Default for BrowserGateway {
    /// The gateway of [`BrowserGateway::new`].
    fn default() -> (g: Self)
        ensures
            g@ == default_config(),
    {
        BrowserGateway::new()
    }
}

} // verus!

//! The ALSA gateway: the rings between an ALSA device and the graph.

use crate::address::ListenAddr;
use crate::gateway::{
    add_ring_nodes, default_config, nodes_added, registered, BlockSize, GatewayConfig,
};
use crate::graph::block_fits;
use audio_core_bsd::AudioFrame;
use rtrb::{Consumer, Producer};
use vstd::prelude::*;

pub use crate::gateway::RING_CAPACITY;

verus! {

/// Errors of the ALSA gateway.
#[derive(Debug, Clone, PartialEq, Eq)]
pub enum GatewayError {
    /// The operation does not exist yet.
    Unimplemented(&'static str),
    /// ALSA failed.
    Alsa(String),
}

impl GatewayError {
    /// The text of the error.
    pub open spec fn text(self) -> Seq<char> {
        match self {
            GatewayError::Unimplemented(what) => "not implemented: "@ + what@,
            GatewayError::Alsa(e) => "alsa: "@ + e@,
        }
    }

    /// The text of the error.
    pub fn message(&self) -> (s: String)
        ensures
            s@ == self.text(),
    {
        match self {
            GatewayError::Unimplemented(what) => {
                let mut s = "not implemented: ".to_owned();
                s.append(what);
                s
            },
            GatewayError::Alsa(e) => {
                let mut s = "alsa: ".to_owned();
                s.append(e.as_str());
                s
            },
        }
    }
}

/// The end of the inbound ring that a worker pushes blocks into.
pub type InboundHandle = Producer<AudioFrame>;

/// The end of the outbound ring that a worker pops blocks from.
pub type OutboundHandle = Consumer<AudioFrame>;

/// Connects a device to the graph.
pub trait Gateway {
    /// Whether the gateway can make its nodes at all.
    spec fn wf(&self) -> bool;

    /// Runs the gateway against a graph.
    fn run(&mut self, graph: &mut audio_graph_bsd::Graph) -> Result<(), GatewayError>
        requires
            old(self).wf(),
    ;
}

/// Configuration of the gateway.
#[derive(Debug, Clone, Copy)]
pub struct AlsaGateway {
    listen_addr: ListenAddr,
    channels: u16,
    sample_rate: u32,
    num_frames: usize,
}

impl View for AlsaGateway {
    type V = GatewayConfig;

    closed spec fn view(&self) -> GatewayConfig {
        GatewayConfig {
            listen_addr: self.listen_addr,
            channels: self.channels,
            sample_rate: self.sample_rate,
            num_frames: self.num_frames,
        }
    }
}

impl AlsaGateway {
    /// A gateway that listens at a loopback address: stereo, 48 kHz, 256 frames.
    pub fn new() -> (g: Self)
        ensures
            g@ == default_config(),
    {
        AlsaGateway {
            listen_addr: ListenAddr::loopback(),
            channels: 2,
            sample_rate: 48_000,
            num_frames: 256,
        }
    }

    /// The gateway with another address.
    pub fn with_listen_addr(self, addr: ListenAddr) -> (g: Self)
        ensures
            g@ == (GatewayConfig { listen_addr: addr, ..self@ }),
    {
        let mut g = self;
        g.listen_addr = addr;
        g
    }

    /// The gateway with another channel count.
    pub fn with_channels(self, channels: u16) -> (g: Self)
        ensures
            g@ == (GatewayConfig { channels, ..self@ }),
    {
        let mut g = self;
        g.channels = channels;
        g
    }

    /// The gateway with another sample rate.
    pub fn with_sample_rate(self, sample_rate: u32) -> (g: Self)
        ensures
            g@ == (GatewayConfig { sample_rate, ..self@ }),
    {
        let mut g = self;
        g.sample_rate = sample_rate;
        g
    }

    /// The gateway with another block size.
    pub fn with_num_frames(self, num_frames: usize) -> (g: Self)
        ensures
            g@ == (GatewayConfig { num_frames, ..self@ }),
    {
        let mut g = self;
        g.num_frames = num_frames;
        g
    }

    /// The address to listen at.
    pub fn listen_addr(&self) -> (a: ListenAddr)
        ensures
            a == self@.listen_addr,
    {
        self.listen_addr
    }

    /// The channel count.
    pub fn channels(&self) -> (n: u16)
        ensures
            n == self@.channels,
    {
        self.channels
    }

    /// The sample rate.
    pub fn sample_rate(&self) -> (n: u32)
        ensures
            n == self@.sample_rate,
    {
        self.sample_rate
    }

    /// The block size.
    pub fn num_frames(&self) -> (n: usize)
        ensures
            n == self@.num_frames,
    {
        self.num_frames
    }

    /// Adds a source for inbound blocks and a sink for outbound blocks to the
    /// graph. Gives the two nodes, and the worker's ends of the two rings.
    pub fn register(&self, graph: &mut audio_graph_bsd::Graph) -> (r: Result<
        (usize, usize, InboundHandle, OutboundHandle),
        GatewayError,
    >)
        requires
            block_fits(self@.channels, self@.num_frames),
        ensures
            r is Ok,
            registered(*old(graph), *final(graph), self@.block(), r->Ok_0),
    {
        let block = BlockSize {
            channels: self.channels,
            sample_rate: self.sample_rate,
            num_frames: self.num_frames,
        };
        Ok(add_ring_nodes(graph, block))
    }
}

impl Default for AlsaGateway {
    /// The gateway of [`AlsaGateway::new`].
    fn default() -> (g: Self)
        ensures
            g@ == default_config(),
    {
        AlsaGateway::new()
    }
}

impl Gateway for AlsaGateway {
    open spec fn wf(&self) -> bool {
        block_fits(self@.channels, self@.num_frames)
    }

    /// Adds the ring nodes to the graph. Driving a device is not implemented.
    fn run(&mut self, graph: &mut audio_graph_bsd::Graph) -> (r: Result<(), GatewayError>)
        ensures
            r matches Err(GatewayError::Unimplemented(what)) && what@
                == "live libasound .so plugin deferred"@,
            exists|inbound: int, outbound: int|
                nodes_added(*old(graph), *final(graph), old(self)@.block(), inbound, outbound),
            final(self)@ == old(self)@,
    {
        match self.register(graph) {
            Ok(_) => Err(GatewayError::Unimplemented("live libasound .so plugin deferred")),
            Err(e) => Err(e),
        }
    }
}

/// What is shown of an error says what kind it is and ends in the reason.
pub proof fn law_gateway_errors_end_in_the_reason(e: GatewayError)
    ensures
        e matches GatewayError::Unimplemented(m) ==> crate::text::ends_in(e.text(), m@) && e.text().take("not implemented: "@.len() as int) == "not implemented: "@,
        e matches GatewayError::Alsa(m) ==> crate::text::ends_in(e.text(), m@) && e.text().take("alsa: "@.len() as int) == "alsa: "@,
{
    match e {
        GatewayError::Unimplemented(m) => crate::text::lemma_ends_in("not implemented: "@, m@),
        GatewayError::Alsa(m) => crate::text::lemma_ends_in("alsa: "@, m@),
    }
}

} // verus!

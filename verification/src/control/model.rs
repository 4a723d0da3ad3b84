//! What the control surface takes and gives: requests, descriptions, presets and
//! errors.

use crate::control::params::{NodeParams, NodeParamsView};
use crate::control::topology::{LinkId, NodeId};
use vstd::prelude::*;

verus! {

/// Format version of the presets that are written.
pub const PRESET_VERSION: u32 = 1;

/// Identifies a loaded module.
pub type ModuleId = u64;

/// The contents of an optional text.
pub open spec fn text_view(o: Option<String>) -> Option<Seq<char>> {
    match o {
        Some(s) => Some(s@),
        None => None,
    }
}

/// The contents of optional parameters.
pub open spec fn params_view(o: Option<NodeParams>) -> Option<NodeParamsView> {
    match o {
        Some(p) => Some(p@),
        None => None,
    }
}

/// What is known of a node.
#[verifier::ext_equal]
pub struct NodeCard {
    /// The node.
    pub id: NodeId,
    /// Its label.
    pub label: Seq<char>,
    /// Count of its input ports.
    pub inputs: u16,
    /// Count of its output ports.
    pub outputs: u16,
    /// Its kind, where one is known.
    pub kind: Option<Seq<char>>,
    /// Its parameters, where some are known.
    pub params: Option<NodeParamsView>,
}

/// Description of a node.
#[derive(Debug, Clone, PartialEq, Eq)]
pub struct NodeInfo {
    /// The node.
    pub id: NodeId,
    /// Its label.
    pub label: String,
    /// Count of its input ports.
    pub inputs: u16,
    /// Count of its output ports.
    pub outputs: u16,
    /// Its kind, where one is known.
    pub kind: Option<String>,
    /// Its parameters, where some are known.
    pub params: Option<NodeParams>,
}

impl View for NodeInfo {
    type V = NodeCard;

    open spec fn view(&self) -> NodeCard {
        NodeCard {
            id: self.id,
            label: self.label@,
            inputs: self.inputs,
            outputs: self.outputs,
            kind: text_view(self.kind),
            params: params_view(self.params),
        }
    }
}

/// Request for a new node.
#[derive(Debug, Clone, PartialEq, Eq)]
pub struct NodeSpec {
    /// Its label.
    pub label: String,
    /// Count of its input ports.
    pub inputs: u16,
    /// Count of its output ports.
    pub outputs: u16,
    /// Its kind.
    pub kind: Option<String>,
    /// Its parameters.
    pub params: Option<NodeParams>,
}

/// The contents of a [`NodeSpec`].
pub struct NodeSpecView {
    /// Its label.
    pub label: Seq<char>,
    /// Count of its input ports.
    pub inputs: u16,
    /// Count of its output ports.
    pub outputs: u16,
    /// Its kind.
    pub kind: Option<Seq<char>>,
    /// Its parameters.
    pub params: Option<NodeParamsView>,
}

impl View for NodeSpec {
    type V = NodeSpecView;

    open spec fn view(&self) -> NodeSpecView {
        NodeSpecView {
            label: self.label@,
            inputs: self.inputs,
            outputs: self.outputs,
            kind: text_view(self.kind),
            params: params_view(self.params),
        }
    }
}

/// Answer to a request for a new node.
#[derive(Debug, Clone, Copy, PartialEq, Eq, Structural)]
pub struct CreateNodeResponse {
    /// The new node.
    pub id: NodeId,
}

/// Request for a new link.
#[derive(Debug, Clone, Copy, PartialEq, Eq)]
pub struct LinkRequest {
    /// Node that the link starts at.
    pub from: NodeId,
    /// Output port that it starts at; the first where none is named.
    pub from_port: Option<u16>,
    /// Node that the link ends at.
    pub to: NodeId,
    /// Input port that it ends at; the first where none is named.
    pub to_port: Option<u16>,
}

/// Answer to a request for a new link.
#[derive(Debug, Clone, Copy, PartialEq, Eq, Structural)]
pub struct LinkResponse {
    /// The new link.
    pub id: LinkId,
}

/// Description of a link.
#[derive(Debug, Clone, Copy, PartialEq, Eq, Structural)]
pub struct LinkInfo {
    /// The link: its place in the topology.
    pub id: LinkId,
    /// Node that the link starts at.
    pub from: NodeId,
    /// Output port that it starts at.
    pub from_port: u16,
    /// Node that the link ends at.
    pub to: NodeId,
    /// Input port that it ends at.
    pub to_port: u16,
}

/// Description of all nodes and links.
#[derive(Debug, Clone, PartialEq, Eq)]
pub struct TopologyInfo {
    /// All nodes.
    pub nodes: Vec<NodeInfo>,
    /// All links.
    pub links: Vec<LinkInfo>,
}

/// A saved graph: nodes with their kinds and parameters, and links.
#[derive(Debug, Clone, PartialEq, Eq)]
pub struct Preset {
    /// Format version.
    pub version: u32,
    /// All nodes.
    pub nodes: Vec<PresetNode>,
    /// All links.
    pub links: Vec<PresetLink>,
}

/// The contents of a [`Preset`].
#[verifier::ext_equal]
pub struct PresetView {
    /// Format version.
    pub version: u32,
    /// All nodes.
    pub nodes: Seq<NodeCard>,
    /// All links.
    pub links: Seq<PresetLink>,
}

/// The contents of a list of saved nodes.
pub open spec fn preset_cards(nodes: Seq<PresetNode>) -> Seq<NodeCard> {
    nodes.map_values(|n: PresetNode| n@)
}

impl View for Preset {
    type V = PresetView;

    open spec fn view(&self) -> PresetView {
        PresetView {
            version: self.version,
            nodes: preset_cards(self.nodes@),
            links: self.links@,
        }
    }
}

/// A saved node.
#[derive(Debug, Clone, PartialEq, Eq)]
pub struct PresetNode {
    /// The node.
    pub id: NodeId,
    /// Its label.
    pub label: String,
    /// Count of its input ports.
    pub inputs: u16,
    /// Count of its output ports.
    pub outputs: u16,
    /// Its kind, where one is known.
    pub kind: Option<String>,
    /// Its parameters, where some are known.
    pub params: Option<NodeParams>,
}

impl View for PresetNode {
    type V = NodeCard;

    open spec fn view(&self) -> NodeCard {
        NodeCard {
            id: self.id,
            label: self.label@,
            inputs: self.inputs,
            outputs: self.outputs,
            kind: text_view(self.kind),
            params: params_view(self.params),
        }
    }
}

/// A saved link.
#[derive(Debug, Clone, Copy, PartialEq, Eq, Structural)]
pub struct PresetLink {
    /// Node that the link starts at.
    pub from: NodeId,
    /// Output port that it starts at.
    pub from_port: u16,
    /// Node that the link ends at.
    pub to: NodeId,
    /// Input port that it ends at.
    pub to_port: u16,
}

/// Errors of the control surface.
#[derive(Debug, Clone, PartialEq, Eq)]
pub enum ControlError {
    /// The operation does not exist.
    Unimplemented(&'static str),
    /// The request is malformed.
    BadRequest(String),
    /// The graph refused the operation.
    Graph(String),
    /// A node or link that the request names does not exist.
    NotFound(String),
}

/// The contents of a [`ControlError`].
pub enum ControlErrorView {
    /// See [`ControlError::Unimplemented`].
    Unimplemented(Seq<char>),
    /// See [`ControlError::BadRequest`].
    BadRequest(Seq<char>),
    /// See [`ControlError::Graph`].
    Graph(Seq<char>),
    /// See [`ControlError::NotFound`].
    NotFound(Seq<char>),
}

impl View for ControlError {
    type V = ControlErrorView;

    open spec fn view(&self) -> ControlErrorView {
        match self {
            ControlError::Unimplemented(m) => ControlErrorView::Unimplemented(m@),
            ControlError::BadRequest(m) => ControlErrorView::BadRequest(m@),
            ControlError::Graph(m) => ControlErrorView::Graph(m@),
            ControlError::NotFound(m) => ControlErrorView::NotFound(m@),
        }
    }
}

impl ControlErrorView {
    /// The text of the error.
    pub open spec fn text(self) -> Seq<char> {
        match self {
            ControlErrorView::Unimplemented(m) => "not implemented: "@ + m,
            ControlErrorView::BadRequest(m) => "bad request: "@ + m,
            ControlErrorView::Graph(m) => "graph: "@ + m,
            ControlErrorView::NotFound(m) => "not found: "@ + m,
        }
    }

    /// The HTTP status of the error.
    pub open spec fn status(self) -> u16 {
        match self {
            ControlErrorView::BadRequest(_) => 400,
            ControlErrorView::Graph(_) => 422,
            ControlErrorView::NotFound(_) => 404,
            ControlErrorView::Unimplemented(_) => 501,
        }
    }
}

impl ControlError {
    /// The text of the error.
    pub fn message(&self) -> (s: String)
        ensures
            s@ == self@.text(),
    {
        match self {
            ControlError::Unimplemented(m) => {
                let mut s = "not implemented: ".to_owned();
                s.append(m);
                s
            },
            ControlError::BadRequest(m) => {
                let mut s = "bad request: ".to_owned();
                s.append(m.as_str());
                s
            },
            ControlError::Graph(m) => {
                let mut s = "graph: ".to_owned();
                s.append(m.as_str());
                s
            },
            ControlError::NotFound(m) => {
                let mut s = "not found: ".to_owned();
                s.append(m.as_str());
                s
            },
        }
    }
}

/// The HTTP status of an error.
pub fn status_for(e: &ControlError) -> (status: u16)
    ensures
        status == e@.status(),
{
    match e {
        ControlError::BadRequest(_) => 400,
        ControlError::Graph(_) => 422,
        ControlError::NotFound(_) => 404,
        ControlError::Unimplemented(_) => 501,
    }
}

} // verus!

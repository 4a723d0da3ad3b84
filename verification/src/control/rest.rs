//! What the REST surface answers.

use crate::control::controller::{ControlApi, GraphController};
use crate::control::model::{
    status_for, ControlError, CreateNodeResponse, LinkInfo, LinkRequest, LinkResponse, NodeInfo,
    TopologyInfo,
};
use crate::control::store::SessionStore;
use crate::control::topology::{LinkId, NodeId};
use vstd::prelude::*;

verus! {

/// Status of a request that made something.
pub const CREATED: u16 = 201;

/// Status of a request that was carried out and has nothing to tell.
pub const NO_CONTENT: u16 = 204;

/// The answer to a request for a node: 201 with its id, or the status of the
/// error.
pub fn node_reply(r: Result<NodeId, ControlError>) -> (reply: Result<(u16, CreateNodeResponse), u16>)
    ensures
        match r {
            Ok(id) => reply == Ok::<(u16, CreateNodeResponse), u16>(
                (201u16, CreateNodeResponse { id }),
            ),
            Err(e) => reply == Err::<(u16, CreateNodeResponse), u16>(e@.status()),
        },
{
    match r {
        Ok(id) => Ok((CREATED, CreateNodeResponse { id })),
        Err(e) => Err(status_for(&e)),
    }
}

/// The answer to a request for a link: 201 with its id, or the status of the
/// error.
pub fn link_reply(r: Result<LinkId, ControlError>) -> (reply: Result<(u16, LinkResponse), u16>)
    ensures
        match r {
            Ok(id) => reply == Ok::<(u16, LinkResponse), u16>((201u16, LinkResponse { id })),
            Err(e) => reply == Err::<(u16, LinkResponse), u16>(e@.status()),
        },
{
    match r {
        Ok(id) => Ok((CREATED, LinkResponse { id })),
        Err(e) => Err(status_for(&e)),
    }
}

/// The answer to a removal or an import: 204, or the status and the text of the
/// error.
pub fn done_reply(r: Result<(), ControlError>) -> (reply: Result<u16, (u16, String)>)
    ensures
        match r {
            Ok(()) => reply == Ok::<u16, (u16, String)>(204u16),
            Err(e) => reply matches Err((status, text)) && status == e@.status() && text@
                == e@.text(),
        },
{
    match r {
        Ok(()) => Ok(NO_CONTENT),
        Err(e) => Err((status_for(&e), e.message())),
    }
}

/// The ports that a request for a link names; the first where it names none.
pub fn requested_ports(req: &LinkRequest) -> (ports: (u16, u16))
    ensures
        ports.0 == match req.from_port {
            Some(p) => p,
            None => 0,
        },
        ports.1 == match req.to_port {
            Some(p) => p,
            None => 0,
        },
{
    let from: u16 = match req.from_port {
        Some(p) => p,
        None => 0,
    };
    let to: u16 = match req.to_port {
        Some(p) => p,
        None => 0,
    };
    (from, to)
}

/// Describes all nodes and links.
pub fn topology_info<S: SessionStore>(ctrl: &GraphController<S>) -> (t: TopologyInfo)
    ensures
        t.nodes@.map_values(|n: NodeInfo| n@) == ctrl@.cards(),
        t.links@ == ctrl@.links(),
{
    let nodes: Vec<NodeInfo> = ctrl.list_nodes();
    let links: Vec<LinkInfo> = ctrl.list_links();
    TopologyInfo { nodes, links }
}

} // verus!

//! Requests and their answers, and requests from many sides.

use sonicbrew::control::controller::{ControlApi, GraphController};
use sonicbrew::control::model::{
    ControlError, LinkRequest, NodeInfo, NodeSpec, Preset, TopologyInfo, PRESET_VERSION,
};
use sonicbrew::control::params::NodeParams;
use sonicbrew::control::rest::{
    done_reply, link_reply, node_reply, requested_ports, topology_info, CREATED, NO_CONTENT,
};
use sonicbrew::control::store::InMemoryStore;
use std::collections::HashMap;
use std::sync::{Arc, Mutex};

type Controller = GraphController<InMemoryStore>;

fn app() -> Controller {
    GraphController::new(InMemoryStore::new())
}

fn spec(label: &str, inputs: u16, outputs: u16) -> NodeSpec {
    NodeSpec {
        label: label.into(),
        inputs,
        outputs,
        kind: None,
        params: None,
    }
}

fn of_kind(kind: &str, spec: NodeSpec) -> NodeSpec {
    NodeSpec {
        kind: Some(kind.into()),
        ..spec
    }
}

/// `POST /nodes`: the status, and the id where there is one.
fn post_node(ctrl: &mut Controller, spec: NodeSpec) -> (u16, Option<usize>) {
    match node_reply(ctrl.create_node(spec)) {
        Ok((status, reply)) => (status, Some(reply.id)),
        Err(status) => (status, None),
    }
}

/// `POST /links`: the status, and the id where there is one.
fn post_link(ctrl: &mut Controller, req: LinkRequest) -> (u16, Option<usize>) {
    let (from_port, to_port) = requested_ports(&req);
    match link_reply(ctrl.link_ports(req.from, from_port, req.to, to_port)) {
        Ok((status, reply)) => (status, Some(reply.id)),
        Err(status) => (status, None),
    }
}

fn done(r: Result<(), ControlError>) -> u16 {
    match done_reply(r) {
        Ok(status) => status,
        Err((status, _)) => status,
    }
}

fn between(from: usize, to: usize) -> LinkRequest {
    LinkRequest {
        from,
        from_port: None,
        to,
        to_port: None,
    }
}

fn two_nodes() -> Controller {
    let mut ctrl = app();
    ctrl.create_node(spec("src", 0, 1)).unwrap();
    ctrl.create_node(spec("sink", 1, 0)).unwrap();
    ctrl
}

fn preset_graph() -> Controller {
    let mut ctrl = app();
    let eq = ctrl
        .create_node(NodeSpec {
            params: Some(NodeParams::Eq {
                filter_type: "peaking".into(),
                freq: 2000.0_f32.to_bits(),
                gain_db: 6.0_f32.to_bits(),
                q: 1.0_f32.to_bits(),
            }),
            ..of_kind("eq", spec("eq1", 1, 1))
        })
        .unwrap();
    let gain = ctrl
        .create_node(NodeSpec {
            params: Some(NodeParams::Gain {
                gain: 0.5_f32.to_bits(),
            }),
            ..of_kind("gain", spec("g", 1, 1))
        })
        .unwrap();
    ctrl.link_ports(eq, 0, gain, 0).unwrap();
    ctrl
}

#[test]
fn rest_post_node_params_mismatch_returns_400() {
    let mut ctrl = app();
    let reply = post_node(
        &mut ctrl,
        NodeSpec {
            params: Some(NodeParams::Gain {
                gain: 0.5_f32.to_bits(),
            }),
            ..of_kind("eq", spec("x", 1, 1))
        },
    );
    assert_eq!(reply, (400, None));
}

#[test]
fn rest_shared_kind_registry() {
    let mut ctrl = GraphController::new_with_kind_registry(InMemoryStore::new(), HashMap::new());
    assert_eq!(
        post_node(&mut ctrl, of_kind("gain", spec("src", 0, 1))).0,
        CREATED
    );
    assert_eq!(ctrl.kind_of(1).as_deref(), Some("gain"));
}

#[test]
fn rest_post_node_with_params() {
    let mut ctrl = GraphController::new_with_registries(
        InMemoryStore::new(),
        HashMap::new(),
        HashMap::new(),
    );
    let reply = post_node(
        &mut ctrl,
        NodeSpec {
            params: Some(NodeParams::Eq {
                filter_type: "peaking".into(),
                freq: 1000.0_f32.to_bits(),
                gain_db: 3.0_f32.to_bits(),
                q: 0.707_f32.to_bits(),
            }),
            ..of_kind("eq", spec("eq1", 1, 1))
        },
    );
    assert_eq!(reply.0, CREATED);
    match ctrl.params_of(1) {
        Some(NodeParams::Eq { freq, .. }) => {
            assert!((f32::from_bits(freq) - 1000.0).abs() < f32::EPSILON);
        }
        _ => panic!("the parameters are recorded"),
    }
}

#[test]
fn rest_get_nodes_returns_empty_200() {
    assert!(app().list_nodes().is_empty());
}

#[test]
fn rest_post_node_returns_201() {
    assert_eq!(post_node(&mut app(), spec("src", 0, 1)), (201, Some(1)));
}

#[test]
fn rest_post_link_returns_201() {
    assert_eq!(post_link(&mut two_nodes(), between(1, 2)), (201, Some(0)));
}

#[test]
fn rest_post_link_with_ports_returns_201() {
    let mut ctrl = app();
    ctrl.create_node(spec("src", 0, 1)).unwrap();
    ctrl.create_node(spec("mixer", 2, 1)).unwrap();
    let req = LinkRequest {
        from: 1,
        from_port: Some(0),
        to: 2,
        to_port: Some(1),
    };
    assert_eq!(post_link(&mut ctrl, req).0, CREATED);
    assert_eq!(ctrl.list_links()[0].to_port, 1);
}

#[test]
fn rest_post_link_without_ports_backward_compatible() {
    let mut ctrl = two_nodes();
    assert_eq!(post_link(&mut ctrl, between(1, 2)).0, CREATED);
    let link = &ctrl.list_links()[0];
    assert_eq!((link.from_port, link.to_port), (0, 0));
}

#[test]
fn rest_post_link_bad_port_returns_400() {
    let req = LinkRequest {
        from: 1,
        from_port: Some(0),
        to: 2,
        to_port: Some(9),
    };
    assert_eq!(post_link(&mut two_nodes(), req), (400, None));
}

#[test]
fn rest_get_links_returns_200() {
    let mut ctrl = two_nodes();
    ctrl.link(1, 2).unwrap();
    let links = ctrl.list_links();
    assert_eq!(links.len(), 1);
    assert_eq!(links[0].from, 1);
    assert_eq!(links[0].to, 2);
}

#[test]
fn rest_get_topology_returns_nodes_and_links() {
    let mut ctrl = two_nodes();
    post_link(&mut ctrl, between(1, 2));
    let topo: TopologyInfo = topology_info(&ctrl);
    assert_eq!(topo.nodes.len(), 2);
    assert_eq!(topo.links.len(), 1);
}

#[test]
fn rest_delete_node_returns_204() {
    assert_eq!(done(two_nodes().delete_node(1)), NO_CONTENT);
}

#[test]
fn rest_delete_node_missing_returns_404() {
    assert_eq!(done(app().delete_node(99)), 404);
    assert_eq!(
        done_reply(app().delete_node(99)),
        Err((404, String::from("not found: node 99")))
    );
}

#[test]
fn rest_delete_link_returns_204() {
    let mut ctrl = two_nodes();
    ctrl.link(1, 2).unwrap();
    assert_eq!(done(ctrl.delete_link(0)), NO_CONTENT);
}

#[test]
fn rest_delete_link_missing_returns_404() {
    assert_eq!(done(app().delete_link(0)), 404);
}

#[test]
fn rest_post_node_without_kind_is_backward_compatible() {
    let mut ctrl = app();
    assert_eq!(post_node(&mut ctrl, spec("src", 0, 1)), (201, Some(1)));
    assert_eq!(ctrl.kind_of(1), None);
}

#[test]
fn rest_get_preset_returns_200() {
    let preset: Preset = preset_graph().export_preset();
    assert_eq!(preset.version, PRESET_VERSION);
    assert_eq!(preset.nodes.len(), 2);
    assert_eq!(preset.links.len(), 1);
}

#[test]
fn rest_post_preset_imports() {
    let preset = preset_graph().export_preset();
    let mut dst = app();
    assert_eq!(done(dst.import_preset(&preset)), NO_CONTENT);
    let nodes = dst.list_nodes();
    assert_eq!(nodes.len(), 2);
    assert_eq!(nodes[0].label, "eq1");
    assert_eq!(nodes[0].kind.as_deref(), Some("eq"));
    assert!(matches!(nodes[0].params, Some(NodeParams::Eq { .. })));
    assert_eq!(nodes[1].label, "g");
    assert_eq!(nodes[1].kind.as_deref(), Some("gain"));
    assert_eq!(dst.list_links().len(), 1);
}

#[test]
fn get_nodes_empty_returns_200() {
    assert_eq!(app().list_nodes(), vec![]);
}

#[test]
fn get_nodes_after_create_returns_node() {
    let mut ctrl = app();
    ctrl.create_node(spec("src", 0, 2)).unwrap();
    let body = ctrl.list_nodes();
    assert_eq!(body.len(), 1);
    assert_eq!(body[0].label, "src");
    assert_eq!(body[0].outputs, 2);
}

#[test]
fn post_node_returns_201_with_id() {
    assert_eq!(post_node(&mut app(), spec("mixer", 2, 1)), (201, Some(1)));
}

#[test]
fn post_node_with_kind_roundtrips_through_get() {
    let mut ctrl = app();
    assert_eq!(
        post_node(&mut ctrl, of_kind("gain", spec("gain", 1, 1))).0,
        CREATED
    );
    assert_eq!(ctrl.list_nodes()[0].kind.as_deref(), Some("gain"));
}

#[test]
fn post_node_without_kind_is_backward_compatible() {
    assert_eq!(post_node(&mut app(), spec("src", 0, 1)).0, CREATED);
}

#[test]
fn post_node_empty_label_returns_400() {
    assert_eq!(post_node(&mut app(), spec("   ", 1, 1)).0, 400);
}

#[test]
fn post_node_empty_string_label_returns_400() {
    assert_eq!(post_node(&mut app(), spec("", 1, 1)).0, 400);
}

#[test]
fn post_link_returns_201_with_id() {
    assert_eq!(post_link(&mut two_nodes(), between(1, 2)), (201, Some(0)));
}

#[test]
fn delete_node_existing_returns_204() {
    let mut ctrl = app();
    ctrl.create_node(spec("tmp", 0, 1)).unwrap();
    assert_eq!(done(ctrl.delete_node(1)), NO_CONTENT);
}

#[test]
fn delete_node_missing_returns_404() {
    assert_eq!(done(app().delete_node(99)), 404);
}

#[test]
fn delete_node_then_get_returns_empty() {
    let mut ctrl = app();
    ctrl.create_node(spec("tmp", 0, 1)).unwrap();
    assert_eq!(done(ctrl.delete_node(1)), NO_CONTENT);
    assert!(ctrl.list_nodes().is_empty());
}

#[test]
fn delete_link_existing_returns_204() {
    let mut ctrl = app();
    let a = ctrl.create_node(spec("a", 0, 1)).unwrap();
    let b = ctrl.create_node(spec("b", 1, 0)).unwrap();
    ctrl.link(a, b).unwrap();
    assert_eq!(done(ctrl.delete_link(0)), NO_CONTENT);
}

#[test]
fn delete_link_missing_returns_404() {
    assert_eq!(done(app().delete_link(0)), 404);
}

#[test]
fn full_lifecycle_create_link_list_delete() {
    let mut ctrl = app();
    let (status, n1) = post_node(&mut ctrl, spec("src", 0, 1));
    assert_eq!(status, CREATED);
    let (status, n2) = post_node(&mut ctrl, spec("sink", 1, 0));
    assert_eq!(status, CREATED);
    let req = between(n1.unwrap(), n2.unwrap());
    assert_eq!(post_link(&mut ctrl, req).0, CREATED);
    assert_eq!(ctrl.list_nodes().len(), 2);
    // Deleting the first node takes the link along.
    assert_eq!(done(ctrl.delete_node(1)), NO_CONTENT);
    assert!(ctrl.list_links().is_empty());
    let nodes = ctrl.list_nodes();
    assert_eq!(nodes.len(), 1);
    assert_eq!(nodes[0].id, 2);
}

#[test]
fn kind_registry_visible_after_rest_post() {
    let mut ctrl = GraphController::new_with_kind_registry(InMemoryStore::new(), HashMap::new());
    assert_eq!(
        post_node(&mut ctrl, of_kind("oscillator", spec("src", 0, 1))).0,
        CREATED
    );
    assert_eq!(ctrl.kind_of(1).as_deref(), Some("oscillator"));
}

#[test]
fn kind_registry_empty_when_no_kind() {
    let mut ctrl = GraphController::new_with_kind_registry(InMemoryStore::new(), HashMap::new());
    assert_eq!(post_node(&mut ctrl, spec("src", 0, 1)).0, CREATED);
    assert_eq!(ctrl.kind_of(1), None);
}

/// A controller that tasks share.
fn shared() -> Arc<Mutex<Controller>> {
    Arc::new(Mutex::new(app()))
}

fn runtime() -> tokio::runtime::Runtime {
    tokio::runtime::Runtime::new().expect("runtime")
}

fn nodes_of(ctrl: &Arc<Mutex<Controller>>) -> Vec<NodeInfo> {
    ctrl.lock().unwrap().list_nodes()
}

#[test]
fn concurrent_create_nodes_no_data_race() {
    let ctrl = shared();
    const N: usize = 50;
    runtime().block_on(async {
        let mut handles = Vec::with_capacity(N);
        for i in 0..N {
            let c = Arc::clone(&ctrl);
            handles.push(tokio::spawn(async move {
                c.lock()
                    .unwrap()
                    .create_node(spec(&format!("n{i}"), 1, 1))
                    .expect("create_node");
            }));
        }
        for h in handles {
            h.await.expect("task panic");
        }
    });
    let nodes = nodes_of(&ctrl);
    assert_eq!(nodes.len(), N);
    // All ids 1..=N present.
    let mut ids: Vec<_> = nodes.iter().map(|n| n.id).collect();
    ids.sort();
    let expected: Vec<usize> = (1..=N).collect();
    assert_eq!(ids, expected);
}

#[test]
fn concurrent_create_and_read_consistent() {
    let ctrl = shared();
    const CREATORS: usize = 20;
    const READERS: usize = 10;
    runtime().block_on(async {
        let mut handles = Vec::with_capacity(CREATORS + READERS);
        for i in 0..CREATORS {
            let c = Arc::clone(&ctrl);
            handles.push(tokio::spawn(async move {
                c.lock()
                    .unwrap()
                    .create_node(spec(&format!("c{i}"), 0, 1))
                    .expect("create_node");
            }));
        }
        for _ in 0..READERS {
            let c = Arc::clone(&ctrl);
            handles.push(tokio::spawn(async move {
                for n in &nodes_of(&c) {
                    assert!(!n.label.is_empty(), "label must not be empty");
                }
            }));
        }
        for h in handles {
            h.await.expect("task panic");
        }
    });
    let final_count = nodes_of(&ctrl).len();
    assert!(
        final_count <= CREATORS,
        "final count {final_count} <= {CREATORS}"
    );
}

#[test]
fn concurrent_double_delete_only_one_succeeds() {
    let ctrl = shared();
    ctrl.lock()
        .unwrap()
        .create_node(spec("target", 0, 1))
        .unwrap();
    let (r1, r2) = runtime().block_on(async {
        let c1 = Arc::clone(&ctrl);
        let c2 = Arc::clone(&ctrl);
        let t1 = tokio::spawn(async move { c1.lock().unwrap().delete_node(1) });
        let t2 = tokio::spawn(async move { c2.lock().unwrap().delete_node(1) });
        (
            t1.await.expect("task 1 panic"),
            t2.await.expect("task 2 panic"),
        )
    });
    // Exactly one must succeed, the other must return NotFound.
    let successes = [r1.is_ok(), r2.is_ok()].iter().filter(|&&ok| ok).count();
    assert_eq!(successes, 1, "exactly one delete must succeed");
    assert!(nodes_of(&ctrl).is_empty());
}

#[test]
fn concurrent_delete_different_nodes() {
    let ctrl = shared();
    const N: usize = 30;
    for i in 0..N {
        ctrl.lock()
            .unwrap()
            .create_node(spec(&format!("n{i}"), 0, 1))
            .unwrap();
    }
    runtime().block_on(async {
        let mut handles = Vec::with_capacity(N);
        for id in 1..=N {
            let c = Arc::clone(&ctrl);
            handles.push(tokio::spawn(async move {
                c.lock().unwrap().delete_node(id).expect("delete_node");
            }));
        }
        for h in handles {
            h.await.expect("task panic");
        }
    });
    assert!(nodes_of(&ctrl).is_empty());
}

#[test]
fn concurrent_create_delete_interleaved() {
    let ctrl = shared();
    // Phase 1: create 20 nodes.
    for i in 0..20 {
        ctrl.lock()
            .unwrap()
            .create_node(spec(&format!("p1_{i}"), 0, 1))
            .expect("create");
    }
    assert_eq!(nodes_of(&ctrl).len(), 20);
    // Phase 2: delete the first 10, create 10 more.
    runtime().block_on(async {
        let mut handles = Vec::new();
        for i in 1..=10 {
            let c = Arc::clone(&ctrl);
            handles.push(tokio::spawn(async move {
                c.lock().unwrap().delete_node(i).expect("delete");
            }));
        }
        for i in 0..10 {
            let c = Arc::clone(&ctrl);
            handles.push(tokio::spawn(async move {
                c.lock()
                    .unwrap()
                    .create_node(spec(&format!("p2_{i}"), 1, 0))
                    .expect("create");
            }));
        }
        for h in handles {
            h.await.expect("panic");
        }
    });
    // Exactly 20 nodes remain (20 - 10 deleted + 10 created).
    assert_eq!(nodes_of(&ctrl).len(), 20);
}

#[test]
fn concurrent_kind_registry_consistent() {
    let ctrl = shared();
    const N: usize = 40;
    runtime().block_on(async {
        let mut handles = Vec::with_capacity(N);
        for i in 0..N {
            let c = Arc::clone(&ctrl);
            handles.push(tokio::spawn(async move {
                let id = c
                    .lock()
                    .unwrap()
                    .create_node(of_kind(&format!("kind_{i}"), spec(&format!("k{i}"), 1, 1)))
                    .expect("create_node");
                (id, i)
            }));
        }
        // Every create recorded its kind.
        for h in handles {
            let (id, i) = h.await.expect("panic");
            assert_eq!(
                ctrl.lock().unwrap().kind_of(id),
                Some(format!("kind_{i}")),
                "kind for node {id}"
            );
        }
    });
    assert_eq!(nodes_of(&ctrl).len(), N);
}

#[test]
fn concurrent_link_creation() {
    let ctrl = shared();
    // Create 20 source + 20 sink nodes.
    let mut pairs = Vec::new();
    for i in 0..20 {
        let mut c = ctrl.lock().unwrap();
        let s = c.create_node(spec(&format!("src{i}"), 0, 1)).unwrap();
        let k = c.create_node(spec(&format!("snk{i}"), 1, 0)).unwrap();
        pairs.push((s, k));
    }
    runtime().block_on(async {
        let mut handles = Vec::with_capacity(20);
        for (s, k) in pairs {
            let c = Arc::clone(&ctrl);
            handles.push(tokio::spawn(async move {
                c.lock().unwrap().link(s, k).expect("link");
            }));
        }
        for h in handles {
            h.await.expect("panic");
        }
    });
    // All 20 links created; topology must have 40 nodes.
    assert_eq!(nodes_of(&ctrl).len(), 40);
    assert_eq!(ctrl.lock().unwrap().list_links().len(), 20);
}

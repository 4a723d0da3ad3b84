//! The controller: nodes, links, registries and presets.

use sonicbrew::control::controller::{
    build_ports, check_link, fresh_id, newest_link, settle_spec, store_err_to_control, ControlApi,
    GraphController, KindRegistry, ParamsRegistry,
};
use sonicbrew::control::model::{
    status_for, ControlError, NodeSpec, Preset, PresetLink, PresetNode, PRESET_VERSION,
};
use sonicbrew::control::params::{
    default_bits, default_channel_mode, default_distortion_mode, default_filter_type,
    default_hold_factor, default_mixer_inputs, default_noise_color, default_phaser_stages,
    default_seed, default_waveform, NodeParams,
};
use sonicbrew::control::store::{
    InMemoryStore, MutationId, Requests, SessionStore, StoreError, StoreErrorView,
};
use sonicbrew::control::topology::{
    Mutation, MutationView, NodeId, NodeSnapshot, SnapshotEdge, Topology, TopologySnapshot,
};
use sonicbrew::port::PortDir;
use std::cell::RefCell;
use std::collections::HashMap;
use std::rc::Rc;

/// A store that others can look at, and that notes what it is asked to apply.
#[derive(Clone)]
struct Recorder {
    inner: Rc<RefCell<InMemoryStore>>,
    notes: Rc<RefCell<Vec<Mutation>>>,
}

fn copy_of(m: &Mutation) -> Mutation {
    match m {
        Mutation::AddNode(n) => Mutation::AddNode(NodeSnapshot {
            id: n.id,
            inputs: n.inputs.clone(),
            outputs: n.outputs.clone(),
        }),
        Mutation::RemoveNode(id) => Mutation::RemoveNode(*id),
        Mutation::AddLink(e) => Mutation::AddLink(*e),
        Mutation::RemoveLink(id) => Mutation::RemoveLink(*id),
    }
}

impl Recorder {
    fn new() -> Self {
        Recorder {
            inner: Rc::new(RefCell::new(InMemoryStore::new())),
            notes: Rc::new(RefCell::new(Vec::new())),
        }
    }

    fn recorded(&self) -> Vec<Mutation> {
        self.notes.borrow().iter().map(copy_of).collect()
    }
}

impl SessionStore for Recorder {
    // Ghost: never called.
    fn topology(&self) -> Topology {
        unreachable!()
    }

    fn answer(&self, _m: MutationView) -> Result<MutationId, StoreErrorView> {
        unreachable!()
    }

    fn refuses(&self, _m: MutationView, _after: Self) -> bool {
        unreachable!()
    }

    fn requests(&self) -> Requests {
        unreachable!()
    }

    fn applies_all(&self) -> bool {
        unreachable!()
    }

    fn get_topology(&self) -> TopologySnapshot {
        self.inner.borrow().get_topology()
    }

    fn apply_mutation(&mut self, mutation: Mutation) -> Result<MutationId, StoreError> {
        self.notes.borrow_mut().push(copy_of(&mutation));
        self.inner.borrow_mut().apply_mutation(mutation)
    }
}

/// A store that applies some mutations and refuses the rest.
struct Reluctant {
    inner: Recorder,
    asked: Rc<RefCell<usize>>,
    left: usize,
}

impl Reluctant {
    fn new(left: usize) -> Self {
        Reluctant {
            inner: Recorder::new(),
            asked: Rc::new(RefCell::new(0)),
            left,
        }
    }
}

impl SessionStore for Reluctant {
    // Ghost: never called.
    fn topology(&self) -> Topology {
        unreachable!()
    }

    fn answer(&self, _m: MutationView) -> Result<MutationId, StoreErrorView> {
        unreachable!()
    }

    fn refuses(&self, _m: MutationView, _after: Self) -> bool {
        unreachable!()
    }

    fn requests(&self) -> Requests {
        unreachable!()
    }

    fn applies_all(&self) -> bool {
        unreachable!()
    }

    fn get_topology(&self) -> TopologySnapshot {
        self.inner.get_topology()
    }

    fn apply_mutation(&mut self, mutation: Mutation) -> Result<MutationId, StoreError> {
        *self.asked.borrow_mut() += 1;
        if self.left == 0 {
            return Err(StoreError::Persistence(String::from("disk full")));
        }
        self.left -= 1;
        self.inner.apply_mutation(mutation)
    }
}

fn fake_controller() -> GraphController<Recorder> {
    GraphController::new(Recorder::new())
}

fn bits(x: f32) -> u32 {
    x.to_bits()
}

fn plain(label: &str, inputs: u16, outputs: u16) -> NodeSpec {
    NodeSpec {
        label: label.into(),
        inputs,
        outputs,
        kind: None,
        params: None,
    }
}

/// Builds a two-node graph (eq with params -> gain) plus one link on the
/// given controller; returns the created node ids.
fn build_preset_graph(ctrl: &mut GraphController<Recorder>) -> (NodeId, NodeId) {
    let eq = ctrl
        .create_node(NodeSpec {
            label: "eq1".into(),
            inputs: 1,
            outputs: 1,
            kind: Some("eq".into()),
            params: Some(NodeParams::Eq {
                filter_type: "peaking".into(),
                freq: bits(2000.0),
                gain_db: bits(6.0),
                q: bits(1.0),
            }),
        })
        .expect("create eq");
    let gain = ctrl
        .create_node(NodeSpec {
            label: "g".into(),
            inputs: 1,
            outputs: 1,
            kind: Some("gain".into()),
            params: Some(NodeParams::Gain { gain: bits(0.5) }),
        })
        .expect("create gain");
    ctrl.link_ports(eq, 0, gain, 0).expect("link");
    (eq, gain)
}

#[test]
fn list_nodes_empty() {
    let ctrl = fake_controller();
    assert!(ctrl.list_nodes().is_empty());
}

#[test]
fn create_node_applies_mutation() {
    let store = Recorder::new();
    let mut ctrl = GraphController::new(store.clone());

    let id = ctrl
        .create_node(NodeSpec {
            label: "src".into(),
            inputs: 0,
            outputs: 1,
            kind: None,
            params: None,
        })
        .expect("create_node");

    // First node id is max(none)+1 == 1.
    assert_eq!(id, 1);

    let recorded = store.recorded();
    assert_eq!(recorded.len(), 1, "exactly one mutation applied");
    match &recorded[0] {
        Mutation::AddNode(ns) => {
            assert_eq!(ns.id, 1);
            assert_eq!(ns.inputs.len(), 0);
            assert_eq!(ns.outputs.len(), 1);
        }
        other => panic!("expected AddNode, got {other:?}"),
    }

    // Label roundtrips through the side registry.
    let info = &ctrl.list_nodes()[0];
    assert_eq!(info.id, 1);
    assert_eq!(info.label, "src");
    assert_eq!(info.outputs, 1);
}

#[test]
fn create_node_rejects_empty_label() {
    let mut ctrl = fake_controller();
    let err = ctrl
        .create_node(NodeSpec {
            label: "   ".into(),
            inputs: 1,
            outputs: 1,
            kind: None,
            params: None,
        })
        .unwrap_err();
    assert!(matches!(err, ControlError::BadRequest(_)));
}

#[test]
fn link_applies_mutation() {
    let store = Recorder::new();
    let mut ctrl = GraphController::new(store.clone());
    let a = ctrl
        .create_node(NodeSpec {
            label: "a".into(),
            inputs: 0,
            outputs: 1,
            kind: None,
            params: None,
        })
        .unwrap();
    let b = ctrl
        .create_node(NodeSpec {
            label: "b".into(),
            inputs: 1,
            outputs: 0,
            kind: None,
            params: None,
        })
        .unwrap();

    let link = ctrl.link(a, b).expect("link");
    assert_eq!(link, 0, "first edge is positional id 0");

    let recorded = store.recorded();
    let add_links: Vec<&Mutation> = recorded
        .iter()
        .filter(|m| matches!(m, Mutation::AddLink(_)))
        .collect();
    assert_eq!(add_links.len(), 1);
    match add_links[0] {
        Mutation::AddLink(edge) => {
            assert_eq!(edge.from, (a, 0));
            assert_eq!(edge.to, (b, 0));
        }
        _ => unreachable!(),
    }
}

#[test]
fn link_ports_targets_specific_port() {
    let store = Recorder::new();
    let mut ctrl = GraphController::new(store.clone());
    // Source: 1 output.
    let src = ctrl
        .create_node(NodeSpec {
            label: "src".into(),
            inputs: 0,
            outputs: 1,
            kind: None,
            params: None,
        })
        .unwrap();
    // Mixer: 2 inputs.
    let mixer = ctrl
        .create_node(NodeSpec {
            label: "mixer".into(),
            inputs: 2,
            outputs: 1,
            kind: None,
            params: None,
        })
        .unwrap();

    // Link src -> mixer input port 1 (not the default 0).
    let link = ctrl.link_ports(src, 0, mixer, 1).expect("link_ports");
    assert_eq!(link, 0);

    let recorded = store.recorded();
    match &recorded[recorded.len() - 1] {
        Mutation::AddLink(edge) => {
            assert_eq!(edge.from, (src, 0));
            assert_eq!(edge.to, (mixer, 1), "should target input port 1");
        }
        other => panic!("expected AddLink, got {other:?}"),
    }
}

#[test]
fn link_ports_rejects_out_of_range() {
    let mut ctrl = fake_controller();
    let src = ctrl
        .create_node(NodeSpec {
            label: "src".into(),
            inputs: 0,
            outputs: 1,
            kind: None,
            params: None,
        })
        .unwrap();
    let dst = ctrl
        .create_node(NodeSpec {
            label: "dst".into(),
            inputs: 1,
            outputs: 0,
            kind: None,
            params: None,
        })
        .unwrap();
    // to_port 5 on a 1-input node -> BadRequest.
    let err = ctrl.link_ports(src, 0, dst, 5).unwrap_err();
    assert!(matches!(err, ControlError::BadRequest(_)));
}

#[test]
fn link_ports_source_not_found() {
    let mut ctrl = fake_controller();
    ctrl.create_node(NodeSpec {
        label: "dst".into(),
        inputs: 1,
        outputs: 0,
        kind: None,
        params: None,
    })
    .unwrap();
    let err = ctrl.link_ports(99, 0, 1, 0).unwrap_err();
    assert!(matches!(err, ControlError::NotFound(_)));
}

#[test]
fn delete_node_applies_remove_mutation() {
    let store = Recorder::new();
    let mut ctrl = GraphController::new(store.clone());
    ctrl.create_node(NodeSpec {
        label: "src".into(),
        inputs: 0,
        outputs: 1,
        kind: None,
        params: None,
    })
    .unwrap();

    ctrl.delete_node(1).expect("delete_node");

    let recorded = store.recorded();
    let removes: Vec<&Mutation> = recorded
        .iter()
        .filter(|m| matches!(m, Mutation::RemoveNode(_)))
        .collect();
    assert_eq!(removes.len(), 1, "exactly one RemoveNode mutation");
    match removes[0] {
        Mutation::RemoveNode(id) => assert_eq!(*id, 1),
        _ => unreachable!(),
    }
}

#[test]
fn delete_node_not_found() {
    let mut ctrl = fake_controller();
    let err = ctrl.delete_node(42).unwrap_err();
    assert!(matches!(err, ControlError::NotFound(_)));
}

#[test]
fn delete_link_applies_remove_mutation() {
    let store = Recorder::new();
    let mut ctrl = GraphController::new(store.clone());
    let a = ctrl
        .create_node(NodeSpec {
            label: "a".into(),
            inputs: 0,
            outputs: 1,
            kind: None,
            params: None,
        })
        .unwrap();
    let b = ctrl
        .create_node(NodeSpec {
            label: "b".into(),
            inputs: 1,
            outputs: 0,
            kind: None,
            params: None,
        })
        .unwrap();
    let link = ctrl.link(a, b).unwrap();
    assert_eq!(link, 0);

    ctrl.delete_link(0).expect("delete_link");

    let recorded = store.recorded();
    let removes: Vec<&Mutation> = recorded
        .iter()
        .filter(|m| matches!(m, Mutation::RemoveLink(_)))
        .collect();
    assert_eq!(removes.len(), 1, "exactly one RemoveLink mutation");
    match removes[0] {
        Mutation::RemoveLink(id) => assert_eq!(*id, 0),
        _ => unreachable!(),
    }
}

#[test]
fn delete_link_not_found() {
    let mut ctrl = fake_controller();
    let err = ctrl.delete_link(0).unwrap_err();
    assert!(matches!(err, ControlError::NotFound(_)));
}

#[test]
fn kind_round_trips() {
    let mut ctrl = fake_controller();
    ctrl.create_node(NodeSpec {
        label: "gain".into(),
        inputs: 1,
        outputs: 1,
        kind: Some("gain".into()),
        params: None,
    })
    .unwrap();
    let info = &ctrl.list_nodes()[0];
    assert_eq!(info.kind.as_deref(), Some("gain"));
}

#[test]
fn kind_none_default() {
    let mut ctrl = fake_controller();
    ctrl.create_node(NodeSpec {
        label: "src".into(),
        inputs: 0,
        outputs: 1,
        kind: None,
        params: None,
    })
    .unwrap();
    let info = &ctrl.list_nodes()[0];
    assert!(info.kind.is_none());
}

#[test]
fn create_node_with_eq_params_roundtrips() {
    let mut ctrl = fake_controller();
    ctrl.create_node(NodeSpec {
        label: "eq1".into(),
        inputs: 1,
        outputs: 1,
        kind: Some("eq".into()),
        params: Some(NodeParams::Eq {
            filter_type: "peaking".into(),
            freq: bits(2000.0),
            gain_db: bits(6.0),
            q: bits(1.0),
        }),
    })
    .unwrap();
    let info = &ctrl.list_nodes()[0];
    assert_eq!(info.kind.as_deref(), Some("eq"));
    let params = info.params.as_ref().expect("params present");
    match params {
        NodeParams::Eq {
            filter_type,
            freq,
            gain_db,
            q,
        } => {
            assert_eq!(filter_type, "peaking");
            assert!((f32::from_bits(*freq) - 2000.0).abs() < f32::EPSILON);
            assert!((f32::from_bits(*gain_db) - 6.0).abs() < f32::EPSILON);
            assert!((f32::from_bits(*q) - 1.0).abs() < f32::EPSILON);
        }
        other => panic!("expected Eq, got {other:?}"),
    }
}

#[test]
fn create_node_params_backward_compatible() {
    // A POST without params must still work — params is None.
    let mut ctrl = fake_controller();
    ctrl.create_node(NodeSpec {
        label: "src".into(),
        inputs: 1,
        outputs: 1,
        kind: Some("gain".into()),
        params: None,
    })
    .unwrap();
    let info = &ctrl.list_nodes()[0];
    assert!(info.params.is_none());
}

#[test]
fn params_variant_mismatch_rejected() {
    // kind="eq" with Gain params: previously accepted silently (the
    // factory fell back to EQ defaults); now rejected as BadRequest.
    let mut ctrl = fake_controller();
    let err = ctrl
        .create_node(NodeSpec {
            label: "eq1".into(),
            inputs: 1,
            outputs: 1,
            kind: Some("eq".into()),
            params: Some(NodeParams::Gain { gain: bits(0.5) }),
        })
        .unwrap_err();
    assert!(matches!(err, ControlError::BadRequest(_)));
    // The rejected spec must not leave anything behind.
    assert!(ctrl.list_nodes().is_empty());
}

#[test]
fn params_matching_kind_accepted() {
    // Existing behaviour preserved: agreeing kind + params still create.
    let mut ctrl = fake_controller();
    let id = ctrl
        .create_node(NodeSpec {
            label: "eq1".into(),
            inputs: 1,
            outputs: 1,
            kind: Some("eq".into()),
            params: Some(NodeParams::Eq {
                filter_type: "peaking".into(),
                freq: bits(1000.0),
                gain_db: bits(3.0),
                q: bits(0.707),
            }),
        })
        .expect("create_node");
    assert_eq!(id, 1);
    assert_eq!(ctrl.list_nodes()[0].kind.as_deref(), Some("eq"));
}

#[test]
fn load_module_is_unimplemented() {
    let ctrl = fake_controller();
    let err = ctrl.load_module("/dev/null").unwrap_err();
    assert!(matches!(err, ControlError::Unimplemented(_)));
}

#[test]
fn list_links_empty() {
    let ctrl = fake_controller();
    assert!(ctrl.list_links().is_empty());
}

#[test]
fn list_links_returns_created_links() {
    let mut ctrl = fake_controller();
    let a = ctrl
        .create_node(NodeSpec {
            label: "a".into(),
            inputs: 0,
            outputs: 1,
            kind: None,
            params: None,
        })
        .unwrap();
    let b = ctrl
        .create_node(NodeSpec {
            label: "b".into(),
            inputs: 1,
            outputs: 0,
            kind: None,
            params: None,
        })
        .unwrap();
    ctrl.link(a, b).unwrap();
    let links = ctrl.list_links();
    assert_eq!(links.len(), 1);
    assert_eq!(links[0].id, 0);
    assert_eq!(links[0].from, a);
    assert_eq!(links[0].to, b);
}

#[test]
fn list_links_with_ports() {
    let mut ctrl = fake_controller();
    let src = ctrl
        .create_node(NodeSpec {
            label: "src".into(),
            inputs: 0,
            outputs: 1,
            kind: None,
            params: None,
        })
        .unwrap();
    let mixer = ctrl
        .create_node(NodeSpec {
            label: "mixer".into(),
            inputs: 2,
            outputs: 1,
            kind: None,
            params: None,
        })
        .unwrap();
    ctrl.link_ports(src, 0, mixer, 1).unwrap();
    let links = ctrl.list_links();
    assert_eq!(links.len(), 1);
    assert_eq!(links[0].from_port, 0);
    assert_eq!(links[0].to_port, 1);
}

#[test]
fn export_preset_roundtrips() {
    let mut ctrl = fake_controller();
    let (eq, gain) = build_preset_graph(&mut ctrl);

    let preset = ctrl.export_preset();
    assert_eq!(preset.version, PRESET_VERSION);
    assert_eq!(preset.nodes.len(), 2);
    assert_eq!(preset.links.len(), 1);

    let eq_node = &preset.nodes[0];
    assert_eq!(eq_node.id, eq);
    assert_eq!(eq_node.label, "eq1");
    assert_eq!(eq_node.inputs, 1);
    assert_eq!(eq_node.outputs, 1);
    assert_eq!(eq_node.kind.as_deref(), Some("eq"));
    assert_eq!(
        eq_node.params,
        Some(NodeParams::Eq {
            filter_type: "peaking".into(),
            freq: bits(2000.0),
            gain_db: bits(6.0),
            q: bits(1.0),
        })
    );

    let gain_node = &preset.nodes[1];
    assert_eq!(gain_node.id, gain);
    assert_eq!(gain_node.label, "g");
    assert_eq!(gain_node.kind.as_deref(), Some("gain"));
    assert_eq!(gain_node.params, Some(NodeParams::Gain { gain: bits(0.5) }));

    let link = &preset.links[0];
    assert_eq!(link.from, eq);
    assert_eq!(link.from_port, 0);
    assert_eq!(link.to, gain);
    assert_eq!(link.to_port, 0);
}

#[test]
fn import_preset_restores_graph() {
    let mut src = fake_controller();
    let (eq, gain) = build_preset_graph(&mut src);
    let preset = src.export_preset();

    // Fresh controller: empty store AND separate registries.
    let mut dst = fake_controller();
    assert!(dst.list_nodes().is_empty());
    dst.import_preset(&preset).expect("import_preset");

    let nodes = dst.list_nodes();
    assert_eq!(nodes.len(), 2, "both nodes restored");
    assert_eq!(nodes[0].id, eq);
    assert_eq!(nodes[0].label, "eq1");
    assert_eq!(nodes[0].inputs, 1);
    assert_eq!(nodes[0].outputs, 1);
    assert_eq!(nodes[0].kind.as_deref(), Some("eq"));
    assert_eq!(nodes[0].params, preset.nodes[0].params);
    assert_eq!(nodes[1].id, gain);
    assert_eq!(nodes[1].label, "g");
    assert_eq!(nodes[1].kind.as_deref(), Some("gain"));
    assert_eq!(nodes[1].params, preset.nodes[1].params);

    let links = dst.list_links();
    assert_eq!(links.len(), 1, "link restored");
    assert_eq!(links[0].from, eq);
    assert_eq!(links[0].from_port, 0);
    assert_eq!(links[0].to, gain);
    assert_eq!(links[0].to_port, 0);
}

#[test]
fn import_preset_replaces_existing() {
    // Target starts with two nodes + a link that must all disappear.
    let mut ctrl = fake_controller();
    let a = ctrl
        .create_node(NodeSpec {
            label: "old-a".into(),
            inputs: 0,
            outputs: 1,
            kind: Some("gain".into()),
            params: None,
        })
        .unwrap();
    let b = ctrl
        .create_node(NodeSpec {
            label: "old-b".into(),
            inputs: 1,
            outputs: 0,
            kind: None,
            params: None,
        })
        .unwrap();
    ctrl.link_ports(a, 0, b, 0).unwrap();

    let mut src = fake_controller();
    build_preset_graph(&mut src);
    let preset = src.export_preset();

    ctrl.import_preset(&preset).expect("import_preset");

    let nodes = ctrl.list_nodes();
    assert_eq!(nodes.len(), 2, "only the preset's nodes remain");
    assert_eq!(nodes[0].label, "eq1");
    assert_eq!(nodes[0].kind.as_deref(), Some("eq"));
    assert_eq!(nodes[1].label, "g");
    assert!(
        !nodes
            .iter()
            .any(|n| n.label == "old-a" || n.label == "old-b"),
        "pre-existing nodes must not survive the import"
    );
    let links = ctrl.list_links();
    assert_eq!(
        links.len(),
        1,
        "old link cascaded away; only the preset's link remains"
    );
    assert_eq!(links[0].from, nodes[0].id);
    assert_eq!(links[0].to, nodes[1].id);
}

#[test]
fn empty_string_label_rejected() {
    let mut ctrl = fake_controller();
    let err = ctrl
        .create_node(NodeSpec {
            label: "".into(),
            inputs: 1,
            outputs: 1,
            kind: None,
            params: None,
        })
        .unwrap_err();
    assert!(
        matches!(err, ControlError::BadRequest(_)),
        "expected BadRequest, got {err:?}"
    );
}

#[test]
fn whitespace_only_label_rejected() {
    let mut ctrl = fake_controller();
    for label in ["   ", "\t", "\n", " \t \n "] {
        let err = ctrl
            .create_node(NodeSpec {
                label: label.into(),
                inputs: 1,
                outputs: 1,
                kind: None,
                params: None,
            })
            .unwrap_err();
        assert!(
            matches!(err, ControlError::BadRequest(_)),
            "label {label:?} should be rejected"
        );
    }
}

#[test]
fn very_long_label_rejected_or_accepted_gracefully() {
    let mut ctrl = fake_controller();
    let label = "x".repeat(100_000);
    // The controller only checks `trim().is_empty()` — a long non-empty label
    // is accepted. The test verifies no panic / OOM.
    let _ = ctrl.create_node(NodeSpec {
        label,
        inputs: 1,
        outputs: 1,
        kind: None,
        params: None,
    });
}

#[test]
fn very_long_kind_rejected_or_accepted_gracefully() {
    let mut ctrl = fake_controller();
    let kind = "k".repeat(1_000_000);
    let _ = ctrl.create_node(NodeSpec {
        label: "ok".into(),
        inputs: 1,
        outputs: 1,
        kind: Some(kind),
        params: None,
    });
}

#[test]
fn special_characters_in_label_no_panic() {
    let mut ctrl = fake_controller();
    let malicious_labels = [
        "<script>alert(1)</script>",
        "\\0\\0\\0",
        "../../../etc/passwd",
        "\u{0000}null\u{0000}",
        "🎉🔥💀",
        "label\r\nInjection: admin=true",
        "' OR 1=1 --",
        "{{constructor.constructor('return this')()}}",
    ];
    for label in malicious_labels {
        let result = ctrl.create_node(NodeSpec {
            label: label.into(),
            inputs: 1,
            outputs: 1,
            kind: None,
            params: None,
        });
        // Must not panic; accept or reject is fine.
        let _ = result;
    }
}

#[test]
fn special_characters_in_kind_no_panic() {
    let mut ctrl = fake_controller();
    let malicious_kinds = [
        "<img src=x onerror=alert(1)>",
        "${jndi:ldap://evil/a}",
        "\\x00\\x01\\xff",
        "../../../etc/shadow",
        "kind\r\nextra-header: evil",
    ];
    for kind in malicious_kinds {
        let result = ctrl.create_node(NodeSpec {
            label: "safe".into(),
            inputs: 1,
            outputs: 1,
            kind: Some(kind.into()),
            params: None,
        });
        let _ = result;
    }
}

#[test]
fn zero_inputs_zero_outputs_accepted() {
    let mut ctrl = fake_controller();
    let id = ctrl
        .create_node(NodeSpec {
            label: "passthrough".into(),
            inputs: 0,
            outputs: 0,
            kind: None,
            params: None,
        })
        .unwrap();
    let info = &ctrl.list_nodes()[0];
    assert_eq!(info.id, id);
    assert_eq!(info.inputs, 0);
    assert_eq!(info.outputs, 0);
}

#[test]
fn large_port_count_no_panic() {
    let mut ctrl = fake_controller();
    let result = ctrl.create_node(NodeSpec {
        label: "big".into(),
        inputs: u16::MAX,
        outputs: u16::MAX,
        kind: None,
        params: None,
    });
    // May succeed (store allocates the ports) or fail — must not panic.
    let _ = result;
}

#[test]
fn delete_nonexistent_node_returns_not_found() {
    let mut ctrl = fake_controller();
    let err = ctrl.delete_node(999).unwrap_err();
    assert!(matches!(err, ControlError::NotFound(_)));
}

#[test]
fn delete_nonexistent_link_returns_not_found() {
    let mut ctrl = fake_controller();
    let err = ctrl.delete_link(0).unwrap_err();
    assert!(matches!(err, ControlError::NotFound(_)));
}

#[test]
fn link_nonexistent_nodes_does_not_panic() {
    let mut ctrl = fake_controller();
    // link() does not validate node existence — it applies the mutation
    // directly. The test verifies no panic occurs.
    let _ = ctrl.link(100, 200);
}

#[test]
fn shared_kind_registry_visible_after_create() {
    let store = Recorder::new();
    let kinds: KindRegistry = HashMap::new();
    let mut ctrl = GraphController::new_with_kind_registry(store, kinds);
    let id = ctrl
        .create_node(NodeSpec {
            label: "g".into(),
            inputs: 1,
            outputs: 1,
            kind: Some("gain".into()),
            params: None,
        })
        .unwrap();
    assert_eq!(ctrl.kind_of(id).as_deref(), Some("gain"));
}

#[test]
fn delete_node_prunes_params_registry() {
    let params: ParamsRegistry = HashMap::new();
    let mut ctrl = GraphController::new_with_registries(Recorder::new(), HashMap::new(), params);
    ctrl.create_node(NodeSpec {
        label: "eq".into(),
        inputs: 1,
        outputs: 1,
        kind: Some("eq".into()),
        params: Some(NodeParams::Eq {
            filter_type: "lowpass".into(),
            freq: bits(500.0),
            gain_db: bits(0.0),
            q: bits(0.707),
        }),
    })
    .unwrap();
    assert!(ctrl.params_of(1).is_some());

    ctrl.delete_node(1).unwrap();
    assert!(ctrl.params_of(1).is_none(), "params registry pruned");
}

#[test]
fn shared_params_registry_visible_after_create() {
    let kinds: KindRegistry = HashMap::new();
    let params: ParamsRegistry = HashMap::new();
    let mut ctrl = GraphController::new_with_registries(Recorder::new(), kinds, params);
    let id = ctrl
        .create_node(NodeSpec {
            label: "comp".into(),
            inputs: 1,
            outputs: 1,
            kind: Some("compressor".into()),
            params: Some(NodeParams::Compressor {
                threshold_db: bits(-20.0),
                ratio: bits(4.0),
                attack_ms: bits(5.0),
                release_ms: bits(100.0),
                makeup_db: bits(6.0),
            }),
        })
        .unwrap();
    let recorded = ctrl.params_of(id);
    assert!(matches!(recorded, Some(NodeParams::Compressor { .. })));
}

#[test]
fn params_without_kind_infers_kind() {
    let kinds: KindRegistry = HashMap::new();
    let mut ctrl = GraphController::new_with_kind_registry(Recorder::new(), kinds);
    let id = ctrl
        .create_node(NodeSpec {
            label: "eq1".into(),
            inputs: 1,
            outputs: 1,
            kind: None,
            params: Some(NodeParams::Eq {
                filter_type: "peaking".into(),
                freq: bits(1000.0),
                gain_db: bits(3.0),
                q: bits(0.707),
            }),
        })
        .expect("create_node");
    // list_nodes surfaces the inferred kind...
    let info = &ctrl.list_nodes()[0];
    assert_eq!(info.kind.as_deref(), Some("eq"));
    // ...and the kinds registry recorded it.
    assert_eq!(ctrl.kind_of(id).as_deref(), Some("eq"));
}

#[test]
fn delete_node_prunes_registries() {
    // To prove that the registries, and not merely the topology, were pruned, a
    // node with the same id is put straight into the store.
    let mut store = Recorder::new();
    let mut ctrl = GraphController::new(store.clone());
    ctrl.create_node(NodeSpec {
        label: "ephemeral".into(),
        inputs: 1,
        outputs: 1,
        kind: Some("gain".into()),
        params: None,
    })
    .unwrap();
    assert_eq!(ctrl.list_nodes()[0].label, "ephemeral");
    assert_eq!(ctrl.list_nodes()[0].kind.as_deref(), Some("gain"));

    ctrl.delete_node(1).unwrap();
    assert!(ctrl.list_nodes().is_empty(), "node gone from topology");

    store
        .apply_mutation(Mutation::AddNode(NodeSnapshot {
            id: 1,
            inputs: build_ports(1, PortDir::Input),
            outputs: build_ports(1, PortDir::Output),
        }))
        .unwrap();
    let info = &ctrl.list_nodes()[0];
    assert_eq!(info.label, "node-1", "label registry pruned");
    assert!(info.kind.is_none(), "kind registry pruned");
    assert!(info.params.is_none(), "params registry pruned");
}

#[test]
fn kind_and_params_must_agree() {
    let spec = NodeSpec {
        kind: Some("eq".into()),
        params: Some(NodeParams::Gain { gain: bits(0.5) }),
        ..plain("eq1", 1, 1)
    };
    match settle_spec(&spec) {
        Err(ControlError::BadRequest(text)) => {
            assert_eq!(text, "params variant 'gain' does not match kind 'eq'");
        }
        _ => panic!("a bad request is expected"),
    }
    assert_eq!(settle_spec(&plain("x", 0, 0)), Ok(None));
}

#[test]
fn link_faults() {
    let mut ctrl = fake_controller();
    ctrl.create_node(plain("a", 0, 1)).unwrap();
    ctrl.create_node(plain("b", 1, 0)).unwrap();
    let text = |r: Result<usize, ControlError>| r.unwrap_err().message();
    assert_eq!(text(ctrl.link_ports(9, 0, 2, 0)), "not found: source node 9");
    assert_eq!(text(ctrl.link_ports(1, 0, 9, 0)), "not found: destination node 9");
    assert_eq!(
        text(ctrl.link_ports(1, 1, 2, 0)),
        "bad request: source node 1 has 1 output port(s); from_port 1 is out of range"
    );
    assert_eq!(
        text(ctrl.link_ports(1, 0, 2, 4)),
        "bad request: destination node 2 has 1 input port(s); to_port 4 is out of range"
    );
    assert!(ctrl.list_links().is_empty());
    let t = TopologySnapshot {
        nodes: vec![],
        edges: vec![],
    };
    assert!(matches!(
        check_link(&t, 1, 0, 1, 0),
        Err(ControlError::NotFound(_))
    ));
}

#[test]
fn ids_follow_the_greatest_one() {
    let mut ctrl = fake_controller();
    for _ in 0..3 {
        ctrl.create_node(plain("n", 1, 1)).unwrap();
    }
    ctrl.delete_node(1).unwrap();
    assert_eq!(ctrl.create_node(plain("n", 1, 1)), Ok(4));
    ctrl.delete_node(4).unwrap();
    assert_eq!(ctrl.create_node(plain("n", 1, 1)), Ok(4));
    assert_eq!(
        fresh_id(&TopologySnapshot {
            nodes: vec![],
            edges: vec![]
        }),
        1
    );
}

#[test]
fn deleting_undoes_creating() {
    let mut ctrl = fake_controller();
    build_preset_graph(&mut ctrl);
    let before = ctrl.export_preset();
    let id = ctrl.create_node(plain("more", 3, 2)).unwrap();
    assert_ne!(ctrl.export_preset(), before);
    ctrl.delete_node(id).unwrap();
    assert_eq!(ctrl.export_preset(), before);
}

#[test]
fn deleting_a_node_takes_its_links_along() {
    let mut ctrl = fake_controller();
    let a = ctrl.create_node(plain("a", 1, 1)).unwrap();
    let b = ctrl.create_node(plain("b", 1, 1)).unwrap();
    let c = ctrl.create_node(plain("c", 1, 1)).unwrap();
    ctrl.link(a, b).unwrap();
    ctrl.link(b, c).unwrap();
    assert_eq!(ctrl.link(a, c), Ok(2));
    ctrl.delete_node(b).unwrap();
    let links = ctrl.list_links();
    assert_eq!(links.len(), 1);
    assert_eq!((links[0].id, links[0].from, links[0].to), (0, a, c));
}

#[test]
fn deleting_a_link_moves_the_later_ones_up() {
    let mut ctrl = fake_controller();
    let a = ctrl.create_node(plain("a", 0, 3)).unwrap();
    let b = ctrl.create_node(plain("b", 3, 0)).unwrap();
    for port in 0..3 {
        assert_eq!(ctrl.link_ports(a, port, b, port), Ok(port as usize));
    }
    ctrl.delete_link(1).unwrap();
    let links = ctrl.list_links();
    assert_eq!(links.len(), 2);
    assert_eq!((links[0].id, links[0].from_port), (0, 0));
    assert_eq!((links[1].id, links[1].from_port), (1, 2));
    assert_eq!(newest_link(2), Ok(1));
    assert!(matches!(newest_link(0), Err(ControlError::Graph(_))));
}

#[test]
fn exporting_what_was_imported_gives_it_back() {
    let preset = Preset {
        version: 7,
        nodes: vec![
            PresetNode {
                id: 30,
                label: "x".into(),
                inputs: 0,
                outputs: 2,
                kind: Some("tone".into()),
                params: None,
            },
            PresetNode {
                id: 4,
                label: "y".into(),
                inputs: 2,
                outputs: 0,
                kind: None,
                params: Some(NodeParams::Gain { gain: bits(2.0) }),
            },
        ],
        links: vec![PresetLink {
            from: 30,
            from_port: 1,
            to: 4,
            to_port: 0,
        }],
    };
    let mut ctrl = fake_controller();
    build_preset_graph(&mut ctrl);
    ctrl.import_preset(&preset).unwrap();
    let exported = ctrl.export_preset();
    assert_eq!(exported.version, PRESET_VERSION);
    assert_eq!(exported.nodes, preset.nodes);
    assert_eq!(exported.links, preset.links);
    let mut other = fake_controller();
    other.import_preset(&exported).unwrap();
    assert_eq!(other.export_preset(), exported);
}

#[test]
fn a_refusal_of_the_store_changes_nothing_in_the_registries() {
    let mut ctrl = GraphController::new(Reluctant::new(1));
    assert_eq!(ctrl.create_node(plain("a", 0, 1)), Ok(1));
    assert_eq!(
        ctrl.create_node(NodeSpec {
            kind: Some("gain".into()),
            ..plain("b", 0, 1)
        }),
        Err(ControlError::Graph(String::from("disk full")))
    );
    assert_eq!(ctrl.kind_of(2), None);
    assert_eq!(ctrl.list_nodes().len(), 1);
    assert!(ctrl.delete_node(1).is_err());
    assert_eq!(ctrl.label_of(1), "a");
}

#[test]
fn an_import_stops_at_the_first_refusal_and_undoes_nothing() {
    let mut source = fake_controller();
    let a = source.create_node(plain("a", 0, 1)).unwrap();
    let b = source.create_node(plain("b", 1, 0)).unwrap();
    source.create_node(plain("c", 1, 0)).unwrap();
    source.link(a, b).unwrap();
    let preset = source.export_preset();

    // One node comes by a request; the import removes it, installs two nodes, and is
    // refused the third.
    let store = Reluctant::new(4);
    let (seen, asked) = (store.inner.clone(), Rc::clone(&store.asked));
    let mut ctrl = GraphController::new(store);
    ctrl.create_node(plain("old", 0, 0)).unwrap();
    assert_eq!(
        ctrl.import_preset(&preset),
        Err(ControlError::Graph(String::from("disk full")))
    );
    assert_eq!(*asked.borrow(), 5);
    let applied = seen.recorded();
    assert_eq!(applied.len(), 4);
    assert!(matches!(applied[1], Mutation::RemoveNode(1)));
    assert!(matches!(&applied[2], Mutation::AddNode(n) if n.id == 1));
    assert!(matches!(&applied[3], Mutation::AddNode(n) if n.id == 2));
    let labels: Vec<String> = ctrl.list_nodes().into_iter().map(|n| n.label).collect();
    assert_eq!(labels, vec!["a", "b"]);
    assert_eq!(ctrl.label_of(3), "node-3");
    assert!(ctrl.list_links().is_empty());
}

#[test]
fn store_errors_become_control_errors() {
    let texts: Vec<(u16, String)> = vec![
        StoreError::InvalidMutation(String::from("x")),
        StoreError::Persistence(String::from("x")),
        StoreError::Unimplemented("y"),
    ]
    .into_iter()
    .map(|e| {
        let c = store_err_to_control(e);
        (status_for(&c), c.message())
    })
    .collect();
    assert_eq!(
        texts,
        vec![
            (422, String::from("graph: x")),
            (422, String::from("graph: x")),
            (422, String::from("graph: store: y")),
        ]
    );
}

#[test]
fn status_of_each_error() {
    assert_eq!(status_for(&ControlError::BadRequest(String::new())), 400);
    assert_eq!(status_for(&ControlError::NotFound(String::new())), 404);
    assert_eq!(status_for(&ControlError::Unimplemented("")), 501);
    assert_eq!(status_for(&ControlError::Graph(String::new())), 422);
}

#[test]
fn every_kind_has_its_parameters() {
    let x = bits(1.0);
    let text = || String::from("t");
    let kinds: Vec<&str> = vec![
        NodeParams::Gain { gain: x },
        NodeParams::Mixer {
            inputs: 1,
            gains: vec![x],
        },
        NodeParams::Eq {
            filter_type: text(),
            freq: x,
            gain_db: x,
            q: x,
        },
        NodeParams::Compressor {
            threshold_db: x,
            ratio: x,
            attack_ms: x,
            release_ms: x,
            makeup_db: x,
        },
        NodeParams::Limiter { threshold_db: x },
        NodeParams::Meter,
        NodeParams::ChannelMap {
            mode: text(),
            pan: None,
        },
        NodeParams::Delay {
            max_delay_ms: x,
            delay_ms: x,
            feedback: x,
            mix: x,
        },
        NodeParams::NoiseGate {
            threshold_db: x,
            attack_ms: x,
            hold_ms: x,
            release_ms: x,
        },
        NodeParams::Noise {
            color: text(),
            amp: x,
            seed: 1,
        },
        NodeParams::Tone {
            waveform: text(),
            freq: x,
            amp: x,
        },
        NodeParams::Reverb {
            room_size: x,
            damping: x,
            wet: x,
            dry: x,
        },
        NodeParams::Chorus {
            rate_hz: x,
            depth_ms: x,
            center_delay_ms: x,
            mix: x,
        },
        NodeParams::Distortion {
            mode: text(),
            drive: x,
            threshold: x,
            output_level: x,
        },
        NodeParams::Flanger {
            rate_hz: x,
            depth_ms: x,
            center_delay_ms: x,
            feedback: x,
            mix: x,
        },
        NodeParams::AuxSend { send_level: x },
        NodeParams::Phaser {
            rate_hz: x,
            base_freq: x,
            depth: x,
            feedback: x,
            mix: x,
            stages: 4,
        },
        NodeParams::Bitcrusher {
            bits: 8,
            hold_factor: 1,
        },
        NodeParams::Tremolo {
            rate_hz: x,
            depth: x,
        },
        NodeParams::StereoWidener { width: x },
    ]
    .into_iter()
    .map(|p| {
        assert_eq!(p.clone(), p);
        p.kind_name()
    })
    .collect();
    assert_eq!(
        kinds,
        vec![
            "gain",
            "mixer",
            "eq",
            "compressor",
            "limiter",
            "meter",
            "channel_map",
            "delay",
            "noise_gate",
            "noise",
            "tone",
            "reverb",
            "chorus",
            "distortion",
            "flanger",
            "aux_send",
            "phaser",
            "bitcrusher",
            "tremolo",
            "stereo_widener",
        ]
    );
}

#[test]
fn defaults_of_parameters() {
    assert_eq!(default_mixer_inputs(), 2);
    assert_eq!(default_filter_type(), "peaking");
    assert_eq!(default_channel_mode(), "passthrough");
    assert_eq!(default_noise_color(), "white");
    assert_eq!(default_seed(), 12_345);
    assert_eq!(default_waveform(), "sine");
    assert_eq!(default_distortion_mode(), "soft_clip");
    assert_eq!(default_phaser_stages(), 4);
    assert_eq!(default_bits(), 8);
    assert_eq!(default_hold_factor(), 1);
}

#[test]
fn topology_mutations() {
    let mut store = InMemoryStore::new();
    let node = |id: usize, ins: u16| {
        Mutation::AddNode(NodeSnapshot {
            id,
            inputs: build_ports(ins, PortDir::Input),
            outputs: build_ports(1, PortDir::Output),
        })
    };
    assert_eq!(store.apply_mutation(node(5, 1)), Ok(1));
    assert_eq!(store.apply_mutation(node(6, 1)), Ok(2));
    // A node with a known id takes the place of the old one.
    assert_eq!(store.apply_mutation(node(5, 3)), Ok(3));
    let e = SnapshotEdge {
        from: (5, 0),
        to: (6, 0),
    };
    store.apply_mutation(Mutation::AddLink(e)).unwrap();
    let t = store.get_topology();
    assert_eq!(t.nodes.len(), 2);
    assert_eq!(t.nodes[0].inputs.len(), 3);
    assert_eq!(t.edges, vec![e]);
    // A link that is not there cannot be removed.
    store.apply_mutation(Mutation::RemoveLink(3)).unwrap();
    assert_eq!(store.get_topology().edges.len(), 1);
    store.apply_mutation(Mutation::RemoveNode(6)).unwrap();
    let t = store.get_topology();
    assert_eq!(t.nodes.len(), 1);
    assert!(t.edges.is_empty());
}

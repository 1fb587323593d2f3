use polysynth::patch::{Param, Patch, PatchNode};

fn param(x: f32) -> Param {
    Param { bits: x.to_bits() }
}

#[test]
fn default_patch_nodes() {
    let p = Patch::new();
    assert_eq!(p.node_count(), 4);
    assert_eq!(p.node_name(0), "osc1");
    assert_eq!(p.node_name(1), "flanger");
    assert_eq!(p.node_name(2), "adsr");
    assert_eq!(p.node_name(3), "mux");
    assert_eq!(*p.node_kind(0), PatchNode::Saw);
    assert_eq!(
        *p.node_kind(1),
        PatchNode::FlangerSin {
            strength: param(0.5),
            min_delay: param(0.005),
            max_delay: param(0.01),
            sin_freq: param(0.1),
        }
    );
    assert_eq!(
        *p.node_kind(2),
        PatchNode::ADSR {
            attack: param(1.0),
            decay: param(0.5),
            sustain: param(0.5),
            release: param(0.5),
        }
    );
    assert_eq!(*p.node_kind(3), PatchNode::Mux);
}

#[test]
fn default_patch_edges() {
    let p = Patch::new();
    let expected = [
        ("freq", "osc1"),
        ("osc1", "flanger"),
        ("flanger", "mux:0"),
        ("ctl", "adsr"),
        ("adsr", "mux:1"),
        ("mux", "out"),
    ];
    assert_eq!(p.edge_count(), expected.len());
    for (i, (src, snk)) in expected.iter().enumerate() {
        assert_eq!(p.edge_source(i), src);
        assert_eq!(p.edge_sink(i), snk);
    }
}

#[test]
fn empty_patch_has_nothing() {
    let p = Patch::empty();
    assert_eq!(p.node_count(), 0);
    assert_eq!(p.edge_count(), 0);
    assert_eq!(p.find_node(&"osc1".to_string()), None);
}

#[test]
fn insert_node_refuses_a_name_twice() {
    let mut p = Patch::empty();
    assert!(p.insert_node("a".to_string(), PatchNode::Sine));
    assert!(p.insert_node("b".to_string(), PatchNode::Saw));
    assert!(!p.insert_node("a".to_string(), PatchNode::Square));
    assert_eq!(p.node_count(), 2);
    assert_eq!(*p.node_kind(0), PatchNode::Sine);
    assert_eq!(p.find_node(&"a".to_string()), Some(0));
    assert_eq!(p.find_node(&"b".to_string()), Some(1));
    assert_eq!(p.find_node(&"c".to_string()), None);
}

#[test]
fn push_edge_keeps_order_and_duplicates() {
    let mut p = Patch::empty();
    p.push_edge("a".to_string(), "b".to_string());
    p.push_edge("a".to_string(), "b".to_string());
    p.push_edge("b:1".to_string(), "out".to_string());
    assert_eq!(p.edge_count(), 3);
    assert_eq!(p.edge_source(1), "a");
    assert_eq!(p.edge_source(2), "b:1");
    assert_eq!(p.edge_sink(2), "out");
}

#[test]
fn operator_arities() {
    let p = param(1.0);
    let kinds = [
        (PatchNode::Constant { c: p }, 0),
        (PatchNode::Sine, 1),
        (PatchNode::Saw, 1),
        (PatchNode::Square, 1),
        (PatchNode::SpecifiedSine { freq: p }, 0),
        (PatchNode::SpecifiedSaw { freq: p }, 0),
        (PatchNode::SpecifiedSquare { freq: p }, 0),
        (PatchNode::Sample { path: "kick.wav".to_string() }, 0),
        (PatchNode::WhiteNoise, 0),
        (PatchNode::PinkNoise, 0),
        (PatchNode::BrownNoise, 0),
        (PatchNode::FlangerSin { strength: p, min_delay: p, max_delay: p, sin_freq: p }, 1),
        (PatchNode::ADSR { attack: p, decay: p, sustain: p, release: p }, 1),
        (PatchNode::SumChannels, 2),
        (PatchNode::MultChannels, 2),
        (PatchNode::Mux, 2),
    ];
    for (kind, inputs) in kinds {
        assert_eq!(kind.inputs(), inputs);
        assert_eq!(kind.outputs(), 1);
    }
}

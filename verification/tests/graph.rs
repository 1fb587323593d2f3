use polysynth::endpoint::EndpointError;
use polysynth::graph::{CompileError, CompiledGraph, Origin, CTL_INPUT, FREQ_INPUT};
use polysynth::patch::{Patch, PatchNode};

fn patch(nodes: &[(&str, PatchNode)], edges: &[(&str, &str)]) -> Patch {
    let mut p = Patch::empty();
    for (name, kind) in nodes {
        assert!(p.insert_node(name.to_string(), kind.clone()));
    }
    for (src, snk) in edges {
        p.push_edge(src.to_string(), snk.to_string());
    }
    p
}

fn rows(g: &CompiledGraph) -> Vec<Vec<Origin>> {
    (0..g.node_count())
        .map(|n| (0..g.inputs_of(n)).map(|c| g.source(n, c)).collect())
        .collect()
}

#[test]
fn default_patch_compiles_to_its_wiring() {
    let g = Patch::new().compile().unwrap();
    assert_eq!(g.global_inputs(), 2);
    assert_eq!(g.global_outputs(), 1);
    assert_eq!(
        rows(&g),
        vec![
            vec![Origin::Global(0)],
            vec![Origin::Local(0, 0)],
            vec![Origin::Global(1)],
            vec![Origin::Local(1, 0), Origin::Local(2, 0)],
        ]
    );
    assert_eq!(g.output(), Origin::Local(3, 0));
}

#[test]
fn shell_passes_pitch_through() {
    let g = Patch::empty().compile().unwrap();
    assert_eq!(g.node_count(), 0);
    assert_eq!(g.output(), Origin::Global(FREQ_INPUT));
    assert_eq!(FREQ_INPUT, 0);
    assert_eq!(CTL_INPUT, 1);
}

#[test]
fn unconnected_inputs_are_zero() {
    let g = patch(&[("m", PatchNode::Mux), ("s", PatchNode::Sine)], &[("freq", "m:1")])
        .compile()
        .unwrap();
    assert_eq!(rows(&g), vec![vec![Origin::Zero, Origin::Global(0)], vec![Origin::Zero]]);
}

#[test]
fn global_inputs_to_out() {
    let g = patch(&[], &[("ctl", "out")]).compile().unwrap();
    assert_eq!(g.output(), Origin::Global(1));
    let g = patch(&[], &[("ctl", "out"), ("freq", "out")]).compile().unwrap();
    assert_eq!(g.output(), Origin::Global(0));
    let g = patch(&[], &[("ctl:5", "out:9")]).compile().unwrap();
    assert_eq!(g.output(), Origin::Global(1));
}

#[test]
fn node_to_out_takes_first_output_channel() {
    let g = patch(&[("a", PatchNode::WhiteNoise)], &[("a:3", "out")]).compile().unwrap();
    assert_eq!(g.output(), Origin::Local(0, 0));
}

#[test]
fn later_edges_override_earlier_ones() {
    let g = patch(
        &[("a", PatchNode::WhiteNoise), ("b", PatchNode::PinkNoise), ("s", PatchNode::Sine)],
        &[("a", "s"), ("b", "s"), ("a", "out"), ("b", "out")],
    )
    .compile()
    .unwrap();
    assert_eq!(rows(&g)[2], vec![Origin::Local(1, 0)]);
    assert_eq!(g.output(), Origin::Local(1, 0));
}

#[test]
fn edges_to_unknown_nodes_are_skipped() {
    let g = patch(
        &[("a", PatchNode::Sine)],
        &[("freq", "nobody"), ("ctl", "nobody:7"), ("nobody", "out"), ("nobody", "a"), ("a", "nobody"), ("x", "y")],
    )
    .compile()
    .unwrap();
    assert_eq!(rows(&g), vec![vec![Origin::Zero]]);
    assert_eq!(g.output(), Origin::Global(0));
}

#[test]
fn reserved_source_names_win_over_node_names() {
    let g = patch(
        &[("freq", PatchNode::WhiteNoise), ("s", PatchNode::Sine)],
        &[("freq", "s"), ("freq", "out")],
    )
    .compile()
    .unwrap();
    assert_eq!(rows(&g)[1], vec![Origin::Global(0)]);
    assert_eq!(g.output(), Origin::Global(0));
}

#[test]
fn out_is_only_reserved_as_a_sink() {
    let g = patch(
        &[("out", PatchNode::WhiteNoise), ("s", PatchNode::Sine)],
        &[("out", "s")],
    )
    .compile()
    .unwrap();
    assert_eq!(rows(&g)[1], vec![Origin::Local(0, 0)]);
}

#[test]
fn unreadable_endpoint_is_reported_with_its_edge() {
    let p = patch(&[("a", PatchNode::Sine)], &[("freq", "a"), ("a", "out:x"), ("a:", "out")]);
    assert_eq!(
        p.compile().err(),
        Some(CompileError::Endpoint { edge: 1, error: EndpointError::InvalidChannel })
    );
    let p = patch(&[("a", PatchNode::Sine)], &[("a:", "out:x")]);
    assert_eq!(
        p.compile().err(),
        Some(CompileError::Endpoint { edge: 0, error: EndpointError::MissingChannel })
    );
    let p = patch(&[], &[("x:99999999999999999999999", "y")]);
    assert_eq!(
        p.compile().err(),
        Some(CompileError::Endpoint { edge: 0, error: EndpointError::ChannelOverflow })
    );
}

#[test]
fn sink_channel_beyond_arity_is_an_error() {
    let p = patch(&[("a", PatchNode::Sine)], &[("freq", "a:1")]);
    assert_eq!(p.compile().err(), Some(CompileError::SinkChannel { edge: 0 }));
    let p = patch(&[("n", PatchNode::WhiteNoise)], &[("ctl", "n")]);
    assert_eq!(p.compile().err(), Some(CompileError::SinkChannel { edge: 0 }));
    let p = patch(
        &[("n", PatchNode::WhiteNoise), ("m", PatchNode::Mux)],
        &[("n", "m:1"), ("n", "m:2")],
    );
    assert_eq!(p.compile().err(), Some(CompileError::SinkChannel { edge: 1 }));
}

#[test]
fn source_channel_beyond_arity_is_an_error() {
    let p = patch(&[("n", PatchNode::WhiteNoise), ("s", PatchNode::Sine)], &[("n:1", "s")]);
    assert_eq!(p.compile().err(), Some(CompileError::SourceChannel { edge: 0 }));
}

#[test]
fn self_loop_is_an_error() {
    let p = patch(&[("s", PatchNode::Sine)], &[("freq", "s"), ("s", "s")]);
    assert_eq!(p.compile().err(), Some(CompileError::SelfLoop { edge: 1 }));
}

#[test]
fn sink_channel_is_judged_before_self_loop_and_source_channel() {
    let p = patch(&[("s", PatchNode::Sine)], &[("s:4", "s:4")]);
    assert_eq!(p.compile().err(), Some(CompileError::SinkChannel { edge: 0 }));
    let p = patch(&[("s", PatchNode::Sine)], &[("s:4", "s:0")]);
    assert_eq!(p.compile().err(), Some(CompileError::SelfLoop { edge: 0 }));
}

#[test]
fn longer_cycles_compile() {
    let g = patch(
        &[("a", PatchNode::Sine), ("b", PatchNode::Sine)],
        &[("a", "b"), ("b", "a"), ("b", "out")],
    )
    .compile()
    .unwrap();
    assert_eq!(rows(&g), vec![vec![Origin::Local(1, 0)], vec![Origin::Local(0, 0)]]);
}

#[test]
fn compiling_twice_gives_the_same_graph() {
    let p = Patch::new();
    let a = p.compile().unwrap();
    let b = p.compile().unwrap();
    assert_eq!(rows(&a), rows(&b));
    assert_eq!(a.output(), b.output());
}

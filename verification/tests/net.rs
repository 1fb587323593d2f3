use fundsp::audiounit::AudioUnit;
use fundsp::hacker::{adsr_live, flanger, lerp11, saw, sin_hz, sine, white, Frame, U2};
use fundsp::net::{Net, NodeId, Source};
use polysynth::graph::CompileError;
use polysynth::net::{shell, CreateError};
use polysynth::patch::{Patch, PatchNode};

fn default_operators(net: &mut Net) -> Vec<NodeId> {
    vec![
        net.push(Box::new(saw())),
        net.push(Box::new(flanger(0.5, 0.005, 0.01, |t| lerp11(0.005, 0.01, sin_hz(0.1, t))))),
        net.push(Box::new(adsr_live(1.0, 0.5, 0.5, 0.5))),
        net.push(Box::new(fundsp::hacker::map(|f: &Frame<f32, U2>| f[0] * f[1]))),
    ]
}

#[test]
fn shell_has_two_inputs_and_one_output() {
    let net = shell();
    assert_eq!(net.inputs(), 2);
    assert_eq!(net.outputs(), 1);
    assert_eq!(net.size(), 0);
    assert_eq!(net.output_source(0), Source::Global(0));
}

#[test]
fn control_signal_can_pass_through_to_the_output() {
    let mut p = Patch::empty();
    p.push_edge("ctl".to_string(), "out".to_string());
    let mut net = p.create_net(Net::new(2, 1), &Vec::new()).unwrap();
    assert_eq!(net.output_source(0), Source::Global(1));
    let mut out = [0.0f32];
    net.tick(&[330.0, 0.25], &mut out);
    assert_eq!(out[0], 0.25);
}

#[test]
fn default_patch_is_wired_on_the_network() {
    let mut net = shell();
    let ids = default_operators(&mut net);
    let net = Patch::new().create_net(net, &ids).unwrap();
    assert_eq!(net.inputs(), 2);
    assert_eq!(net.outputs(), 1);
    assert_eq!(net.size(), 4);
    assert_eq!(net.source(ids[0], 0), Source::Global(0));
    assert_eq!(net.source(ids[1], 0), Source::Local(ids[0], 0));
    assert_eq!(net.source(ids[2], 0), Source::Global(1));
    assert_eq!(net.source(ids[3], 0), Source::Local(ids[1], 0));
    assert_eq!(net.source(ids[3], 1), Source::Local(ids[2], 0));
    assert_eq!(net.output_source(0), Source::Local(ids[3], 0));
    net.check();
}

#[test]
fn empty_patch_passes_pitch_through() {
    let net = Patch::empty().create_net(shell(), &Vec::new()).unwrap();
    assert_eq!(net.output_source(0), Source::Global(0));
    let mut net = net;
    let mut out = [0.0f32];
    net.tick(&[330.0, 1.0], &mut out);
    assert_eq!(out[0], 330.0);
}

#[test]
fn unconnected_inputs_are_set_to_zero() {
    let mut net = shell();
    let a = net.push(Box::new(sine()));
    let b = net.push(Box::new(sine()));
    net.set_source(b, 0, Source::Local(a, 0));
    net.pipe_output(b);
    let mut p = Patch::empty();
    assert!(p.insert_node("a".to_string(), PatchNode::Sine));
    assert!(p.insert_node("b".to_string(), PatchNode::Sine));
    p.push_edge("freq".to_string(), "a".to_string());
    let net = p.create_net(net, &vec![a, b]).unwrap();
    assert_eq!(net.source(a, 0), Source::Global(0));
    assert_eq!(net.source(b, 0), Source::Zero);
    assert_eq!(net.output_source(0), Source::Global(0));
}

#[test]
fn operators_outside_the_patch_are_left_alone() {
    let mut net = shell();
    let extra = net.push(Box::new(sine()));
    let a = net.push(Box::new(sine()));
    net.set_source(extra, 0, Source::Global(1));
    let mut p = Patch::empty();
    assert!(p.insert_node("a".to_string(), PatchNode::Sine));
    p.push_edge("a".to_string(), "out".to_string());
    let net = p.create_net(net, &vec![a]).unwrap();
    assert_eq!(net.source(extra, 0), Source::Global(1));
    assert_eq!(net.source(a, 0), Source::Zero);
    assert_eq!(net.output_source(0), Source::Local(a, 0));
}

#[test]
fn compile_error_comes_first() {
    let mut p = Patch::empty();
    assert!(p.insert_node("a".to_string(), PatchNode::Sine));
    p.push_edge("a".to_string(), "a".to_string());
    assert_eq!(
        p.create_net(Net::new(1, 1), &Vec::new()).err(),
        Some(CreateError::Compile(CompileError::SelfLoop { edge: 0 }))
    );
}

#[test]
fn network_of_another_shape_is_refused() {
    assert_eq!(Patch::empty().create_net(Net::new(1, 1), &Vec::new()).err(), Some(CreateError::Shape));
    assert_eq!(Patch::empty().create_net(Net::new(2, 2), &Vec::new()).err(), Some(CreateError::Shape));
    assert_eq!(Patch::empty().create_net(Net::new(3, 1), &Vec::new()).err(), Some(CreateError::Shape));
    assert_eq!(Patch::empty().create_net(Net::new(2, 0), &Vec::new()).err(), Some(CreateError::Shape));
}

#[test]
fn wrong_number_of_operators_is_refused() {
    let mut net = shell();
    let mut ids = default_operators(&mut net);
    ids.pop();
    assert_eq!(Patch::new().create_net(net, &ids).err(), Some(CreateError::Operators));
}

#[test]
fn operator_of_another_network_is_refused() {
    let mut other = shell();
    let foreign = other.push(Box::new(saw()));
    let mut net = shell();
    let mut ids = default_operators(&mut net);
    ids[0] = foreign;
    assert_eq!(Patch::new().create_net(net, &ids).err(), Some(CreateError::Operators));
}

#[test]
fn operator_with_other_channels_is_refused() {
    let mut net = shell();
    let mut ids = default_operators(&mut net);
    ids[0] = net.push(Box::new(white()));
    assert_eq!(Patch::new().create_net(net, &ids).err(), Some(CreateError::Operators));
    let mut net = shell();
    let mut ids = default_operators(&mut net);
    ids[3] = net.push(Box::new(fundsp::hacker::map(|f: &Frame<f32, U2>| (f[0], f[1]))));
    assert_eq!(Patch::new().create_net(net, &ids).err(), Some(CreateError::Operators));
}

#[test]
fn operator_handed_over_twice_is_refused() {
    let mut net = shell();
    let a = net.push(Box::new(sine()));
    let mut p = Patch::empty();
    assert!(p.insert_node("a".to_string(), PatchNode::Sine));
    assert!(p.insert_node("b".to_string(), PatchNode::Sine));
    assert_eq!(p.create_net(net, &vec![a, a]).err(), Some(CreateError::Operators));
}

#[test]
fn closed_envelope_keeps_the_default_patch_silent() {
    let mut net = shell();
    let ids = default_operators(&mut net);
    let mut net = Patch::new().create_net(net, &ids).unwrap();
    net.set_sample_rate(44100.0);
    let mut out = [0.0f32];
    let mut loudest = 0.0f32;
    let mut settled = 0;
    for i in 0..44100 {
        net.tick(&[130.8, 0.0], &mut out);
        // The envelope's release, half a second, passes before it is closed.
        if i >= 26460 {
            loudest = loudest.max(out[0].abs());
            settled += 1;
        }
    }
    assert_eq!(settled, 17640);
    assert!(loudest < 1.0e-6);
}

#[test]
fn open_envelope_lets_the_default_patch_sound() {
    let mut net = shell();
    let ids = default_operators(&mut net);
    let mut net = Patch::new().create_net(net, &ids).unwrap();
    net.set_sample_rate(44100.0);
    let mut out = [0.0f32];
    let mut loudest = 0.0f32;
    for _ in 0..44100 {
        net.tick(&[130.8, 1.0], &mut out);
        loudest = loudest.max(out[0].abs());
    }
    assert!(loudest > 0.1);
}

use polysynth::endpoint::EndpointError;
use polysynth::patch::{Patch, PatchNode};
use polysynth::paths::PathError;

fn edges(list: &[(&str, &str)]) -> Patch {
    let mut p = Patch::empty();
    for (src, snk) in list {
        p.push_edge(src.to_string(), snk.to_string());
    }
    p
}

#[test]
fn default_patch_has_two_signal_paths() {
    let mut lines = Patch::new().branch_reprs().unwrap();
    assert_eq!(lines.len(), 2);
    lines.sort();
    assert_eq!(lines, vec!["ctl-->adsr-->mux-->out", "freq-->osc1-->flanger-->mux-->out"]);
}

#[test]
fn paths_come_in_edge_order() {
    let lines = Patch::new().branch_reprs().unwrap();
    assert_eq!(lines, vec!["freq-->osc1-->flanger-->mux-->out", "ctl-->adsr-->mux-->out"]);
}

#[test]
fn listing_needs_no_nodes() {
    let p = edges(&[("a", "b"), ("b", "out")]);
    assert_eq!(p.node_count(), 0);
    assert_eq!(p.branch_reprs().unwrap(), vec!["a-->b-->out"]);
}

#[test]
fn no_edge_into_out_gives_no_path() {
    assert_eq!(Patch::empty().branch_reprs().unwrap(), Vec::<String>::new());
    assert_eq!(edges(&[("a", "b")]).branch_reprs().unwrap(), Vec::<String>::new());
}

#[test]
fn parallel_edges_list_a_path_twice() {
    let p = edges(&[("a:0", "m:0"), ("a:1", "m:1"), ("m", "out")]);
    assert_eq!(p.branch_reprs().unwrap(), vec!["a-->m-->out", "a-->m-->out"]);
}

#[test]
fn diamond_lists_every_path() {
    let p = edges(&[("s", "a"), ("s", "b"), ("a", "m:0"), ("b", "m:1"), ("m", "out"), ("s", "out")]);
    assert_eq!(
        p.branch_reprs().unwrap(),
        vec!["s-->a-->m-->out", "s-->b-->m-->out", "s-->out"]
    );
}

#[test]
fn channels_are_dropped_from_names() {
    let p = edges(&[("freq:0", "osc:0"), ("osc:0", "out:0")]);
    assert_eq!(p.branch_reprs().unwrap(), vec!["freq-->osc-->out"]);
}

#[test]
fn unreadable_endpoint_is_an_error_even_off_the_path() {
    let p = edges(&[("a", "out"), ("x:y", "z")]);
    assert_eq!(
        p.branch_reprs(),
        Err(PathError::Endpoint { edge: 1, error: EndpointError::InvalidChannel })
    );
    let p = edges(&[("a", "out:"), ("x:y", "z")]);
    assert_eq!(
        p.branch_reprs(),
        Err(PathError::Endpoint { edge: 0, error: EndpointError::MissingChannel })
    );
}

#[test]
fn cycle_behind_out_is_an_error() {
    let p = edges(&[("a", "b"), ("b", "a"), ("b", "out")]);
    assert_eq!(p.branch_reprs(), Err(PathError::Cycle));
    let p = edges(&[("a", "a"), ("a", "out")]);
    assert_eq!(p.branch_reprs(), Err(PathError::Cycle));
    let p = edges(&[("out", "out")]);
    assert_eq!(p.branch_reprs(), Err(PathError::Cycle));
}

#[test]
fn cycle_that_does_not_reach_out_is_not_walked() {
    let p = edges(&[("a", "b"), ("b", "a"), ("c", "out")]);
    assert_eq!(p.branch_reprs().unwrap(), vec!["c-->out"]);
}

#[test]
fn longest_possible_chain_is_listed() {
    let p = edges(&[("a", "b"), ("b", "c"), ("c", "d"), ("d", "out")]);
    assert_eq!(p.branch_reprs().unwrap(), vec!["a-->b-->c-->d-->out"]);
}

#[test]
fn nodes_do_not_matter_to_paths() {
    let mut p = edges(&[("osc", "out")]);
    assert!(p.insert_node("other".to_string(), PatchNode::Sine));
    assert_eq!(p.branch_reprs().unwrap(), vec!["osc-->out"]);
}

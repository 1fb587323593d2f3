//! Realisation of a compiled graph on a signal network.
//!
//! The network is `fundsp`'s `Net`. Its operators are built elsewhere, one
//! per node of the patch; this module sets the network's connections to
//! those of the compiled graph. What a `Net` holds is named by four
//! specification functions, and each call into it goes through a function
//! whose contract states, over those names, what the call does.

use vstd::prelude::*;
use fundsp::audiounit::AudioUnit;
use fundsp::net::Net;
use fundsp::net::NodeId;
use fundsp::net::Source;
use crate::graph::{
    compile_spec, CompileError, CompiledGraph, Origin, Wiring, FREQ_INPUT, GLOBAL_INPUTS,
    GLOBAL_OUTPUTS,
};
use crate::patch::{Patch, PatchNode};

verus! {

/// `fundsp::net::Net`, a network of connected operators.
#[verifier::external_type_specification]
#[verifier::external_body]
pub struct ExNet(Net);

/// `fundsp::net::NodeId`, the identity of an operator in a network.
#[verifier::external_type_specification]
#[verifier::external_body]
pub struct ExNodeId(NodeId);

/// `fundsp::net::Source`, where an input or a global output takes its
/// signal from: nowhere, a global input, or an output channel of an operator.
#[verifier::external_type_specification]
pub struct ExSource(fundsp::net::Source);

/// The number of global inputs of a network, as `Net::inputs` reports it.
pub uninterp spec fn net_inputs(net: Net) -> nat;

/// The operators that a network holds, each with its numbers of input and of
/// output channels, as `Net::contains`, `Net::inputs_in` and `Net::outputs_in`
/// report them.
pub uninterp spec fn net_arity(net: Net) -> Map<NodeId, (nat, nat)>;

/// The source of each operator input of a network, by operator and channel,
/// as `Net::source` reports it.
pub uninterp spec fn net_sources(net: Net) -> Map<(NodeId, nat), Source>;

/// The source of each global output of a network, as `Net::output_source`
/// reports it; as many as `Net::outputs`.
pub uninterp spec fn net_outputs(net: Net) -> Seq<Source>;

/// Whether the network can take `source` as the source of an input of
/// operator `at`, or of a global output when `at` is `None`: a global input
/// must exist, and an operator output must exist on another operator.
pub open spec fn source_exists(net: Net, source: Source, at: Option<NodeId>) -> bool {
    match source {
        Source::Zero => true,
        Source::Global(i) => i < net_inputs(net),
        Source::Local(id, j) => at != Some(id) && net_arity(net).contains_key(id) && j
            < net_arity(net)[id].1,
    }
}

/// The sources of `count` global outputs that are piped from an operator
/// `node` with `outputs` output channels.
pub open spec fn piped(node: NodeId, outputs: nat, count: nat) -> Seq<Source> {
    Seq::new(
        count,
        |c: int|
            if outputs > 0 {
                Source::Local(node, (c % outputs as int) as usize)
            } else {
                Source::Zero
            },
    )
}

/// `Net::new`: a network of `inputs` global inputs and `outputs` global
/// outputs that holds no operator; each global output is unconnected. The
/// network allocates a buffer for every channel, so this asks for few.
#[verifier::external_body]
fn net_new(inputs: usize, outputs: usize) -> (net: Net)
    requires
        inputs <= 64,
        outputs <= 64,
    ensures
        net_inputs(net) == inputs,
        net_outputs(net) == Seq::new(outputs as nat, |i: int| Source::Zero),
        forall|id: NodeId| !net_arity(net).contains_key(id),
{
    Net::new(inputs, outputs)
}

/// `Net::inputs`: the number of global inputs.
#[verifier::external_body]
fn net_input_count(net: &Net) -> (n: usize)
    ensures
        n == net_inputs(*net),
{
    net.inputs()
}

/// `Net::outputs`: the number of global outputs.
#[verifier::external_body]
fn net_output_count(net: &Net) -> (n: usize)
    ensures
        n == net_outputs(*net).len(),
{
    net.outputs()
}

/// `Net::contains`: whether the network holds the operator `node`.
#[verifier::external_body]
fn net_contains(net: &Net, node: NodeId) -> (held: bool)
    ensures
        held == net_arity(*net).contains_key(node),
{
    net.contains(node)
}

/// `Net::inputs_in`: the number of input channels of an operator that the
/// network holds.
#[verifier::external_body]
fn net_inputs_in(net: &Net, node: NodeId) -> (n: usize)
    requires
        net_arity(*net).contains_key(node),
    ensures
        n == net_arity(*net)[node].0,
{
    net.inputs_in(node)
}

/// `Net::outputs_in`: the number of output channels of an operator that the
/// network holds.
#[verifier::external_body]
fn net_outputs_in(net: &Net, node: NodeId) -> (n: usize)
    requires
        net_arity(*net).contains_key(node),
    ensures
        n == net_arity(*net)[node].1,
{
    net.outputs_in(node)
}

/// `Net::set_source`: makes `source` the source of input `channel` of the
/// operator `node`, and changes nothing else.
#[verifier::external_body]
fn net_set_source(net: &mut Net, node: NodeId, channel: usize, source: Source)
    requires
        net_arity(*old(net)).contains_key(node),
        channel < net_arity(*old(net))[node].0,
        source_exists(*old(net), source, Some(node)),
    ensures
        net_sources(*final(net)) == net_sources(*old(net)).insert((node, channel as nat), source),
        net_inputs(*final(net)) == net_inputs(*old(net)),
        net_arity(*final(net)) == net_arity(*old(net)),
        net_outputs(*final(net)) == net_outputs(*old(net)),
{
    net.set_source(node, channel, source)
}

/// `Net::pass_through`: makes the global input `input` the source of the
/// global output `output`, and changes nothing else.
#[verifier::external_body]
fn net_pass_through(net: &mut Net, input: usize, output: usize)
    requires
        input < net_inputs(*old(net)),
        output < net_outputs(*old(net)).len(),
    ensures
        net_outputs(*final(net)) == net_outputs(*old(net)).update(
            output as int,
            Source::Global(input),
        ),
        net_inputs(*final(net)) == net_inputs(*old(net)),
        net_arity(*final(net)) == net_arity(*old(net)),
        net_sources(*final(net)) == net_sources(*old(net)),
{
    net.pass_through(input, output)
}

/// `Net::pipe_output`: makes the output channels of the operator `node` the
/// sources of the global outputs, one after the other and over again where
/// the operator has fewer; an operator without outputs leaves every global
/// output unconnected. Nothing else changes.
#[verifier::external_body]
fn net_pipe_output(net: &mut Net, node: NodeId)
    requires
        net_arity(*old(net)).contains_key(node),
    ensures
        net_outputs(*final(net)) == piped(
            node,
            net_arity(*old(net))[node].1,
            net_outputs(*old(net)).len(),
        ),
        net_inputs(*final(net)) == net_inputs(*old(net)),
        net_arity(*final(net)) == net_arity(*old(net)),
        net_sources(*final(net)) == net_sources(*old(net)),
{
    net.pipe_output(node)
}

/// `==` on `NodeId`: whether two ids are the same.
#[verifier::external_body]
fn same_node(a: NodeId, b: NodeId) -> (same: bool)
    ensures
        same == (a == b),
{
    a == b
}

/// Why a network could not be wired to a patch.
#[derive(Clone, Copy, Debug, PartialEq, Eq, Structural)]
pub enum CreateError {
    /// The patch does not compile.
    Compile(CompileError),
    /// The network does not have the two global inputs and the one global
    /// output of a voice.
    Shape,
    /// The operators handed over are not one per node of the patch, each in
    /// the network once and with the channels of its node's kind.
    Operators,
}

/// The network has the global inputs and outputs of a compiled graph.
pub open spec fn shaped(net: Net) -> bool {
    net_inputs(net) == GLOBAL_INPUTS && net_outputs(net).len() == GLOBAL_OUTPUTS
}

/// The operators `ids` are one per kind in `kinds`, all different, and the
/// network holds each with the channels of its kind.
pub open spec fn fits(net: Net, ids: Seq<NodeId>, kinds: Seq<PatchNode>) -> bool {
    &&& ids.len() == kinds.len()
    &&& forall|n: int|
        0 <= n < ids.len() ==> net_arity(net).contains_key(#[trigger] ids[n]) && net_arity(
            net,
        )[ids[n]] == (kinds[n].spec_inputs(), kinds[n].spec_outputs())
    &&& forall|a: int, b: int| 0 <= a < b < ids.len() ==> ids[a] != ids[b]
}

/// The source in a network that stands for the origin `o` of a compiled
/// graph whose operators are `ids`, in order.
pub open spec fn lift(o: Origin, ids: Seq<NodeId>) -> Source {
    match o {
        Origin::Zero => Source::Zero,
        Origin::Global(i) => Source::Global(i),
        Origin::Local(m, j) => Source::Local(ids[m as int], j),
    }
}

/// Input `c` of the operator `ids[n]` has in the network the source that the
/// wiring gives it.
pub open spec fn wired(net: Net, ids: Seq<NodeId>, w: Wiring, n: int, c: int) -> bool {
    net_sources(net).contains_key((ids[n], c as nat)) && net_sources(net)[(ids[n], c as nat)]
        == lift(w.rows[n][c], ids)
}

/// The inputs of an operator that is not among `ids` are in `after` as they
/// are in `before`.
pub open spec fn untouched(after: Net, before: Net, ids: Seq<NodeId>, id: NodeId, c: nat) -> bool {
    !ids.contains(id) ==> net_sources(after).contains_key((id, c)) == net_sources(
        before,
    ).contains_key((id, c)) && net_sources(after)[(id, c)] == net_sources(before)[(id, c)]
}

/// The network `after` is `before` with the connections of the wiring `w`
/// set on the operators `ids`: the same global inputs and operators, the
/// graph output as `w` has it, every input of every operator of `ids` as `w`
/// has it, and the inputs of other operators unchanged.
pub open spec fn realises(after: Net, before: Net, ids: Seq<NodeId>, w: Wiring) -> bool {
    &&& net_inputs(after) == net_inputs(before)
    &&& net_arity(after) == net_arity(before)
    &&& net_outputs(after) == seq![lift(w.output, ids)]
    &&& forall|n: int, c: int|
        0 <= n < w.rows.len() && 0 <= c < w.rows[n].len() ==> #[trigger] wired(after, ids, w, n, c)
    &&& forall|id: NodeId, c: nat| #[trigger] untouched(after, before, ids, id, c)
}

/// A network for one voice, without operators: two global inputs, the pitch
/// and the control signal, and one global output, which the pitch passes
/// through to.
pub fn shell() -> (net: Net)
    ensures
        shaped(net),
        net_outputs(net) == seq![Source::Global(FREQ_INPUT)],
        forall|id: NodeId| !net_arity(net).contains_key(id),
{
    let mut net = net_new(GLOBAL_INPUTS, GLOBAL_OUTPUTS);
    net_pass_through(&mut net, FREQ_INPUT, 0);
    assert(net_outputs(net) =~= seq![Source::Global(FREQ_INPUT)]);
    net
}

fn lift_origin(o: Origin, ids: &Vec<NodeId>) -> (s: Source)
    requires
        o matches Origin::Local(m, _) ==> m < ids.len(),
    ensures
        s == lift(o, ids@),
{
    match o {
        Origin::Zero => Source::Zero,
        Origin::Global(i) => Source::Global(i),
        Origin::Local(m, j) => Source::Local(ids[m], j),
    }
}

impl Patch {
    /// Whether `ids` are operators of `net` that fit the patch's nodes.
    fn operators_fit(&self, net: &Net, ids: &Vec<NodeId>) -> (b: bool)
        ensures
            b == fits(*net, ids@, self@.kinds),
    {
        let nodes = self.node_count();
        if ids.len() != nodes {
            return false;
        }
        let mut n: usize = 0;
        while n < nodes
            invariant
                nodes == ids.len() == self@.kinds.len(),
                n <= nodes,
                forall|k: int|
                    0 <= k < n ==> net_arity(*net).contains_key(#[trigger] ids[k]) && net_arity(
                        *net,
                    )[ids[k]] == (self@.kinds[k].spec_inputs(), self@.kinds[k].spec_outputs()),
            decreases nodes - n,
        {
            let id = ids[n];
            if !net_contains(net, id) {
                return false;
            }
            let kind = self.node_kind(n);
            if net_inputs_in(net, id) != kind.inputs() || net_outputs_in(net, id)
                != kind.outputs() {
                return false;
            }
            n += 1;
        }
        let mut b: usize = 0;
        while b < nodes
            invariant
                nodes == ids.len(),
                b <= nodes,
                forall|i: int, j: int| 0 <= i < j < b ==> ids[i] != ids[j],
            decreases nodes - b,
        {
            let mut a: usize = 0;
            while a < b
                invariant
                    nodes == ids.len(),
                    a <= b < nodes,
                    forall|i: int, j: int| 0 <= i < j < b ==> ids[i] != ids[j],
                    forall|i: int| 0 <= i < a ==> ids[i] != ids[b as int],
                decreases b - a,
            {
                if same_node(ids[a], ids[b]) {
                    return false;
                }
                a += 1;
            }
            b += 1;
        }
        true
    }

    /// Sets the connections of `graph` on the operators `ids` of `net`.
    fn install(&self, graph: &CompiledGraph, net: &mut Net, ids: &Vec<NodeId>)
        requires
            graph@.wf(self@.kinds),
            shaped(*old(net)),
            fits(*old(net), ids@, self@.kinds),
        ensures
            realises(*final(net), *old(net), ids@, graph@),
    {
        let ghost w = graph@;
        let ghost kinds = self@.kinds;
        let nodes = graph.node_count();
        let mut n: usize = 0;
        while n < nodes
            invariant
                w == graph@,
                kinds == self@.kinds,
                w.wf(kinds),
                nodes == w.rows.len() == ids.len(),
                n <= nodes,
                fits(*old(net), ids@, kinds),
                net_inputs(*net) == net_inputs(*old(net)) == GLOBAL_INPUTS,
                net_arity(*net) == net_arity(*old(net)),
                net_outputs(*net) == net_outputs(*old(net)),
                forall|k: int, c: int|
                    0 <= k < n && 0 <= c < w.rows[k].len() ==> #[trigger] wired(
                        *net,
                        ids@,
                        w,
                        k,
                        c,
                    ),
                forall|id: NodeId, c: nat| #[trigger] untouched(*net, *old(net), ids@, id, c),
            decreases nodes - n,
        {
            let inputs = graph.inputs_of(n);
            let mut c: usize = 0;
            while c < inputs
                invariant
                    w == graph@,
                    kinds == self@.kinds,
                    w.wf(kinds),
                    nodes == w.rows.len() == ids.len(),
                    n < nodes,
                    inputs == w.rows[n as int].len(),
                    c <= inputs,
                    fits(*old(net), ids@, kinds),
                    net_inputs(*net) == net_inputs(*old(net)) == GLOBAL_INPUTS,
                    net_arity(*net) == net_arity(*old(net)),
                    net_outputs(*net) == net_outputs(*old(net)),
                    forall|k: int, d: int|
                        0 <= k < n && 0 <= d < w.rows[k].len() ==> #[trigger] wired(
                            *net,
                            ids@,
                            w,
                            k,
                            d,
                        ),
                    forall|d: int| 0 <= d < c ==> #[trigger] wired(*net, ids@, w, n as int, d),
                    forall|id: NodeId, d: nat| #[trigger] untouched(*net, *old(net), ids@, id, d),
                decreases inputs - c,
            {
                let origin = graph.source(n, c);
                assert(crate::graph::source_ok(w.rows[n as int][c as int], kinds, n as int));
                let source = lift_origin(origin, ids);
                let ghost before = *net;
                net_set_source(net, ids[n], c, source);
                proof {
                    assert forall|k: int, d: int|
                        0 <= k < n && 0 <= d < w.rows[k].len() implies #[trigger] wired(
                        *net,
                        ids@,
                        w,
                        k,
                        d,
                    ) by {
                        assert(wired(before, ids@, w, k, d));
                        assert(ids@[k] != ids@[n as int]);
                    }
                    assert forall|d: int| 0 <= d < c + 1 implies #[trigger] wired(
                        *net,
                        ids@,
                        w,
                        n as int,
                        d,
                    ) by {
                        if d < c {
                            assert(wired(before, ids@, w, n as int, d));
                        }
                    }
                    assert forall|id: NodeId, d: nat| #[trigger]
                        untouched(*net, *old(net), ids@, id, d) by {
                        assert(untouched(before, *old(net), ids@, id, d));
                        assert(ids@.contains(ids@[n as int]));
                    }
                }
                c += 1;
            }
            n += 1;
        }
        assert(crate::graph::source_ok(w.output, kinds, -1));
        let ghost before = *net;
        match graph.output() {
            Origin::Global(input) => {
                net_pass_through(net, input, 0);
            },
            Origin::Local(m, _) => {
                net_pipe_output(net, ids[m]);
            },
            // The output of a compiled graph is connected.
            Origin::Zero => {},
        }
        proof {
            assert(net_outputs(*net) =~= seq![lift(w.output, ids@)]);
            assert forall|k: int, c: int|
                0 <= k < w.rows.len() && 0 <= c < w.rows[k].len() implies #[trigger] wired(
                *net,
                ids@,
                w,
                k,
                c,
            ) by {
                assert(wired(before, ids@, w, k, c));
            }
            assert forall|id: NodeId, c: nat| #[trigger]
                untouched(*net, *old(net), ids@, id, c) by {
                assert(untouched(before, *old(net), ids@, id, c));
            }
        }
    }

    /// Wires a network to the patch. `net` is to be a voice's network that
    /// holds one operator per node of the patch, and `ids` those operators in
    /// node order. The patch is compiled and the connections of the compiled
    /// graph are set on the network: every input of every operator of the
    /// patch, and the output. A patch that does not compile, a network of
    /// another shape and operators that do not fit are refused, in this
    /// order, before anything is set.
    pub fn create_net(&self, net: Net, ids: &Vec<NodeId>) -> (r: Result<Net, CreateError>)
        ensures
            match r {
                Ok(wired_net) => compile_spec(self@) matches Ok(w) && shaped(net) && fits(
                    net,
                    ids@,
                    self@.kinds,
                ) && realises(wired_net, net, ids@, w) && shaped(wired_net),
                Err(CreateError::Compile(e)) => compile_spec(self@) == Err::<Wiring, CompileError>(
                    e,
                ),
                Err(CreateError::Shape) => compile_spec(self@) is Ok && !shaped(net),
                Err(CreateError::Operators) => compile_spec(self@) is Ok && shaped(net) && !fits(
                    net,
                    ids@,
                    self@.kinds,
                ),
            },
    {
        let graph = match self.compile() {
            Ok(graph) => graph,
            Err(e) => {
                return Err(CreateError::Compile(e));
            },
        };
        if net_input_count(&net) != GLOBAL_INPUTS || net_output_count(&net) != GLOBAL_OUTPUTS {
            return Err(CreateError::Shape);
        }
        if !self.operators_fit(&net, ids) {
            return Err(CreateError::Operators);
        }
        let mut net = net;
        self.install(&graph, &mut net, ids);
        Ok(net)
    }
}

} // verus!

//! Compilation of a patch into a wired signal graph.
//!
//! The compiled graph has two global inputs, the pitch and the control signal, and one
//! global output. It holds one operator per node of the patch, in the patch's
//! node order, and says for every operator input and for the output where its
//! signal comes from.

use vstd::prelude::*;
use vstd::string::*;
use crate::endpoint::{parse_endpoint, parse_node_name, EndpointError};
use crate::find::{lemma_position, position};
use crate::patch::{Patch, PatchNode, PatchView};

verus! {

/// Number of global inputs of a compiled graph.
pub const GLOBAL_INPUTS: usize = 2;

/// Number of global outputs of a compiled graph.
pub const GLOBAL_OUTPUTS: usize = 1;

/// The global input that carries the pitch.
pub const FREQ_INPUT: usize = 0;

/// The global input that carries the control signal.
pub const CTL_INPUT: usize = 1;

/// Where an operator input, or the graph output, takes its signal from.
#[derive(Clone, Copy, Debug, PartialEq, Eq, Structural)]
pub enum Origin {
    /// Nothing is connected: the signal is zero.
    Zero,
    /// A global input of the graph.
    Global(usize),
    /// An output channel of the operator with the given index.
    Local(usize, usize),
}

/// Why a patch could not be compiled. Each error names the edge, by its
/// index in the patch, at which compilation stopped.
#[derive(Clone, Copy, Debug, PartialEq, Eq, Structural)]
pub enum CompileError {
    /// An endpoint of the edge could not be read.
    Endpoint { edge: usize, error: EndpointError },
    /// The sink operator has no input channel of that index.
    SinkChannel { edge: usize },
    /// The source operator has no output channel of that index.
    SourceChannel { edge: usize },
    /// The edge connects an operator to itself.
    SelfLoop { edge: usize },
}

/// What is wrong with one edge whose endpoints could be read.
pub enum RouteError {
    SinkChannel,
    SourceChannel,
    SelfLoop,
}

/// The reserved source name of the pitch input.
pub open spec fn freq_name() -> Seq<char> {
    "freq"@
}

/// The reserved source name of the control input.
pub open spec fn ctl_name() -> Seq<char> {
    "ctl"@
}

/// The reserved sink name of the graph output.
pub open spec fn out_name() -> Seq<char> {
    "out"@
}

/// Whether `name`, as a source, denotes a global input.
pub open spec fn is_global_name(name: Seq<char>) -> bool {
    name == freq_name() || name == ctl_name()
}

/// The global input that a reserved source name denotes.
pub open spec fn global_of(name: Seq<char>) -> usize {
    if name == freq_name() {
        FREQ_INPUT
    } else {
        CTL_INPUT
    }
}

/// The wiring of a graph: `rows[n][c]` is the source of input channel `c` of
/// operator `n`, and `output` the source of the graph output.
pub struct Wiring {
    pub rows: Seq<Seq<Origin>>,
    pub output: Origin,
}

/// Whether `s` may feed an input of operator `at` (or the graph output, for
/// which `at` is -1) in a graph of the operators `kinds`: a global input must
/// exist, and an operator output must exist on another operator.
pub open spec fn source_ok(s: Origin, kinds: Seq<PatchNode>, at: int) -> bool {
    match s {
        Origin::Zero => true,
        Origin::Global(i) => i < GLOBAL_INPUTS,
        Origin::Local(m, j) => m < kinds.len() && m != at && j < kinds[m as int].spec_outputs(),
    }
}

impl Wiring {
    /// The wiring before any edge is routed: every operator input is
    /// unconnected, and the pitch input passes through to the output.
    pub open spec fn initial(kinds: Seq<PatchNode>) -> Wiring {
        Wiring {
            rows: Seq::new(
                kinds.len(),
                |n: int| Seq::new(kinds[n].spec_inputs(), |c: int| Origin::Zero),
            ),
            output: Origin::Global(FREQ_INPUT),
        }
    }

    /// The wiring with `s` as the source of input `c` of operator `n`.
    pub open spec fn with_input(self, n: int, c: int, s: Origin) -> Wiring {
        Wiring { rows: self.rows.update(n, self.rows[n].update(c, s)), output: self.output }
    }

    /// The wiring with `s` as the source of the graph output.
    pub open spec fn with_output(self, s: Origin) -> Wiring {
        Wiring { rows: self.rows, output: s }
    }

    /// Every input of every operator has a source, and every source exists;
    /// the output is connected.
    pub open spec fn wf(self, kinds: Seq<PatchNode>) -> bool {
        &&& self.rows.len() == kinds.len()
        &&& forall|n: int|
            0 <= n < kinds.len() ==> (#[trigger] self.rows[n]).len() == kinds[n].spec_inputs()
        &&& forall|n: int, c: int|
            0 <= n < kinds.len() && 0 <= c < self.rows[n].len() ==> source_ok(
                #[trigger] self.rows[n][c],
                kinds,
                n,
            )
        &&& source_ok(self.output, kinds, -1)
        &&& self.output != Origin::Zero
    }
}

/// The wiring after the edge from endpoint `src` to endpoint `snk`, each a
/// node name and a channel, is routed on top of `w`. The rules, by precedence:
/// a global input to `out` passes through; a global input to a node input
/// binds that input; a node to `out` binds the output to the node's first
/// output channel; a node output to a node input binds that input. An edge
/// that names no node of the patch changes nothing.
pub open spec fn route(w: Wiring, p: PatchView, src: (Seq<char>, nat), snk: (Seq<char>, nat))
    -> Result<Wiring, RouteError> {
    if is_global_name(src.0) && snk.0 == out_name() {
        Ok(w.with_output(Origin::Global(global_of(src.0))))
    } else if is_global_name(src.0) {
        match position(p.names, snk.0) {
            None => Ok(w),
            Some(n) => if snk.1 < p.kinds[n].spec_inputs() {
                Ok(w.with_input(n, snk.1 as int, Origin::Global(global_of(src.0))))
            } else {
                Err(RouteError::SinkChannel)
            },
        }
    } else if snk.0 == out_name() {
        match position(p.names, src.0) {
            None => Ok(w),
            Some(m) => Ok(w.with_output(Origin::Local(m as usize, 0))),
        }
    } else {
        match (position(p.names, src.0), position(p.names, snk.0)) {
            (Some(m), Some(n)) => if snk.1 >= p.kinds[n].spec_inputs() {
                Err(RouteError::SinkChannel)
            } else if m == n {
                Err(RouteError::SelfLoop)
            } else if src.1 >= p.kinds[m].spec_outputs() {
                Err(RouteError::SourceChannel)
            } else {
                Ok(w.with_input(n, snk.1 as int, Origin::Local(m as usize, src.1 as usize)))
            },
            _ => Ok(w),
        }
    }
}

/// The wiring after edge `i` of the patch is read and routed on top of `w`.
pub open spec fn route_edge(w: Wiring, p: PatchView, i: int) -> Result<Wiring, CompileError> {
    match parse_endpoint(p.edges[i].0) {
        Err(error) => Err(CompileError::Endpoint { edge: i as usize, error }),
        Ok(src) => match parse_endpoint(p.edges[i].1) {
            Err(error) => Err(CompileError::Endpoint { edge: i as usize, error }),
            Ok(snk) => match route(w, p, src, snk) {
                Ok(next) => Ok(next),
                Err(RouteError::SinkChannel) => Err(CompileError::SinkChannel { edge: i as usize }),
                Err(RouteError::SourceChannel) => Err(
                    CompileError::SourceChannel { edge: i as usize },
                ),
                Err(RouteError::SelfLoop) => Err(CompileError::SelfLoop { edge: i as usize }),
            },
        },
    }
}

/// The wiring after the first `k` edges of the patch are routed in order, or
/// the error of the first edge among them that cannot be routed.
pub open spec fn compile_upto(p: PatchView, k: nat) -> Result<Wiring, CompileError>
    decreases k,
{
    if k == 0 {
        Ok(Wiring::initial(p.kinds))
    } else {
        match compile_upto(p, (k - 1) as nat) {
            Err(e) => Err(e),
            Ok(w) => route_edge(w, p, k - 1),
        }
    }
}

/// The wiring that the patch compiles to.
pub open spec fn compile_spec(p: PatchView) -> Result<Wiring, CompileError> {
    compile_upto(p, p.edges.len())
}

/// Edge `i` can be read, its source is a global input or an output channel
/// that a node of the patch has, and its sink is the graph output or an input
/// channel that a node of the patch has.
pub open spec fn edge_valid(p: PatchView, i: int) -> bool {
    &&& parse_endpoint(p.edges[i].0) matches Ok(src)
    &&& parse_endpoint(p.edges[i].1) matches Ok(snk)
    &&& (is_global_name(src.0) || (position(p.names, src.0) matches Some(m) && src.1
        < p.kinds[m].spec_outputs()))
    &&& (snk.0 == out_name() || (position(p.names, snk.0) matches Some(n) && snk.1
        < p.kinds[n].spec_inputs()))
}

/// Every edge of the patch is valid.
pub open spec fn valid(p: PatchView) -> bool {
    forall|i: int| 0 <= i < p.edges.len() ==> #[trigger] edge_valid(p, i)
}

/// Edge `i` connects an output of node `m` to an input of node `n`.
pub open spec fn joins(p: PatchView, i: int, m: int, n: int) -> bool {
    &&& parse_endpoint(p.edges[i].0) matches Ok(src)
    &&& parse_endpoint(p.edges[i].1) matches Ok(snk)
    &&& !is_global_name(src.0) && snk.0 != out_name()
    &&& position(p.names, src.0) == Some(m) && position(p.names, snk.0) == Some(n)
}

/// Some edge connects node `m` to node `n`.
pub open spec fn links(p: PatchView, m: int, n: int) -> bool {
    exists|i: int| 0 <= i < p.edges.len() && #[trigger] joins(p, i, m, n)
}

/// `rank` numbers the nodes so that every edge between nodes goes from a
/// lower number to a higher one.
pub open spec fn ranks(p: PatchView, rank: Seq<nat>) -> bool {
    rank.len() == p.names.len() && forall|m: int, n: int| #[trigger]
        links(p, m, n) ==> rank[m] < rank[n]
}

/// The edges between nodes form no cycle: the nodes can be numbered so that
/// every such edge goes upward.
pub open spec fn acyclic(p: PatchView) -> bool {
    exists|rank: Seq<nat>| #[trigger] ranks(p, rank)
}

/// Routing an edge keeps a wiring well formed.
pub proof fn lemma_route_wf(w: Wiring, p: PatchView, src: (Seq<char>, nat), snk: (Seq<char>, nat))
    requires
        p.names.len() == p.kinds.len(),
        p.kinds.len() <= usize::MAX,
        w.wf(p.kinds),
        src.1 <= usize::MAX,
    ensures
        route(w, p, src, snk) matches Ok(next) ==> next.wf(p.kinds),
{
    lemma_position(p.names, src.0);
    lemma_position(p.names, snk.0);
    if let Ok(next) = route(w, p, src, snk) {
        assert forall|n: int, c: int|
            0 <= n < p.kinds.len() && 0 <= c < next.rows[n].len() implies source_ok(
            #[trigger] next.rows[n][c],
            p.kinds,
            n,
        ) by {
            if next.rows[n] == w.rows[n] || next.rows[n][c] == w.rows[n][c] {
                assert(source_ok(w.rows[n][c], p.kinds, n));
            }
        }
    }
}

/// A compiled graph: for each operator, in the patch's node order, the
/// source of each of its inputs; and the source of the graph output.
pub struct CompiledGraph {
    rows: Vec<Vec<Origin>>,
    output: Origin,
}

impl View for CompiledGraph {
    type V = Wiring;

    closed spec fn view(&self) -> Wiring {
        Wiring { rows: self.rows@.map_values(|r: Vec<Origin>| r@), output: self.output }
    }
}

impl CompiledGraph {
    fn set_input(&mut self, n: usize, c: usize, s: Origin)
        requires
            n < old(self)@.rows.len(),
            c < old(self)@.rows[n as int].len(),
        ensures
            final(self)@ == old(self)@.with_input(n as int, c as int, s),
    {
        self.rows[n].set(c, s);
        assert(self@.rows =~= old(self)@.rows.update(
            n as int,
            old(self)@.rows[n as int].update(c as int, s),
        ));
    }

    fn set_output(&mut self, s: Origin)
        ensures
            final(self)@ == old(self)@.with_output(s),
    {
        self.output = s;
    }

    /// Number of global inputs: the pitch and the control signal.
    pub fn global_inputs(&self) -> (n: usize)
        ensures
            n == GLOBAL_INPUTS,
    {
        GLOBAL_INPUTS
    }

    /// Number of global outputs.
    pub fn global_outputs(&self) -> (n: usize)
        ensures
            n == GLOBAL_OUTPUTS,
    {
        GLOBAL_OUTPUTS
    }

    /// Number of operators.
    pub fn node_count(&self) -> (n: usize)
        ensures
            n == self@.rows.len(),
    {
        self.rows.len()
    }

    /// Number of inputs of operator `n`.
    pub fn inputs_of(&self, n: usize) -> (k: usize)
        requires
            n < self@.rows.len(),
        ensures
            k == self@.rows[n as int].len(),
    {
        self.rows[n].len()
    }

    /// The source of input channel `c` of operator `n`.
    pub fn source(&self, n: usize, c: usize) -> (s: Origin)
        requires
            n < self@.rows.len(),
            c < self@.rows[n as int].len(),
        ensures
            s == self@.rows[n as int][c as int],
    {
        self.rows[n][c]
    }

    /// The source of the graph output.
    pub fn output(&self) -> (s: Origin)
        ensures
            s == self@.output,
    {
        self.output
    }
}

/// Once an edge fails, routing more edges leaves the error as it is.
pub proof fn lemma_error_stays(p: PatchView, k: nat, m: nat)
    requires
        k <= m,
    ensures
        compile_upto(p, k) is Err ==> compile_upto(p, m) == compile_upto(p, k),
    decreases m,
{
    if k < m {
        lemma_error_stays(p, k, (m - 1) as nat);
    }
}

/// The first `k` edges of a valid patch without cycles can be routed.
proof fn lemma_valid_prefix_compiles(p: PatchView, k: nat)
    requires
        p.wf(),
        p.names.len() <= usize::MAX,
        valid(p),
        acyclic(p),
        k <= p.edges.len(),
    ensures
        compile_upto(p, k) matches Ok(w) && w.wf(p.kinds),
    decreases k,
{
    if k > 0 {
        lemma_valid_prefix_compiles(p, (k - 1) as nat);
        let w = compile_upto(p, (k - 1) as nat)->Ok_0;
        let i = k - 1;
        assert(edge_valid(p, i));
        let src = parse_endpoint(p.edges[i].0)->Ok_0;
        let snk = parse_endpoint(p.edges[i].1)->Ok_0;
        lemma_route_wf(w, p, src, snk);
        if !is_global_name(src.0) && snk.0 != out_name() {
            match position(p.names, src.0) {
                Some(m) => {
                    if position(p.names, snk.0) == Some(m) {
                        let rank = choose|rank: Seq<nat>| ranks(p, rank);
                        assert(joins(p, i, m, m));
                        assert(links(p, m, m));
                    }
                },
                None => {},
            }
        }
    }
}

impl Patch {
    /// A valid patch whose edges between nodes form no cycle compiles, to a
    /// graph in which every input of every operator has a source that
    /// exists. A compiled graph has two global inputs and one global output.
    pub proof fn lemma_valid_patch_compiles(&self)
        requires
            self.wf(),
            valid(self@),
            acyclic(self@),
        ensures
            compile_spec(self@) matches Ok(w) && w.wf(self@.kinds),
    {
        self.lemma_sizes();
        lemma_valid_prefix_compiles(self@, self@.edges.len());
    }
}

/// The two patches hold the same nodes, each name with the same kind, and
/// the same edges; the order of their nodes may differ.
pub open spec fn same_patch(p: PatchView, q: PatchView) -> bool {
    &&& p.edges == q.edges
    &&& forall|name: Seq<char>|
        match (#[trigger] position(p.names, name), position(q.names, name)) {
            (Some(n), Some(m)) => p.kinds[n] == q.kinds[m],
            (None, None) => true,
            _ => false,
        }
}

/// The index in `q` of the node that has index `n` in `p`.
pub open spec fn twin(p: PatchView, q: PatchView, n: int) -> int {
    position(q.names, p.names[n])->Some_0
}

/// The origin `o` of a graph of `p`, as it reads in a graph of `q`.
pub open spec fn renamed(o: Origin, p: PatchView, q: PatchView) -> Origin {
    match o {
        Origin::Local(m, j) => Origin::Local(twin(p, q, m as int) as usize, j),
        _ => o,
    }
}

/// Input `c` of node `n` of `p` has in `w` the source that the same input of
/// the same node has in `v`, a wiring of `q`.
pub open spec fn same_source(w: Wiring, v: Wiring, p: PatchView, q: PatchView, n: int, c: int)
    -> bool {
    v.rows[twin(p, q, n)][c] == renamed(w.rows[n][c], p, q)
}

/// The wiring `w` of `p` and the wiring `v` of `q` connect the same nodes in
/// the same way.
pub open spec fn same_wiring(w: Wiring, v: Wiring, p: PatchView, q: PatchView) -> bool {
    &&& v.output == renamed(w.output, p, q)
    &&& forall|n: int|
        0 <= n < p.names.len() ==> (#[trigger] w.rows[n]).len() == v.rows[twin(p, q, n)].len()
    &&& forall|n: int, c: int|
        0 <= n < p.names.len() && 0 <= c < w.rows[n].len() ==> #[trigger] same_source(
            w,
            v,
            p,
            q,
            n,
            c,
        )
}

/// Among distinct names, a name is found where it stands.
proof fn lemma_position_of_distinct(names: Seq<Seq<char>>, n: int)
    requires
        crate::patch::distinct(names),
        0 <= n < names.len(),
    ensures
        position(names, names[n]) == Some(n),
{
    lemma_position(names, names[n]);
}

/// Routing the same edge on wirings that connect the same nodes in the same
/// way gives such wirings again, or fails alike.
proof fn lemma_route_same(
    w: Wiring,
    v: Wiring,
    p: PatchView,
    q: PatchView,
    src: (Seq<char>, nat),
    snk: (Seq<char>, nat),
)
    requires
        p.wf(),
        q.wf(),
        p.names.len() <= usize::MAX,
        q.names.len() <= usize::MAX,
        same_patch(p, q),
        w.wf(p.kinds),
        v.wf(q.kinds),
        same_wiring(w, v, p, q),
        src.1 <= usize::MAX,
    ensures
        match route(w, p, src, snk) {
            Ok(next) => route(v, q, src, snk) matches Ok(other) && same_wiring(next, other, p, q),
            Err(e) => route(v, q, src, snk) == Err::<Wiring, RouteError>(e),
        },
{
    lemma_position(p.names, src.0);
    lemma_position(p.names, snk.0);
    lemma_position(q.names, src.0);
    lemma_position(q.names, snk.0);
    assert(position(p.names, src.0) is Some <==> position(q.names, src.0) is Some);
    assert(position(p.names, snk.0) is Some <==> position(q.names, snk.0) is Some);
    if let Ok(next) = route(w, p, src, snk) {
        let other = route(v, q, src, snk)->Ok_0;
        assert forall|n: int| 0 <= n < p.names.len() implies (#[trigger] next.rows[n]).len()
            == other.rows[twin(p, q, n)].len() by {
            assert(w.rows[n].len() == v.rows[twin(p, q, n)].len());
            lemma_position_of_distinct(p.names, n);
            lemma_position(q.names, p.names[n]);
        }
        assert forall|n: int, c: int|
            0 <= n < p.names.len() && 0 <= c < next.rows[n].len() implies #[trigger] same_source(
            next,
            other,
            p,
            q,
            n,
            c,
        ) by {
            assert(w.rows[n].len() == v.rows[twin(p, q, n)].len());
            assert(same_source(w, v, p, q, n, c));
            lemma_position_of_distinct(p.names, n);
            lemma_position(q.names, p.names[n]);
        }
    }
}

/// The first `k` edges route alike on two patches that hold the same nodes
/// and edges.
proof fn lemma_same_patch_same_prefix(p: PatchView, q: PatchView, k: nat)
    requires
        p.wf(),
        q.wf(),
        p.names.len() <= usize::MAX,
        q.names.len() <= usize::MAX,
        same_patch(p, q),
        k <= p.edges.len(),
    ensures
        match compile_upto(p, k) {
            Ok(w) => compile_upto(q, k) matches Ok(v) && same_wiring(w, v, p, q) && w.wf(p.kinds)
                && v.wf(q.kinds),
            Err(e) => compile_upto(q, k) == Err::<Wiring, CompileError>(e),
        },
    decreases k,
{
    if k == 0 {
        let w = Wiring::initial(p.kinds);
        let v = Wiring::initial(q.kinds);
        assert forall|n: int| 0 <= n < p.names.len() implies (#[trigger] w.rows[n]).len()
            == v.rows[twin(p, q, n)].len() by {
            lemma_position_of_distinct(p.names, n);
            lemma_position(q.names, p.names[n]);
        }
        assert forall|n: int, c: int|
            0 <= n < p.names.len() && 0 <= c < w.rows[n].len() implies #[trigger] same_source(
            w,
            v,
            p,
            q,
            n,
            c,
        ) by {
            lemma_position_of_distinct(p.names, n);
            lemma_position(q.names, p.names[n]);
        }
    } else {
        lemma_same_patch_same_prefix(p, q, (k - 1) as nat);
        if let Ok(w) = compile_upto(p, (k - 1) as nat) {
            let v = compile_upto(q, (k - 1) as nat)->Ok_0;
            if let Ok(src) = parse_endpoint(p.edges[k - 1].0) {
                if let Ok(snk) = parse_endpoint(p.edges[k - 1].1) {
                    lemma_route_same(w, v, p, q, src, snk);
                    lemma_route_wf(w, p, src, snk);
                    lemma_route_wf(v, q, src, snk);
                }
            }
        }
    }
}

impl Patch {
    /// The order of the nodes does not matter to what a patch compiles to:
    /// two patches that hold the same nodes under the same names, and the
    /// same edges, compile to graphs that connect the same nodes in the same
    /// way, or fail with the same error.
    pub proof fn lemma_node_order_does_not_matter(&self, other: &Patch)
        requires
            self.wf(),
            other.wf(),
            same_patch(self@, other@),
        ensures
            match compile_spec(self@) {
                Ok(w) => compile_spec(other@) matches Ok(v) && same_wiring(w, v, self@, other@),
                Err(e) => compile_spec(other@) == Err::<Wiring, CompileError>(e),
            },
    {
        self.lemma_sizes();
        other.lemma_sizes();
        lemma_same_patch_same_prefix(self@, other@, self@.edges.len());
    }
}

/// The inputs of an operator with `k` inputs, all unconnected.
fn unconnected(k: usize) -> (row: Vec<Origin>)
    ensures
        row@ == Seq::new(k as nat, |c: int| Origin::Zero),
{
    let mut row: Vec<Origin> = Vec::new();
    while row.len() < k
        invariant
            row.len() <= k,
            forall|c: int| 0 <= c < row.len() ==> row[c] == Origin::Zero,
        decreases k - row.len(),
    {
        row.push(Origin::Zero);
    }
    assert(row@ =~= Seq::new(k as nat, |c: int| Origin::Zero));
    row
}

/// The three reserved endpoint names.
struct Reserved {
    freq: String,
    ctl: String,
    out: String,
}

impl Reserved {
    spec fn wf(&self) -> bool {
        self.freq@ == freq_name() && self.ctl@ == ctl_name() && self.out@ == out_name()
    }

    fn new() -> (r: Reserved)
        ensures
            r.wf(),
    {
        Reserved {
            freq: String::from_str("freq"),
            ctl: String::from_str("ctl"),
            out: String::from_str("out"),
        }
    }
}

impl Patch {
    /// The graph before any edge is routed.
    fn shell(&self) -> (g: CompiledGraph)
        ensures
            g@ == Wiring::initial(self@.kinds),
            g@.wf(self@.kinds),
    {
        let nodes = self.node_count();
        let mut rows: Vec<Vec<Origin>> = Vec::new();
        while rows.len() < nodes
            invariant
                nodes == self@.kinds.len(),
                rows.len() <= nodes,
                forall|n: int|
                    0 <= n < rows.len() ==> (#[trigger] rows[n])@ == Seq::new(
                        self@.kinds[n].spec_inputs(),
                        |c: int| Origin::Zero,
                    ),
            decreases nodes - rows.len(),
        {
            let row = unconnected(self.node_kind(rows.len()).inputs());
            rows.push(row);
        }
        let g = CompiledGraph { rows, output: Origin::Global(FREQ_INPUT) };
        assert(g@.rows =~= Wiring::initial(self@.kinds).rows);
        g
    }

    /// Routes one edge, given by its two endpoints, on `graph`.
    fn route_on(
        &self,
        graph: &mut CompiledGraph,
        reserved: &Reserved,
        src: &(String, usize),
        snk: &(String, usize),
    ) -> (r: Result<(), RouteError>)
        requires
            reserved.wf(),
            old(graph)@.wf(self@.kinds),
        ensures
            match route(old(graph)@, self@, (src.0@, src.1 as nat), (snk.0@, snk.1 as nat)) {
                Ok(next) => r is Ok && final(graph)@ == next,
                Err(e) => r == Err::<(), RouteError>(e),
            },
            final(graph)@.wf(self@.kinds),
    {
        proof {
            self.lemma_sizes();
            lemma_route_wf(graph@, self@, (src.0@, src.1 as nat), (snk.0@, snk.1 as nat));
        }
        let from_global = src.0 == reserved.freq || src.0 == reserved.ctl;
        let global: usize = if src.0 == reserved.freq {
            FREQ_INPUT
        } else {
            CTL_INPUT
        };
        let to_out = snk.0 == reserved.out;
        if from_global && to_out {
            graph.set_output(Origin::Global(global));
        } else if from_global {
            if let Some(n) = self.find_node(&snk.0) {
                if snk.1 < self.node_kind(n).inputs() {
                    graph.set_input(n, snk.1, Origin::Global(global));
                } else {
                    return Err(RouteError::SinkChannel);
                }
            }
        } else if to_out {
            if let Some(m) = self.find_node(&src.0) {
                graph.set_output(Origin::Local(m, 0));
            }
        } else {
            let source = self.find_node(&src.0);
            let sink = self.find_node(&snk.0);
            if let Some(m) = source {
                if let Some(n) = sink {
                    if snk.1 >= self.node_kind(n).inputs() {
                        return Err(RouteError::SinkChannel);
                    } else if m == n {
                        return Err(RouteError::SelfLoop);
                    } else if src.1 >= self.node_kind(m).outputs() {
                        return Err(RouteError::SourceChannel);
                    } else {
                        graph.set_input(n, snk.1, Origin::Local(m, src.1));
                    }
                }
            }
        }
        Ok(())
    }

    /// Compiles the patch: allocates one operator per node, in node order,
    /// then routes the edges in the order they were declared. Stops at the
    /// first edge that cannot be read or routed.
    pub fn compile(&self) -> (r: Result<CompiledGraph, CompileError>)
        ensures
            match r {
                Ok(g) => compile_spec(self@) == Ok::<Wiring, CompileError>(g@) && g@.wf(
                    self@.kinds,
                ),
                Err(e) => compile_spec(self@) == Err::<Wiring, CompileError>(e),
            },
    {
        let reserved = Reserved::new();
        let mut graph = self.shell();
        let edges = self.edge_count();
        let mut i: usize = 0;
        while i < edges
            invariant
                reserved.wf(),
                edges == self@.edges.len(),
                i <= edges,
                compile_upto(self@, i as nat) == Ok::<Wiring, CompileError>(graph@),
                graph@.wf(self@.kinds),
            decreases edges - i,
        {
            proof {
                lemma_error_stays(self@, (i + 1) as nat, edges as nat);
            }
            let src = match parse_node_name(self.edge_source(i).as_str()) {
                Ok(src) => src,
                Err(error) => {
                    return Err(CompileError::Endpoint { edge: i, error });
                },
            };
            let snk = match parse_node_name(self.edge_sink(i).as_str()) {
                Ok(snk) => snk,
                Err(error) => {
                    return Err(CompileError::Endpoint { edge: i, error });
                },
            };
            match self.route_on(&mut graph, &reserved, &src, &snk) {
                Ok(()) => {},
                Err(RouteError::SinkChannel) => {
                    return Err(CompileError::SinkChannel { edge: i });
                },
                Err(RouteError::SourceChannel) => {
                    return Err(CompileError::SourceChannel { edge: i });
                },
                Err(RouteError::SelfLoop) => {
                    return Err(CompileError::SelfLoop { edge: i });
                },
            }
            i += 1;
        }
        Ok(graph)
    }
}

} // verus!

//! The patch model: named operator nodes and the edges declared between
//! their endpoints.

use vstd::prelude::*;
use vstd::string::*;
use crate::find::{lemma_position, lemma_position_absent, lemma_position_found, position};

verus! {

/// A real-valued operator parameter, carried as the bit pattern of the
/// single-precision number that it stands for.
#[derive(Clone, Copy, Debug, PartialEq, Eq, Structural)]
pub struct Param {
    pub bits: u32,
}

/// The kinds of operator a patch can hold, each with its parameters.
#[derive(Clone, Debug, PartialEq, Eq)]
pub enum PatchNode {
    Constant { c: Param },
    Sine,
    Saw,
    Square,
    SpecifiedSine { freq: Param },
    SpecifiedSaw { freq: Param },
    SpecifiedSquare { freq: Param },
    Sample { path: String },
    WhiteNoise,
    PinkNoise,
    BrownNoise,
    FlangerSin { strength: Param, min_delay: Param, max_delay: Param, sin_freq: Param },
    ADSR { attack: Param, decay: Param, sustain: Param, release: Param },
    SumChannels,
    MultChannels,
    Mux,
}

impl PatchNode {
    /// Number of input channels of an operator of this kind.
    pub open spec fn spec_inputs(&self) -> nat {
        match self {
            PatchNode::Sine | PatchNode::Saw | PatchNode::Square => 1,
            PatchNode::FlangerSin { .. } | PatchNode::ADSR { .. } => 1,
            PatchNode::SumChannels | PatchNode::MultChannels | PatchNode::Mux => 2,
            _ => 0,
        }
    }

    /// Number of output channels of an operator of this kind: every kind has
    /// one.
    pub open spec fn spec_outputs(&self) -> nat {
        1
    }

    /// Number of input channels of an operator of this kind.
    pub fn inputs(&self) -> (n: usize)
        ensures
            n == self.spec_inputs(),
    {
        match self {
            PatchNode::Sine | PatchNode::Saw | PatchNode::Square => 1,
            PatchNode::FlangerSin { .. } | PatchNode::ADSR { .. } => 1,
            PatchNode::SumChannels | PatchNode::MultChannels | PatchNode::Mux => 2,
            _ => 0,
        }
    }

    /// Number of output channels of an operator of this kind.
    pub fn outputs(&self) -> (n: usize)
        ensures
            n == self.spec_outputs(),
    {
        1
    }
}

/// A named operator of a patch.
pub struct Node {
    name: String,
    kind: PatchNode,
}

/// A declared connection from a source endpoint to a sink endpoint.
pub struct Edge {
    source: String,
    sink: String,
}

/// A synthesizer description: operator nodes under distinct names, in the
/// order they were added, and the edges declared between endpoints.
pub struct Patch {
    nodes: Vec<Node>,
    edges: Vec<Edge>,
}

/// What a patch holds, as plain sequences.
pub struct PatchView {
    pub names: Seq<Seq<char>>,
    pub kinds: Seq<PatchNode>,
    pub edges: Seq<(Seq<char>, Seq<char>)>,
}

/// No name occurs twice.
pub open spec fn distinct(names: Seq<Seq<char>>) -> bool {
    forall|i: int, j: int| 0 <= i < j < names.len() ==> names[i] != names[j]
}

impl View for Patch {
    type V = PatchView;

    closed spec fn view(&self) -> PatchView {
        PatchView {
            names: Seq::new(self.nodes.len() as nat, |i: int| self.nodes[i].name@),
            kinds: Seq::new(self.nodes.len() as nat, |i: int| self.nodes[i].kind),
            edges: Seq::new(
                self.edges.len() as nat,
                |i: int| (self.edges[i].source@, self.edges[i].sink@),
            ),
        }
    }
}

/// The built-in patch: a saw oscillator at the played pitch runs through a
/// flanger into a multiplier, whose other input is an envelope that the control signal
/// drives; the multiplier feeds the output.
pub open spec fn default_patch() -> PatchView {
    PatchView {
        names: seq!["osc1"@, "flanger"@, "adsr"@, "mux"@],
        kinds: seq![
            PatchNode::Saw,
            PatchNode::FlangerSin {
                strength: Param { bits: 0x3f00_0000 },
                min_delay: Param { bits: 0x3ba3_d70a },
                max_delay: Param { bits: 0x3c23_d70a },
                sin_freq: Param { bits: 0x3dcc_cccd },
            },
            PatchNode::ADSR {
                attack: Param { bits: 0x3f80_0000 },
                decay: Param { bits: 0x3f00_0000 },
                sustain: Param { bits: 0x3f00_0000 },
                release: Param { bits: 0x3f00_0000 },
            },
            PatchNode::Mux,
        ],
        edges: seq![
            ("freq"@, "osc1"@),
            ("osc1"@, "flanger"@),
            ("flanger"@, "mux:0"@),
            ("ctl"@, "adsr"@),
            ("adsr"@, "mux:1"@),
            ("mux"@, "out"@),
        ],
    }
}

/// The names of the built-in patch differ from one another.
pub proof fn lemma_default_patch_wf()
    ensures
        default_patch().wf(),
{
    reveal_strlit("osc1");
    reveal_strlit("flanger");
    reveal_strlit("adsr");
    reveal_strlit("mux");
    let names = default_patch().names;
    assert(names[0].len() == 4 && names[1].len() == 7 && names[2].len() == 4 && names[3].len()
        == 3);
    assert(names[0][0] == 'o' && names[2][0] == 'a');
}

impl PatchView {
    /// One kind per name, and no name twice.
    pub open spec fn wf(self) -> bool {
        self.names.len() == self.kinds.len() && distinct(self.names)
    }
}

impl Patch {
    /// The patch's invariant: its node names are distinct.
    pub open spec fn wf(&self) -> bool {
        self@.wf()
    }

    /// A patch has one kind per name, and no more nodes than the machine
    /// can count.
    pub proof fn lemma_sizes(&self)
        ensures
            self@.names.len() == self@.kinds.len(),
            self@.names.len() <= usize::MAX,
            self@.edges.len() <= usize::MAX,
    {
    }

    /// A patch without nodes or edges.
    pub fn empty() -> (p: Patch)
        ensures
            p.wf(),
            p@.names.len() == 0,
            p@.kinds.len() == 0,
            p@.edges.len() == 0,
    {
        Patch { nodes: Vec::new(), edges: Vec::new() }
    }

    /// The built-in patch.
    pub fn new() -> (p: Patch)
        ensures
            p.wf(),
            p@ == default_patch(),
    {
        let half = Param { bits: 0x3f00_0000 };
        let mut nodes: Vec<Node> = Vec::new();
        nodes.push(Node { name: String::from_str("osc1"), kind: PatchNode::Saw });
        nodes.push(
            Node {
                name: String::from_str("flanger"),
                kind: PatchNode::FlangerSin {
                    strength: half,
                    min_delay: Param { bits: 0x3ba3_d70a },
                    max_delay: Param { bits: 0x3c23_d70a },
                    sin_freq: Param { bits: 0x3dcc_cccd },
                },
            },
        );
        nodes.push(
            Node {
                name: String::from_str("adsr"),
                kind: PatchNode::ADSR {
                    attack: Param { bits: 0x3f80_0000 },
                    decay: half,
                    sustain: half,
                    release: half,
                },
            },
        );
        nodes.push(Node { name: String::from_str("mux"), kind: PatchNode::Mux });
        let mut edges: Vec<Edge> = Vec::new();
        edges.push(Edge { source: String::from_str("freq"), sink: String::from_str("osc1") });
        edges.push(Edge { source: String::from_str("osc1"), sink: String::from_str("flanger") });
        edges.push(Edge { source: String::from_str("flanger"), sink: String::from_str("mux:0") });
        edges.push(Edge { source: String::from_str("ctl"), sink: String::from_str("adsr") });
        edges.push(Edge { source: String::from_str("adsr"), sink: String::from_str("mux:1") });
        edges.push(Edge { source: String::from_str("mux"), sink: String::from_str("out") });
        let p = Patch { nodes, edges };
        proof {
            lemma_default_patch_wf();
            assert(p@.names =~= default_patch().names);
            assert(p@.kinds =~= default_patch().kinds);
            assert(p@.edges =~= default_patch().edges);
        }
        p
    }

    /// Number of nodes.
    pub fn node_count(&self) -> (n: usize)
        ensures
            n == self@.names.len(),
            n == self@.kinds.len(),
    {
        self.nodes.len()
    }

    /// Number of edges.
    pub fn edge_count(&self) -> (n: usize)
        ensures
            n == self@.edges.len(),
    {
        self.edges.len()
    }

    /// The name of node `i`.
    pub fn node_name(&self, i: usize) -> (name: &String)
        requires
            i < self@.names.len(),
        ensures
            name@ == self@.names[i as int],
    {
        &self.nodes[i].name
    }

    /// The kind of node `i`, with its parameters.
    pub fn node_kind(&self, i: usize) -> (kind: &PatchNode)
        requires
            i < self@.kinds.len(),
        ensures
            *kind == self@.kinds[i as int],
    {
        &self.nodes[i].kind
    }

    /// The source endpoint of edge `i`.
    pub fn edge_source(&self, i: usize) -> (s: &String)
        requires
            i < self@.edges.len(),
        ensures
            s@ == self@.edges[i as int].0,
    {
        &self.edges[i].source
    }

    /// The sink endpoint of edge `i`.
    pub fn edge_sink(&self, i: usize) -> (s: &String)
        requires
            i < self@.edges.len(),
        ensures
            s@ == self@.edges[i as int].1,
    {
        &self.edges[i].sink
    }

    /// The index of the node called `name`, if the patch has one.
    pub fn find_node(&self, name: &String) -> (r: Option<usize>)
        ensures
            match r {
                Some(i) => i < self@.names.len() && position(self@.names, name@) == Some(i as int),
                None => position(self@.names, name@) is None,
            },
    {
        let mut i: usize = 0;
        while i < self.nodes.len()
            invariant
                i <= self.nodes.len(),
                forall|j: int| 0 <= j < i ==> self@.names[j] != name@,
            decreases self.nodes.len() - i,
        {
            if self.nodes[i].name == *name {
                proof {
                    lemma_position_found(self@.names, name@, i as int);
                }
                return Some(i);
            }
            i += 1;
        }
        proof {
            lemma_position_absent(self@.names, name@);
        }
        None
    }

    /// Adds a node under a name that the patch does not hold yet. Returns
    /// whether the node was added; a patch that has the name stays as it is.
    pub fn insert_node(&mut self, name: String, kind: PatchNode) -> (added: bool)
        requires
            old(self).wf(),
        ensures
            final(self).wf(),
            added == (position(old(self)@.names, name@) is None),
            added ==> final(self)@.names == old(self)@.names.push(name@) && final(self)@.kinds
                == old(self)@.kinds.push(kind) && final(self)@.edges == old(self)@.edges,
            !added ==> final(self)@ == old(self)@,
    {
        if self.find_node(&name).is_some() {
            return false;
        }
        proof {
            lemma_position(self@.names, name@);
        }
        self.nodes.push(Node { name, kind });
        assert(self@.names =~= old(self)@.names.push(name@));
        assert(self@.kinds =~= old(self)@.kinds.push(kind));
        assert(self@.edges =~= old(self)@.edges);
        true
    }

    /// Declares an edge from `source` to `sink`, after those declared before.
    pub fn push_edge(&mut self, source: String, sink: String)
        ensures
            final(self)@.names == old(self)@.names,
            final(self)@.kinds == old(self)@.kinds,
            final(self)@.edges == old(self)@.edges.push((source@, sink@)),
    {
        self.edges.push(Edge { source, sink });
        assert(self@.names =~= old(self)@.names);
        assert(self@.kinds =~= old(self)@.kinds);
        assert(self@.edges =~= old(self)@.edges.push((source@, sink@)));
    }
}

} // verus!

//! Signal paths: the chains of edges that lead to the graph output, listed
//! for diagnosis.
//!
//! A path is found by walking backward from `out`: an edge contributes its
//! source as a predecessor of its sink. Channels play no part; only the node
//! names of the endpoints do.

use vstd::prelude::*;
use vstd::string::*;
use crate::endpoint::{parse_endpoint, parse_node_name, EndpointError};
use crate::graph::out_name;
use crate::patch::Patch;
use crate::text::{pairs_view, strings_view};

verus! {

/// Why the signal paths of a patch could not be listed.
#[derive(Clone, Copy, Debug, PartialEq, Eq, Structural)]
pub enum PathError {
    /// An endpoint of the edge with this index could not be read.
    Endpoint { edge: usize, error: EndpointError },
    /// Walking backward from the output passes more edges than the patch
    /// has: the edges form a cycle.
    Cycle,
}

/// The source and sink node names of the first `k` of `edges`, or the error
/// of the first edge among them with an endpoint that cannot be read.
pub open spec fn names_upto(edges: Seq<(Seq<char>, Seq<char>)>, k: nat) -> Result<
    Seq<(Seq<char>, Seq<char>)>,
    PathError,
>
    decreases k,
{
    if k == 0 {
        Ok(Seq::empty())
    } else {
        match names_upto(edges, (k - 1) as nat) {
            Err(e) => Err(e),
            Ok(names) => match parse_endpoint(edges[k - 1].0) {
                Err(error) => Err(PathError::Endpoint { edge: (k - 1) as usize, error }),
                Ok(src) => match parse_endpoint(edges[k - 1].1) {
                    Err(error) => Err(PathError::Endpoint { edge: (k - 1) as usize, error }),
                    Ok(snk) => Ok(names.push((src.0, snk.0))),
                },
            },
        }
    }
}

/// The source and sink node names of all of `edges`.
pub open spec fn names_of(edges: Seq<(Seq<char>, Seq<char>)>) -> Result<
    Seq<(Seq<char>, Seq<char>)>,
    PathError,
> {
    names_upto(edges, edges.len())
}

/// Each of `paths` with `name` added at its end.
pub open spec fn extended(paths: Seq<Seq<Seq<char>>>, name: Seq<char>) -> Seq<Seq<Seq<char>>> {
    paths.map_values(|p: Seq<Seq<char>>| p.push(name))
}

/// The paths to `end` whose last edge is among the first `k` of `edges`,
/// walking backward over at most `depth` edges. The paths through an edge
/// into `end` are the paths to that edge's source, each with `end` added; or
/// the edge alone, from its source to `end`, where no path leads to its
/// source. They are listed edge by edge, in the order of the edges.
pub open spec fn branches_upto(
    edges: Seq<(Seq<char>, Seq<char>)>,
    end: Seq<char>,
    depth: nat,
    k: nat,
) -> Seq<Seq<Seq<char>>>
    decreases depth, k,
{
    if k == 0 {
        Seq::empty()
    } else {
        let before = branches_upto(edges, end, depth, (k - 1) as nat);
        let e = edges[k - 1];
        if e.1 != end || depth == 0 {
            before
        } else {
            let child = branches_upto(edges, e.0, (depth - 1) as nat, edges.len());
            before + if child.len() == 0 {
                seq![seq![e.0, e.1]]
            } else {
                extended(child, e.1)
            }
        }
    }
}

/// The paths to `end` along `edges`, walking backward over at most `depth`
/// edges.
pub open spec fn branches(edges: Seq<(Seq<char>, Seq<char>)>, end: Seq<char>, depth: nat) -> Seq<
    Seq<Seq<char>>,
> {
    branches_upto(edges, end, depth, edges.len())
}

/// Whether a backward walk from `end` that starts with one of the first `k`
/// of `edges` passes more than `depth` edges.
pub open spec fn too_deep_upto(
    edges: Seq<(Seq<char>, Seq<char>)>,
    end: Seq<char>,
    depth: nat,
    k: nat,
) -> bool
    decreases depth, k,
{
    k > 0 && (too_deep_upto(edges, end, depth, (k - 1) as nat) || (edges[k - 1].1 == end && (depth
        == 0 || too_deep_upto(edges, edges[k - 1].0, (depth - 1) as nat, edges.len()))))
}

/// Whether a backward walk from `end` along `edges` passes more than `depth`
/// edges.
pub open spec fn too_deep(edges: Seq<(Seq<char>, Seq<char>)>, end: Seq<char>, depth: nat) -> bool {
    too_deep_upto(edges, end, depth, edges.len())
}

/// The separator between the node names of a printed path.
pub open spec fn arrow() -> Seq<char> {
    "-->"@
}

/// The node names of `path`, joined by arrows.
pub open spec fn joined(path: Seq<Seq<char>>) -> Seq<char>
    decreases path.len(),
{
    if path.len() == 0 {
        Seq::empty()
    } else if path.len() == 1 {
        path[0]
    } else {
        joined(path.drop_last()) + arrow() + path.last()
    }
}

/// The node names of a path, each as its characters.
pub open spec fn path_view(path: Vec<String>) -> Seq<Seq<char>> {
    strings_view(path@)
}

/// The paths, each as the characters of its node names.
pub open spec fn paths_view(paths: Seq<Vec<String>>) -> Seq<Seq<Seq<char>>> {
    paths.map_values(|p: Vec<String>| path_view(p))
}

fn clone_path(path: &Vec<String>) -> (copy: Vec<String>)
    ensures
        path_view(copy) == path_view(*path),
{
    let mut copy: Vec<String> = Vec::new();
    let mut j: usize = 0;
    while j < path.len()
        invariant
            j <= path.len(),
            copy.len() == j,
            forall|i: int| 0 <= i < j ==> copy[i]@ == path[i]@,
        decreases path.len() - j,
    {
        copy.push(path[j].clone());
        j += 1;
    }
    assert(path_view(copy) =~= path_view(*path));
    copy
}

/// Lists the paths to `end`, walking backward over at most `depth` edges;
/// nothing, if a walk passes more.
fn get_branches(end: &String, edges: &Vec<(String, String)>, depth: usize) -> (r: Option<
    Vec<Vec<String>>,
>)
    ensures
        match r {
            Some(paths) => !too_deep(pairs_view(edges@), end@, depth as nat) && paths_view(paths@)
                == branches(pairs_view(edges@), end@, depth as nat),
            None => too_deep(pairs_view(edges@), end@, depth as nat),
        },
    decreases depth,
{
    let ghost ev = pairs_view(edges@);
    let mut rv: Vec<Vec<String>> = Vec::new();
    let mut k: usize = 0;
    while k < edges.len()
        invariant
            ev == pairs_view(edges@),
            k <= edges.len(),
            !too_deep_upto(ev, end@, depth as nat, k as nat),
            paths_view(rv@) == branches_upto(ev, end@, depth as nat, k as nat),
        decreases edges.len() - k,
    {
        assert(ev[k as int] == (edges[k as int].0@, edges[k as int].1@));
        proof {
            lemma_too_deep_grows(ev, end@, depth as nat, (k + 1) as nat, ev.len());
        }
        if edges[k].1 == *end {
            if depth == 0 {
                return None;
            }
            let child = match get_branches(&edges[k].0, edges, depth - 1) {
                Some(child) => child,
                None => {
                    return None;
                },
            };
            if child.len() == 0 {
                let mut path: Vec<String> = Vec::new();
                path.push(edges[k].0.clone());
                path.push(edges[k].1.clone());
                assert(path_view(path) =~= seq![ev[k as int].0, ev[k as int].1]);
                let ghost before = paths_view(rv@);
                rv.push(path);
                assert(paths_view(rv@) =~= before + seq![seq![ev[k as int].0, ev[k as int].1]]);
            } else {
                let ghost before = paths_view(rv@);
                let mut j: usize = 0;
                while j < child.len()
                    invariant
                        ev == pairs_view(edges@),
                        k < edges.len(),
                        j <= child.len(),
                        paths_view(rv@) == before + extended(paths_view(child@), ev[k as int].1).take(
                            j as int,
                        ),
                    decreases child.len() - j,
                {
                    let mut path = clone_path(&child[j]);
                    let ghost short = path_view(path);
                    path.push(edges[k].1.clone());
                    assert(path_view(path) =~= short.push(ev[k as int].1));
                    let ghost sofar = paths_view(rv@);
                    rv.push(path);
                    assert(paths_view(rv@) =~= sofar.push(path_view(path)));
                    assert(extended(paths_view(child@), ev[k as int].1).take(j + 1) =~= extended(
                        paths_view(child@),
                        ev[k as int].1,
                    ).take(j as int).push(path_view(path)));
                    j += 1;
                }
                assert(extended(paths_view(child@), ev[k as int].1).take(child.len() as int)
                    =~= extended(paths_view(child@), ev[k as int].1));
            }
        }
        k += 1;
    }
    Some(rv)
}

/// Writes a path as its node names joined by arrows.
fn join_path(path: &Vec<String>) -> (s: String)
    ensures
        s@ == joined(path_view(*path)),
{
    let mut s = String::new();
    let mut j: usize = 0;
    while j < path.len()
        invariant
            j <= path.len(),
            s@ == joined(path_view(*path).take(j as int)),
        decreases path.len() - j,
    {
        let ghost next = path_view(*path).take(j + 1);
        assert(next.drop_last() =~= path_view(*path).take(j as int));
        assert(next.last() == path[j as int]@);
        if j > 0 {
            s.append("-->");
        }
        s.append(path[j].as_str());
        assert(s@ =~= joined(next));
        j += 1;
    }
    assert(path_view(*path).take(path.len() as int) =~= path_view(*path));
    s
}

impl Patch {
    /// Reads the node names of the endpoints of every edge.
    fn edge_names(&self) -> (r: Result<Vec<(String, String)>, PathError>)
        ensures
            match r {
                Ok(names) => names_of(self@.edges) == Ok::<
                    Seq<(Seq<char>, Seq<char>)>,
                    PathError,
                >(pairs_view(names@)),
                Err(e) => names_of(self@.edges) == Err::<Seq<(Seq<char>, Seq<char>)>, PathError>(
                    e,
                ),
            },
    {
        let edges = self.edge_count();
        let mut names: Vec<(String, String)> = Vec::new();
        assert(pairs_view(names@) =~= Seq::empty());
        let mut i: usize = 0;
        while i < edges
            invariant
                edges == self@.edges.len(),
                i <= edges,
                names_upto(self@.edges, i as nat) == Ok::<Seq<(Seq<char>, Seq<char>)>, PathError>(
                    pairs_view(names@),
                ),
            decreases edges - i,
        {
            proof {
                lemma_names_error_stays(self@.edges, (i + 1) as nat, edges as nat);
            }
            let src = match parse_node_name(self.edge_source(i).as_str()) {
                Ok(src) => src,
                Err(error) => {
                    return Err(PathError::Endpoint { edge: i, error });
                },
            };
            let snk = match parse_node_name(self.edge_sink(i).as_str()) {
                Ok(snk) => snk,
                Err(error) => {
                    return Err(PathError::Endpoint { edge: i, error });
                },
            };
            let ghost before = pairs_view(names@);
            names.push((src.0, snk.0));
            assert(pairs_view(names@) =~= before.push((src.0@, snk.0@)));
            i += 1;
        }
        Ok(names)
    }

    /// Lists every signal path that ends at `out`, each written as its node
    /// names joined by arrows, `a-->b-->out`.
    pub fn branch_reprs(&self) -> (r: Result<Vec<String>, PathError>)
        ensures
            match r {
                Ok(lines) => names_of(self@.edges) matches Ok(names) && !too_deep(
                    names,
                    out_name(),
                    names.len(),
                ) && strings_view(lines@) == branches(names, out_name(), names.len()).map_values(
                    |p: Seq<Seq<char>>| joined(p),
                ),
                Err(PathError::Cycle) => names_of(self@.edges) matches Ok(names) && too_deep(
                    names,
                    out_name(),
                    names.len(),
                ),
                Err(e) => names_of(self@.edges) == Err::<Seq<(Seq<char>, Seq<char>)>, PathError>(
                    e,
                ),
            },
    {
        let names = match self.edge_names() {
            Ok(names) => names,
            Err(e) => {
                proof {
                    lemma_names_error(self@.edges, self@.edges.len());
                }
                return Err(e);
            },
        };
        let out = String::from_str("out");
        let paths = match get_branches(&out, &names, names.len()) {
            Some(paths) => paths,
            None => {
                return Err(PathError::Cycle);
            },
        };
        let mut lines: Vec<String> = Vec::new();
        let mut j: usize = 0;
        while j < paths.len()
            invariant
                j <= paths.len(),
                lines.len() == j,
                forall|i: int| 0 <= i < j ==> lines[i]@ == joined(paths_view(paths@)[i]),
            decreases paths.len() - j,
        {
            lines.push(join_path(&paths[j]));
            j += 1;
        }
        assert(strings_view(lines@) =~= paths_view(paths@).map_values(
            |p: Seq<Seq<char>>| joined(p),
        ));
        Ok(lines)
    }
}

/// A walk that is too deep among the first `k` edges is so among more.
pub proof fn lemma_too_deep_grows(
    edges: Seq<(Seq<char>, Seq<char>)>,
    end: Seq<char>,
    depth: nat,
    k: nat,
    m: nat,
)
    requires
        k <= m,
    ensures
        too_deep_upto(edges, end, depth, k) ==> too_deep_upto(edges, end, depth, m),
    decreases m,
{
    if k < m {
        lemma_too_deep_grows(edges, end, depth, k, (m - 1) as nat);
    }
}

/// Once an edge cannot be read, reading more edges leaves the error as it is.
pub proof fn lemma_names_error_stays(edges: Seq<(Seq<char>, Seq<char>)>, k: nat, m: nat)
    requires
        k <= m,
    ensures
        names_upto(edges, k) is Err ==> names_upto(edges, m) == names_upto(edges, k),
    decreases m,
{
    if k < m {
        lemma_names_error_stays(edges, k, (m - 1) as nat);
    }
}

/// An error of reading edges is that of an endpoint, never a cycle.
pub proof fn lemma_names_error(edges: Seq<(Seq<char>, Seq<char>)>, k: nat)
    ensures
        names_upto(edges, k) matches Err(e) ==> e is Endpoint,
        names_upto(edges, k) matches Ok(names) ==> names.len() == k,
    decreases k,
{
    if k > 0 {
        lemma_names_error(edges, (k - 1) as nat);
    }
}

/// Some edge leads from `source` to `sink`.
pub open spec fn has_edge(edges: Seq<(Seq<char>, Seq<char>)>, source: Seq<char>, sink: Seq<char>)
    -> bool {
    exists|i: int| 0 <= i < edges.len() && #[trigger] edges[i] == (source, sink)
}

/// An edge leads from name `j` of `path` to the next.
pub open spec fn linked(edges: Seq<(Seq<char>, Seq<char>)>, path: Seq<Seq<char>>, j: int) -> bool {
    has_edge(edges, path[j], path[j + 1])
}

/// No edge leads into `name`.
pub open spec fn is_root(edges: Seq<(Seq<char>, Seq<char>)>, name: Seq<char>) -> bool {
    forall|i: int| 0 <= i < edges.len() ==> (#[trigger] edges[i]).1 != name
}

/// `path` is a signal path to `end`: it starts at a name that no edge leads
/// into, goes from each name to the next along an edge, and ends at `end`.
pub open spec fn is_branch(edges: Seq<(Seq<char>, Seq<char>)>, path: Seq<Seq<char>>, end: Seq<char>)
    -> bool {
    &&& path.len() >= 2
    &&& path.last() == end
    &&& is_root(edges, path[0])
    &&& forall|j: int| 0 <= j < path.len() - 1 ==> #[trigger] linked(edges, path, j)
}

/// The paths whose last edge is among the first `k` edges are among those
/// whose last edge is among the first `m`, for `k` up to `m`.
pub proof fn lemma_branches_grow(
    edges: Seq<(Seq<char>, Seq<char>)>,
    end: Seq<char>,
    depth: nat,
    k: nat,
    m: nat,
)
    requires
        k <= m,
    ensures
        branches_upto(edges, end, depth, k).is_prefix_of(branches_upto(edges, end, depth, m)),
    decreases m,
{
    if k < m {
        lemma_branches_grow(edges, end, depth, k, (m - 1) as nat);
    }
}

/// Where no walk is too deep, an edge into `end` among the first `k` gives
/// at least one path.
proof fn lemma_edge_gives_branch(
    edges: Seq<(Seq<char>, Seq<char>)>,
    end: Seq<char>,
    depth: nat,
    k: nat,
    i: int,
)
    requires
        k <= edges.len(),
        0 <= i < k,
        edges[i].1 == end,
        !too_deep_upto(edges, end, depth, k),
    ensures
        branches_upto(edges, end, depth, k).len() > 0,
    decreases k,
{
    if i < k - 1 {
        lemma_edge_gives_branch(edges, end, depth, (k - 1) as nat, i);
    }
}

/// Where no walk from `end` is too deep, every path that is listed is a
/// signal path to `end`.
proof fn lemma_branches_sound_upto(
    edges: Seq<(Seq<char>, Seq<char>)>,
    end: Seq<char>,
    depth: nat,
    k: nat,
)
    requires
        k <= edges.len(),
        !too_deep_upto(edges, end, depth, k),
    ensures
        forall|x: int|
            0 <= x < branches_upto(edges, end, depth, k).len() ==> is_branch(
                edges,
                #[trigger] branches_upto(edges, end, depth, k)[x],
                end,
            ),
    decreases depth, k,
{
    if k > 0 {
        let before = branches_upto(edges, end, depth, (k - 1) as nat);
        lemma_branches_sound_upto(edges, end, depth, (k - 1) as nat);
        let e = edges[k - 1];
        if e.1 == end {
            let child = branches_upto(edges, e.0, (depth - 1) as nat, edges.len());
            lemma_branches_sound_upto(edges, e.0, (depth - 1) as nat, edges.len());
            let all = branches_upto(edges, end, depth, k);
            assert forall|x: int| 0 <= x < all.len() implies is_branch(
                edges,
                #[trigger] all[x],
                end,
            ) by {
                if x < before.len() {
                    assert(all[x] == before[x]);
                } else if child.len() == 0 {
                    let p = all[x];
                    assert(p == seq![e.0, e.1]);
                    assert(edges[k - 1] == (p[0], p[1]));
                    assert(linked(edges, p, 0));
                    assert(is_root(edges, e.0)) by {
                        if !is_root(edges, e.0) {
                            let i = choose|i: int| 0 <= i < edges.len() && edges[i].1 == e.0;
                            lemma_edge_gives_branch(
                                edges,
                                e.0,
                                (depth - 1) as nat,
                                edges.len(),
                                i,
                            );
                        }
                    }
                } else {
                    let q = child[x - before.len()];
                    let p = all[x];
                    assert(p == q.push(e.1));
                    assert(is_branch(edges, q, e.0));
                    assert forall|j: int| 0 <= j < p.len() - 1 implies #[trigger] linked(
                        edges,
                        p,
                        j,
                    ) by {
                        if j < q.len() - 1 {
                            assert(linked(edges, q, j));
                        } else {
                            assert(edges[k - 1] == (p[j], p[j + 1]));
                        }
                    }
                }
            }
        }
    }
}

/// Where no walk from `end` is too deep, every signal path to `end` whose
/// last edge is edge `i` is listed.
proof fn lemma_branches_complete_upto(
    edges: Seq<(Seq<char>, Seq<char>)>,
    end: Seq<char>,
    depth: nat,
    path: Seq<Seq<char>>,
)
    requires
        !too_deep(edges, end, depth),
        is_branch(edges, path, end),
    ensures
        branches(edges, end, depth).contains(path),
    decreases path.len(),
{
    let n = path.len() as int;
    assert(linked(edges, path, n - 2));
    let i = choose|i: int| 0 <= i < edges.len() && #[trigger] edges[i] == (path[n - 2], path[n - 1]);
    let e = edges[i];
    lemma_too_deep_grows(edges, end, depth, (i + 1) as nat, edges.len());
    let before = branches_upto(edges, end, depth, i as nat);
    let upto = branches_upto(edges, end, depth, (i + 1) as nat);
    let child = branches_upto(edges, e.0, (depth - 1) as nat, edges.len());
    let short = path.drop_last();
    assert(path =~= short.push(e.1));
    if n == 2 {
        if child.len() > 0 {
            lemma_branches_sound_upto(edges, e.0, (depth - 1) as nat, edges.len());
            let q = child[0];
            assert(is_branch(edges, q, e.0));
            assert(linked(edges, q, q.len() - 2));
            let back = choose|b: int|
                0 <= b < edges.len() && #[trigger] edges[b] == (q[q.len() - 2], q[q.len() - 1]);
            assert(edges[back].1 == path[0]);
        }
        assert(path =~= seq![e.0, e.1]);
        assert(upto[before.len() as int] == path);
    } else {
        assert forall|j: int| 0 <= j < short.len() - 1 implies #[trigger] linked(
            edges,
            short,
            j,
        ) by {
            assert(linked(edges, path, j));
        }
        assert(is_branch(edges, short, e.0));
        lemma_branches_complete_upto(edges, e.0, (depth - 1) as nat, short);
        let x = choose|x: int| 0 <= x < child.len() && child[x] == short;
        assert(extended(child, e.1)[x] == path);
        assert(upto[before.len() + x] == path);
    }
    lemma_branches_grow(edges, end, depth, (i + 1) as nat, edges.len());
    let at = choose|at: int| 0 <= at < upto.len() && upto[at] == path;
    assert(branches(edges, end, depth)[at] == path);
}

/// Where no backward walk from `end` passes more than `depth` edges, the
/// paths listed for `end` are the signal paths to `end`: every path listed
/// is one, and every one is listed.
pub proof fn lemma_branches_are_the_signal_paths(
    edges: Seq<(Seq<char>, Seq<char>)>,
    end: Seq<char>,
    depth: nat,
    path: Seq<Seq<char>>,
)
    requires
        !too_deep(edges, end, depth),
    ensures
        branches(edges, end, depth).contains(path) <==> is_branch(edges, path, end),
{
    if is_branch(edges, path, end) {
        lemma_branches_complete_upto(edges, end, depth, path);
    }
    if branches(edges, end, depth).contains(path) {
        lemma_branches_sound_upto(edges, end, depth, edges.len());
    }
}

/// In the backward walk `walk`, a sequence of edges by index, edge `j + 1`
/// ends where edge `j` starts.
pub open spec fn follows(edges: Seq<(Seq<char>, Seq<char>)>, walk: Seq<int>, j: int) -> bool {
    edges[walk[j + 1]].1 == edges[walk[j]].0
}

/// `walk` is a backward walk along `edges`: each of its edges ends where the
/// one before it starts.
pub open spec fn is_walk(edges: Seq<(Seq<char>, Seq<char>)>, walk: Seq<int>) -> bool {
    &&& forall|j: int| 0 <= j < walk.len() ==> 0 <= #[trigger] walk[j] < edges.len()
    &&& forall|j: int| 0 <= j < walk.len() - 1 ==> #[trigger] follows(edges, walk, j)
}

/// `walk` is a cycle: a backward walk that comes back to where it began.
pub open spec fn is_cycle(edges: Seq<(Seq<char>, Seq<char>)>, walk: Seq<int>) -> bool {
    walk.len() >= 1 && is_walk(edges, walk) && edges[walk.last()].0 == edges[walk[0]].1
}

/// The edges form a cycle.
pub open spec fn has_cycle(edges: Seq<(Seq<char>, Seq<char>)>) -> bool {
    exists|walk: Seq<int>| #[trigger] is_cycle(edges, walk)
}

/// A walk that is too deep for `depth`: a backward walk from `end` of
/// `depth + 1` edges.
proof fn lemma_deep_walk(
    edges: Seq<(Seq<char>, Seq<char>)>,
    end: Seq<char>,
    depth: nat,
    k: nat,
) -> (walk: Seq<int>)
    requires
        k <= edges.len(),
        too_deep_upto(edges, end, depth, k),
    ensures
        walk.len() == depth + 1,
        is_walk(edges, walk),
        edges[walk[0]].1 == end,
    decreases depth, k,
{
    if too_deep_upto(edges, end, depth, (k - 1) as nat) {
        lemma_deep_walk(edges, end, depth, (k - 1) as nat)
    } else if depth == 0 {
        seq![k - 1]
    } else {
        let rest = lemma_deep_walk(edges, edges[k - 1].0, (depth - 1) as nat, edges.len());
        let walk = seq![k - 1] + rest;
        assert forall|j: int| 0 <= j < walk.len() - 1 implies #[trigger] follows(
            edges,
            walk,
            j,
        ) by {
            if j > 0 {
                assert(follows(edges, rest, j - 1));
            }
        }
        walk
    }
}

/// Edges that form no cycle allow no backward walk of more edges than there
/// are: their signal paths can always be listed.
pub proof fn lemma_no_cycle_no_deep_walk(edges: Seq<(Seq<char>, Seq<char>)>, end: Seq<char>)
    requires
        !has_cycle(edges),
    ensures
        !too_deep(edges, end, edges.len()),
{
    if too_deep(edges, end, edges.len()) {
        let walk = lemma_deep_walk(edges, end, edges.len(), edges.len());
        if walk.no_duplicates() {
            walk.unique_seq_to_set();
            vstd::set_lib::lemma_int_range(0, edges.len() as int);
            assert(walk.to_set().subset_of(vstd::set_lib::set_int_range(0, edges.len() as int)))
                by {
                assert forall|i: int| walk.to_set().contains(i) implies vstd::set_lib::set_int_range(
                    0,
                    edges.len() as int,
                ).contains(i) by {
                    let j = choose|j: int| 0 <= j < walk.len() && walk[j] == i;
                }
            }
            vstd::set_lib::lemma_len_subset(
                walk.to_set(),
                vstd::set_lib::set_int_range(0, edges.len() as int),
            );
        } else {
            let (a, b) = choose|a: int, b: int|
                0 <= a < walk.len() && 0 <= b < walk.len() && a != b && walk[a] == walk[b];
            let (lo, hi) = if a < b {
                (a, b)
            } else {
                (b, a)
            };
            let cycle = walk.subrange(lo, hi);
            assert forall|j: int| 0 <= j < cycle.len() - 1 implies #[trigger] follows(
                edges,
                cycle,
                j,
            ) by {
                assert(follows(edges, walk, lo + j));
            }
            assert(follows(edges, walk, hi - 1));
            assert(is_cycle(edges, cycle));
        }
    }
}

} // verus!

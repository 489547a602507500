//! Depths: the distance of each node from the root along the edges, found
//! breadth first. Nodes that the root does not reach keep their depth.

use crate::models::{ExecutionTreeNode, NodeView};
use crate::parser::measures::{find_root_index, root_index};
use crate::text::pos_of;
use vstd::prelude::*;

verus! {

/// The last node before `j` with the id `id`.
pub open spec fn resolve_before(nodes: Seq<NodeView>, id: Seq<char>, j: int) -> Option<int>
    decreases j,
{
    if j <= 0 || j > nodes.len() {
        None
    } else if nodes[j - 1].id == id {
        Some(j - 1)
    } else {
        resolve_before(nodes, id, j - 1)
    }
}

/// The node that `id` names: the last with that id.
pub open spec fn resolve(nodes: Seq<NodeView>, id: Seq<char>) -> Option<int> {
    resolve_before(nodes, id, nodes.len() as int)
}

/// Whether an edge runs from node `u` to node `v`: `u` names `v` as a
/// child.
pub open spec fn edge(nodes: Seq<NodeView>, u: int, v: int) -> bool {
    0 <= u < nodes.len() && exists|c: int|
        0 <= c < nodes[u].children.len() && #[trigger] resolve(nodes, nodes[u].children[c])
            == Some(v)
}

/// Whether a walk of `k` edges leads from node `root` to node `v`.
pub open spec fn walk(nodes: Seq<NodeView>, root: int, v: int, k: nat) -> bool
    decreases k,
{
    if k == 0 {
        v == root
    } else {
        exists|u: int|
            0 <= u < nodes.len() && walk(nodes, root, u, (k - 1) as nat) && #[trigger] edge(
                nodes,
                u,
                v,
            )
    }
}

/// Whether the shortest walk from node `root` to node `v` has `k` edges.
pub open spec fn shortest_walk(nodes: Seq<NodeView>, root: int, v: int, k: nat) -> bool {
    walk(nodes, root, v, k) && forall|j: nat| walk(nodes, root, v, j) ==> k <= j
}

/// The distance of node `v` from node `root`: the length of the shortest
/// walk from the root to it, where a walk leads there.
pub open spec fn distance(nodes: Seq<NodeView>, root: int, v: int) -> Option<nat> {
    if exists|k: nat| walk(nodes, root, v, k) {
        Some(choose|k: nat| shortest_walk(nodes, root, v, k))
    } else {
        None
    }
}

/// The nodes with the depth of each node that the root reaches set to its
/// distance from the root; every other node, and every other part of a
/// node, as it was.
pub open spec fn with_depths(nodes: Seq<NodeView>) -> Seq<NodeView> {
    match root_index(nodes) {
        Some(root) => Seq::new(
            nodes.len(),
            |i: int|
                NodeView {
                    depth: match distance(nodes, root, i) {
                        Some(d) => d,
                        None => nodes[i].depth,
                    },
                    ..nodes[i]
                },
        ),
        None => nodes,
    }
}

/// Whether `seen` and `dist` give the nodes that `root` reaches and their
/// distances from it: the root is reached at distance 0; what a reached
/// node points to is reached, at most one step further; and every other
/// reached node is pointed to by a reached node one step nearer.
pub open spec fn is_labelling(nodes: Seq<NodeView>, root: int, seen: Seq<bool>, dist: Seq<nat>) -> bool {
    &&& seen.len() == nodes.len()
    &&& dist.len() == nodes.len()
    &&& 0 <= root < nodes.len()
    &&& seen[root]
    &&& dist[root] == 0
    &&& forall|u: int, v: int|
        0 <= u < nodes.len() && 0 <= v < nodes.len() && seen[u] && #[trigger] edge(nodes, u, v)
            ==> seen[v] && dist[v] <= dist[u] + 1
    &&& forall|v: int|
        0 <= v < nodes.len() && #[trigger] seen[v] && v != root ==> exists|u: int|
            0 <= u < nodes.len() && seen[u] && #[trigger] edge(nodes, u, v) && dist[v] == dist[u]
                + 1
}

/// The nodes with the depth of each reached node set to its distance.
pub open spec fn labelled(nodes: Seq<NodeView>, seen: Seq<bool>, dist: Seq<nat>) -> Seq<NodeView> {
    Seq::new(
        nodes.len(),
        |i: int|
            NodeView {
                depth: if seen[i] {
                    dist[i]
                } else {
                    nodes[i].depth
                },
                ..nodes[i]
            },
    )
}

proof fn lemma_labelled_has_walk(
    nodes: Seq<NodeView>,
    root: int,
    seen: Seq<bool>,
    dist: Seq<nat>,
    v: int,
)
    requires
        is_labelling(nodes, root, seen, dist),
        0 <= v < nodes.len(),
        seen[v],
    ensures
        walk(nodes, root, v, dist[v]),
    decreases dist[v],
{
    if v != root {
        let u = choose|u: int|
            0 <= u < nodes.len() && seen[u] && #[trigger] edge(nodes, u, v) && dist[v] == dist[u]
                + 1;
        lemma_labelled_has_walk(nodes, root, seen, dist, u);
    }
}

proof fn lemma_walk_is_labelled(
    nodes: Seq<NodeView>,
    root: int,
    seen: Seq<bool>,
    dist: Seq<nat>,
    v: int,
    k: nat,
)
    requires
        is_labelling(nodes, root, seen, dist),
        0 <= v < nodes.len(),
        walk(nodes, root, v, k),
    ensures
        seen[v],
        dist[v] <= k,
    decreases k,
{
    if k > 0 {
        let u = choose|u: int|
            0 <= u < nodes.len() && walk(nodes, root, u, (k - 1) as nat) && #[trigger] edge(
                nodes,
                u,
                v,
            );
        lemma_walk_is_labelled(nodes, root, seen, dist, u, (k - 1) as nat);
    }
}

/// A labelling gives the distances from the root: a node is reached if and
/// only if a walk leads from the root to it, and its distance is the
/// length of the shortest such walk.
pub proof fn labelling_is_distance(
    nodes: Seq<NodeView>,
    root: int,
    seen: Seq<bool>,
    dist: Seq<nat>,
    v: int,
)
    requires
        is_labelling(nodes, root, seen, dist),
        0 <= v < nodes.len(),
    ensures
        distance(nodes, root, v) == if seen[v] {
            Some(dist[v])
        } else {
            None::<nat>
        },
{
    assert forall|k: nat| walk(nodes, root, v, k) implies seen[v] && dist[v] <= k by {
        lemma_walk_is_labelled(nodes, root, seen, dist, v, k);
    }
    if seen[v] {
        lemma_labelled_has_walk(nodes, root, seen, dist, v);
        assert(shortest_walk(nodes, root, v, dist[v]));
        let k = choose|k: nat| shortest_walk(nodes, root, v, k);
        assert(shortest_walk(nodes, root, v, k));
    }
}

/// Whether `v` stands in the list of node `u`.
pub open spec fn arc(adj: Seq<Vec<usize>>, u: int, v: int) -> bool {
    0 <= u < adj.len() && exists|c: int| 0 <= c < adj[u]@.len() && #[trigger] adj[u]@[c] == v
}

/// Every entry of the lists is a node.
pub open spec fn adj_ok(adj: Seq<Vec<usize>>) -> bool {
    forall|u: int, c: int|
        0 <= u < adj.len() && 0 <= c < adj[u]@.len() ==> (#[trigger] adj[u]@[c]) < adj.len()
}

/// The lists hold the edges of the nodes.
pub open spec fn adj_of(adj: Seq<Vec<usize>>, nodes: Seq<NodeView>) -> bool {
    &&& adj.len() == nodes.len()
    &&& adj_ok(adj)
    &&& forall|u: int, v: int|
        0 <= u < nodes.len() && 0 <= v < nodes.len() ==> (#[trigger] arc(adj, u, v) <==> edge(
            nodes,
            u,
            v,
        ))
}

/// What reached nodes nearer than `level` point to is reached, at most one
/// step further.
pub open spec fn closed_below(adj: Seq<Vec<usize>>, seen: Seq<bool>, dist: Seq<usize>, level: int) -> bool {
    forall|u: int, v: int|
        0 <= u < adj.len() && 0 <= v < adj.len() && seen[u] && dist[u] < level && #[trigger] arc(
            adj,
            u,
            v,
        ) ==> seen[v] && dist[v] <= dist[u] + 1
}

/// Every reached node but the root is pointed to by a reached node one
/// step nearer.
pub open spec fn has_parents(adj: Seq<Vec<usize>>, seen: Seq<bool>, dist: Seq<usize>, root: int) -> bool {
    forall|v: int|
        0 <= v < adj.len() && #[trigger] seen[v] && v != root ==> exists|u: int|
            0 <= u < adj.len() && seen[u] && #[trigger] arc(adj, u, v) && dist[v] == dist[u] + 1
}

/// `list` holds the reached nodes at distance `level`, and no others.
pub open spec fn lists_level(list: Seq<usize>, seen: Seq<bool>, dist: Seq<usize>, level: int) -> bool {
    &&& forall|k: int|
        0 <= k < list.len() ==> (#[trigger] list[k]) < seen.len() && seen[list[k] as int]
            && dist[list[k] as int] == level
    &&& forall|v: int|
        0 <= v < seen.len() && #[trigger] seen[v] && dist[v] == level ==> exists|k: int|
            0 <= k < list.len() && #[trigger] list[k] == v
}

/// How many of the first `k` nodes are not reached.
pub open spec fn unseen(seen: Seq<bool>, k: nat) -> nat
    decreases k,
{
    if k == 0 || k > seen.len() {
        0
    } else {
        unseen(seen, (k - 1) as nat) + if seen[k - 1] {
            0nat
        } else {
            1nat
        }
    }
}

proof fn lemma_unseen_mark(seen: Seq<bool>, v: int, k: nat)
    requires
        0 <= v < seen.len(),
        !seen[v],
        k <= seen.len(),
    ensures
        unseen(seen.update(v, true), k) + (if v < k {
            1nat
        } else {
            0nat
        }) == unseen(seen, k),
    decreases k,
{
    if k > 0 {
        lemma_unseen_mark(seen, v, (k - 1) as nat);
    }
}

/// The state of the search between two levels.
#[verifier::opaque]
pub open spec fn level_done(
    adj: Seq<Vec<usize>>,
    root: int,
    seen: Seq<bool>,
    dist: Seq<usize>,
    frontier: Seq<usize>,
    level: int,
) -> bool {
    &&& seen.len() == adj.len()
    &&& dist.len() == adj.len()
    &&& 0 <= root < adj.len()
    &&& seen[root]
    &&& dist[root] == 0
    &&& forall|v: int| 0 <= v < adj.len() && #[trigger] seen[v] ==> dist[v] <= level
    &&& lists_level(frontier, seen, dist, level)
    &&& closed_below(adj, seen, dist, level)
    &&& has_parents(adj, seen, dist, root)
}

/// The state of the search at its end.
#[verifier::opaque]
pub open spec fn search_done(adj: Seq<Vec<usize>>, root: int, seen: Seq<bool>, dist: Seq<usize>) -> bool {
    &&& seen.len() == adj.len()
    &&& dist.len() == adj.len()
    &&& 0 <= root < adj.len()
    &&& seen[root]
    &&& dist[root] == 0
    &&& closed_below(adj, seen, dist, adj.len() as int + 1)
    &&& has_parents(adj, seen, dist, root)
    &&& forall|v: int| 0 <= v < adj.len() && #[trigger] seen[v] ==> dist[v] <= adj.len()
}

/// Takes the search one level further: marks what the nodes of `frontier`
/// point to and was not reached yet, and lists it.
fn expand(
    adj: &Vec<Vec<usize>>,
    root: usize,
    frontier: &Vec<usize>,
    level: usize,
    seen: &mut Vec<bool>,
    dist: &mut Vec<usize>,
) -> (next: Vec<usize>)
    requires
        adj_ok(adj@),
        level < usize::MAX,
        level_done(adj@, root as int, old(seen)@, old(dist)@, frontier@, level as int),
    ensures
        level_done(adj@, root as int, final(seen)@, final(dist)@, next@, level + 1),
        unseen(final(seen)@, adj@.len()) + next@.len() == unseen(old(seen)@, adj@.len()),
{
    let n: usize = adj.len();
    let mut next: Vec<usize> = Vec::new();
    let mut k: usize = 0;
    proof {
        reveal(level_done);
    }
    while k < frontier.len()
        invariant
            k <= frontier.len(),
            n == adj.len(),
            adj_ok(adj@),
            level < usize::MAX,
            seen.len() == n,
            dist.len() == n,
            old(seen)@.len() == n,
            old(dist)@.len() == n,
            0 <= root < n,
            seen@[root as int],
            dist@[root as int] == 0,
            forall|v: int| 0 <= v < n && #[trigger] old(seen)@[v] ==> seen@[v] && dist@[v] == old(
                dist,
            )@[v],
            forall|v: int| 0 <= v < n && #[trigger] old(seen)@[v] ==> old(dist)@[v] <= level,
            forall|v: int| 0 <= v < n && #[trigger] seen@[v] ==> dist@[v] <= level + 1,
            forall|v: int|
                0 <= v < n && #[trigger] seen@[v] && !old(seen)@[v] ==> dist@[v] == level + 1,
            lists_level(frontier@, old(seen)@, old(dist)@, level as int),
            lists_level(next@, seen@, dist@, level + 1),
            closed_below(adj@, seen@, dist@, level as int),
            has_parents(adj@, seen@, dist@, root as int),
            forall|x: int, v: int|
                0 <= x < k && 0 <= v < n && #[trigger] arc(adj@, frontier@[x] as int, v)
                    ==> seen@[v],
            unseen(seen@, n as nat) + next@.len() == unseen(old(seen)@, n as nat),
        decreases frontier.len() - k,
    {
        let u: usize = frontier[k];
        assert(u < n && old(seen)@[u as int] && old(dist)@[u as int] == level);
        let list: &Vec<usize> = &adj[u];
        let mut c: usize = 0;
        while c < list.len()
            invariant
                c <= list.len(),
                k < frontier.len(),
                u == frontier@[k as int],
                u < n,
                list == &adj@[u as int],
                old(seen)@[u as int],
                old(dist)@[u as int] == level,
                n == adj.len(),
                adj_ok(adj@),
                level < usize::MAX,
                seen.len() == n,
                dist.len() == n,
                old(seen)@.len() == n,
                old(dist)@.len() == n,
                0 <= root < n,
                seen@[root as int],
                dist@[root as int] == 0,
                forall|v: int|
                    0 <= v < n && #[trigger] old(seen)@[v] ==> seen@[v] && dist@[v] == old(
                        dist,
                    )@[v],
                forall|v: int| 0 <= v < n && #[trigger] old(seen)@[v] ==> old(dist)@[v] <= level,
                forall|v: int| 0 <= v < n && #[trigger] seen@[v] ==> dist@[v] <= level + 1,
                forall|v: int|
                    0 <= v < n && #[trigger] seen@[v] && !old(seen)@[v] ==> dist@[v] == level + 1,
                lists_level(frontier@, old(seen)@, old(dist)@, level as int),
                lists_level(next@, seen@, dist@, level + 1),
                closed_below(adj@, seen@, dist@, level as int),
                has_parents(adj@, seen@, dist@, root as int),
                forall|x: int, v: int|
                    0 <= x < k && 0 <= v < n && #[trigger] arc(adj@, frontier@[x] as int, v)
                        ==> seen@[v],
                forall|y: int| 0 <= y < c ==> seen@[(#[trigger] list@[y]) as int],
                unseen(seen@, n as nat) + next@.len() == unseen(old(seen)@, n as nat),
            decreases list.len() - c,
        {
            let v: usize = list[c];
            assert(adj@[u as int]@[c as int] == v);
            assert(v < n);
            if !seen[v] {
                let ghost seen0 = seen@;
                let ghost dist0 = dist@;
                let ghost next0 = next@;
                proof {
                    lemma_unseen_mark(seen0, v as int, n as nat);
                }
                seen[v] = true;
                dist[v] = level + 1;
                next.push(v);
                proof {
                    assert(seen@ == seen0.update(v as int, true));
                    assert(dist@ == dist0.update(v as int, (level + 1) as usize));
                    assert(arc(adj@, u as int, v as int));
                    // every reached node keeps a parent one step nearer
                    assert forall|w: int| 0 <= w < n && #[trigger] seen@[w] && w != root implies exists|
                        p: int,
                    |
                        0 <= p < n && seen@[p] && #[trigger] arc(adj@, p, w) && dist@[w] == dist@[p]
                            + 1 by {
                        if w == v {
                            assert(seen@[u as int] && arc(adj@, u as int, w) && dist@[w] == dist@[u as int]
                                + 1);
                        } else {
                            assert(seen0[w]);
                            let p = choose|p: int|
                                0 <= p < n && seen0[p] && #[trigger] arc(adj@, p, w) && dist0[w]
                                    == dist0[p] + 1;
                            assert(p != v);
                            assert(seen@[p] && arc(adj@, p, w) && dist@[w] == dist@[p] + 1);
                        }
                    }
                    // the next level is listed
                    assert forall|x: int| 0 <= x < next@.len() implies (#[trigger] next@[x])
                        < seen@.len() && seen@[next@[x] as int] && dist@[next@[x] as int] == level
                        + 1 by {
                        if x < next0.len() {
                            assert(next@[x] == next0[x]);
                        }
                    }
                    assert forall|w: int|
                        0 <= w < seen@.len() && #[trigger] seen@[w] && dist@[w] == level
                            + 1 implies exists|x: int|
                        0 <= x < next@.len() && #[trigger] next@[x] == w by {
                        if w == v {
                            assert(next@[next0.len() as int] == w);
                        } else {
                            assert(seen0[w] && dist0[w] == level + 1);
                            let x = choose|x: int| 0 <= x < next0.len() && #[trigger] next0[x] == w;
                            assert(next@[x] == w);
                        }
                    }
                    // what nearer nodes point to stays reached
                    assert forall|a: int, b: int|
                        0 <= a < n && 0 <= b < n && seen@[a] && dist@[a] < level && #[trigger] arc(
                            adj@,
                            a,
                            b,
                        ) implies seen@[b] && dist@[b] <= dist@[a] + 1 by {
                        assert(a != v);
                        assert(seen0[a] && dist0[a] < level);
                        assert(seen0[b] && dist0[b] <= dist0[a] + 1);
                        assert(b != v);
                    }
                    assert forall|y: int| 0 <= y < c + 1 implies seen@[(#[trigger] list@[y]) as int] by {
                        if y < c {
                            assert(seen0[list@[y] as int]);
                        }
                    }
                }
            }
            c += 1;
        }
        proof {
            assert forall|x: int, v: int|
                0 <= x < k + 1 && 0 <= v < n && #[trigger] arc(
                    adj@,
                    frontier@[x] as int,
                    v,
                ) implies seen@[v] by {
                if x == k {
                    let y = choose|y: int| 0 <= y < adj@[u as int]@.len() && #[trigger] adj@[u as int]@[y] == v;
                    assert(seen@[list@[y] as int]);
                }
            }
        }
        k += 1;
    }
    proof {
        // what the nodes of this level point to is reached
        assert forall|a: int, b: int|
            0 <= a < n && 0 <= b < n && seen@[a] && dist@[a] < level + 1 && #[trigger] arc(
                adj@,
                a,
                b,
            ) implies seen@[b] && dist@[b] <= dist@[a] + 1 by {
            if dist@[a] == level {
                assert(old(seen)@[a]) by {
                    if !old(seen)@[a] {
                        assert(dist@[a] == level + 1);
                    }
                }
                assert(old(dist)@[a] == level);
                let x = choose|x: int| 0 <= x < frontier@.len() && #[trigger] frontier@[x] == a;
                assert(arc(adj@, frontier@[x] as int, b));
                assert(seen@[b]);
            }
        }
    }
    next
}

/// Searches the lists breadth first from `root`.
fn search(adj: &Vec<Vec<usize>>, root: usize) -> (r: (Vec<bool>, Vec<usize>))
    requires
        adj_ok(adj@),
        root < adj@.len(),
    ensures
        search_done(adj@, root as int, r.0@, r.1@),
{
    let n: usize = adj.len();
    let mut seen: Vec<bool> = Vec::new();
    let mut dist: Vec<usize> = Vec::new();
    let mut i: usize = 0;
    while i < n
        invariant
            i <= n,
            seen.len() == i,
            dist.len() == i,
            forall|v: int| 0 <= v < i ==> !(#[trigger] seen@[v]),
            forall|v: int| 0 <= v < i ==> (#[trigger] dist@[v]) == 0,
            unseen(seen@, i as nat) == i,
        decreases n - i,
    {
        let ghost seen0 = seen@;
        seen.push(false);
        dist.push(0);
        proof {
            assert(seen@.drop_last() =~= seen0);
            lemma_unseen_prefix(seen@, seen0, i as nat);
        }
        i += 1;
    }
    proof {
        lemma_unseen_mark(seen@, root as int, n as nat);
    }
    seen[root] = true;
    let mut frontier: Vec<usize> = Vec::new();
    frontier.push(root);
    let mut level: usize = 0;
    proof {
        reveal(level_done);
        assert(frontier@[0] == root);
        assert(lists_level(frontier@, seen@, dist@, 0)) by {
            assert forall|v: int|
                0 <= v < seen@.len() && #[trigger] seen@[v] && dist@[v] == 0 implies exists|k: int|
                0 <= k < frontier@.len() && #[trigger] frontier@[k] == v by {
                assert(v == root);
                assert(frontier@[0] == v);
            }
        }
    }
    loop
        invariant_except_break
            level_done(adj@, root as int, seen@, dist@, frontier@, level as int),
            level + unseen(seen@, n as nat) < n,
        invariant
            n == adj.len(),
            adj_ok(adj@),
        ensures
            search_done(adj@, root as int, seen@, dist@),
        decreases unseen(seen@, n as nat),
    {
        let next = expand(adj, root, &frontier, level, &mut seen, &mut dist);
        if next.len() == 0 {
            proof {
                lemma_search_done(adj@, root as int, seen@, dist@, next@, level + 1);
            }
            break ;
        }
        frontier = next;
        level = level + 1;
    }
    (seen, dist)
}

/// With no node at the last level the search is done.
proof fn lemma_search_done(
    adj: Seq<Vec<usize>>,
    root: int,
    seen: Seq<bool>,
    dist: Seq<usize>,
    last: Seq<usize>,
    level: int,
)
    requires
        level_done(adj, root, seen, dist, last, level),
        last.len() == 0,
        level <= adj.len(),
    ensures
        search_done(adj, root, seen, dist),
{
    reveal(level_done);
    reveal(search_done);
    assert forall|a: int, b: int|
        0 <= a < adj.len() && 0 <= b < adj.len() && seen[a] && dist[a] < adj.len() + 1
            && #[trigger] arc(adj, a, b) implies seen[b] && dist[b] <= dist[a] + 1 by {
        assert(dist[a] <= level);
        if dist[a] == level {
            let k = choose|k: int| 0 <= k < last.len() && #[trigger] last[k] == a;
        }
    }
}

proof fn lemma_unseen_prefix(longer: Seq<bool>, shorter: Seq<bool>, k: nat)
    requires
        k <= shorter.len(),
        shorter.len() <= longer.len(),
        forall|v: int| 0 <= v < shorter.len() ==> longer[v] == shorter[v],
    ensures
        unseen(longer, k) == unseen(shorter, k),
    decreases k,
{
    if k > 0 {
        lemma_unseen_prefix(longer, shorter, (k - 1) as nat);
    }
}

/// The node that `id` names.
fn resolve_id(nodes: &Vec<ExecutionTreeNode>, id: &String) -> (r: Option<usize>)
    ensures
        pos_of(r) == resolve(nodes.deep_view(), id@),
        r matches Some(v) ==> v < nodes@.len(),
{
    let ghost view = nodes.deep_view();
    let mut j: usize = nodes.len();
    while j > 0
        invariant
            j <= nodes.len(),
            view == nodes.deep_view(),
            resolve(view, id@) == resolve_before(view, id@, j as int),
        decreases j,
    {
        assert(view[j - 1] == nodes@[j - 1].deep_view());
        if nodes[j - 1].id == *id {
            return Some(j - 1);
        }
        j -= 1;
    }
    None
}

/// Whether one of the first `c` children of node `u` names node `v`.
pub open spec fn names_before(nodes: Seq<NodeView>, u: int, c: int, v: int) -> bool {
    exists|x: int|
        0 <= x < c && x < nodes[u].children.len() && #[trigger] resolve(
            nodes,
            nodes[u].children[x],
        ) == Some(v)
}

/// Whether `list` holds `v`.
pub open spec fn holds(list: Seq<usize>, v: int) -> bool {
    exists|y: int| 0 <= y < list.len() && #[trigger] list[y] == v
}

/// The nodes that the children of node `u` name.
fn resolve_children_of(nodes: &Vec<ExecutionTreeNode>, u: usize) -> (r: Vec<usize>)
    requires
        u < nodes@.len(),
    ensures
        forall|y: int| 0 <= y < r@.len() ==> (#[trigger] r@[y]) < nodes@.len(),
        forall|v: int|
            0 <= v < nodes@.len() ==> (#[trigger] holds(r@, v) <==> edge(
                nodes.deep_view(),
                u as int,
                v,
            )),
{
    let ghost view = nodes.deep_view();
    let children: &Vec<String> = &nodes[u].children;
    assert(view[u as int] == nodes@[u as int].deep_view());
    let ghost cv = view[u as int].children;
    assert(cv == children.deep_view());
    let mut list: Vec<usize> = Vec::new();
    let mut c: usize = 0;
    while c < children.len()
        invariant
            c <= children.len(),
            u < nodes@.len(),
            view == nodes.deep_view(),
            cv == view[u as int].children,
            cv == children.deep_view(),
            forall|y: int| 0 <= y < list@.len() ==> (#[trigger] list@[y]) < nodes@.len(),
            forall|v: int|
                0 <= v < nodes@.len() ==> (#[trigger] holds(list@, v) <==> names_before(
                    view,
                    u as int,
                    c as int,
                    v,
                )),
        decreases children.len() - c,
    {
        assert(cv[c as int] == children@[c as int]@);
        let ghost list0 = list@;
        let found = resolve_id(nodes, &children[c]);
        match found {
            Some(w) => {
                list.push(w);
            },
            None => {},
        }
        proof {
            assert forall|v: int| 0 <= v < nodes@.len() implies (#[trigger] holds(list@, v)
                <==> names_before(view, u as int, c + 1, v)) by {
                if holds(list@, v) {
                    let y = choose|y: int| 0 <= y < list@.len() && #[trigger] list@[y] == v;
                    if y < list0.len() {
                        assert(list0[y] == v);
                        assert(holds(list0, v));
                        let x = choose|x: int|
                            0 <= x < c && x < cv.len() && #[trigger] resolve(view, cv[x]) == Some(
                                v,
                            );
                        assert(0 <= x < c + 1 && resolve(view, cv[x]) == Some(v));
                    } else {
                        assert(resolve(view, cv[c as int]) == Some(v));
                    }
                }
                if names_before(view, u as int, c + 1, v) {
                    let x = choose|x: int|
                        0 <= x < c + 1 && x < cv.len() && #[trigger] resolve(view, cv[x]) == Some(
                            v,
                        );
                    if x < c {
                        assert(names_before(view, u as int, c as int, v));
                        assert(holds(list0, v));
                        let y = choose|y: int| 0 <= y < list0.len() && #[trigger] list0[y] == v;
                        assert(list@[y] == v);
                    } else {
                        assert(list@[list0.len() as int] == v);
                    }
                }
            }
        }
        c += 1;
    }
    proof {
        assert forall|v: int| 0 <= v < nodes@.len() implies (#[trigger] holds(list@, v) <==> edge(
            view,
            u as int,
            v,
        )) by {
            if names_before(view, u as int, c as int, v) {
                let x = choose|x: int|
                    0 <= x < c && x < cv.len() && #[trigger] resolve(view, cv[x]) == Some(v);
                assert(edge(view, u as int, v));
            }
            if edge(view, u as int, v) {
                let x = choose|x: int|
                    0 <= x < cv.len() && #[trigger] resolve(view, cv[x]) == Some(v);
                assert(names_before(view, u as int, c as int, v));
            }
        }
    }
    list
}

/// For each node, the nodes that its children name.
fn resolve_children(nodes: &Vec<ExecutionTreeNode>) -> (adj: Vec<Vec<usize>>)
    ensures
        adj_of(adj@, nodes.deep_view()),
{
    let ghost view = nodes.deep_view();
    let mut adj: Vec<Vec<usize>> = Vec::new();
    let mut u: usize = 0;
    while u < nodes.len()
        invariant
            u <= nodes.len(),
            adj.len() == u,
            view == nodes.deep_view(),
            forall|a: int, y: int|
                0 <= a < u && 0 <= y < adj@[a]@.len() ==> (#[trigger] adj@[a]@[y]) < nodes@.len(),
            forall|a: int, v: int|
                0 <= a < u && 0 <= v < nodes@.len() ==> (#[trigger] holds(adj@[a]@, v) <==> edge(
                    view,
                    a,
                    v,
                )),
        decreases nodes.len() - u,
    {
        let list = resolve_children_of(nodes, u);
        adj.push(list);
        u += 1;
    }
    proof {
        assert forall|a: int, v: int| 0 <= a < view.len() && 0 <= v < view.len() implies (
        #[trigger] arc(adj@, a, v) <==> edge(view, a, v)) by {
            assert(holds(adj@[a]@, v) <==> edge(view, a, v));
            if arc(adj@, a, v) {
                let y = choose|y: int| 0 <= y < adj@[a]@.len() && #[trigger] adj@[a]@[y] == v;
                assert(holds(adj@[a]@, v));
            }
            if holds(adj@[a]@, v) {
                let y = choose|y: int| 0 <= y < adj@[a]@.len() && #[trigger] adj@[a]@[y] == v;
                assert(arc(adj@, a, v));
            }
        }
    }
    adj
}

/// What the search found is the labelling of the nodes.
proof fn lemma_search_labels(
    adj: Seq<Vec<usize>>,
    nodes: Seq<NodeView>,
    root: int,
    seen: Seq<bool>,
    dist: Seq<usize>,
)
    requires
        adj_of(adj, nodes),
        search_done(adj, root, seen, dist),
    ensures
        is_labelling(nodes, root, seen, dist.map_values(|d: usize| d as nat)),
{
    reveal(search_done);
    let far = dist.map_values(|d: usize| d as nat);
    assert forall|u: int, v: int|
        0 <= u < nodes.len() && 0 <= v < nodes.len() && seen[u] && #[trigger] edge(
            nodes,
            u,
            v,
        ) implies seen[v] && far[v] <= far[u] + 1 by {
        assert(arc(adj, u, v));
        assert(dist[u] <= adj.len());
    }
    assert forall|v: int| 0 <= v < nodes.len() && #[trigger] seen[v] && v != root implies exists|
        u: int,
    |
        0 <= u < nodes.len() && seen[u] && #[trigger] edge(nodes, u, v) && far[v] == far[u]
            + 1 by {
        let u = choose|u: int|
            0 <= u < adj.len() && seen[u] && #[trigger] arc(adj, u, v) && dist[v] == dist[u] + 1;
        assert(edge(nodes, u, v));
    }
}

/// Sets the depth of every node that the root reaches to its distance
/// from the root.
pub fn assign_depths(nodes: &mut Vec<ExecutionTreeNode>)
    ensures
        final(nodes).deep_view() == with_depths(old(nodes).deep_view()),
{
    let ghost before = nodes.deep_view();
    let root: usize = match find_root_index(nodes) {
        Some(r) => r,
        None => {
            return ;
        },
    };
    let adj = resolve_children(nodes);
    let (seen, dist) = search(&adj, root);
    let ghost far = dist@.map_values(|d: usize| d as nat);
    proof {
        reveal(search_done);
        lemma_search_labels(adj@, before, root as int, seen@, dist@);
        assert forall|v: int| 0 <= v < before.len() implies #[trigger] labelled(
            before,
            seen@,
            far,
        )[v] == with_depths(before)[v] by {
            labelling_is_distance(before, root as int, seen@, far, v);
        }
        assert(with_depths(before) =~= labelled(before, seen@, far));
    }
    let mut i: usize = 0;
    while i < nodes.len()
        invariant
            i <= nodes.len(),
            nodes.len() == before.len(),
            seen@.len() == before.len(),
            dist@.len() == before.len(),
            far == dist@.map_values(|d: usize| d as nat),
            forall|x: int| 0 <= x < i ==> nodes@[x].deep_view() == labelled(before, seen@, far)[x],
            forall|x: int| i <= x < nodes.len() ==> nodes@[x].deep_view() == before[x],
        decreases nodes.len() - i,
    {
        if seen[i] {
            nodes[i].depth = dist[i];
        }
        i += 1;
    }
    assert(nodes.deep_view() =~= labelled(before, seen@, far));
}

} // verus!

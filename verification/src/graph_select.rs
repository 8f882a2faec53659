//! Subgraph selection for a standard intent: the route of an authored flow graph from the
//! intent's flow entry to its declared mapper output, found breadth first.

use vstd::prelude::*;

use crate::graph_exec::{node_values, Edge, GraphExecutor, Node};
use crate::graph_reach::{
    has_edge, is_walk, lemma_closed_holds_reachable, lemma_walk_reverse, reaches, step, vec_contains, Uid,
};
use crate::model::StandardIntent;

verus! {

/// Where a standard intent enters the flow graph and which mapper produces its output.
#[derive(Debug, Clone, Copy, PartialEq, Eq, Structural)]
pub struct IntentExport {
    /// Flow entry node.
    pub flow_entry: Uid,
    /// Mapper output node.
    pub mapper_output: Uid,
}

/// An authored flow graph. Intent exports are `(intent, export)` pairs; the first pair of
/// an intent is its export.
#[derive(Debug, Clone, PartialEq, Eq)]
pub struct Graph {
    /// Nodes, in authored order.
    pub nodes: Vec<Node>,
    /// Directed edges.
    pub edges: Vec<Edge>,
    /// Source the graph belongs to.
    pub source_id: Uid,
    /// Base URL of the source.
    pub base_url: String,
    /// Intent export table.
    pub intent_exports: Vec<(StandardIntent, IntentExport)>,
}

/// The edges as `(from, to)` pairs.
pub open spec fn edge_pairs(edges: Seq<Edge>) -> Seq<(Uid, Uid)> {
    edges.map_values(|e: Edge| (e.from, e.to))
}

/// The export of `intent`: the first pair that names it.
pub open spec fn export_for(exports: Seq<(StandardIntent, IntentExport)>, intent: StandardIntent) -> Option<
    IntentExport,
>
    decreases exports.len(),
{
    if exports.len() == 0 {
        None
    } else if exports[0].0 == intent {
        Some(exports[0].1)
    } else {
        export_for(exports.drop_first(), intent)
    }
}

/// Some node has identifier `id`.
pub open spec fn has_node(nodes: Seq<Node>, id: Uid) -> bool {
    exists|i: int| 0 <= i < nodes.len() && (#[trigger] nodes[i]).node_id == id
}

/// The nodes whose identifiers `ids` lists, in their authored order.
pub open spec fn keep_nodes(nodes: Seq<Node>, ids: Seq<Uid>) -> Seq<Node>
    decreases nodes.len(),
{
    if nodes.len() == 0 {
        Seq::empty()
    } else {
        let rest = keep_nodes(nodes.drop_last(), ids);
        if ids.contains(nodes.last().node_id) {
            rest.push(nodes.last())
        } else {
            rest
        }
    }
}

/// `w` is a route from `entry` to `target`: a walk along the edges that repeats no node.
pub open spec fn is_route(edges: Seq<Edge>, entry: Uid, target: Uid, w: Seq<Uid>) -> bool {
    &&& is_walk(edge_pairs(edges), false, w)
    &&& w[0] == entry
    &&& w.last() == target
    &&& w.no_duplicates()
}

/// One scan of breadth-first search: the edges from index `k` on that leave `x` add each
/// target not yet seen to the discovery order, with parent index `from_index`.
pub open spec fn bfs_scan(
    edges: Seq<Edge>,
    x: Uid,
    from_index: usize,
    order: Seq<Uid>,
    parent: Seq<usize>,
    k: int,
) -> (Seq<Uid>, Seq<usize>)
    decreases edges.len() - k,
{
    if k < 0 || k >= edges.len() {
        (order, parent)
    } else if edges[k].from == x && !order.contains(edges[k].to) {
        bfs_scan(edges, x, from_index, order.push(edges[k].to), parent.push(from_index), k + 1)
    } else {
        bfs_scan(edges, x, from_index, order, parent, k + 1)
    }
}

/// One round of breadth-first search on `(order, parent, next)`: unless the search has
/// run out of nodes or reached `target`, the node at `next` is expanded.
pub open spec fn bfs_advance(edges: Seq<Edge>, target: Uid, s: (Seq<Uid>, Seq<usize>, int)) -> (
    Seq<Uid>,
    Seq<usize>,
    int,
) {
    if 0 <= s.2 < s.0.len() && s.0[s.2] != target {
        let scanned = bfs_scan(edges, s.0[s.2], s.2 as usize, s.0, s.1, 0);
        (scanned.0, scanned.1, s.2 + 1)
    } else {
        s
    }
}

/// Breadth-first search from `entry` after `n` rounds: the discovery order, each node's
/// parent index, and the index of the next node to expand.
pub open spec fn bfs_state(edges: Seq<Edge>, entry: Uid, target: Uid, n: nat) -> (Seq<Uid>, Seq<usize>, int)
    decreases n,
{
    if n == 0 {
        (seq![entry], seq![0usize], 0)
    } else {
        bfs_advance(edges, target, bfs_state(edges, entry, target, (n - 1) as nat))
    }
}

/// The nodes from index `cur` of the discovery order back to the start, along the parents.
pub open spec fn walk_back(order: Seq<Uid>, parent: Seq<usize>, cur: int) -> Seq<Uid>
    decreases cur,
{
    if cur <= 0 || cur >= parent.len() || parent[cur] >= cur {
        seq![order[cur]]
    } else {
        seq![order[cur]] + walk_back(order, parent, parent[cur] as int)
    }
}

/// The route breadth-first search finds from `entry` to `target`, exploring each node's
/// edges in the order they are listed: the first discovery of `target`, traced back along
/// the parents; `None` where `target` is never reached. (Every round expands one node, so
/// as many rounds as there are edge endpoints, plus one, exhaust the search.)
pub open spec fn bfs_route(edges: Seq<Edge>, entry: Uid, target: Uid) -> Option<Seq<Uid>> {
    let s = bfs_state(edges, entry, target, (2 * edges.len() + 1) as nat);
    if 0 <= s.2 < s.0.len() && s.0[s.2] == target {
        Some(walk_back(s.0, s.1, s.2).reverse())
    } else {
        None
    }
}

proof fn lemma_bfs_settled(edges: Seq<Edge>, entry: Uid, target: Uid, n: nat, m: nat)
    requires
        n <= m,
        !(0 <= bfs_state(edges, entry, target, n).2 < bfs_state(edges, entry, target, n).0.len()
            && bfs_state(edges, entry, target, n).0[bfs_state(edges, entry, target, n).2] != target),
    ensures
        bfs_state(edges, entry, target, m) == bfs_state(edges, entry, target, n),
    decreases m - n,
{
    if m > n {
        lemma_bfs_settled(edges, entry, target, n, (m - 1) as nat);
    }
}

/// The selection is empty: the intent has no export, an end of the export names no node,
/// or the mapper output cannot be reached from the flow entry.
pub open spec fn selects_nothing(graph: Graph, intent: StandardIntent) -> bool {
    match export_for(graph.intent_exports@, intent) {
        None => true,
        Some(x) => !has_node(graph.nodes@, x.flow_entry) || !has_node(graph.nodes@, x.mapper_output) || !reaches(
            edge_pairs(graph.edges@),
            x.flow_entry,
            x.mapper_output,
        ),
    }
}

proof fn lemma_keep_nodes_same_ids(nodes: Seq<Node>, a: Seq<Uid>, b: Seq<Uid>)
    requires
        forall|x: Uid| a.contains(x) == b.contains(x),
    ensures
        keep_nodes(nodes, a) == keep_nodes(nodes, b),
    decreases nodes.len(),
{
    if nodes.len() > 0 {
        lemma_keep_nodes_same_ids(nodes.drop_last(), a, b);
    }
}

fn find_export(exports: &Vec<(StandardIntent, IntentExport)>, intent: &StandardIntent) -> (r: Option<IntentExport>)
    ensures
        r == export_for(exports@, *intent),
{
    let mut i: usize = 0;
    assert(exports@.skip(0) =~= exports@);
    while i < exports.len()
        invariant
            i <= exports@.len(),
            export_for(exports@, *intent) == export_for(exports@.skip(i as int), *intent),
        decreases exports@.len() - i,
    {
        proof {
            assert(exports@.skip(i as int)[0] == exports@[i as int]);
            assert(exports@.skip(i as int).drop_first() =~= exports@.skip(i + 1));
        }
        if exports[i].0 == *intent {
            return Some(exports[i].1);
        }
        i = i + 1;
    }
    None
}

fn node_listed(nodes: &Vec<Node>, id: Uid) -> (b: bool)
    ensures
        b == has_node(nodes@, id),
{
    let mut i: usize = 0;
    while i < nodes.len()
        invariant
            i <= nodes@.len(),
            forall|j: int| 0 <= j < i ==> nodes@[j].node_id != id,
        decreases nodes@.len() - i,
    {
        if nodes[i].node_id == id {
            assert(nodes@[i as int].node_id == id);
            return true;
        }
        i = i + 1;
    }
    false
}

/// Every endpoint of an edge, with `start` in front.
spec fn endpoints_of(edges: Seq<Edge>, start: Uid) -> Seq<Uid> {
    Seq::new(
        (2 * edges.len() + 1) as nat,
        |i: int|
            if i == 0 {
                start
            } else if i <= edges.len() {
                edges[i - 1].from
            } else {
                edges[i - 1 - edges.len()].to
            },
    )
}

proof fn lemma_distinct_within(s: Seq<Uid>, all: Seq<Uid>)
    requires
        s.no_duplicates(),
        forall|j: int| 0 <= j < s.len() ==> all.contains(#[trigger] s[j]),
    ensures
        s.len() <= all.len(),
{
    s.unique_seq_to_set();
    all.lemma_cardinality_of_set();
    assert(s.to_set().subset_of(all.to_set())) by {
        assert forall|x: Uid| s.to_set().contains(x) implies all.to_set().contains(x) by {
            let j = choose|j: int| 0 <= j < s.len() && s[j] == x;
            assert(all.contains(s[j]));
        }
    }
    vstd::set_lib::lemma_len_subset(s.to_set(), all.to_set());
}

impl GraphExecutor {
    /// Selects the nodes that run for `intent`: a route from the intent's flow entry to its
    /// declared mapper output, found breadth first along the edges, so that branches
    /// towards other mappers are left out. The nodes come back in authored order; the
    /// selection is empty where the intent has no export, an end names no node, or the
    /// mapper output cannot be reached.
    pub fn select_subgraph<'g>(&self, graph: &'g Graph, intent: &StandardIntent) -> (selected: Vec<&'g Node>)
        ensures
            selects_nothing(*graph, *intent) ==> selected@.len() == 0,
            !selects_nothing(*graph, *intent) ==> exists|w: Seq<Uid>|
                #[trigger] is_route(
                    graph.edges@,
                    export_for(graph.intent_exports@, *intent)->0.flow_entry,
                    export_for(graph.intent_exports@, *intent)->0.mapper_output,
                    w,
                ) && node_values(selected@) == keep_nodes(graph.nodes@, w),
            !selects_nothing(*graph, *intent) ==> (bfs_route(
                graph.edges@,
                export_for(graph.intent_exports@, *intent)->0.flow_entry,
                export_for(graph.intent_exports@, *intent)->0.mapper_output,
            ) matches Some(w) && node_values(selected@) == keep_nodes(graph.nodes@, w)),
    {
        let export = match find_export(&graph.intent_exports, intent) {
            Some(x) => x,
            None => {
                return Vec::new();
            },
        };
        let entry = export.flow_entry;
        let target = export.mapper_output;
        if !node_listed(&graph.nodes, entry) || !node_listed(&graph.nodes, target) {
            return Vec::new();
        }
        let edges = &graph.edges;
        let ghost pairs = edge_pairs(edges@);
        let ghost all = endpoints_of(edges@, entry);
        let mut order: Vec<Uid> = Vec::new();
        order.push(entry);
        let mut parent: Vec<usize> = Vec::new();
        parent.push(0);
        let mut i: usize = 0;
        proof {
            assert(all[0] == entry);
            assert(order@.no_duplicates());
        }
        while i < order.len() && order[i] != target
            invariant
                bfs_state(edges@, entry, target, i as nat) == (order@, parent@, i as int),
                0 < order@.len() <= all.len(),
                order@[0] == entry,
                i <= order@.len(),
                all == endpoints_of(edges@, entry),
                pairs == edge_pairs(edges@),
                order@.no_duplicates(),
                parent@.len() == order@.len(),
                forall|k: int| 0 <= k < order@.len() ==> all.contains(#[trigger] order@[k]),
                forall|k: int|
                    1 <= k < order@.len() ==> (#[trigger] parent@[k]) < k && has_edge(
                        pairs,
                        order@[parent@[k] as int],
                        order@[k],
                    ),
                forall|j: int, y: Uid| 0 <= j < i && #[trigger] step(pairs, false, order@[j], y) ==> order@.contains(y),
                forall|j: int| 0 <= j < i ==> #[trigger] order@[j] != target,
            decreases all.len() - i,
        {
            let x = order[i];
            let ghost order0 = order@;
            let ghost parent0 = parent@;
            let mut k: usize = 0;
            while k < edges.len()
                invariant
                    bfs_state(edges@, entry, target, i as nat) == (order0, parent0, i as int),
                    order0[i as int] == x,
                    i < order0.len(),
                    bfs_scan(edges@, x, i, order0, parent0, 0) == bfs_scan(edges@, x, i, order@, parent@, k as int),
                    i < order@.len() <= all.len(),
                    order@[i as int] == x,
                    x != target,
                    0 < order@.len(),
                    order@[0] == entry,
                    all == endpoints_of(edges@, entry),
                    pairs == edge_pairs(edges@),
                    k <= edges@.len(),
                    order@.no_duplicates(),
                    parent@.len() == order@.len(),
                    forall|m: int| 0 <= m < order@.len() ==> all.contains(#[trigger] order@[m]),
                    forall|m: int|
                        1 <= m < order@.len() ==> (#[trigger] parent@[m]) < m && has_edge(
                            pairs,
                            order@[parent@[m] as int],
                            order@[m],
                        ),
                    forall|j: int, y: Uid|
                        0 <= j < i && #[trigger] step(pairs, false, order@[j], y) ==> order@.contains(y),
                    forall|j: int| 0 <= j < i ==> #[trigger] order@[j] != target,
                    forall|m: int| 0 <= m < k ==> (#[trigger] edges@[m]).from == x ==> order@.contains(edges@[m].to),
                decreases edges@.len() - k,
            {
                let from = edges[k].from;
                let to = edges[k].to;
                if from == x && !vec_contains(&order, to) {
                    proof {
                        assert(pairs[k as int] == (x, to));
                        assert(has_edge(pairs, x, to));
                        assert(all[k + 1 + edges@.len()] == to);
                        assert(all.contains(to));
                    }
                    let ghost old_order = order@;
                    let ghost old_parent = parent@;
                    order.push(to);
                    parent.push(i);
                    proof {
                        assert(order@ == old_order.push(to));
                        assert(order@.no_duplicates()) by {
                            assert forall|p: int, q: int| 0 <= p < q < order@.len() implies order@[p] != order@[q] by {
                                if q == old_order.len() {
                                    assert(old_order.contains(old_order[p]));
                                }
                            }
                        }
                        assert forall|m: int|
                            1 <= m < order@.len() implies (#[trigger] parent@[m]) < m && has_edge(
                                pairs,
                                order@[parent@[m] as int],
                                order@[m],
                            ) by {
                            if m < old_order.len() {
                                assert(parent@[m] == old_parent[m]);
                                assert(order@[parent@[m] as int] == old_order[old_parent[m] as int]);
                            }
                        }
                        assert forall|j: int, y: Uid|
                            0 <= j < i && #[trigger] step(pairs, false, order@[j], y) implies order@.contains(y) by {
                            assert(order@[j] == old_order[j]);
                            assert(old_order.contains(y));
                            let t = choose|t: int| 0 <= t < old_order.len() && old_order[t] == y;
                            assert(order@[t] == y);
                        }
                        assert forall|m: int| 0 <= m < k + 1 implies (#[trigger] edges@[m]).from == x ==> order@.contains(
                            edges@[m].to,
                        ) by {
                            if m < k && edges@[m].from == x {
                                assert(old_order.contains(edges@[m].to));
                                let t = choose|t: int| 0 <= t < old_order.len() && old_order[t] == edges@[m].to;
                                assert(order@[t] == edges@[m].to);
                            }
                            if m == k {
                                assert(order@[old_order.len() as int] == to);
                            }
                        }
                        lemma_distinct_within(order@, all);
                    }
                }
                k = k + 1;
            }
            proof {
                assert forall|j: int, y: Uid| 0 <= j < i + 1 && #[trigger] step(pairs, false, order@[j], y) implies order@.contains(
                    y,
                ) by {
                    if j == i {
                        let m = choose|m: int| 0 <= m < pairs.len() && pairs[m] == (x, y);
                        assert(pairs[m] == (edges@[m].from, edges@[m].to));
                        assert(edges@[m].from == x);
                    }
                }
            }
            i = i + 1;
        }
        if i == order.len() {
            proof {
                if reaches(pairs, entry, target) {
                    assert(order@.contains(order@[0]));
                    assert forall|p: Uid, y: Uid| order@.contains(p) && #[trigger] step(pairs, false, p, y) implies order@.contains(
                        y,
                    ) by {
                        let j = choose|j: int| 0 <= j < order@.len() && order@[j] == p;
                        assert(step(pairs, false, order@[j], y));
                    }
                    lemma_closed_holds_reachable(pairs, false, order@, entry, target);
                    let j = choose|j: int| 0 <= j < order@.len() && order@[j] == target;
                    assert(order@[j] != target);
                }
            }
            return Vec::new();
        }
        proof {
            assert(all.len() == 2 * edges@.len() + 1);
            lemma_bfs_settled(edges@, entry, target, i as nat, (2 * edges@.len() + 1) as nat);
        }
        // Walk back from the mapper output to the flow entry along the recorded parents.
        let mut cur: usize = i;
        let mut path: Vec<Uid> = Vec::new();
        path.push(order[cur]);
        let ghost mut idxs: Seq<int> = seq![cur as int];
        proof {
            assert(is_walk(pairs, true, path@));
        }
        while cur != 0
            invariant
                cur < order@.len(),
                parent@.len() == order@.len(),
                order@.no_duplicates(),
                order@[0] == entry,
                order@[i as int] == target,
                i < order@.len(),
                pairs == edge_pairs(edges@),
                forall|m: int|
                    1 <= m < order@.len() ==> (#[trigger] parent@[m]) < m && has_edge(
                        pairs,
                        order@[parent@[m] as int],
                        order@[m],
                    ),
                is_walk(pairs, true, path@),
                path@[0] == target,
                path@.last() == order@[cur as int],
                idxs.len() == path@.len(),
                forall|t: int| 0 <= t < idxs.len() ==> 0 <= #[trigger] idxs[t] < order@.len() && path@[t] == order@[idxs[t]],
                forall|s: int, t: int| 0 <= s < t < idxs.len() ==> #[trigger] idxs[s] > #[trigger] idxs[t],
                idxs.last() == cur,
                walk_back(order@, parent@, i as int) == path@.drop_last() + walk_back(order@, parent@, cur as int),
            decreases cur,
        {
            let p = parent[cur];
            proof {
                assert(p < cur);
                assert(has_edge(pairs, order@[p as int], order@[cur as int]));
                assert(step(pairs, true, path@.last(), order@[p as int]));
                crate::graph_reach::lemma_walk_push(pairs, true, path@, order@[p as int]);
            }
            let ghost old_path = path@;
            let ghost old_cur = cur as int;
            cur = p;
            path.push(order[cur]);
            proof {
                idxs = idxs.push(cur as int);
                assert(walk_back(order@, parent@, old_cur) == seq![order@[old_cur]] + walk_back(
                    order@,
                    parent@,
                    cur as int,
                ));
                assert(path@.drop_last() =~= old_path.drop_last() + seq![order@[old_cur]]);
                assert(path@.drop_last() + walk_back(order@, parent@, cur as int) =~= old_path.drop_last() + walk_back(
                    order@,
                    parent@,
                    old_cur,
                ));
            }
        }
        let ghost w = path@.reverse();
        proof {
            assert(walk_back(order@, parent@, 0) == seq![order@[0]]);
            assert(path@ =~= path@.drop_last() + seq![order@[0]]);
            assert(walk_back(order@, parent@, i as int) == path@);
            assert forall|s: int, t: int| 0 <= s < t < path@.len() implies path@[s] != path@[t] by {
                assert(idxs[s] > idxs[t]);
                assert(order@[idxs[s]] != order@[idxs[t]]);
            }
            lemma_walk_reverse(pairs, true, path@);
            assert(path@.last() == entry);
            assert forall|s: int, t: int| 0 <= s < t < w.len() implies w[s] != w[t] by {
                assert(w[s] == path@[path@.len() - 1 - s]);
                assert(w[t] == path@[path@.len() - 1 - t]);
            }
            assert(w.no_duplicates());
            assert forall|y: Uid| path@.contains(y) == w.contains(y) by {
                if path@.contains(y) {
                    let t = choose|t: int| 0 <= t < path@.len() && path@[t] == y;
                    assert(w[path@.len() - 1 - t] == y);
                }
                if w.contains(y) {
                    let t = choose|t: int| 0 <= t < w.len() && w[t] == y;
                    assert(path@[path@.len() - 1 - t] == y);
                }
            }
            lemma_keep_nodes_same_ids(graph.nodes@, path@, w);
            assert(is_route(graph.edges@, entry, target, w));
        }
        let mut selected: Vec<&'g Node> = Vec::new();
        let mut j: usize = 0;
        assert(graph.nodes@.take(0) =~= Seq::<Node>::empty());
        assert(node_values(selected@) =~= Seq::<Node>::empty());
        while j < graph.nodes.len()
            invariant
                j <= graph.nodes@.len(),
                node_values(selected@) == keep_nodes(graph.nodes@.take(j as int), path@),
            decreases graph.nodes@.len() - j,
        {
            let n = &graph.nodes[j];
            let ghost before = selected@;
            proof {
                assert(graph.nodes@.take(j + 1).drop_last() =~= graph.nodes@.take(j as int));
                assert(graph.nodes@.take(j + 1).last() == graph.nodes@[j as int]);
            }
            if vec_contains(&path, n.node_id) {
                selected.push(n);
                assert(node_values(selected@) =~= node_values(before).push(*n));
            }
            j = j + 1;
        }
        assert(graph.nodes@.take(graph.nodes@.len() as int) =~= graph.nodes@);
        selected
    }
}

} // verus!

//! The execution path of an intent: the unique route from the intent's entry node to its
//! mapper node through an immutable plan's edges.

use vstd::prelude::*;

use crate::graph_reach::{
    has_edge, is_walk, lemma_reaches_reverse, lemma_reaches_self, reach_set, reaches, step,
    vec_contains, Uid,
};

verus! {

/// `x` lies on some route from `entry` to `mapper`.
#[verifier::opaque]
pub open spec fn selected(edges: Seq<(Uid, Uid)>, entry: Uid, mapper: Uid, x: Uid) -> bool {
    reaches(edges, entry, x) && reaches(edges, x, mapper)
}

/// Edge `i` joins two selected nodes.
pub open spec fn selected_edge(edges: Seq<(Uid, Uid)>, entry: Uid, mapper: Uid, i: int) -> bool {
    selected(edges, entry, mapper, edges[i].0) && selected(edges, entry, mapper, edges[i].1)
}

/// Two selected edges lead into the same node other than the entry.
pub open spec fn has_two_upstreams(edges: Seq<(Uid, Uid)>, entry: Uid, mapper: Uid) -> bool {
    exists|i: int, j: int|
        0 <= i < j < edges.len() && selected_edge(edges, entry, mapper, i) && selected_edge(
            edges,
            entry,
            mapper,
            j,
        ) && #[trigger] edges[i].1 == #[trigger] edges[j].1 && edges[i].1 != entry
}

/// A selected edge leads into the entry.
pub open spec fn entry_has_upstream(edges: Seq<(Uid, Uid)>, entry: Uid, mapper: Uid) -> bool {
    exists|i: int|
        0 <= i < edges.len() && selected_edge(edges, entry, mapper, i) && #[trigger] edges[i].1
            == entry
}

/// Node `x` is the target of a selected edge.
pub open spec fn has_selected_upstream(edges: Seq<(Uid, Uid)>, entry: Uid, mapper: Uid, x: Uid) -> bool {
    exists|i: int|
        0 <= i < edges.len() && selected_edge(edges, entry, mapper, i) && #[trigger] edges[i].1 == x
}

/// Some selected node other than the entry is the target of no selected edge.
pub open spec fn lacks_upstream(edges: Seq<(Uid, Uid)>, entry: Uid, mapper: Uid) -> bool {
    exists|x: Uid|
        #[trigger] selected(edges, entry, mapper, x) && x != entry && !has_selected_upstream(
            edges,
            entry,
            mapper,
            x,
        )
}

/// Why an intent's route through a plan is not a single path.
#[derive(Debug, Clone, Copy, PartialEq, Eq, Structural)]
pub enum PathDefect {
    /// The entry cannot reach the mapper.
    EntryCannotReachMapper,
    /// A node on the route has more than one upstream input.
    MultipleUpstreams,
    /// The entry has an upstream dependency on the route.
    EntryHasUpstream,
    /// A node on the route lacks an upstream input.
    MissingUpstream,
}

/// A validated route: the nodes in execution order, and each non-entry node's input node
/// as `(node, upstream)` pairs.
pub struct ExecutionPath {
    /// Nodes from the entry to the mapper, in execution order.
    pub node_ids: Vec<Uid>,
    /// `(node, upstream)` for every node on the route other than the entry.
    pub predecessors: Vec<(Uid, Uid)>,
}

/// Edge `m` as a `(node, upstream)` record: its target, then its source.
pub open spec fn upstream_record(edges: Seq<(Uid, Uid)>, m: int) -> (Uid, Uid) {
    (edges[m].1, edges[m].0)
}

/// `r` is the record of one of the first `bound` edges that is selected and leads into a node
/// other than the entry.
pub open spec fn is_upstream_record(
    edges: Seq<(Uid, Uid)>,
    entry: Uid,
    mapper: Uid,
    r: (Uid, Uid),
    bound: int,
) -> bool {
    exists|m: int|
        0 <= m < bound && selected_edge(edges, entry, mapper, m) && edges[m].1 != entry && r
            == #[trigger] upstream_record(edges, m)
}

/// The `(node, upstream)` list holds exactly the records of the selected edges into
/// non-entry nodes, and names each node once.
pub open spec fn predecessors_exact(
    edges: Seq<(Uid, Uid)>,
    entry: Uid,
    mapper: Uid,
    preds: Seq<(Uid, Uid)>,
) -> bool {
    &&& forall|r: (Uid, Uid)|
        #[trigger] preds.contains(r) <==> is_upstream_record(edges, entry, mapper, r, edges.len() as int)
    &&& forall|p: int, q: int| 0 <= p < q < preds.len() ==> #[trigger] preds[p].0 != #[trigger] preds[q].0
}

/// What the route check decides: the first defect found, in this order, or success.
pub open spec fn path_outcome(edges: Seq<(Uid, Uid)>, entry: Uid, mapper: Uid) -> Result<(), PathDefect> {
    if !reaches(edges, entry, mapper) {
        Err(PathDefect::EntryCannotReachMapper)
    } else if has_two_upstreams(edges, entry, mapper) {
        Err(PathDefect::MultipleUpstreams)
    } else if entry_has_upstream(edges, entry, mapper) {
        Err(PathDefect::EntryHasUpstream)
    } else if lacks_upstream(edges, entry, mapper) {
        Err(PathDefect::MissingUpstream)
    } else {
        Ok(())
    }
}

/// `path` is the route: a walk from the entry to the mapper whose upstream list is exact
/// and names each node's predecessor on the walk.
pub open spec fn is_execution_path(edges: Seq<(Uid, Uid)>, entry: Uid, mapper: Uid, path: ExecutionPath) -> bool {
    &&& is_walk(edges, false, path.node_ids@)
    &&& path.node_ids@[0] == entry
    &&& path.node_ids@.last() == mapper
    &&& predecessors_exact(edges, entry, mapper, path.predecessors@)
    &&& forall|k: int|
        0 < k < path.node_ids@.len() ==> path.predecessors@.contains(
            (#[trigger] path.node_ids@[k], path.node_ids@[k - 1]),
        )
}

proof fn lemma_walk_nodes_selected(edges: Seq<(Uid, Uid)>, w: Seq<Uid>, k: int)
    requires
        is_walk(edges, false, w),
        0 <= k < w.len(),
    ensures
        reaches(edges, w[0], w[k]),
        reaches(edges, w[k], w.last()),
{
    let pre = w.take(k + 1);
    assert forall|j: int| 0 <= j < pre.len() - 1 implies #[trigger] step(edges, false, pre[j], pre[j + 1]) by {
        assert(step(edges, false, w[j], w[j + 1]));
    }
    assert(is_walk(edges, false, pre));
    let suf = w.skip(k);
    assert forall|j: int| 0 <= j < suf.len() - 1 implies #[trigger] step(edges, false, suf[j], suf[j + 1]) by {
        let t = j + k;
        assert(step(edges, false, w[t], w[t + 1]));
    }
    assert(is_walk(edges, false, suf));
}

/// Each step of a walk from the entry to the mapper is a selected edge.
proof fn lemma_walk_edge_selected(
    es: Seq<(Uid, Uid)>,
    entry: Uid,
    mapper: Uid,
    w: Seq<Uid>,
    j: int,
) -> (e: int)
    requires
        is_walk(es, false, w),
        w[0] == entry,
        w.last() == mapper,
        0 <= j < w.len() - 1,
    ensures
        0 <= e < es.len(),
        es[e] == (w[j], w[j + 1]),
        selected_edge(es, entry, mapper, e),
{
    reveal(selected);
    assert(step(es, false, w[j], w[j + 1]));
    let e = choose|e: int| 0 <= e < es.len() && es[e] == (w[j], w[j + 1]);
    lemma_walk_nodes_selected(es, w, j);
    lemma_walk_nodes_selected(es, w, j + 1);
    e
}

/// The list holds exactly the records of the qualifying edges among the first `k`.
#[verifier::opaque]
spec fn rec_exact(es: Seq<(Uid, Uid)>, entry: Uid, mapper: Uid, preds: Seq<(Uid, Uid)>, k: int) -> bool {
    forall|r: (Uid, Uid)| #[trigger] preds.contains(r) <==> is_upstream_record(es, entry, mapper, r, k)
}

/// No node is recorded twice.
#[verifier::opaque]
spec fn keys_distinct(preds: Seq<(Uid, Uid)>) -> bool {
    forall|p: int, q: int| 0 <= p < q < preds.len() ==> #[trigger] preds[p].0 != #[trigger] preds[q].0
}

/// Among the first `k` edges, two selected edges into one node only lead into the entry.
#[verifier::opaque]
spec fn single_upstream_before(es: Seq<(Uid, Uid)>, entry: Uid, mapper: Uid, k: int) -> bool {
    forall|i: int, j: int|
        0 <= i < j < k && selected_edge(es, entry, mapper, i) && selected_edge(es, entry, mapper, j)
            && #[trigger] es[i].1 == #[trigger] es[j].1 ==> es[i].1 == entry
}

/// What the edge scan has established after looking at the first `k` edges.
spec fn scan_inv(es: Seq<(Uid, Uid)>, entry: Uid, mapper: Uid, preds: Seq<(Uid, Uid)>, k: int) -> bool {
    &&& rec_exact(es, entry, mapper, preds, k)
    &&& keys_distinct(preds)
    &&& single_upstream_before(es, entry, mapper, k)
}

/// One of the first `k` edges is a selected edge into the entry.
spec fn entry_fed_before(es: Seq<(Uid, Uid)>, entry: Uid, mapper: Uid, k: int) -> bool {
    exists|m: int| 0 <= m < k && selected_edge(es, entry, mapper, m) && #[trigger] es[m].1 == entry
}

/// The recorded upstream list is exact.
spec fn preds_ok(es: Seq<(Uid, Uid)>, entry: Uid, mapper: Uid, preds: Seq<(Uid, Uid)>) -> bool {
    &&& rec_exact(es, entry, mapper, preds, es.len() as int)
    &&& keys_distinct(preds)
}

proof fn lemma_scan_start(es: Seq<(Uid, Uid)>, entry: Uid, mapper: Uid)
    ensures
        scan_inv(es, entry, mapper, Seq::empty(), 0),
        !entry_fed_before(es, entry, mapper, 0),
{
    reveal(rec_exact);
    reveal(keys_distinct);
    reveal(single_upstream_before);
}

proof fn lemma_entry_fed_step(es: Seq<(Uid, Uid)>, entry: Uid, mapper: Uid, k: int)
    requires
        0 <= k < es.len(),
    ensures
        entry_fed_before(es, entry, mapper, k + 1) == (entry_fed_before(es, entry, mapper, k) || (
        selected_edge(es, entry, mapper, k) && es[k].1 == entry)),
{
    if entry_fed_before(es, entry, mapper, k + 1) {
        let m = choose|m: int| 0 <= m < k + 1 && selected_edge(es, entry, mapper, m) && #[trigger] es[m].1 == entry;
        if m < k {
            assert(entry_fed_before(es, entry, mapper, k));
        }
    }
    if entry_fed_before(es, entry, mapper, k) {
        let m = choose|m: int| 0 <= m < k && selected_edge(es, entry, mapper, m) && #[trigger] es[m].1 == entry;
        assert(entry_fed_before(es, entry, mapper, k + 1));
    }
    if selected_edge(es, entry, mapper, k) && es[k].1 == entry {
        assert(entry_fed_before(es, entry, mapper, k + 1));
    }
}

/// Widening the bound by one edge adds that edge's record, if it qualifies.
proof fn lemma_record_widen(es: Seq<(Uid, Uid)>, entry: Uid, mapper: Uid, r: (Uid, Uid), k: int)
    requires
        0 <= k,
    ensures
        is_upstream_record(es, entry, mapper, r, k + 1) <==> (is_upstream_record(es, entry, mapper, r, k)
            || (selected_edge(es, entry, mapper, k) && es[k].1 != entry && r == upstream_record(es, k))),
{
    if is_upstream_record(es, entry, mapper, r, k + 1) {
        let m = choose|m: int|
            0 <= m < k + 1 && selected_edge(es, entry, mapper, m) && es[m].1 != entry && r
                == #[trigger] upstream_record(es, m);
        if m < k {
            assert(is_upstream_record(es, entry, mapper, r, k));
        }
    }
    if is_upstream_record(es, entry, mapper, r, k) {
        let m = choose|m: int|
            0 <= m < k && selected_edge(es, entry, mapper, m) && es[m].1 != entry && r
                == #[trigger] upstream_record(es, m);
        assert(is_upstream_record(es, entry, mapper, r, k + 1));
    }
    if selected_edge(es, entry, mapper, k) && es[k].1 != entry && r == upstream_record(es, k) {
        assert(is_upstream_record(es, entry, mapper, r, k + 1));
    }
}

/// An edge that is not selected, or that leads into the entry, records nothing.
proof fn lemma_scan_skip(es: Seq<(Uid, Uid)>, entry: Uid, mapper: Uid, preds: Seq<(Uid, Uid)>, k: int)
    requires
        0 <= k < es.len(),
        scan_inv(es, entry, mapper, preds, k),
        !selected_edge(es, entry, mapper, k) || es[k].1 == entry,
    ensures
        scan_inv(es, entry, mapper, preds, k + 1),
{
    assert(rec_exact(es, entry, mapper, preds, k + 1)) by {
        reveal(rec_exact);
        assert forall|r: (Uid, Uid)| #[trigger] preds.contains(r) <==> is_upstream_record(es, entry, mapper, r, k + 1) by {
            lemma_record_widen(es, entry, mapper, r, k);
        }
    }
    assert(single_upstream_before(es, entry, mapper, k + 1)) by {
        reveal(single_upstream_before);
    }
}

/// A selected edge into a node with no recorded upstream is recorded.
proof fn lemma_scan_push(es: Seq<(Uid, Uid)>, entry: Uid, mapper: Uid, preds: Seq<(Uid, Uid)>, k: int)
    requires
        0 <= k < es.len(),
        scan_inv(es, entry, mapper, preds, k),
        selected_edge(es, entry, mapper, k),
        es[k].1 != entry,
        forall|p: int| 0 <= p < preds.len() ==> preds[p].0 != es[k].1,
    ensures
        scan_inv(es, entry, mapper, preds.push(upstream_record(es, k)), k + 1),
{
    let np = preds.push(upstream_record(es, k));
    assert(rec_exact(es, entry, mapper, np, k + 1)) by {
        reveal(rec_exact);
        assert forall|r: (Uid, Uid)| #[trigger] np.contains(r) <==> is_upstream_record(es, entry, mapper, r, k + 1) by {
            lemma_record_widen(es, entry, mapper, r, k);
            vstd::seq_lib::lemma_seq_contains_after_push(preds, upstream_record(es, k), r);
            assert(preds.contains(r) <==> is_upstream_record(es, entry, mapper, r, k));
        }
    }
    assert(keys_distinct(np)) by {
        reveal(keys_distinct);
        assert forall|p: int, q: int| 0 <= p < q < np.len() implies #[trigger] np[p].0 != #[trigger] np[q].0 by {
            if q == preds.len() {
                assert(np[p] == preds[p]);
            } else {
                assert(np[p] == preds[p] && np[q] == preds[q]);
            }
        }
    }
    assert(single_upstream_before(es, entry, mapper, k + 1)) by {
        reveal(single_upstream_before);
        assert forall|i: int, j: int|
            0 <= i < j < k + 1 && selected_edge(es, entry, mapper, i) && selected_edge(es, entry, mapper, j)
                && #[trigger] es[i].1 == #[trigger] es[j].1 implies es[i].1 == entry by {
            if j == k && es[i].1 != entry {
                reveal(rec_exact);
                assert(is_upstream_record(es, entry, mapper, upstream_record(es, i), k));
                assert(preds.contains(upstream_record(es, i)));
                let p = choose|p: int| 0 <= p < preds.len() && preds[p] == upstream_record(es, i);
                assert(preds[p].0 == es[k].1);
            }
        }
    }
}

/// A selected edge into a node that already has a recorded upstream is a second upstream.
proof fn lemma_scan_dup(
    es: Seq<(Uid, Uid)>,
    entry: Uid,
    mapper: Uid,
    preds: Seq<(Uid, Uid)>,
    k: int,
    p: int,
)
    requires
        0 <= k < es.len(),
        rec_exact(es, entry, mapper, preds, k),
        selected_edge(es, entry, mapper, k),
        es[k].1 != entry,
        0 <= p < preds.len(),
        preds[p].0 == es[k].1,
    ensures
        has_two_upstreams(es, entry, mapper),
{
    reveal(rec_exact);
    assert(preds.contains(preds[p]));
    let m = choose|m: int|
        0 <= m < k && selected_edge(es, entry, mapper, m) && es[m].1 != entry && preds[p]
            == #[trigger] upstream_record(es, m);
    assert(es[m].1 == es[k].1);
}

/// After the whole scan: no node has two upstreams and the list is exact.
proof fn lemma_scan_done(es: Seq<(Uid, Uid)>, entry: Uid, mapper: Uid, preds: Seq<(Uid, Uid)>)
    requires
        scan_inv(es, entry, mapper, preds, es.len() as int),
    ensures
        !has_two_upstreams(es, entry, mapper),
        preds_ok(es, entry, mapper, preds),
{
    reveal(single_upstream_before);
}

/// The exact list, stated in the open form of the public contract.
proof fn lemma_preds_exact(es: Seq<(Uid, Uid)>, entry: Uid, mapper: Uid, preds: Seq<(Uid, Uid)>)
    requires
        preds_ok(es, entry, mapper, preds),
    ensures
        predecessors_exact(es, entry, mapper, preds),
{
    reveal(rec_exact);
    reveal(keys_distinct);
}

/// With an exact upstream list, a non-entry node has a selected upstream exactly when the
/// list has an entry for it.
proof fn lemma_key_upstream(
    es: Seq<(Uid, Uid)>,
    entry: Uid,
    mapper: Uid,
    preds: Seq<(Uid, Uid)>,
    x: Uid,
)
    requires
        preds_ok(es, entry, mapper, preds),
        x != entry,
    ensures
        has_selected_upstream(es, entry, mapper, x) <==> exists|p: int| 0 <= p < preds.len() && #[trigger] preds[p].0 == x,
{
    reveal(rec_exact);
    if has_selected_upstream(es, entry, mapper, x) {
        let m = choose|m: int| 0 <= m < es.len() && selected_edge(es, entry, mapper, m) && #[trigger] es[m].1 == x;
        assert(is_upstream_record(es, entry, mapper, upstream_record(es, m), es.len() as int));
        assert(preds.contains(upstream_record(es, m)));
        let p = choose|p: int| 0 <= p < preds.len() && preds[p] == upstream_record(es, m);
        assert(preds[p].0 == x);
    }
    if exists|p: int| 0 <= p < preds.len() && #[trigger] preds[p].0 == x {
        let p = choose|p: int| 0 <= p < preds.len() && #[trigger] preds[p].0 == x;
        assert(preds.contains(preds[p]));
        let m = choose|m: int|
            0 <= m < es.len() && selected_edge(es, entry, mapper, m) && es[m].1 != entry && preds[p]
                == #[trigger] upstream_record(es, m);
        assert(es[m].1 == x);
    }
}

/// On a walk from the entry to the mapper, each node after the first is not the entry, has a
/// recorded upstream, and every record for it names the walk's previous node.
proof fn lemma_walk_back_step(
    es: Seq<(Uid, Uid)>,
    entry: Uid,
    mapper: Uid,
    preds: Seq<(Uid, Uid)>,
    w: Seq<Uid>,
    k: int,
)
    requires
        preds_ok(es, entry, mapper, preds),
        !has_two_upstreams(es, entry, mapper),
        !entry_has_upstream(es, entry, mapper),
        is_walk(es, false, w),
        w[0] == entry,
        w.last() == mapper,
        0 < k < w.len(),
    ensures
        w[k] != entry,
        exists|p: int| 0 <= p < preds.len() && #[trigger] preds[p].0 == w[k],
        forall|p: int| 0 <= p < preds.len() && #[trigger] preds[p].0 == w[k] ==> preds[p].1 == w[k - 1],
        preds.contains((w[k], w[k - 1])),
{
    reveal(rec_exact);
    let e = lemma_walk_edge_selected(es, entry, mapper, w, k - 1);
    if es[e].1 == entry {
        assert(entry_has_upstream(es, entry, mapper));
    }
    assert(is_upstream_record(es, entry, mapper, upstream_record(es, e), es.len() as int));
    assert(preds.contains(upstream_record(es, e)));
    let p0 = choose|p: int| 0 <= p < preds.len() && preds[p] == upstream_record(es, e);
    assert(preds[p0].0 == w[k]);
    assert forall|p: int| 0 <= p < preds.len() && #[trigger] preds[p].0 == w[k] implies preds[p].1 == w[k - 1] by {
        assert(preds.contains(preds[p]));
        let m2 = choose|m2: int|
            0 <= m2 < es.len() && selected_edge(es, entry, mapper, m2) && es[m2].1 != entry && preds[p]
                == #[trigger] upstream_record(es, m2);
        if m2 != e {
            if m2 < e {
                assert(es[m2].1 == es[e].1);
            } else {
                assert(es[e].1 == es[m2].1);
            }
            assert(has_two_upstreams(es, entry, mapper));
        }
    }
    assert(preds[p0] == (w[k], w[k - 1]));
}

/// A walk from the entry to the mapper that comes back to the entry after its start would
/// give the entry a selected upstream.
proof fn lemma_walk_entry_only_first(es: Seq<(Uid, Uid)>, entry: Uid, mapper: Uid, w: Seq<Uid>, k: int)
    requires
        !entry_has_upstream(es, entry, mapper),
        is_walk(es, false, w),
        w[0] == entry,
        w.last() == mapper,
        0 <= k < w.len(),
        w[k] == entry,
    ensures
        k == 0,
{
    if k > 0 {
        let e = lemma_walk_edge_selected(es, entry, mapper, w, k - 1);
        assert(entry_has_upstream(es, entry, mapper));
    }
}

fn is_selected(fwd: &Vec<Uid>, back: &Vec<Uid>, x: Uid, Ghost(edges): Ghost<Seq<(Uid, Uid)>>, Ghost(entry): Ghost<Uid>, Ghost(mapper): Ghost<Uid>) -> (b: bool)
    requires
        forall|y: Uid| fwd@.contains(y) <==> reaches(edges, entry, y),
        forall|y: Uid| back@.contains(y) <==> crate::graph_reach::reaches_dir(edges, true, mapper, y),
    ensures
        b == selected(edges, entry, mapper, x),
{
    proof {
        reveal(selected);
        lemma_reaches_reverse(edges, mapper, x);
    }
    vec_contains(fwd, x) && vec_contains(back, x)
}

fn find_key(preds: &Vec<(Uid, Uid)>, key: Uid) -> (r: Option<usize>)
    ensures
        match r {
            Some(p) => p < preds@.len() && preds@[p as int].0 == key,
            None => forall|p: int| 0 <= p < preds@.len() ==> preds@[p].0 != key,
        },
{
    let mut p: usize = 0;
    while p < preds.len()
        invariant
            p <= preds@.len(),
            forall|q: int| 0 <= q < p ==> preds@[q].0 != key,
        decreases preds@.len() - p,
    {
        if preds[p].0 == key {
            return Some(p);
        }
        p = p + 1;
    }
    None
}

/// `x` is a selected non-entry node that is the target of no selected edge.
spec fn lacking(es: Seq<(Uid, Uid)>, entry: Uid, mapper: Uid, x: Uid) -> bool {
    selected(es, entry, mapper, x) && x != entry && !has_selected_upstream(es, entry, mapper, x)
}

/// The route that an intent runs: from `entry` through the edges to `mapper`.
///
/// Nodes on the route are those that the entry reaches and that reach the mapper. The route
/// is accepted when the mapper is reachable, every route node but the entry has exactly one
/// upstream on the route and the entry has none; it is then returned as the single walk
/// from the entry to the mapper.
pub fn execution_path_between(edges: &Vec<(Uid, Uid)>, entry: Uid, mapper: Uid) -> (result: Result<
    ExecutionPath,
    PathDefect,
>)
    ensures
        match result {
            Ok(path) => path_outcome(edges@, entry, mapper) is Ok && is_execution_path(edges@, entry, mapper, path),
            Err(d) => path_outcome(edges@, entry, mapper) == Err::<(), PathDefect>(d),
        },
{
    let ghost es = edges@;
    let fwd = reach_set(edges, entry, false);
    let back = reach_set(edges, mapper, true);
    proof {
        lemma_reaches_reverse(es, mapper, entry);
    }
    if !vec_contains(&back, entry) {
        return Err(PathDefect::EntryCannotReachMapper);
    }
    let mut preds: Vec<(Uid, Uid)> = Vec::new();
    let mut entry_in = false;
    let mut k: usize = 0;
    proof {
        lemma_scan_start(es, entry, mapper);
        assert(preds@ =~= Seq::<(Uid, Uid)>::empty());
    }
    while k < edges.len()
        invariant
            es == edges@,
            reaches(es, entry, mapper),
            k <= es.len(),
            forall|y: Uid| fwd@.contains(y) <==> reaches(es, entry, y),
            forall|y: Uid| back@.contains(y) <==> crate::graph_reach::reaches_dir(es, true, mapper, y),
            scan_inv(es, entry, mapper, preds@, k as int),
            entry_in == entry_fed_before(es, entry, mapper, k as int),
        decreases es.len() - k,
    {
        let (from, to) = edges[k];
        let sel = is_selected(&fwd, &back, from, Ghost(es), Ghost(entry), Ghost(mapper)) && is_selected(&fwd, &back, to, Ghost(es), Ghost(entry), Ghost(mapper));
        proof {
            assert(es[k as int] == (from, to));
            assert(sel == selected_edge(es, entry, mapper, k as int));
            lemma_entry_fed_step(es, entry, mapper, k as int);
        }
        if sel && to != entry {
            match find_key(&preds, to) {
                Some(p) => {
                    proof {
                        lemma_scan_dup(es, entry, mapper, preds@, k as int, p as int);
                    }
                    return Err(PathDefect::MultipleUpstreams);
                },
                None => {
                    let ghost old_preds = preds@;
                    proof {
                        lemma_scan_push(es, entry, mapper, preds@, k as int);
                    }
                    preds.push((to, from));
                    proof {
                        assert(preds@ == old_preds.push(upstream_record(es, k as int)));
                    }
                },
            }
        } else {
            proof {
                lemma_scan_skip(es, entry, mapper, preds@, k as int);
            }
            if sel {
                entry_in = true;
            }
        }
        k = k + 1;
    }
    proof {
        lemma_scan_done(es, entry, mapper, preds@);
        assert(entry_in == entry_has_upstream(es, entry, mapper));
    }
    if entry_in {
        return Err(PathDefect::EntryHasUpstream);
    }
    let mut i: usize = 0;
    while i < fwd.len()
        invariant
            es == edges@,
            reaches(es, entry, mapper),
            !has_two_upstreams(es, entry, mapper),
            !entry_has_upstream(es, entry, mapper),
            i <= fwd@.len(),
            forall|y: Uid| fwd@.contains(y) <==> reaches(es, entry, y),
            forall|y: Uid| back@.contains(y) <==> crate::graph_reach::reaches_dir(es, true, mapper, y),
            preds_ok(es, entry, mapper, preds@),
            forall|j: int| 0 <= j < i ==> !lacking(es, entry, mapper, #[trigger] fwd@[j]),
        decreases fwd@.len() - i,
    {
        let x = fwd[i];
        if x != entry && is_selected(&fwd, &back, x, Ghost(es), Ghost(entry), Ghost(mapper)) {
            proof {
                lemma_key_upstream(es, entry, mapper, preds@, x);
            }
            match find_key(&preds, x) {
                Some(p) => {},
                None => {
                    proof {
                        assert(lacking(es, entry, mapper, x));
                        assert(lacks_upstream(es, entry, mapper));
                    }
                    return Err(PathDefect::MissingUpstream);
                },
            }
        }
        i = i + 1;
    }
    proof {
        assert(!lacks_upstream(es, entry, mapper)) by {
            if lacks_upstream(es, entry, mapper) {
                let x = choose|x: Uid| #[trigger] selected(es, entry, mapper, x) && x != entry && !has_selected_upstream(es, entry, mapper, x);
                reveal(selected);
                assert(fwd@.contains(x));
                let j = choose|j: int| 0 <= j < fwd@.len() && fwd@[j] == x;
                assert(!lacking(es, entry, mapper, fwd@[j]));
            }
        }
    }
    // Walk back from the mapper along the unique upstream of each node.
    let ghost w = choose|w: Seq<Uid>| #[trigger] is_walk(es, false, w) && w[0] == entry && w.last() == mapper;
    let ghost mut m: int = w.len() - 1;
    let mut cur = mapper;
    let mut back_path: Vec<Uid> = Vec::new();
    back_path.push(mapper);
    proof {
        assert(back_path@ =~= w.subrange(m, w.len() as int).reverse());
    }
    while cur != entry
        invariant
            es == edges@,
            is_walk(es, false, w),
            w[0] == entry,
            w.last() == mapper,
            0 <= m < w.len(),
            cur == w[m],
            back_path@ == w.subrange(m, w.len() as int).reverse(),
            preds_ok(es, entry, mapper, preds@),
            !has_two_upstreams(es, entry, mapper),
            !entry_has_upstream(es, entry, mapper),
        decreases m,
    {
        proof {
            lemma_walk_back_step(es, entry, mapper, preds@, w, m);
        }
        let found = find_key(&preds, cur);
        let p = match found {
            Some(p) => p,
            None => {
                return Err(PathDefect::MissingUpstream);
            },
        };
        let up = preds[p].1;
        back_path.push(up);
        cur = up;
        proof {
            m = m - 1;
            assert(back_path@ =~= w.subrange(m, w.len() as int).reverse());
        }
    }
    proof {
        lemma_walk_entry_only_first(es, entry, mapper, w, m);
        assert(w.subrange(0, w.len() as int) =~= w);
    }
    let mut node_ids: Vec<Uid> = Vec::new();
    let n = back_path.len();
    let mut t: usize = 0;
    while t < n
        invariant
            n == back_path@.len(),
            back_path@ == w.reverse(),
            t <= n,
            node_ids@ == w.subrange(0, t as int),
        decreases n - t,
    {
        node_ids.push(back_path[n - 1 - t]);
        t = t + 1;
    }
    proof {
        assert(node_ids@ =~= w);
        assert forall|k2: int| 0 < k2 < w.len() implies preds@.contains((#[trigger] w[k2], w[k2 - 1])) by {
            lemma_walk_back_step(es, entry, mapper, preds@, w, k2);
        }
        lemma_preds_exact(es, entry, mapper, preds@);
    }
    Ok(ExecutionPath { node_ids, predecessors: preds })
}

} // verus!

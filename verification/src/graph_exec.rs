//! The flow-graph executor's ordering rule: selected nodes are processed in an order where
//! every node comes after the selected nodes that feed it.

use vstd::prelude::*;

use crate::graph_reach::Uid;
use crate::model::FlowNodeKind;
use crate::policy::PolicyCapabilities;

verus! {

/// A node of an authored flow graph.
#[derive(Debug, Clone, Copy, PartialEq, Eq, Structural)]
pub struct Node {
    /// Node identifier.
    pub node_id: Uid,
    /// Node kind.
    pub kind: FlowNodeKind,
}

/// A directed edge of an authored flow graph.
#[derive(Debug, Clone, Copy, PartialEq, Eq, Structural)]
pub struct Edge {
    /// Source node.
    pub from: Uid,
    /// Target node.
    pub to: Uid,
}

/// State shared by the nodes of one graph run.
#[derive(Debug, Clone, PartialEq, Eq)]
pub struct ExecutionContext {
    /// Cookie jar shared within the origin, as `(name, value)` pairs.
    pub cookies: Vec<(String, String)>,
    /// Policy capabilities: the install grant or sandbox boundary.
    pub caps: PolicyCapabilities,
    /// Trace of the run.
    pub trace_id: String,
    /// Base URL of the source, for resolving relative paths.
    pub base_url: String,
}

/// The flow-graph executor.
#[derive(Debug, Clone, Copy, PartialEq, Eq, Structural)]
pub struct GraphExecutor;

/// Node `i` has an incoming edge from a node whose index `out` does not list.
pub open spec fn fed_from_outside(nodes: Seq<Node>, edges: Seq<Edge>, out: Seq<int>, i: int) -> bool {
    exists|e: int, j: int|
        0 <= e < edges.len() && 0 <= j < nodes.len() && !out.contains(j) && (#[trigger] edges[e]).to
            == nodes[i].node_id && edges[e].from == (#[trigger] nodes[j]).node_id
}

/// `out` lists distinct node indices, each after every node that feeds it, and every
/// node left out is fed by another node left out (the rest hangs off a cycle).
pub open spec fn is_topological_prefix(nodes: Seq<Node>, edges: Seq<Edge>, out: Seq<int>) -> bool {
    &&& forall|p: int| 0 <= p < out.len() ==> 0 <= #[trigger] out[p] < nodes.len()
    &&& forall|p: int, q: int| 0 <= p < q < out.len() ==> #[trigger] out[p] != #[trigger] out[q]
    &&& forall|p: int| 0 <= p < out.len() ==> !fed_from_outside(nodes, edges, out.take(p), #[trigger] out[p])
    &&& forall|i: int| 0 <= i < nodes.len() && !out.contains(i) ==> #[trigger] fed_from_outside(nodes, edges, out, i)
}

/// The nodes behind a list of references.
pub open spec fn node_values(nodes: Seq<&Node>) -> Seq<Node> {
    nodes.map_values(|n: &Node| *n)
}

/// Edge `e` is the last edge with its source and target.
pub open spec fn is_last_edge(edges: Seq<Edge>, e: int) -> bool {
    forall|e2: int|
        e < e2 < edges.len() ==> !((#[trigger] edges[e2]).from == edges[e].from && edges[e2].to == edges[e].to)
}

proof fn lemma_last_edge(edges: Seq<Edge>, a: Uid, t: Uid, e1: int)
    requires
        0 <= e1 < edges.len(),
        edges[e1].from == a,
        edges[e1].to == t,
    ensures
        exists|e3: int|
            #![trigger edges[e3]]
            e1 <= e3 < edges.len() && edges[e3].from == a && edges[e3].to == t && is_last_edge(edges, e3),
    decreases edges.len() - e1,
{
    if !is_last_edge(edges, e1) {
        let e2 = choose|e2: int|
            e1 < e2 < edges.len() && (#[trigger] edges[e2]).from == edges[e1].from && edges[e2].to == edges[e1].to;
        lemma_last_edge(edges, a, t, e2);
        let e3 = choose|e3: int|
            #![trigger edges[e3]]
            e2 <= e3 < edges.len() && edges[e3].from == a && edges[e3].to == t && is_last_edge(edges, e3);
        assert(edges[e3].from == a);
    } else {
        assert(edges[e1].from == a);
    }
}

/// Whether edge `e` is the last edge with its source and target.
fn last_edge_from(edges: &[Edge], e: usize) -> (b: bool)
    requires
        e < edges@.len(),
    ensures
        b == is_last_edge(edges@, e as int),
{
    let len = edges.len();
    let mut k = e + 1;
    while k < edges.len()
        invariant
            e < k <= edges@.len(),
            forall|e2: int| e < e2 < k ==> !((#[trigger] edges@[e2]).from == edges@[e as int].from && edges@[e2].to
                == edges@[e as int].to),
        decreases edges@.len() - k,
    {
        if edges[k].from == edges[e].from && edges[k].to == edges[e].to {
            return false;
        }
        k = k + 1;
    }
    true
}

proof fn lemma_fed_shrinks(ns: Seq<Node>, edges: Seq<Edge>, out: Seq<int>, x: int, k: int)
    requires
        !fed_from_outside(ns, edges, out, k),
    ensures
        !fed_from_outside(ns, edges, out.push(x), k),
{
    if fed_from_outside(ns, edges, out.push(x), k) {
        let (e, j) = choose|e: int, j: int|
            0 <= e < edges.len() && 0 <= j < ns.len() && !out.push(x).contains(j) && (#[trigger] edges[e]).to
                == ns[k].node_id && edges[e].from == (#[trigger] ns[j]).node_id;
        assert(!out.contains(j)) by {
            if out.contains(j) {
                let p = choose|p: int| 0 <= p < out.len() && out[p] == j;
                assert(out.push(x)[p] == j);
            }
        }
    }
}

proof fn lemma_output_step(ns: Seq<Node>, edges: Seq<Edge>, out: Seq<int>, i: int, n: int)
    requires
        ns.len() == n,
        0 <= i < n,
        !out.contains(i),
        !fed_from_outside(ns, edges, out, i),
        forall|p: int| 0 <= p < out.len() ==> 0 <= #[trigger] out[p] < n,
        forall|p: int, q: int| 0 <= p < q < out.len() ==> #[trigger] out[p] != #[trigger] out[q],
        forall|p: int| 0 <= p < out.len() ==> !fed_from_outside(ns, edges, out.take(p), #[trigger] out[p]),
    ensures
        forall|j: int| 0 <= j < n ==> (out.push(i).contains(j) <==> (out.contains(j) || j == i)),
        forall|p: int| 0 <= p < out.push(i).len() ==> 0 <= #[trigger] out.push(i)[p] < n,
        forall|p: int, q: int|
            0 <= p < q < out.push(i).len() ==> #[trigger] out.push(i)[p] != #[trigger] out.push(i)[q],
        forall|p: int|
            0 <= p < out.push(i).len() ==> !fed_from_outside(ns, edges, out.push(i).take(p), #[trigger] out.push(i)[p]),
        out.push(i).len() <= n,
{
    let o = out.push(i);
    assert(o.take(out.len() as int) =~= out);
    assert forall|p: int| 0 <= p < o.len() implies !fed_from_outside(ns, edges, o.take(p), #[trigger] o[p]) by {
        if p < out.len() {
            assert(o.take(p) =~= out.take(p));
            assert(o[p] == out[p]);
        }
    }
    assert forall|p: int, q: int| 0 <= p < q < o.len() implies #[trigger] o[p] != #[trigger] o[q] by {
        if q == out.len() {
            assert(out.contains(o[p]));
        }
    }
    assert forall|j: int| 0 <= j < n implies (o.contains(j) <==> (out.contains(j) || j == i)) by {
        if o.contains(j) {
            let p = choose|p: int| 0 <= p < o.len() && o[p] == j;
            if p < out.len() {
                assert(out[p] == j);
            }
        }
        if out.contains(j) {
            let p = choose|p: int| 0 <= p < out.len() && out[p] == j;
            assert(o[p] == j);
        }
        if j == i {
            assert(o[out.len() as int] == j);
        }
    }
    assert forall|p: int| 0 <= p < o.len() implies 0 <= #[trigger] o[p] < n by {
        if p < out.len() {
            assert(o[p] == out[p]);
        }
    }
    assert(o.len() <= n) by {
        vstd::set_lib::lemma_int_range(0, n);
        let s = o.to_set();
        assert(s.subset_of(vstd::set_lib::set_int_range(0, n)));
        vstd::set_lib::lemma_len_subset(s, vstd::set_lib::set_int_range(0, n));
        o.unique_seq_to_set();
    }
}

/// Node `i` is the last of the nodes with its identifier.
pub open spec fn is_last_of_id(nodes: Seq<Node>, i: int) -> bool {
    forall|j: int| i < j < nodes.len() ==> (#[trigger] nodes[j]).node_id != nodes[i].node_id
}

/// Among the first `k` nodes, those that are the last with their identifier, in order.
pub open spec fn kept_upto(nodes: Seq<Node>, k: int) -> Seq<Node>
    decreases k,
{
    if k <= 0 {
        Seq::empty()
    } else if is_last_of_id(nodes, k - 1) {
        kept_upto(nodes, k - 1).push(nodes[k - 1])
    } else {
        kept_upto(nodes, k - 1)
    }
}

/// One node per identifier: the last node listed with it, in the order of the list.
pub open spec fn last_of_each(nodes: Seq<Node>) -> Seq<Node> {
    kept_upto(nodes, nodes.len() as int)
}

fn last_of_each_node<'g>(nodes: &[&'g Node]) -> (u: Vec<&'g Node>)
    ensures
        node_values(u@) == last_of_each(node_values(nodes@)),
{
    let ghost ns = node_values(nodes@);
    let mut u: Vec<&'g Node> = Vec::new();
    let mut i: usize = 0;
    while i < nodes.len()
        invariant
            ns == node_values(nodes@),
            i <= nodes@.len(),
            node_values(u@) == kept_upto(ns, i as int),
        decreases nodes@.len() - i,
    {
        let id = nodes[i].node_id;
        let mut j = i + 1;
        while j < nodes.len() && nodes[j].node_id != id
            invariant
                ns == node_values(nodes@),
                i < j <= nodes@.len(),
                id == ns[i as int].node_id,
                forall|k: int| i < k < j ==> (#[trigger] ns[k]).node_id != id,
            decreases nodes@.len() - j,
        {
            j = j + 1;
        }
        if j == nodes.len() {
            let ghost before = u@;
            u.push(nodes[i]);
            assert(node_values(u@) =~= node_values(before).push(ns[i as int]));
        } else {
            assert(ns[j as int].node_id == id);
        }
        i = i + 1;
    }
    u
}

impl GraphExecutor {
    /// A new executor.
    pub fn new() -> (g: GraphExecutor)
        ensures
            g == GraphExecutor,
    {
        GraphExecutor
    }

    /// Orders the selected nodes so that each comes after the selected nodes feeding it
    /// (edges between selected nodes only), breadth first: nodes that nothing selected
    /// feeds are queued first, in the given order; each node taken from the front of the
    /// queue is output, and a node joins the back of the queue when the last of its feeders
    /// has been output (after that feeder's last edge to it, in edge order). Nodes are
    /// identified by their identifiers: where several share one, the last of them stands
    /// for it. Nodes on or below a cycle are left out.
    pub fn topological_sort<'g>(&self, nodes: &[&'g Node], edges: &[Edge]) -> (sorted: Vec<&'g Node>)
        ensures
            exists|out: Seq<int>|
                #[trigger] is_topological_prefix(last_of_each(node_values(nodes@)), edges@, out) && sorted@.len()
                    == out.len() && forall|p: int|
                    0 <= p < out.len() ==> *(#[trigger] sorted@[p]) == last_of_each(node_values(nodes@))[out[p]],
    {
        let uniq = last_of_each_node(nodes);
        let sorted = self.kahn_sort(uniq.as_slice(), edges);
        sorted
    }

    fn kahn_sort<'g>(&self, nodes: &[&'g Node], edges: &[Edge]) -> (sorted: Vec<&'g Node>)
        ensures
            exists|out: Seq<int>|
                #[trigger] is_topological_prefix(node_values(nodes@), edges@, out) && sorted@.len() == out.len()
                    && forall|p: int| 0 <= p < out.len() ==> *(#[trigger] sorted@[p]) == *nodes@[out[p]],
    {
        let ghost ns = node_values(nodes@);
        let n = nodes.len();
        let mut done: Vec<bool> = Vec::new();
        let mut queued: Vec<bool> = Vec::new();
        let mut queue: Vec<usize> = Vec::new();
        let mut sorted: Vec<&'g Node> = Vec::new();
        let ghost mut out: Seq<int> = Seq::empty();
        let mut k: usize = 0;
        while k < n
            invariant
                n == nodes@.len(),
                ns == node_values(nodes@),
                k <= n,
                done@.len() == k,
                queued@.len() == k,
                out == Seq::<int>::empty(),
                forall|j: int| 0 <= j < k ==> !done@[j] && !queued@[j],
            decreases n - k,
        {
            done.push(false);
            queued.push(false);
            k = k + 1;
        }
        // Nodes that nothing selected feeds, in the given order.
        let mut i: usize = 0;
        while i < n
            invariant
                n == nodes@.len(),
                ns == node_values(nodes@),
                i <= n,
                done@.len() == n,
                queued@.len() == n,
                out == Seq::<int>::empty(),
                forall|j: int| 0 <= j < n ==> !done@[j],
                forall|j: int| 0 <= j < n ==> (queued@[j] <==> queue@.contains(j as usize)),
                forall|j: int| 0 <= j < n && !queued@[j] && j < i ==> fed_from_outside(ns, edges@, out, j),
                forall|j: int| i <= j < n ==> !queued@[j],
                forall|q: int| 0 <= q < queue@.len() ==> (#[trigger] queue@[q]) < n && !fed_from_outside(
                    ns,
                    edges@,
                    out,
                    queue@[q] as int,
                ),
                forall|q1: int, q2: int| 0 <= q1 < q2 < queue@.len() ==> #[trigger] queue@[q1] != #[trigger] queue@[q2],
            decreases n - i,
        {
            if !self.fed_by_pending(nodes, edges, &done, i, Ghost(ns), Ghost(out)) {
                let ghost old_queue = queue@;
                proof {
                    assert(!queued@[i as int]);
                    assert(!old_queue.contains(i));
                }
                queue.push(i);
                queued.set(i, true);
                proof {
                    assert forall|j: int| 0 <= j < n implies (queued@[j] <==> queue@.contains(j as usize)) by {
                        if queue@.contains(j as usize) && j != i {
                            let q = choose|q: int| 0 <= q < queue@.len() && queue@[q] == j as usize;
                            assert(old_queue[q] == j as usize);
                        }
                        if old_queue.contains(j as usize) {
                            let q = choose|q: int| 0 <= q < old_queue.len() && old_queue[q] == j as usize;
                            assert(queue@[q] == j as usize);
                        }
                        if j == i {
                            assert(queue@[old_queue.len() as int] == i);
                        }
                    }
                    assert forall|q1: int, q2: int| 0 <= q1 < q2 < queue@.len() implies #[trigger] queue@[q1]
                        != #[trigger] queue@[q2] by {
                        assert(queue@[q1] == old_queue[q1]);
                        if q2 == old_queue.len() {
                            assert(old_queue.contains(queue@[q1]));
                        } else {
                            assert(queue@[q2] == old_queue[q2]);
                        }
                    }
                }
            }
            i = i + 1;
        }
        let mut head: usize = 0;
        while head < queue.len()
            invariant
                n == nodes@.len(),
                ns == node_values(nodes@),
                ns.len() == n,
                done@.len() == n,
                queued@.len() == n,
                head <= queue@.len(),
                forall|j: int| 0 <= j < n ==> (done@[j] <==> out.contains(j)),
                forall|j: int| 0 <= j < n ==> (queued@[j] <==> queue@.contains(j as usize)),
                forall|j: int| 0 <= j < n && done@[j] ==> queued@[j],
                forall|j: int| 0 <= j < n ==> (done@[j] <==> queue@.take(head as int).contains(j as usize)),
                forall|j: int| 0 <= j < n && !queued@[j] ==> fed_from_outside(ns, edges@, out, j),
                forall|q: int| 0 <= q < queue@.len() ==> (#[trigger] queue@[q]) < n,
                forall|q: int| head <= q < queue@.len() ==> !fed_from_outside(ns, edges@, out, (#[trigger] queue@[q]) as int),
                forall|q1: int, q2: int| 0 <= q1 < q2 < queue@.len() ==> #[trigger] queue@[q1] != #[trigger] queue@[q2],
                sorted@.len() == out.len(),
                forall|p: int| 0 <= p < out.len() ==> *(#[trigger] sorted@[p]) == *nodes@[out[p]],
                forall|p: int| 0 <= p < out.len() ==> 0 <= #[trigger] out[p] < n,
                forall|p: int, q: int| 0 <= p < q < out.len() ==> #[trigger] out[p] != #[trigger] out[q],
                forall|p: int| 0 <= p < out.len() ==> !fed_from_outside(ns, edges@, out.take(p), #[trigger] out[p]),
                out.len() <= n,
            decreases n - out.len(),
        {
            let i = queue[head];
            proof {
                assert(!queue@.take(head as int).contains(i)) by {
                    if queue@.take(head as int).contains(i) {
                        let q = choose|q: int| 0 <= q < head && queue@.take(head as int)[q] == i;
                        assert(queue@[q] == queue@[head as int]);
                    }
                }
                assert(!done@[i as int]);
                assert(!out.contains(i as int));
            }
            let ghost old_out = out;
            let ghost old_done = done@;
            let ghost old_head = head as int;
            head = head + 1;
            sorted.push(nodes[i]);
            done.set(i, true);
            proof {
                out = out.push(i as int);
                lemma_output_step(ns, edges@, old_out, i as int, n as int);
                assert forall|j: int| 0 <= j < n implies (done@[j] <==> out.contains(j)) by {
                    assert(out.contains(j) <==> (old_out.contains(j) || j == i));
                    if j != i {
                        assert(done@[j] == old_done[j]);
                    }
                }
                assert(queue@.take(head as int) =~= queue@.take(old_head).push(i));
                assert forall|j: int| 0 <= j < n implies (done@[j] <==> queue@.take(head as int).contains(j as usize)) by {
                    if queue@.take(head as int).contains(j as usize) && j != i {
                        let q = choose|q: int| 0 <= q < head && queue@.take(head as int)[q] == j as usize;
                        assert(queue@.take(old_head)[q] == j as usize);
                    }
                    if queue@.take(old_head).contains(j as usize) {
                        let q = choose|q: int| 0 <= q < old_head && queue@.take(old_head)[q] == j as usize;
                        assert(queue@.take(head as int)[q] == j as usize);
                    }
                    if j == i {
                        assert(queue@.take(head as int)[old_head] == i);
                    }
                }
                assert forall|q: int| head <= q < queue@.len() implies !fed_from_outside(ns, edges@, out, (#[trigger] queue@[q]) as int) by {
                    lemma_fed_shrinks(ns, edges@, old_out, i as int, queue@[q] as int);
                }
                assert forall|j: int| 0 <= j < n && !queued@[j] && j != i implies fed_from_outside(ns, edges@, old_out, j) by {}
            }
            let ghost queue0 = queue@;
            let ghost queued0 = queued@;
            let source = nodes[i].node_id;
            let mut e: usize = 0;
            while e < edges.len()
                invariant
                    n == nodes@.len(),
                    ns == node_values(nodes@),
                    ns.len() == n,
                    done@.len() == n,
                    queued@.len() == n,
                    i < n,
                    source == ns[i as int].node_id,
                    out.len() > 0 && out.last() == i as int,
                    head <= queue0.len() <= queue@.len(),
                    queue@.take(queue0.len() as int) == queue0,
                    forall|j: int| 0 <= j < n ==> (done@[j] <==> out.contains(j)),
                    forall|j: int| 0 <= j < n ==> (queued@[j] <==> queue@.contains(j as usize)),
                    forall|j: int| 0 <= j < n && queued0[j] ==> queued@[j],
                    forall|j: int| 0 <= j < n && !queued0[j] && j != i ==> fed_from_outside(ns, edges@, out.drop_last(), j),
                    forall|q: int| 0 <= q < queue@.len() ==> (#[trigger] queue@[q]) < n,
                    forall|q: int| head <= q < queue@.len() ==> !fed_from_outside(ns, edges@, out, (#[trigger] queue@[q]) as int),
                    forall|q1: int, q2: int| 0 <= q1 < q2 < queue@.len() ==> #[trigger] queue@[q1] != #[trigger] queue@[q2],
                    forall|j: int| 0 <= j < n && done@[j] ==> queued@[j],
                    e <= edges@.len(),
                    forall|e2: int, j: int|
                        0 <= e2 < e && 0 <= j < n && (#[trigger] edges@[e2]).from == source && is_last_edge(edges@, e2)
                            && edges@[e2].to == (#[trigger] ns[j]).node_id ==> queued@[j] || fed_from_outside(ns, edges@, out, j),
                decreases edges@.len() - e,
            {
                if edges[e].from == source && last_edge_from(edges, e) {
                    let target = edges[e].to;
                    let mut b: usize = 0;
                    while b < n
                        invariant
                            n == nodes@.len(),
                            ns == node_values(nodes@),
                            ns.len() == n,
                            done@.len() == n,
                            queued@.len() == n,
                            out.len() > 0 && out.last() == i as int,
                            head <= queue0.len() <= queue@.len(),
                            queue@.take(queue0.len() as int) == queue0,
                            forall|j: int| 0 <= j < n ==> (done@[j] <==> out.contains(j)),
                            forall|j: int| 0 <= j < n ==> (queued@[j] <==> queue@.contains(j as usize)),
                            forall|j: int| 0 <= j < n && queued0[j] ==> queued@[j],
                            forall|q: int| 0 <= q < queue@.len() ==> (#[trigger] queue@[q]) < n,
                            forall|q: int| head <= q < queue@.len() ==> !fed_from_outside(ns, edges@, out, (#[trigger] queue@[q]) as int),
                            forall|q1: int, q2: int| 0 <= q1 < q2 < queue@.len() ==> #[trigger] queue@[q1] != #[trigger] queue@[q2],
                            forall|j: int| 0 <= j < n && done@[j] ==> queued@[j],
                            b <= n,
                            forall|e2: int, j: int|
                                0 <= e2 < e && 0 <= j < n && (#[trigger] edges@[e2]).from == source && is_last_edge(edges@, e2)
                                    && edges@[e2].to == (#[trigger] ns[j]).node_id ==> queued@[j] || fed_from_outside(ns, edges@, out, j),
                            e < edges@.len(),
                            target == edges@[e as int].to,
                            forall|j: int| 0 <= j < b && ns[j].node_id == target ==> queued@[j] || fed_from_outside(ns, edges@, out, j),
                        decreases n - b,
                    {
                        proof {
                            assert(ns[b as int] == *nodes@[b as int]);
                        }
                        if nodes[b].node_id == target && !queued[b] && !self.fed_by_pending(nodes, edges, &done, b, Ghost(ns), Ghost(out)) {
                            let ghost old_queue = queue@;
                            queue.push(b);
                            queued.set(b, true);
                            proof {
                                assert(queue@.take(queue0.len() as int) =~= old_queue.take(queue0.len() as int));
                                assert forall|j: int| 0 <= j < n implies (queued@[j] <==> queue@.contains(j as usize)) by {
                                    if queue@.contains(j as usize) && j != b {
                                        let q = choose|q: int| 0 <= q < queue@.len() && queue@[q] == j as usize;
                                        assert(old_queue[q] == j as usize);
                                    }
                                    if old_queue.contains(j as usize) {
                                        let q = choose|q: int| 0 <= q < old_queue.len() && old_queue[q] == j as usize;
                                        assert(queue@[q] == j as usize);
                                    }
                                    if j == b {
                                        assert(queue@[old_queue.len() as int] == b);
                                    }
                                }
                                assert forall|q1: int, q2: int| 0 <= q1 < q2 < queue@.len() implies #[trigger] queue@[q1]
                                    != #[trigger] queue@[q2] by {
                                    if q2 == old_queue.len() {
                                        assert(old_queue.contains(queue@[q1]));
                                    }
                                }
                            }
                        }
                        b = b + 1;
                    }
                }
                e = e + 1;
            }
            proof {
                assert forall|j: int| 0 <= j < n && !queued@[j] implies fed_from_outside(ns, edges@, out, j) by {
                    assert(!queued0[j]);
                    assert(j != i) by {
                        assert(done@[i as int]);
                    }
                    assert(out.drop_last() == old_out);
                    assert(fed_from_outside(ns, edges@, old_out, j));
                    let (e1, j1) = choose|e1: int, j1: int|
                        0 <= e1 < edges@.len() && 0 <= j1 < ns.len() && !old_out.contains(j1) && (#[trigger] edges@[e1]).to
                            == ns[j].node_id && edges@[e1].from == (#[trigger] ns[j1]).node_id;
                    if j1 != i {
                        assert(!out.contains(j1)) by {
                            if out.contains(j1) {
                                let p = choose|p: int| 0 <= p < out.len() && out[p] == j1;
                                if p < old_out.len() {
                                    assert(old_out[p] == j1);
                                }
                            }
                        }
                    } else {
                        lemma_last_edge(edges@, source, ns[j].node_id, e1);
                        let e3 = choose|e3: int|
                            e1 <= e3 < edges@.len() && #[trigger] edges@[e3].from == source && edges@[e3].to == ns[j].node_id
                                && is_last_edge(edges@, e3);
                        assert(queued@[j] || fed_from_outside(ns, edges@, out, j));
                    }
                }
                assert forall|j: int| 0 <= j < n implies (done@[j] <==> queue@.take(head as int).contains(j as usize)) by {
                    assert(queue@.take(head as int) =~= queue0.take(head as int));
                }
            }
        }
        proof {
            assert forall|i: int| 0 <= i < ns.len() && !out.contains(i) implies #[trigger] fed_from_outside(ns, edges@, out, i) by {
                assert(!done@[i]);
                if queued@[i] {
                    let q = choose|q: int| 0 <= q < queue@.len() && queue@[q] == i as usize;
                    assert(queue@.take(head as int) =~= queue@);
                    assert(queue@.take(head as int)[q] == i as usize);
                }
            }
            assert(is_topological_prefix(ns, edges@, out));
        }
        sorted
    }

    /// Node `i` has an incoming edge from a node not yet output.
    fn fed_by_pending(
        &self,
        nodes: &[&Node],
        edges: &[Edge],
        done: &Vec<bool>,
        i: usize,
        Ghost(ns): Ghost<Seq<Node>>,
        Ghost(out): Ghost<Seq<int>>,
    ) -> (b: bool)
        requires
            ns == node_values(nodes@),
            done@.len() == nodes@.len(),
            forall|j: int| 0 <= j < nodes@.len() ==> (done@[j] <==> out.contains(j)),
            i < nodes@.len(),
        ensures
            b == fed_from_outside(ns, edges@, out, i as int),
    {
        let n = nodes.len();
        let target = nodes[i].node_id;
        assert(ns[i as int].node_id == target);
        let mut e: usize = 0;
        while e < edges.len()
            invariant
                n == nodes@.len(),
                ns == node_values(nodes@),
                ns.len() == n,
                done@.len() == n,
                forall|j: int| 0 <= j < n ==> (done@[j] <==> out.contains(j)),
                i < n,
                ns[i as int].node_id == target,
                e <= edges@.len(),
                forall|e2: int, j: int|
                    0 <= e2 < e && 0 <= j < n && !out.contains(j) && (#[trigger] edges@[e2]).to == target ==> edges@[e2].from
                        != (#[trigger] ns[j]).node_id,
            decreases edges@.len() - e,
        {
            if edges[e].to == target {
                let mut j: usize = 0;
                while j < n
                    invariant
                        n == nodes@.len(),
                        ns == node_values(nodes@),
                        ns.len() == n,
                        done@.len() == n,
                        forall|j2: int| 0 <= j2 < n ==> (done@[j2] <==> out.contains(j2)),
                        e < edges@.len(),
                        edges@[e as int].to == target,
                        ns[i as int].node_id == target,
                        j <= n,
                        forall|j2: int| 0 <= j2 < j && !out.contains(j2) ==> edges@[e as int].from != (#[trigger] ns[j2]).node_id,
                    decreases n - j,
                {
                    if !done[j] && nodes[j].node_id == edges[e].from {
                        assert(ns[j as int] == *nodes@[j as int]);
                        return true;
                    }
                    assert(ns[j as int] == *nodes@[j as int]);
                    j = j + 1;
                }
            }
            e = e + 1;
        }
        false
    }
}

} // verus!

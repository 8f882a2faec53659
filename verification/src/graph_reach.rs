//! Walks and reachability over an edge list, and an executable reachability search.

use vstd::prelude::*;

verus! {

/// Node identifiers: the 128 bits of a UUID.
pub type Uid = u128;

/// `(a, b)` is one of the edges.
pub open spec fn has_edge(edges: Seq<(Uid, Uid)>, a: Uid, b: Uid) -> bool {
    exists|i: int| 0 <= i < edges.len() && edges[i] == (a, b)
}

/// One step from `a` to `b`, along the edges or, when `rev`, against them.
pub open spec fn step(edges: Seq<(Uid, Uid)>, rev: bool, a: Uid, b: Uid) -> bool {
    if rev {
        has_edge(edges, b, a)
    } else {
        has_edge(edges, a, b)
    }
}

/// A non-empty node sequence whose consecutive nodes are joined by steps.
pub open spec fn is_walk(edges: Seq<(Uid, Uid)>, rev: bool, w: Seq<Uid>) -> bool {
    &&& w.len() >= 1
    &&& forall|k: int| 0 <= k < w.len() - 1 ==> #[trigger] step(edges, rev, w[k], w[k + 1])
}

/// There is a walk from `a` to `b`.
pub open spec fn reaches_dir(edges: Seq<(Uid, Uid)>, rev: bool, a: Uid, b: Uid) -> bool {
    exists|w: Seq<Uid>| #[trigger] is_walk(edges, rev, w) && w[0] == a && w.last() == b
}

/// There is a walk along the edges from `a` to `b` (every node reaches itself).
pub open spec fn reaches(edges: Seq<(Uid, Uid)>, a: Uid, b: Uid) -> bool {
    reaches_dir(edges, false, a, b)
}

pub proof fn lemma_reaches_self(edges: Seq<(Uid, Uid)>, rev: bool, a: Uid)
    ensures
        reaches_dir(edges, rev, a, a),
{
    let w = seq![a];
    assert(is_walk(edges, rev, w));
}

pub proof fn lemma_walk_push(edges: Seq<(Uid, Uid)>, rev: bool, w: Seq<Uid>, y: Uid)
    requires
        is_walk(edges, rev, w),
        step(edges, rev, w.last(), y),
    ensures
        is_walk(edges, rev, w.push(y)),
        w.push(y)[0] == w[0],
        w.push(y).last() == y,
{
    let v = w.push(y);
    assert forall|k: int| 0 <= k < v.len() - 1 implies #[trigger] step(edges, rev, v[k], v[k + 1]) by {
        if k < w.len() - 1 {
            assert(v[k] == w[k] && v[k + 1] == w[k + 1]);
        } else {
            assert(v[k] == w.last() && v[k + 1] == y);
        }
    }
}

pub proof fn lemma_reaches_extend(edges: Seq<(Uid, Uid)>, rev: bool, a: Uid, x: Uid, y: Uid)
    requires
        reaches_dir(edges, rev, a, x),
        step(edges, rev, x, y),
    ensures
        reaches_dir(edges, rev, a, y),
{
    let w = choose|w: Seq<Uid>| #[trigger] is_walk(edges, rev, w) && w[0] == a && w.last() == x;
    lemma_walk_push(edges, rev, w, y);
}

/// A walk against the edges, read backwards, is a walk along them.
pub proof fn lemma_walk_reverse(edges: Seq<(Uid, Uid)>, rev: bool, w: Seq<Uid>)
    requires
        is_walk(edges, rev, w),
    ensures
        is_walk(edges, !rev, w.reverse()),
        w.reverse()[0] == w.last(),
        w.reverse().last() == w[0],
{
    let r = w.reverse();
    let nr = !rev;
    assert forall|k: int| 0 <= k < r.len() - 1 implies #[trigger] step(edges, nr, r[k], r[k + 1]) by {
        let j = w.len() - 2 - k;
        assert(step(edges, rev, w[j], w[j + 1]));
        assert(r[k] == w[j + 1] && r[k + 1] == w[j]);
    }
}

/// Reaching `b` from `a` against the edges is reaching `a` from `b` along them.
pub proof fn lemma_reaches_reverse(edges: Seq<(Uid, Uid)>, a: Uid, b: Uid)
    ensures
        reaches_dir(edges, true, a, b) == reaches(edges, b, a),
{
    if reaches_dir(edges, true, a, b) {
        let w = choose|w: Seq<Uid>| #[trigger] is_walk(edges, true, w) && w[0] == a && w.last() == b;
        lemma_walk_reverse(edges, true, w);
    }
    if reaches(edges, b, a) {
        let w = choose|w: Seq<Uid>| #[trigger] is_walk(edges, false, w) && w[0] == b && w.last() == a;
        lemma_walk_reverse(edges, false, w);
    }
}

/// A set that holds `a` and is closed under steps holds every node `a` reaches.
pub proof fn lemma_closed_holds_reachable(
    edges: Seq<(Uid, Uid)>,
    rev: bool,
    s: Seq<Uid>,
    a: Uid,
    b: Uid,
)
    requires
        s.contains(a),
        forall|x: Uid, y: Uid| s.contains(x) && #[trigger] step(edges, rev, x, y) ==> s.contains(y),
        reaches_dir(edges, rev, a, b),
    ensures
        s.contains(b),
{
    let w = choose|w: Seq<Uid>| #[trigger] is_walk(edges, rev, w) && w[0] == a && w.last() == b;
    lemma_closed_holds_walk(edges, rev, s, w, w.len() - 1);
}

proof fn lemma_closed_holds_walk(edges: Seq<(Uid, Uid)>, rev: bool, s: Seq<Uid>, w: Seq<Uid>, k: int)
    requires
        is_walk(edges, rev, w),
        0 <= k < w.len(),
        s.contains(w[0]),
        forall|x: Uid, y: Uid| s.contains(x) && #[trigger] step(edges, rev, x, y) ==> s.contains(y),
    ensures
        s.contains(w[k]),
    decreases k,
{
    if k > 0 {
        lemma_closed_holds_walk(edges, rev, s, w, k - 1);
        let j = k - 1;
        assert(step(edges, rev, w[j], w[j + 1]));
    }
}

/// Every node of `edges`, with `start` in front.
pub open spec fn endpoints(edges: Seq<(Uid, Uid)>, start: Uid) -> Seq<Uid> {
    Seq::new(
        (2 * edges.len() + 1) as nat,
        |i: int|
            if i == 0 {
                start
            } else if i <= edges.len() {
                edges[i - 1].0
            } else {
                edges[i - 1 - edges.len()].1
            },
    )
}

proof fn lemma_distinct_bounded(s: Seq<Uid>, all: Seq<Uid>)
    requires
        s.no_duplicates(),
        forall|j: int| 0 <= j < s.len() ==> all.contains(#[trigger] s[j]),
    ensures
        s.len() <= all.len(),
{
    s.unique_seq_to_set();
    all.lemma_cardinality_of_set();
    assert(s.to_set().subset_of(all.to_set())) by {
        assert forall|x: Uid| s.to_set().contains(x) implies all.to_set().contains(x) by {
            let j = choose|j: int| 0 <= j < s.len() && s[j] == x;
            assert(all.contains(s[j]));
        }
    }
    vstd::set_lib::lemma_len_subset(s.to_set(), all.to_set());
}

/// `x` is among the elements of `v`.
pub fn vec_contains(v: &Vec<Uid>, x: Uid) -> (b: bool)
    ensures
        b == v@.contains(x),
{
    let mut i: usize = 0;
    while i < v.len()
        invariant
            i <= v@.len(),
            forall|j: int| 0 <= j < i ==> v@[j] != x,
        decreases v@.len() - i,
    {
        if v[i] == x {
            assert(v@[i as int] == x);
            return true;
        }
        i = i + 1;
    }
    false
}

/// The nodes reachable from `start` (along the edges, or against them when `rev`), each once.
pub fn reach_set(edges: &Vec<(Uid, Uid)>, start: Uid, rev: bool) -> (seen: Vec<Uid>)
    ensures
        seen@.no_duplicates(),
        forall|x: Uid| seen@.contains(x) <==> reaches_dir(edges@, rev, start, x),
{
    let mut seen: Vec<Uid> = Vec::new();
    seen.push(start);
    let ghost all = endpoints(edges@, start);
    proof {
        lemma_reaches_self(edges@, rev, start);
        assert(all[0] == start);
    }
    let mut i: usize = 0;
    while i < seen.len()
        invariant
            0 < seen@.len(),
            seen@[0] == start,
            i <= seen@.len() <= all.len(),
            all == endpoints(edges@, start),
            seen@.no_duplicates(),
            forall|j: int| 0 <= j < seen@.len() ==> all.contains(#[trigger] seen@[j]),
            forall|j: int| 0 <= j < seen@.len() ==> reaches_dir(edges@, rev, start, #[trigger] seen@[j]),
            forall|j: int, y: Uid|
                0 <= j < i && #[trigger] step(edges@, rev, seen@[j], y) ==> seen@.contains(y),
        decreases all.len() - i,
    {
        let x = seen[i];
        let mut k: usize = 0;
        while k < edges.len()
            invariant
                i < seen@.len() <= all.len(),
                seen@[i as int] == x,
                0 < seen@.len(),
                seen@[0] == start,
                all == endpoints(edges@, start),
                k <= edges@.len(),
                seen@.no_duplicates(),
                forall|j: int| 0 <= j < seen@.len() ==> all.contains(#[trigger] seen@[j]),
                forall|j: int| 0 <= j < seen@.len() ==> reaches_dir(edges@, rev, start, #[trigger] seen@[j]),
                forall|j: int, y: Uid|
                    0 <= j < i && #[trigger] step(edges@, rev, seen@[j], y) ==> seen@.contains(y),
                forall|m: int|
                    0 <= m < k ==> {
                        let e = #[trigger] edges@[m];
                        (if rev { e.1 == x } else { e.0 == x }) ==> seen@.contains(
                            if rev { e.0 } else { e.1 },
                        )
                    },
            decreases edges@.len() - k,
        {
            let (a, b) = edges[k];
            let (from, to) = if rev { (b, a) } else { (a, b) };
            if from == x && !vec_contains(&seen, to) {
                proof {
                    assert(edges@[k as int] == (a, b));
                    assert(step(edges@, rev, x, to));
                    lemma_reaches_extend(edges@, rev, start, x, to);
                    let idx = if rev { k + 1 } else { k + 1 + edges@.len() };
                    if rev {
                        assert(all[k + 1] == a);
                    } else {
                        assert(all[k + 1 + edges@.len()] == b);
                    }
                    assert(all.contains(to));
                }
                let ghost old_seen = seen@;
                seen.push(to);
                proof {
                    assert(seen@ == old_seen.push(to));
                    assert(seen@.no_duplicates()) by {
                        assert forall|p: int, q: int| 0 <= p < q < seen@.len() implies seen@[p] != seen@[q] by {
                            if q == old_seen.len() {
                                assert(old_seen.contains(old_seen[p]));
                            }
                        }
                    }
                    assert forall|j: int, y: Uid|
                        0 <= j < i && #[trigger] step(edges@, rev, seen@[j], y) implies seen@.contains(y) by {
                        assert(seen@[j] == old_seen[j]);
                        assert(old_seen.contains(y));
                        let t = choose|t: int| 0 <= t < old_seen.len() && old_seen[t] == y;
                        assert(seen@[t] == y);
                    }
                    assert forall|m: int| 0 <= m < k + 1 implies {
                        let e = #[trigger] edges@[m];
                        (if rev { e.1 == x } else { e.0 == x }) ==> seen@.contains(
                            if rev { e.0 } else { e.1 },
                        )
                    } by {
                        let e = edges@[m];
                        if m < k && (if rev { e.1 == x } else { e.0 == x }) {
                            let z = if rev { e.0 } else { e.1 };
                            assert(old_seen.contains(z));
                            let t = choose|t: int| 0 <= t < old_seen.len() && old_seen[t] == z;
                            assert(seen@[t] == z);
                        }
                        if m == k {
                            assert(seen@[old_seen.len() as int] == to);
                        }
                    }
                    lemma_distinct_bounded(seen@, all);
                }
            }
            k = k + 1;
        }
        proof {
            assert forall|j: int, y: Uid|
                0 <= j < i + 1 && #[trigger] step(edges@, rev, seen@[j], y) implies seen@.contains(y) by {
                if j == i {
                    let m = if rev {
                        choose|m: int| 0 <= m < edges@.len() && edges@[m] == (y, x)
                    } else {
                        choose|m: int| 0 <= m < edges@.len() && edges@[m] == (x, y)
                    };
                    assert(edges@[m] == edges@[m]);
                }
            }
        }
        i = i + 1;
    }
    proof {
        assert forall|x: Uid| reaches_dir(edges@, rev, start, x) implies seen@.contains(x) by {
            assert(seen@.contains(seen@[0]));
            assert forall|p: Uid, y: Uid| seen@.contains(p) && #[trigger] step(edges@, rev, p, y) implies seen@.contains(y) by {
                let j = choose|j: int| 0 <= j < seen@.len() && seen@[j] == p;
                assert(step(edges@, rev, seen@[j], y));
            }
            lemma_closed_holds_reachable(edges@, rev, seen@, start, x);
        }
        assert forall|x: Uid| seen@.contains(x) implies reaches_dir(edges@, rev, start, x) by {
            let j = choose|j: int| 0 <= j < seen@.len() && seen@[j] == x;
        }
    }
    seen
}

} // verus!

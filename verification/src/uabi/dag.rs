//! Dependency edges, paths and the order in which nodes are released.

use vstd::prelude::*;

verus! {

/// Node id in a graph: the index of the node.
#[derive(Clone, Copy, PartialEq, Eq, Structural, PartialOrd, Ord, Hash, Debug)]
pub struct AiGraphNodeId(pub u32);

impl AiGraphNodeId {
    /// Wraps a raw id.
    pub fn new(raw: u32) -> (r: Self)
        ensures
            r == AiGraphNodeId(raw),
    {
        AiGraphNodeId(raw)
    }

    /// The raw id.
    pub fn get(self) -> (r: u32)
        ensures
            r == self.0,
    {
        self.0
    }

    /// The id as an index.
    pub fn as_usize(self) -> (r: usize)
        ensures
            r == self.0,
    {
        self.0 as usize
    }
}

impl Default for AiGraphNodeId {
    fn default() -> (r: Self)
        ensures
            r == AiGraphNodeId(0),
    {
        AiGraphNodeId(0)
    }
}

/// The id of the node that a chain of kernels ends in.
pub type AiGraphChainId = AiGraphNodeId;

/// `to_node` may run once `from_node` has run.
#[derive(Clone, Copy, PartialEq, Eq, Structural, Debug)]
pub struct AiGraphEdge {
    /// The node that comes first.
    pub from_node: AiGraphNodeId,
    /// The node that waits.
    pub to_node: AiGraphNodeId,
}

impl Default for AiGraphEdge {
    fn default() -> (r: Self)
        ensures
            r == (AiGraphEdge { from_node: AiGraphNodeId(0), to_node: AiGraphNodeId(0) }),
    {
        AiGraphEdge { from_node: AiGraphNodeId(0), to_node: AiGraphNodeId(0) }
    }
}

/// Source of edge `i`.
pub open spec fn source(edges: Seq<AiGraphEdge>, i: int) -> int {
    edges[i].from_node.0 as int
}

/// Target of edge `i`.
pub open spec fn target(edges: Seq<AiGraphEdge>, i: int) -> int {
    edges[i].to_node.0 as int
}

/// Every edge joins two of the first `n` nodes.
pub open spec fn within(edges: Seq<AiGraphEdge>, n: int) -> bool {
    forall|i: int|
        0 <= i < edges.len() ==> (#[trigger] edges[i]).from_node.0 < n && edges[i].to_node.0 < n
}

/// There is an edge from `a` to `b`.
pub open spec fn adjacent(edges: Seq<AiGraphEdge>, a: int, b: int) -> bool {
    exists|i: int|
        0 <= i < edges.len() && source(edges, i) == a && #[trigger] target(edges, i) == b
}

/// Consecutive nodes of `path` are joined by edges.
pub open spec fn is_path(edges: Seq<AiGraphEdge>, path: Seq<int>) -> bool {
    &&& path.len() >= 1
    &&& forall|i: int|
        0 <= i < path.len() - 1 ==> adjacent(edges, #[trigger] path[i], path[i + 1])
}

/// A path leads from `a` to `b`; the path of one node counts.
pub open spec fn reachable(edges: Seq<AiGraphEdge>, a: int, b: int) -> bool {
    exists|path: Seq<int>| #[trigger] is_path(edges, path) && path.first() == a && path.last() == b
}

/// A path of at least one edge comes back to where it started.
pub open spec fn cyclic(edges: Seq<AiGraphEdge>) -> bool {
    exists|path: Seq<int>|
        #[trigger] is_path(edges, path) && path.len() >= 2 && path.first() == path.last()
}

/// A node reaches itself.
pub proof fn reachable_self(edges: Seq<AiGraphEdge>, a: int)
    ensures
        reachable(edges, a, a),
{
    let path = seq![a];
    assert(is_path(edges, path));
}

/// An edge prolongs a path.
pub proof fn reachable_step(edges: Seq<AiGraphEdge>, a: int, b: int, c: int)
    requires
        reachable(edges, a, b),
        adjacent(edges, b, c),
    ensures
        reachable(edges, a, c),
{
    let path = choose|path: Seq<int>|
        #[trigger] is_path(edges, path) && path.first() == a && path.last() == b;
    let longer = path.push(c);
    assert forall|i: int| 0 <= i < longer.len() - 1 implies adjacent(
        edges,
        #[trigger] longer[i],
        longer[i + 1],
    ) by {
        if i < path.len() - 1 {
            assert(longer[i] == path[i] && longer[i + 1] == path[i + 1]);
        }
    }
    assert(is_path(edges, longer));
}

/// Reaching is transitive.
pub proof fn reachable_join(edges: Seq<AiGraphEdge>, a: int, b: int, c: int)
    requires
        reachable(edges, a, b),
        reachable(edges, b, c),
    ensures
        reachable(edges, a, c),
{
    let tail = choose|path: Seq<int>|
        #[trigger] is_path(edges, path) && path.first() == b && path.last() == c;
    reachable_join_path(edges, a, tail);
}

proof fn reachable_join_path(edges: Seq<AiGraphEdge>, a: int, tail: Seq<int>)
    requires
        is_path(edges, tail),
        reachable(edges, a, tail.first()),
    ensures
        reachable(edges, a, tail.last()),
    decreases tail.len(),
{
    if tail.len() > 1 {
        let shorter = tail.drop_last();
        assert forall|i: int| 0 <= i < shorter.len() - 1 implies adjacent(
            edges,
            #[trigger] shorter[i],
            shorter[i + 1],
        ) by {
            assert(shorter[i] == tail[i] && shorter[i + 1] == tail[i + 1]);
        }
        reachable_join_path(edges, a, shorter);
        assert(adjacent(edges, tail[tail.len() - 2], tail[tail.len() - 2 + 1]));
        reachable_step(edges, a, shorter.last(), tail.last());
    }
}

/// With more edges, more nodes are reached.
pub proof fn reachable_grows(fewer: Seq<AiGraphEdge>, edge: AiGraphEdge, a: int, b: int)
    requires
        reachable(fewer, a, b),
    ensures
        reachable(fewer.push(edge), a, b),
{
    let path = choose|path: Seq<int>|
        #[trigger] is_path(fewer, path) && path.first() == a && path.last() == b;
    assert forall|i: int| 0 <= i < path.len() - 1 implies adjacent(
        fewer.push(edge),
        #[trigger] path[i],
        path[i + 1],
    ) by {
        let e = choose|e: int|
            0 <= e < fewer.len() && source(fewer, e) == path[i] && #[trigger] target(fewer, e)
                == path[i + 1];
        assert(source(fewer.push(edge), e) == path[i]);
        assert(target(fewer.push(edge), e) == path[i + 1]);
    }
    assert(is_path(fewer.push(edge), path));
}

/// A path that may use one more edge either does without it, or comes to its source
/// and goes on from its target.
proof fn path_splits(fewer: Seq<AiGraphEdge>, edge: AiGraphEdge, path: Seq<int>)
    requires
        is_path(fewer.push(edge), path),
    ensures
        is_path(fewer, path) || (reachable(fewer, path.first(), edge.from_node.0 as int)
            && reachable(fewer, edge.to_node.0 as int, path.last())),
    decreases path.len(),
{
    let more = fewer.push(edge);
    let from = edge.from_node.0 as int;
    let to = edge.to_node.0 as int;
    if path.len() > 1 {
        let shorter = path.drop_last();
        let last = path.last();
        let prior = path[path.len() - 2];
        assert forall|i: int| 0 <= i < shorter.len() - 1 implies adjacent(
            more,
            #[trigger] shorter[i],
            shorter[i + 1],
        ) by {
            assert(shorter[i] == path[i] && shorter[i + 1] == path[i + 1]);
        }
        path_splits(fewer, edge, shorter);
        assert(adjacent(more, path[path.len() - 2], path[path.len() - 2 + 1]));
        let e = choose|e: int|
            0 <= e < more.len() && source(more, e) == prior && #[trigger] target(more, e) == last;
        if e < fewer.len() {
            assert(source(fewer, e) == prior && target(fewer, e) == last);
            assert(adjacent(fewer, prior, last));
            if is_path(fewer, shorter) {
                assert forall|i: int| 0 <= i < path.len() - 1 implies adjacent(
                    fewer,
                    #[trigger] path[i],
                    path[i + 1],
                ) by {
                    if i < shorter.len() - 1 {
                        assert(shorter[i] == path[i] && shorter[i + 1] == path[i + 1]);
                    }
                }
            } else {
                reachable_step(fewer, to, prior, last);
            }
        } else {
            assert(prior == from && last == to);
            reachable_self(fewer, to);
            if is_path(fewer, shorter) {
                assert(reachable(fewer, path.first(), prior));
            }
        }
    }
}

/// One more edge makes a cycle exactly when its target already reached its source.
pub proof fn edge_closes_cycle(fewer: Seq<AiGraphEdge>, edge: AiGraphEdge)
    requires
        !cyclic(fewer),
    ensures
        cyclic(fewer.push(edge)) == reachable(
            fewer,
            edge.to_node.0 as int,
            edge.from_node.0 as int,
        ),
{
    let more = fewer.push(edge);
    let from = edge.from_node.0 as int;
    let to = edge.to_node.0 as int;
    if reachable(fewer, to, from) {
        let path = choose|path: Seq<int>|
            #[trigger] is_path(fewer, path) && path.first() == to && path.last() == from;
        let cycle = path.push(to);
        assert forall|i: int| 0 <= i < cycle.len() - 1 implies adjacent(
            more,
            #[trigger] cycle[i],
            cycle[i + 1],
        ) by {
            if i < path.len() - 1 {
                assert(cycle[i] == path[i] && cycle[i + 1] == path[i + 1]);
                let e = choose|e: int|
                    0 <= e < fewer.len() && source(fewer, e) == path[i] && #[trigger] target(
                        fewer,
                        e,
                    ) == path[i + 1];
                assert(source(more, e) == path[i] && target(more, e) == path[i + 1]);
            } else {
                assert(source(more, fewer.len() as int) == from);
                assert(target(more, fewer.len() as int) == to);
            }
        }
        assert(is_path(more, cycle));
    }
    if cyclic(more) {
        let cycle = choose|path: Seq<int>|
            #[trigger] is_path(more, path) && path.len() >= 2 && path.first() == path.last();
        path_splits(fewer, edge, cycle);
        if !is_path(fewer, cycle) {
            reachable_join(fewer, to, cycle.last(), from);
        }
    }
}

/// `nodes` holds each node at most once, and only nodes below `n`.
pub open spec fn distinct_below(nodes: Seq<usize>, n: int) -> bool {
    &&& forall|i: int| 0 <= i < nodes.len() ==> #[trigger] nodes[i] < n
    &&& forall|i: int, j: int|
        0 <= i < j < nodes.len() ==> #[trigger] nodes[i] != #[trigger] nodes[j]
}

/// Node `v` stands somewhere among the first `upto` nodes.
pub open spec fn listed(nodes: Seq<usize>, upto: int, v: int) -> bool {
    exists|p: int| 0 <= p < upto && #[trigger] nodes[p] == v
}

/// Every node that `v` waits for stands among the first `upto` nodes.
pub open spec fn ready_at(edges: Seq<AiGraphEdge>, order: Seq<usize>, upto: int, v: int) -> bool {
    forall|i: int|
        0 <= i < edges.len() && #[trigger] target(edges, i) == v ==> listed(
            order,
            upto,
            source(edges, i),
        )
}

/// Each node stands after every node that it waits for.
pub open spec fn after_sources(edges: Seq<AiGraphEdge>, order: Seq<usize>) -> bool {
    forall|b: int, i: int|
        0 <= b < order.len() && 0 <= i < edges.len() && #[trigger] target(edges, i)
            == #[trigger] order[b] ==> listed(order, b, source(edges, i))
}

/// At each place stands the smallest of the nodes that are ready there and have not left.
pub open spec fn smallest_first(edges: Seq<AiGraphEdge>, n: int, order: Seq<usize>) -> bool {
    forall|b: int, v: int|
        0 <= b < order.len() && 0 <= v < n && !listed(order, b, v) && #[trigger] ready_at(
            edges,
            order,
            b,
            v,
        ) ==> order[b] <= v
}

/// `order` lists nodes below `n`, each after every node that it waits for. Of the nodes
/// that are ready, the one with the smallest id leaves first.
pub open spec fn release_order(edges: Seq<AiGraphEdge>, n: int, order: Seq<usize>) -> bool {
    &&& distinct_below(order, n)
    &&& after_sources(edges, order)
    &&& smallest_first(edges, n, order)
}

/// Listing one more node does not change what stands before.
proof fn front_stays(order: Seq<usize>, x: usize, b: int, v: int)
    requires
        b <= order.len(),
    ensures
        listed(order.push(x), b, v) == listed(order, b, v),
{
    let more = order.push(x);
    if listed(order, b, v) {
        let p = choose|p: int| 0 <= p < b && #[trigger] order[p] == v;
        assert(more[p] == v);
    }
    if listed(more, b, v) {
        let p = choose|p: int| 0 <= p < b && #[trigger] more[p] == v;
        assert(order[p] == v);
    }
}

/// The smallest node that is ready continues a release order.
proof fn order_grows(edges: Seq<AiGraphEdge>, n: int, order: Seq<usize>, x: usize)
    requires
        release_order(edges, n, order),
        x < n,
        !listed(order, order.len() as int, x as int),
        ready_at(edges, order, order.len() as int, x as int),
        forall|v: int|
            0 <= v < x && !listed(order, order.len() as int, v) ==> !#[trigger] ready_at(
                edges,
                order,
                order.len() as int,
                v,
            ),
    ensures
        release_order(edges, n, order.push(x)),
{
    let more = order.push(x);
    let len = order.len() as int;
    assert forall|a: int, b: int| 0 <= a < b < more.len() implies #[trigger] more[a]
        != #[trigger] more[b] by {
        if b == len {
            assert(order[a] == more[a]);
        }
    }
    assert forall|b: int, i: int|
        0 <= b < more.len() && 0 <= i < edges.len() && #[trigger] target(edges, i)
            == #[trigger] more[b] implies listed(more, b, source(edges, i)) by {
        front_stays(order, x, b, source(edges, i));
        if b < len {
            assert(target(edges, i) == order[b]);
        }
    }
    assert forall|b: int, v: int|
        0 <= b < more.len() && 0 <= v < n && !listed(more, b, v) && #[trigger] ready_at(
            edges,
            more,
            b,
            v,
        ) implies more[b] <= v by {
        front_stays(order, x, b, v);
        assert(ready_at(edges, order, b, v)) by {
            assert forall|i: int|
                0 <= i < edges.len() && #[trigger] target(edges, i) == v implies listed(
                order,
                b,
                source(edges, i),
            ) by {
                front_stays(order, x, b, source(edges, i));
            }
        }
    }
}

/// Edges into `v` among the first `k` that `live` still holds.
spec fn count_into(edges: Seq<AiGraphEdge>, live: Set<int>, v: int, k: int) -> nat
    decreases k,
{
    if k <= 0 {
        0
    } else {
        count_into(edges, live, v, k - 1) + if live.contains(k - 1) && target(edges, k - 1) == v {
            1nat
        } else {
            0nat
        }
    }
}

proof fn count_drops(edges: Seq<AiGraphEdge>, live: Set<int>, e: int, v: int, k: int)
    requires
        live.contains(e),
        0 <= e,
    ensures
        count_into(edges, live.remove(e), v, k) == count_into(edges, live, v, k) - if e < k
            && target(edges, e) == v {
            1int
        } else {
            0int
        },
    decreases k,
{
    if k > 0 {
        count_drops(edges, live, e, v, k - 1);
    }
}

proof fn count_zero(edges: Seq<AiGraphEdge>, live: Set<int>, v: int, k: int)
    ensures
        count_into(edges, live, v, k) == 0 <==> forall|i: int|
            0 <= i < k && live.contains(i) ==> #[trigger] target(edges, i) != v,
        count_into(edges, live, v, k) <= if k > 0 {
            k
        } else {
            0
        },
    decreases k,
{
    if k > 0 {
        count_zero(edges, live, v, k - 1);
    }
}

/// A node is ready exactly where no edge into it is held any more.
proof fn ready_by_count(edges: Seq<AiGraphEdge>, order: Seq<usize>, live: Set<int>, v: int)
    requires
        forall|e: int| #[trigger]
            live.contains(e) <==> 0 <= e < edges.len() && !listed(
                order,
                order.len() as int,
                source(edges, e),
            ),
    ensures
        ready_at(edges, order, order.len() as int, v) == (count_into(
            edges,
            live,
            v,
            edges.len() as int,
        ) == 0),
{
    count_zero(edges, live, v, edges.len() as int);
    if count_into(edges, live, v, edges.len() as int) == 0 {
        assert forall|i: int| 0 <= i < edges.len() && #[trigger] target(edges, i) == v implies listed(
            order,
            order.len() as int,
            source(edges, i),
        ) by {
            assert(!live.contains(i));
        }
    }
}

/// A node is listed after one more was, if it was before or is that one.
proof fn listed_grows(order: Seq<usize>, x: usize, v: int)
    ensures
        listed(order.push(x), order.len() as int + 1, v) == (listed(order, order.len() as int, v) || v
            == x),
{
    let more = order.push(x);
    if listed(order, order.len() as int, v) {
        let p = choose|p: int| 0 <= p < order.len() && #[trigger] order[p] == v;
        assert(more[p] == v);
    }
    if v == x {
        assert(more[order.len() as int] == v);
    }
    if listed(more, order.len() as int + 1, v) {
        let p = choose|p: int| 0 <= p < order.len() + 1 && #[trigger] more[p] == v;
        if p < order.len() {
            assert(order[p] == v);
        }
    }
}

/// A list of distinct nodes below `n` is no longer than `n`, and misses a node where
/// it is shorter.
proof fn distinct_bound(nodes: Seq<usize>, n: int)
    requires
        distinct_below(nodes, n),
        0 <= n,
    ensures
        nodes.len() <= n,
        nodes.len() < n ==> exists|v: int| 0 <= v < n && !#[trigger] listed(
            nodes,
            nodes.len() as int,
            v,
        ),
        nodes.len() == n ==> forall|v: int|
            0 <= v < n ==> #[trigger] listed(nodes, nodes.len() as int, v),
{
    let ids = nodes.map_values(|x: usize| x as int);
    assert(ids.no_duplicates());
    ids.unique_seq_to_set();
    let all = vstd::set_lib::set_int_range(0, n);
    vstd::set_lib::lemma_int_range(0, n);
    assert(ids.to_set().subset_of(all)) by {
        assert forall|v: int| ids.to_set().contains(v) implies all.contains(v) by {
            let p = choose|p: int| 0 <= p < ids.len() && ids[p] == v;
            assert(nodes[p] < n);
        }
    }
    vstd::set_lib::lemma_len_subset(ids.to_set(), all);
    if nodes.len() < n {
        if forall|v: int| 0 <= v < n ==> #[trigger] listed(nodes, nodes.len() as int, v) {
            assert(all.subset_of(ids.to_set())) by {
                assert forall|v: int| all.contains(v) implies ids.to_set().contains(v) by {
                    assert(listed(nodes, nodes.len() as int, v));
                    let p = choose|p: int| 0 <= p < nodes.len() && #[trigger] nodes[p] == v;
                    assert(ids[p] == v);
                }
            }
            vstd::set_lib::lemma_len_subset(all, ids.to_set());
        }
    }
    if nodes.len() == n {
        vstd::set_lib::lemma_subset_equality(ids.to_set(), all);
        assert forall|v: int| 0 <= v < n implies #[trigger] listed(nodes, nodes.len() as int, v) by {
            assert(all.contains(v));
            let p = choose|p: int| 0 <= p < ids.len() && ids[p] == v;
            assert(nodes[p] == v);
        }
    }
}

/// A list of `n` distinct nodes below `n` holds all of them.
pub proof fn full_order_lists_all(order: Seq<usize>, n: int)
    requires
        distinct_below(order, n),
        order.len() == n,
    ensures
        forall|v: int| 0 <= v < n ==> #[trigger] listed(order, n, v),
{
    distinct_bound(order, n);
}

/// An edge leads from the set to `v`.
spec fn fed_from(edges: Seq<AiGraphEdge>, set: Set<int>, v: int) -> bool {
    exists|u: int| set.contains(u) && #[trigger] adjacent(edges, u, v)
}

/// Where every node of a non-empty set has a predecessor in the set, there is a cycle.
proof fn closed_set_has_cycle(edges: Seq<AiGraphEdge>, n: int, set: Set<int>, start: int)
    requires
        0 <= n,
        set.contains(start),
        forall|v: int| set.contains(v) ==> 0 <= v < n,
        forall|v: int| set.contains(v) ==> #[trigger] fed_from(edges, set, v),
    ensures
        cyclic(edges),
{
    let walk = walk_back(edges, n, set, start, n as nat);
    if walk.no_duplicates() {
        walk.unique_seq_to_set();
        let all = vstd::set_lib::set_int_range(0, n);
        vstd::set_lib::lemma_int_range(0, n);
        assert(walk.to_set().subset_of(all)) by {
            assert forall|v: int| walk.to_set().contains(v) implies all.contains(v) by {
                let p = choose|p: int| 0 <= p < walk.len() && walk[p] == v;
                assert(set.contains(walk[p]));
            }
        }
        vstd::set_lib::lemma_len_subset(walk.to_set(), all);
        assert(false);
    }
    let (i, j) = choose|i: int, j: int|
        0 <= i < walk.len() && 0 <= j < walk.len() && i != j && walk[i] == walk[j];
    let lo = if i < j {
        i
    } else {
        j
    };
    let hi = if i < j {
        j
    } else {
        i
    };
    let cycle = walk.subrange(lo, hi + 1);
    assert forall|k: int| 0 <= k < cycle.len() - 1 implies adjacent(
        edges,
        #[trigger] cycle[k],
        cycle[k + 1],
    ) by {
        assert(cycle[k] == walk[lo + k] && cycle[k + 1] == walk[lo + k + 1]);
    }
    assert(is_path(edges, cycle));
}

proof fn walk_back(edges: Seq<AiGraphEdge>, n: int, set: Set<int>, start: int, steps: nat) -> (walk:
    Seq<int>)
    requires
        set.contains(start),
        forall|v: int| set.contains(v) ==> #[trigger] fed_from(edges, set, v),
    ensures
        walk.len() == steps + 1,
        is_path(edges, walk),
        forall|i: int| 0 <= i < walk.len() ==> set.contains(#[trigger] walk[i]),
    decreases steps,
{
    if steps == 0 {
        seq![start]
    } else {
        let tail = walk_back(edges, n, set, start, (steps - 1) as nat);
        assert(fed_from(edges, set, tail[0]));
        let u = choose|u: int| set.contains(u) && #[trigger] adjacent(edges, u, tail[0]);
        let walk = seq![u] + tail;
        assert forall|i: int| 0 <= i < walk.len() - 1 implies adjacent(
            edges,
            #[trigger] walk[i],
            walk[i + 1],
        ) by {
            if i > 0 {
                assert(walk[i] == tail[i - 1] && walk[i + 1] == tail[i - 1 + 1]);
            } else {
                assert(walk[0] == u && walk[1] == tail[0]);
            }
        }
        assert forall|i: int| 0 <= i < walk.len() implies set.contains(#[trigger] walk[i]) by {
            if i > 0 {
                assert(walk[i] == tail[i - 1]);
            }
        }
        walk
    }
}

/// A graph whose nodes can all be listed, each after the nodes that it waits for,
/// has no cycle.
pub proof fn full_order_has_no_cycle(edges: Seq<AiGraphEdge>, n: int, order: Seq<usize>)
    requires
        0 <= n,
        within(edges, n),
        release_order(edges, n, order),
        order.len() == n,
    ensures
        !cyclic(edges),
{
    distinct_bound(order, n);
    if cyclic(edges) {
        let path = choose|path: Seq<int>|
            #[trigger] is_path(edges, path) && path.len() >= 2 && path.first() == path.last();
        path_advances(edges, n, order, path);
        let (p, q) = choose|p: int, q: int|
            0 <= p < q < order.len() && #[trigger] order[p] == path.first() && #[trigger] order[q]
                == path.last();
        assert(order[p] != order[q]);
        assert(false);
    }
}

proof fn path_advances(edges: Seq<AiGraphEdge>, n: int, order: Seq<usize>, path: Seq<int>)
    requires
        within(edges, n),
        distinct_below(order, n),
        after_sources(edges, order),
        forall|v: int| 0 <= v < n ==> #[trigger] listed(order, order.len() as int, v),
        is_path(edges, path),
        path.len() >= 2,
    ensures
        exists|p: int, q: int|
            0 <= p < q < order.len() && #[trigger] order[p] == path.first() && #[trigger] order[q]
                == path.last(),
    decreases path.len(),
{
    let last = path.last();
    let prior = path[path.len() - 2];
    assert(adjacent(edges, path[path.len() - 2], path[path.len() - 2 + 1]));
    let e = choose|e: int|
        0 <= e < edges.len() && source(edges, e) == prior && #[trigger] target(edges, e) == last;
    assert(edges[e].to_node.0 < n);
    assert(listed(order, order.len() as int, last));
    let q = choose|q: int| 0 <= q < order.len() && #[trigger] order[q] == last;
    assert(target(edges, e) == order[q]);
    assert(listed(order, q, prior));
    let m = choose|m: int| 0 <= m < q && #[trigger] order[m] == prior;
    if path.len() == 2 {
        assert(order[m] == path.first() && order[q] == path.last());
    } else {
        let shorter = path.drop_last();
        assert forall|i: int| 0 <= i < shorter.len() - 1 implies adjacent(
            edges,
            #[trigger] shorter[i],
            shorter[i + 1],
        ) by {
            assert(shorter[i] == path[i] && shorter[i + 1] == path[i + 1]);
        }
        path_advances(edges, n, order, shorter);
        let (p, m2) = choose|p: int, m2: int|
            0 <= p < m2 < order.len() && #[trigger] order[p] == shorter.first()
                && #[trigger] order[m2] == shorter.last();
        assert(order[m2] == order[m]);
        assert(m == m2);
        assert(order[p] == path.first() && order[q] == path.last());
    }
}

/// A graph has at most one release order of all its nodes.
pub proof fn release_order_unique(
    edges: Seq<AiGraphEdge>,
    n: int,
    one: Seq<usize>,
    other: Seq<usize>,
)
    requires
        release_order(edges, n, one),
        release_order(edges, n, other),
        one.len() == n,
        other.len() == n,
    ensures
        one == other,
{
    orders_agree(edges, n, one, other, n as nat);
    assert(one =~= other);
}

proof fn orders_agree(
    edges: Seq<AiGraphEdge>,
    n: int,
    one: Seq<usize>,
    other: Seq<usize>,
    k: nat,
)
    requires
        k <= n,
        release_order(edges, n, one),
        release_order(edges, n, other),
        one.len() == n,
        other.len() == n,
    ensures
        forall|i: int| 0 <= i < k ==> one[i] == other[i],
    decreases k,
{
    if k > 0 {
        orders_agree(edges, n, one, other, (k - 1) as nat);
        not_above(edges, n, one, other, k - 1);
        not_above(edges, n, other, one, k - 1);
    }
}

/// Behind the same front, no release order has a larger node than another.
proof fn not_above(
    edges: Seq<AiGraphEdge>,
    n: int,
    one: Seq<usize>,
    other: Seq<usize>,
    at: int,
)
    requires
        release_order(edges, n, one),
        release_order(edges, n, other),
        0 <= at < one.len(),
        at < other.len(),
        forall|i: int| 0 <= i < at ==> one[i] == other[i],
    ensures
        one[at] <= other[at],
{
    let y = other[at] as int;
    if listed(one, at, y) {
        let p = choose|p: int| 0 <= p < at && #[trigger] one[p] == y;
        assert(other[p] == other[at]);
    }
    assert(ready_at(edges, one, at, y)) by {
        assert forall|i: int| 0 <= i < edges.len() && #[trigger] target(edges, i) == y implies listed(
            one,
            at,
            source(edges, i),
        ) by {
            assert(target(edges, i) == other[at]);
            assert(listed(other, at, source(edges, i)));
            let p = choose|p: int| 0 <= p < at && #[trigger] other[p] == source(edges, i);
            assert(one[p] == source(edges, i));
        }
    }
}

/// `list` holds, in ascending order, those of the first `upto` edges that leave `u`.
spec fn edges_of(edges: Seq<AiGraphEdge>, list: Seq<usize>, u: int, upto: int) -> bool {
    &&& forall|j: int|
        0 <= j < list.len() ==> #[trigger] list[j] < upto && source(edges, list[j] as int) == u
    &&& forall|j: int, k: int| 0 <= j < k < list.len() ==> #[trigger] list[j] < #[trigger] list[k]
    &&& forall|e: int|
        0 <= e < upto && #[trigger] source(edges, e) == u ==> listed(list, list.len() as int, e)
}

/// Lists the nodes, each after those that it waits for and the smallest ready one first,
/// until none is left or every node that is left waits for another.
pub fn kahn_order(node_count: usize, edges: &[AiGraphEdge]) -> (r: Vec<usize>)
    requires
        within(edges@, node_count as int),
    ensures
        release_order(edges@, node_count as int, r@),
        r@.len() <= node_count,
        forall|v: int|
            0 <= v < node_count && #[trigger] ready_at(edges@, r@, r@.len() as int, v) ==> listed(
                r@,
                r@.len() as int,
                v,
            ),
        (r@.len() == node_count) == !cyclic(edges@),
{
    let ghost n = node_count as int;
    let ghost m = edges@.len() as int;
    let ghost all = Set::new(|e: int| 0 <= e < m);
    let mut indegree: Vec<usize> = Vec::new();
    let mut outgoing: Vec<Vec<usize>> = Vec::new();
    let mut v: usize = 0;
    while v < node_count
        invariant
            v <= node_count,
            indegree@.len() == v,
            outgoing@.len() == v,
            forall|u: int| 0 <= u < v ==> #[trigger] indegree@[u] == 0,
            forall|u: int| 0 <= u < v ==> (#[trigger] outgoing@[u])@.len() == 0,
        decreases node_count - v,
    {
        indegree.push(0);
        outgoing.push(Vec::new());
        v = v + 1;
    }
    let mut i: usize = 0;
    while i < edges.len()
        invariant
            i <= edges@.len() == m,
            n == node_count,
            within(edges@, n),
            all == Set::new(|e: int| 0 <= e < m),
            indegree@.len() == n,
            outgoing@.len() == n,
            forall|u: int|
                0 <= u < n ==> #[trigger] indegree@[u] == count_into(edges@, all, u, i as int),
            forall|u: int|
                0 <= u < n ==> edges_of(edges@, (#[trigger] outgoing@[u])@, u, i as int),
        decreases edges@.len() - i,
    {
        let from: usize = edges[i].from_node.as_usize();
        let to: usize = edges[i].to_node.as_usize();
        assert(edges@[i as int].from_node.0 < n);
        proof {
            count_zero(edges@, all, to as int, i as int);
        }
        let ghost before = outgoing@;
        let ghost degrees = indegree@;
        outgoing[from].push(i);
        let degree: usize = indegree[to];
        indegree[to] = degree + 1;
        i = i + 1;
        assert forall|u: int| 0 <= u < n implies edges_of(
            edges@,
            (#[trigger] outgoing@[u])@,
            u,
            i as int,
        ) by {
            let old_list = before[u]@;
            let list = outgoing@[u]@;
            assert(edges_of(edges@, old_list, u, i - 1));
            if u == from {
                assert(list == old_list.push((i - 1) as usize));
            }
            assert forall|e: int| 0 <= e < i && #[trigger] source(edges@, e) == u implies listed(
                list,
                list.len() as int,
                e,
            ) by {
                if e < i - 1 {
                    assert(listed(old_list, old_list.len() as int, e));
                    let p = choose|p: int| 0 <= p < old_list.len() && #[trigger] old_list[p] == e;
                    assert(list[p] == e);
                } else {
                    assert(list[list.len() - 1] == e);
                }
            }
        }
    }
    let mut order: Vec<usize> = Vec::new();
    let mut left: Vec<bool> = Vec::new();
    let mut v: usize = 0;
    while v < node_count
        invariant
            v <= node_count,
            left@.len() == v,
            forall|u: int| 0 <= u < v ==> #[trigger] left@[u],
        decreases node_count - v,
    {
        left.push(true);
        v = v + 1;
    }
    let ghost mut live = all;
    let mut low: usize = 0;
    while low < node_count
        invariant
            low <= n == node_count,
            m == edges@.len(),
            within(edges@, n),
            order@.len() <= n,
            indegree@.len() == n,
            outgoing@.len() == n,
            left@.len() == n,
            forall|u: int| 0 <= u < n ==> edges_of(edges@, (#[trigger] outgoing@[u])@, u, m),
            release_order(edges@, n, order@),
            forall|e: int| #[trigger]
                live.contains(e) <==> 0 <= e < m && !listed(
                    order@,
                    order@.len() as int,
                    source(edges@, e),
                ),
            forall|u: int|
                0 <= u < n ==> #[trigger] indegree@[u] == count_into(edges@, live, u, m),
            forall|u: int|
                0 <= u < n ==> #[trigger] listed(order@, order@.len() as int, u) == !left@[u],
            forall|u: int| 0 <= u < low && #[trigger] left@[u] ==> indegree@[u] > 0,
        decreases n - order@.len(), n - low,
    {
        if !left[low] || indegree[low] > 0 {
            low = low + 1;
            continue;
        }
        let u: usize = low;
        let ghost was = order@;
        let ghost len = order@.len() as int;
        proof {
            assert(!listed(was, len, u as int));
            ready_by_count(edges@, was, live, u as int);
            assert forall|w: int| 0 <= w < u && !listed(was, len, w) implies !#[trigger] ready_at(
                edges@,
                was,
                len,
                w,
            ) by {
                assert(left@[w]);
                ready_by_count(edges@, was, live, w);
            }
            order_grows(edges@, n, was, u);
        }
        order.push(u);
        left[u] = false;
        proof {
            distinct_bound(order@, n);
            assert forall|w: int| 0 <= w < n implies #[trigger] listed(order@, len + 1, w)
                == !left@[w] by {
                listed_grows(was, u, w);
            }
        }
        let ghost list = outgoing@[u as int]@;
        assert(edges_of(edges@, outgoing@[u as int]@, u as int, m));
        let mut j: usize = 0;
        while j < outgoing[u].len()
            invariant
                j <= list.len(),
                u < n == node_count,
                u <= node_count,
                low <= u,
                m == edges@.len(),
                within(edges@, n),
                indegree@.len() == n,
                outgoing@.len() == n,
                left@.len() == n,
                list == outgoing@[u as int]@,
                edges_of(edges@, list, u as int, m),
                order@.len() == len + 1,
                !listed(was, len, u as int),
                forall|e: int| #[trigger]
                    live.contains(e) <==> 0 <= e < m && !listed(was, len, source(edges@, e))
                        && !listed(list, j as int, e),
                forall|x: int|
                    0 <= x < n ==> #[trigger] indegree@[x] == count_into(edges@, live, x, m),
                forall|x: int| 0 <= x < low && #[trigger] left@[x] ==> indegree@[x] > 0,
            decreases list.len() - j,
        {
            let edge: usize = outgoing[u][j];
            let next: usize = edges[edge].to_node.as_usize();
            let ghost e = edge as int;
            let ghost x = next as int;
            assert(edges@[e].to_node.0 < n);
            assert(list[j as int] == edge);
            assert(source(edges@, e) == u);
            assert(live.contains(e)) by {
                assert(!listed(list, j as int, e));
            }
            proof {
                count_zero(edges@, live, x, m);
                assert(target(edges@, e) == x);
                assert forall|y: int| 0 <= y < n implies count_into(edges@, live.remove(e), y, m)
                    == count_into(edges@, live, y, m) - if y == x {
                    1int
                } else {
                    0int
                } by {
                    count_drops(edges@, live, e, y, m);
                }
                live = live.remove(e);
            }
            let degree: usize = indegree[next];
            indegree[next] = degree - 1;
            if degree - 1 == 0 && next < low {
                low = next;
            }
            assert forall|f: int| #[trigger]
                live.contains(f) <==> 0 <= f < m && !listed(was, len, source(edges@, f))
                    && !listed(list, j + 1, f) by {
                if listed(list, j + 1, f) {
                    let p = choose|p: int| 0 <= p < j + 1 && #[trigger] list[p] == f;
                    if p < j {
                        assert(listed(list, j as int, f));
                    }
                }
                if listed(list, j as int, f) {
                    let p = choose|p: int| 0 <= p < j && #[trigger] list[p] == f;
                    assert(listed(list, j + 1, f));
                }
                if f == e {
                    assert(listed(list, j + 1, f));
                }
            }
            j = j + 1;
        }
        assert forall|e: int| #[trigger]
            live.contains(e) <==> 0 <= e < m && !listed(order@, len + 1, source(edges@, e)) by {
            let from = source(edges@, e);
            listed_grows(was, u, from);
            if 0 <= e < m && from == u {
                assert(listed(list, list.len() as int, e));
            }
            if listed(list, list.len() as int, e) {
                let p = choose|p: int| 0 <= p < list.len() && #[trigger] list[p] == e;
                assert(source(edges@, list[p] as int) == u);
            }
        }
    }
    proof {
        assert forall|v: int|
            0 <= v < n && #[trigger] ready_at(edges@, order@, order@.len() as int, v) implies listed(
            order@,
            order@.len() as int,
            v,
        ) by {
            ready_by_count(edges@, order@, live, v);
            assert(left@[v] ==> indegree@[v] > 0);
        }
    }
    proof {
        distinct_bound(order@, n);
        if order@.len() == n {
            full_order_has_no_cycle(edges@, n, order@);
        } else {
            let rest = Set::new(|x: int| 0 <= x < n && !listed(order@, order@.len() as int, x));
            let start = choose|x: int|
                0 <= x < n && !#[trigger] listed(order@, order@.len() as int, x);
            assert(rest.contains(start));
            assert forall|x: int| rest.contains(x) implies #[trigger] fed_from(edges@, rest, x) by {
                assert(left@[x]);
                assert(indegree@[x] > 0);
                count_zero(edges@, live, x, m);
                let e = choose|e: int|
                    0 <= e < m && live.contains(e) && #[trigger] target(edges@, e) == x;
                assert(edges@[e].from_node.0 < n);
                assert(rest.contains(source(edges@, e)));
                assert(adjacent(edges@, source(edges@, e), x));
            }
            closed_set_has_cycle(edges@, n, rest, start);
        }
    }
    order
}

/// Whether the dependencies of `node_count` nodes go round in a circle.
pub fn has_cycle(node_count: usize, edges: &[AiGraphEdge]) -> (r: bool)
    requires
        within(edges@, node_count as int),
    ensures
        r == cyclic(edges@),
{
    kahn_order(node_count, edges).len() != node_count
}


/// A graph whose edges all lead from smaller ids to larger ones runs in the order of the ids.
pub proof fn upward_graphs_run_by_id(edges: Seq<AiGraphEdge>, n: int, order: Seq<usize>, p: int)
    requires
        release_order(edges, n, order),
        order.len() == n,
        forall|e: int|
            0 <= e < edges.len() ==> (#[trigger] edges[e]).from_node.0 < edges[e].to_node.0,
        0 <= p < n,
    ensures
        order[p] == p,
    decreases p,
{
    assert forall|q: int| 0 <= q < p implies #[trigger] order[q] == q by {
        upward_graphs_run_by_id(edges, n, order, q);
    }
    assert(!listed(order, p, p));
    assert(ready_at(edges, order, p, p)) by {
        assert forall|i: int| 0 <= i < edges.len() && #[trigger] target(edges, i) == p implies listed(
            order,
            p,
            source(edges, i),
        ) by {
            assert(edges[i].from_node.0 < edges[i].to_node.0);
            assert(order[source(edges, i)] == source(edges, i));
        }
    }
    assert(order[p] <= p);
    if order[p] < p {
        assert(order[order[p] as int] == order[p]);
    }
}

} // verus!

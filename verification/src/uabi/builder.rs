//! Building a graph node by node.

use crate::uabi::dag::{AiGraphChainId, AiGraphEdge, AiGraphNodeId};
use crate::uabi::desc::AiKernelDesc;
use crate::uabi::graph::{AiGraphBlob, AiGraphBuildError};
use crate::uabi::node::{AiGraphNode, AiGraphState};
use vstd::prelude::*;

verus! {

/// A graph under construction.
pub struct GraphManager {
    nodes: Vec<AiGraphNode>,
    edges: Vec<AiGraphEdge>,
}

/// Number of entries that are false.
spec fn open_count(marks: Seq<bool>) -> nat
    decreases marks.len(),
{
    if marks.len() == 0 {
        0
    } else {
        open_count(marks.drop_last()) + if marks.last() {
            0nat
        } else {
            1nat
        }
    }
}

proof fn open_count_drops(marks: Seq<bool>, i: int)
    requires
        0 <= i < marks.len(),
        !marks[i],
    ensures
        open_count(marks.update(i, true)) == open_count(marks) - 1,
    decreases marks.len(),
{
    let after = marks.update(i, true);
    if i == marks.len() - 1 {
        assert(after.drop_last() =~= marks.drop_last());
    } else {
        assert(after.drop_last() =~= marks.drop_last().update(i, true));
        open_count_drops(marks.drop_last(), i);
    }
}

/// The node waits to be looked at.
spec fn stacked(stack: Seq<AiGraphNodeId>, v: int) -> bool {
    exists|k: int| 0 <= k < stack.len() && (#[trigger] stack[k]).0 == v
}

/// The node has been looked at, waits to be, or leads nowhere and is not the goal.
spec fn covered(marks: Seq<bool>, stack: Seq<AiGraphNodeId>, goal: int, v: int) -> bool {
    ||| 0 <= v < marks.len() && marks[v]
    ||| stacked(stack, v)
    ||| v >= marks.len() && v != goal
}

/// Every successor of a node that has been looked at is covered.
spec fn closed_under_edges(
    edges: Seq<AiGraphEdge>,
    marks: Seq<bool>,
    stack: Seq<AiGraphNodeId>,
    goal: int,
) -> bool {
    forall|e: int|
        0 <= e < edges.len() && marks[crate::uabi::dag::source(edges, e)] ==> covered(
            marks,
            stack,
            goal,
            #[trigger] crate::uabi::dag::target(edges, e),
        )
}

/// Where every successor is covered and nothing waits, the goal is not reached.
proof fn covered_misses_goal(
    edges: Seq<AiGraphEdge>,
    marks: Seq<bool>,
    path: Seq<int>,
    goal: int,
)
    requires
        crate::uabi::dag::within(edges, marks.len() as int),
        closed_under_edges(edges, marks, Seq::empty(), goal),
        covered(marks, Seq::empty(), goal, path.first()),
        crate::uabi::dag::is_path(edges, path),
        0 <= goal,
        0 <= goal < marks.len() ==> !marks[goal],
    ensures
        path.last() != goal,
        covered(marks, Seq::empty(), goal, path.last()),
    decreases path.len(),
{
    if path.len() > 1 {
        let shorter = path.drop_last();
        assert forall|i: int| 0 <= i < shorter.len() - 1 implies crate::uabi::dag::adjacent(
            edges,
            #[trigger] shorter[i],
            shorter[i + 1],
        ) by {
            assert(shorter[i] == path[i] && shorter[i + 1] == path[i + 1]);
        }
        covered_misses_goal(edges, marks, shorter, goal);
        let prior = path[path.len() - 2];
        assert(crate::uabi::dag::adjacent(edges, path[path.len() - 2], path[path.len() - 2 + 1]));
        let e = choose|e: int|
            0 <= e < edges.len() && crate::uabi::dag::source(edges, e) == prior
                && #[trigger] crate::uabi::dag::target(edges, e) == path.last();
        assert(edges[e].from_node.0 < marks.len() && edges[e].to_node.0 < marks.len());
        assert(shorter.last() == prior);
    }
}

impl GraphManager {
    /// The nodes so far; the id of a node is its index.
    pub closed spec fn nodes(&self) -> Seq<AiGraphNode> {
        self.nodes@
    }

    /// The edges so far.
    pub closed spec fn edges(&self) -> Seq<AiGraphEdge> {
        self.edges@
    }

    /// What every graph under construction keeps: it is a graph without a cycle.
    pub open spec fn wf(&self) -> bool {
        crate::uabi::graph::valid_graph(self.nodes(), self.edges())
    }

    /// Whether the id names a node of the graph.
    pub open spec fn has_node(&self, id: AiGraphNodeId) -> bool {
        id.0 < self.nodes().len()
    }

    /// The node that a kernel becomes when it is appended.
    pub open spec fn next_node(&self, desc: AiKernelDesc) -> AiGraphNode {
        AiGraphNode {
            node_id: AiGraphNodeId(self.nodes().len() as u32),
            desc,
            state: AiGraphState { complete: 0, error_flag: 0 },
        }
    }

    /// A graph without nodes.
    pub fn new() -> (r: Self)
        ensures
            r.wf(),
            r.nodes() == Seq::<AiGraphNode>::empty(),
            r.edges() == Seq::<AiGraphEdge>::empty(),
    {
        let r = GraphManager { nodes: Vec::new(), edges: Vec::new() };
        proof {
            if crate::uabi::dag::cyclic(r.edges@) {
                let path = choose|path: Seq<int>|
                    #[trigger] crate::uabi::dag::is_path(r.edges@, path) && path.len() >= 2
                        && path.first() == path.last();
                assert(crate::uabi::dag::adjacent(r.edges@, path[0], path[0int + 1]));
            }
        }
        r
    }

    /// Appends a kernel that waits for nothing; its id ends a new chain.
    pub fn push_kernel_no_depend(&mut self, desc: AiKernelDesc) -> (r: Result<
        AiGraphChainId,
        AiGraphBuildError,
    >)
        requires
            old(self).wf(),
        ensures
            final(self).wf(),
            final(self).edges() == old(self).edges(),
            if old(self).nodes().len() <= u32::MAX {
                &&& r == Ok::<AiGraphChainId, AiGraphBuildError>(
                    AiGraphNodeId(old(self).nodes().len() as u32),
                )
                &&& final(self).nodes() == old(self).nodes().push(old(self).next_node(desc))
            } else {
                &&& r == Err::<AiGraphChainId, AiGraphBuildError>(AiGraphBuildError::TooManyNodes)
                &&& final(self).nodes() == old(self).nodes()
            },
            old(self).append_outcome(Seq::<AiGraphNodeId>::empty(), desc, *final(self), r),
    {
        let r = self.push_node(desc);
        assert(self.edges() =~= old(self).edges() + Seq::<AiGraphEdge>::new(
            0,
            |i: int|
                AiGraphEdge {
                    from_node: Seq::<AiGraphNodeId>::empty()[i],
                    to_node: AiGraphNodeId(old(self).nodes().len() as u32),
                },
        ));
        r
    }

    /// Appends a kernel that waits for the end of one chain.
    pub fn push_kernel_depend(&mut self, depend: AiGraphChainId, desc: AiKernelDesc) -> (r: Result<
        AiGraphChainId,
        AiGraphBuildError,
    >)
        requires
            old(self).wf(),
        ensures
            final(self).wf(),
            old(self).append_outcome(seq![depend], desc, *final(self), r),
    {
        let depends: Vec<AiGraphNodeId> = vec![depend];
        assert(depends@ =~= seq![depend]);
        self.push_kernel_depend_many(&depends, desc)
    }

    /// How appending a kernel that waits for `depends` turns out: where one of them
    /// names no node, the first such is the error; else the kernel gets the next id
    /// and one edge for each of them, in order. An error leaves the graph as it was.
    pub open spec fn append_outcome(
        &self,
        depends: Seq<AiGraphNodeId>,
        desc: AiKernelDesc,
        after: Self,
        r: Result<AiGraphChainId, AiGraphBuildError>,
    ) -> bool {
        let id = AiGraphNodeId(self.nodes().len() as u32);
        match r {
            Ok(tail) => {
                &&& forall|i: int| 0 <= i < depends.len() ==> self.has_node(#[trigger] depends[i])
                &&& self.nodes().len() <= u32::MAX
                &&& tail == id
                &&& after.nodes() == self.nodes().push(self.next_node(desc))
                &&& after.edges() == self.edges() + Seq::new(
                    depends.len(),
                    |i: int| AiGraphEdge { from_node: depends[i], to_node: id },
                )
            },
            Err(err) => {
                &&& after.nodes() == self.nodes()
                &&& after.edges() == self.edges()
                &&& if forall|i: int|
                    0 <= i < depends.len() ==> self.has_node(#[trigger] depends[i]) {
                    self.nodes().len() > u32::MAX && err == AiGraphBuildError::TooManyNodes
                } else {
                    exists|i: int|
                        0 <= i < depends.len() && !self.has_node(depends[i]) && (forall|j: int|
                            0 <= j < i ==> self.has_node(#[trigger] depends[j])) && err
                            == AiGraphBuildError::InvalidDepend(#[trigger] depends[i])
                }
            },
        }
    }

    /// Appends a kernel that waits for the ends of several chains.
    pub fn push_kernel_depend_many(
        &mut self,
        depends: &[AiGraphChainId],
        desc: AiKernelDesc,
    ) -> (r: Result<AiGraphChainId, AiGraphBuildError>)
        requires
            old(self).wf(),
        ensures
            final(self).wf(),
            old(self).append_outcome(depends@, desc, *final(self), r),
    {
        let mut i: usize = 0;
        while i < depends.len()
            invariant
                i <= depends@.len(),
                *self == *old(self),
                self.wf(),
                forall|j: int| 0 <= j < i ==> self.has_node(#[trigger] depends@[j]),
            decreases depends@.len() - i,
        {
            match self.validate_node_id(depends[i]) {
                Ok(()) => {},
                Err(err) => {
                    assert(!self.has_node(depends@[i as int]));
                    return Err(err);
                },
            }
            i = i + 1;
        }
        let node_id: AiGraphNodeId = match self.push_node(desc) {
            Ok(id) => id,
            Err(err) => {
                return Err(err);
            },
        };
        let ghost base = self.edges@;
        let ghost n = old(self).nodes@.len() as int;
        let mut i: usize = 0;
        while i < depends.len()
            invariant
                i <= depends@.len(),
                self.wf(),
                old(self).wf(),
                n == old(self).nodes@.len() <= u32::MAX,
                node_id.0 == n,
                base == old(self).edges@,
                self.nodes@ == old(self).nodes@.push(old(self).next_node(desc)),
                forall|j: int| 0 <= j < depends@.len() ==> (#[trigger] depends@[j]).0 < n,
                self.edges@ == base + Seq::new(
                    i as nat,
                    |j: int| AiGraphEdge { from_node: depends@[j], to_node: node_id },
                ),
            decreases depends@.len() - i,
        {
            let depend: AiGraphNodeId = depends[i];
            let ghost before = self.edges@;
            assert(depends@[i as int].0 < n);
            proof {
                assert forall|e: int| 0 <= e < before.len() implies crate::uabi::dag::source(
                    before,
                    e,
                ) != n by {
                    if e < base.len() {
                        assert(before[e] == base[e]);
                        assert(base[e].from_node.0 < n);
                    } else {
                        assert(before[e].from_node == depends@[e - base.len()]);
                    }
                }
                lone_node_reaches_itself_only(before, n, depend.0 as int);
            }
            match self.push_edge_checked(depend, node_id) {
                Ok(()) => {},
                Err(err) => {
                    assert(false);
                    return Err(err);
                },
            }
            i = i + 1;
            assert(self.edges@ =~= base + Seq::new(
                i as nat,
                |j: int| AiGraphEdge { from_node: depends@[j], to_node: node_id },
            ));
        }
        Ok(node_id)
    }

    /// Freezes the graph into a blob.
    pub fn freeze(&self) -> (r: Result<AiGraphBlob, AiGraphBuildError>)
        requires
            self.wf(),
        ensures
            match r {
                Ok(blob) => {
                    &&& 4 * crate::uabi::graph::blob_len(
                        self.nodes().len() as int,
                        self.edges().len() as int,
                    ) <= u32::MAX
                    &&& blob@ == crate::uabi::graph::blob_bytes(self.nodes(), self.edges())
                },
                Err(err) => {
                    &&& 4 * crate::uabi::graph::blob_len(
                        self.nodes().len() as int,
                        self.edges().len() as int,
                    ) > u32::MAX
                    &&& err == if self.nodes().len() > u32::MAX {
                        AiGraphBuildError::TooManyNodes
                    } else if self.edges().len() > u32::MAX {
                        AiGraphBuildError::TooManyEdges
                    } else {
                        AiGraphBuildError::SizeOverflow
                    }
                },
            },
    {
        AiGraphBlob::from_parts(&self.nodes, &self.edges)
    }

    /// Appends a node whose id is its index.
    fn push_node(&mut self, desc: AiKernelDesc) -> (r: Result<AiGraphChainId, AiGraphBuildError>)
        requires
            old(self).wf(),
        ensures
            final(self).wf(),
            final(self).edges() == old(self).edges(),
            if old(self).nodes().len() <= u32::MAX {
                &&& r == Ok::<AiGraphChainId, AiGraphBuildError>(
                    AiGraphNodeId(old(self).nodes().len() as u32),
                )
                &&& final(self).nodes() == old(self).nodes().push(old(self).next_node(desc))
            } else {
                &&& r == Err::<AiGraphChainId, AiGraphBuildError>(AiGraphBuildError::TooManyNodes)
                &&& final(self).nodes() == old(self).nodes()
            },
    {
        if self.nodes.len() as u64 > u32::MAX as u64 {
            return Err(AiGraphBuildError::TooManyNodes);
        }
        let node_id = AiGraphNodeId(self.nodes.len() as u32);
        self.nodes.push(
            AiGraphNode { node_id, desc, state: AiGraphState { complete: 0, error_flag: 0 } },
        );
        Ok(node_id)
    }

    /// Checks that an id names a node of the graph.
    fn validate_node_id(&self, node_id: AiGraphNodeId) -> (r: Result<(), AiGraphBuildError>)
        requires
            self.wf(),
        ensures
            r == (if self.has_node(node_id) {
                Ok::<(), AiGraphBuildError>(())
            } else {
                Err(AiGraphBuildError::InvalidDepend(node_id))
            }),
    {
        let idx: usize = node_id.as_usize();
        if idx >= self.nodes.len() || self.nodes[idx].node_id != node_id {
            return Err(AiGraphBuildError::InvalidDepend(node_id));
        }
        Ok(())
    }

    /// Adds an edge, unless it names no node or closes a cycle.
    pub fn push_edge_checked(&mut self, from: AiGraphNodeId, to: AiGraphNodeId) -> (r: Result<
        (),
        AiGraphBuildError,
    >)
        requires
            old(self).wf(),
        ensures
            final(self).wf(),
            final(self).nodes() == old(self).nodes(),
            r == (if !old(self).has_node(from) {
                Err::<(), AiGraphBuildError>(AiGraphBuildError::InvalidDepend(from))
            } else if !old(self).has_node(to) {
                Err(AiGraphBuildError::InvalidDepend(to))
            } else if crate::uabi::dag::reachable(old(self).edges(), to.0 as int, from.0 as int) {
                Err(AiGraphBuildError::CycleDetected)
            } else {
                Ok(())
            }),
            final(self).edges() == (if r is Ok {
                old(self).edges().push(AiGraphEdge { from_node: from, to_node: to })
            } else {
                old(self).edges()
            }),
    {
        match self.validate_node_id(from) {
            Ok(()) => {},
            Err(err) => {
                return Err(err);
            },
        }
        match self.validate_node_id(to) {
            Ok(()) => {},
            Err(err) => {
                return Err(err);
            },
        }
        proof {
            if from == to {
                crate::uabi::dag::reachable_self(self.edges@, to.0 as int);
            }
            crate::uabi::dag::edge_closes_cycle(
                self.edges@,
                AiGraphEdge { from_node: from, to_node: to },
            );
        }
        if from == to || self.reaches(to, from) {
            return Err(AiGraphBuildError::CycleDetected);
        }
        self.edges.push(AiGraphEdge { from_node: from, to_node: to });
        Ok(())
    }

    /// Whether a path leads from `start` to `goal`.
    fn reaches(&self, start: AiGraphNodeId, goal: AiGraphNodeId) -> (r: bool)
        requires
            self.wf(),
        ensures
            r == crate::uabi::dag::reachable(self.edges(), start.0 as int, goal.0 as int),
    {
        let ghost edges = self.edges@;
        let ghost g = goal.0 as int;
        let mut stack: Vec<AiGraphNodeId> = vec![start];
        let mut visited: Vec<bool> = Vec::new();
        let mut i: usize = 0;
        while i < self.nodes.len()
            invariant
                i <= self.nodes@.len(),
                visited@.len() == i,
                forall|v: int| 0 <= v < i ==> !#[trigger] visited@[v],
            decreases self.nodes@.len() - i,
        {
            visited.push(false);
            i = i + 1;
        }
        proof {
            crate::uabi::dag::reachable_self(edges, start.0 as int);
            assert(stack@[0].0 == start.0);
            assert forall|e: int| 0 <= e < edges.len() implies !visited@[crate::uabi::dag::source(
                edges,
                e,
            )] by {
                assert(edges[e].from_node.0 < self.nodes@.len());
            }
        }
        loop
            invariant
                self.wf(),
                edges == self.edges@,
                g == goal.0,
                visited@.len() == self.nodes@.len(),
                forall|k: int|
                    0 <= k < stack@.len() ==> crate::uabi::dag::reachable(
                        edges,
                        start.0 as int,
                        (#[trigger] stack@[k]).0 as int,
                    ),
                closed_under_edges(edges, visited@, stack@, g),
                covered(visited@, stack@, g, start.0 as int),
                g < visited@.len() ==> !visited@[g],
            decreases open_count(visited@), stack@.len(),
        {
            let ghost was = stack@;
            let node_id: AiGraphNodeId = match stack.pop() {
                Some(id) => id,
                None => {
                    proof {
                        assert(stack@ =~= Seq::<AiGraphNodeId>::empty());
                        if crate::uabi::dag::reachable(edges, start.0 as int, g) {
                            let path = choose|path: Seq<int>|
                                #[trigger] crate::uabi::dag::is_path(edges, path) && path.first()
                                    == start.0 && path.last() == g;
                            covered_misses_goal(edges, visited@, path, g);
                        }
                    }
                    return false;
                },
            };
            let ghost v = node_id.0 as int;
            assert(was[was.len() - 1] == node_id);
            assert(crate::uabi::dag::reachable(edges, start.0 as int, was[was.len() - 1].0 as int));
            if node_id == goal {
                return true;
            }
            let idx: usize = node_id.as_usize();
            assert forall|w: int|
                w != v && covered(visited@, was, g, w) implies covered(visited@, stack@, g, w) by {
                if exists|k: int| 0 <= k < was.len() && (#[trigger] was[k]).0 == w {
                    let k = choose|k: int| 0 <= k < was.len() && (#[trigger] was[k]).0 == w;
                    assert(stack@[k].0 == w);
                }
            }
            if idx >= visited.len() || visited[idx] {
                assert(covered(visited@, stack@, g, v));
                continue;
            }
            let ghost marks = visited@;
            proof {
                open_count_drops(marks, v);
            }
            visited[idx] = true;
            let ghost rest = stack@;
            let mut e: usize = 0;
            while e < self.edges.len()
                invariant
                    e <= self.edges@.len(),
                    self.wf(),
                    edges == self.edges@,
                    crate::uabi::dag::reachable(edges, start.0 as int, v),
                    v == node_id.0,
                    rest.len() <= stack@.len(),
                    forall|k: int| 0 <= k < rest.len() ==> stack@[k] == rest[k],
                    forall|k: int|
                        0 <= k < stack@.len() ==> crate::uabi::dag::reachable(
                            edges,
                            start.0 as int,
                            (#[trigger] stack@[k]).0 as int,
                        ),
                    forall|d: int|
                        0 <= d < e && crate::uabi::dag::source(edges, d) == v ==> stacked(
                            stack@,
                            #[trigger] crate::uabi::dag::target(edges, d),
                        ),
                decreases self.edges@.len() - e,
            {
                let edge: AiGraphEdge = self.edges[e];
                let ghost held = stack@;
                if edge.from_node == node_id {
                    proof {
                        assert(crate::uabi::dag::target(edges, e as int) == edge.to_node.0);
                        assert(crate::uabi::dag::adjacent(edges, v, edge.to_node.0 as int));
                        crate::uabi::dag::reachable_step(
                            edges,
                            start.0 as int,
                            v,
                            edge.to_node.0 as int,
                        );
                    }
                    stack.push(edge.to_node);
                    assert(stack@[stack@.len() - 1].0 == edge.to_node.0);
                }
                assert forall|d: int|
                    0 <= d < e + 1 && crate::uabi::dag::source(edges, d) == v implies stacked(
                    stack@,
                    #[trigger] crate::uabi::dag::target(edges, d),
                ) by {
                    if d < e {
                        assert(stacked(held, crate::uabi::dag::target(edges, d)));
                        let k = choose|k: int|
                            0 <= k < held.len() && (#[trigger] held[k]).0
                                == crate::uabi::dag::target(edges, d);
                        assert(stack@[k].0 == crate::uabi::dag::target(edges, d));
                    } else {
                        assert(stack@[stack@.len() - 1].0 == crate::uabi::dag::target(edges, d));
                    }
                }
                e = e + 1;
            }
            assert forall|w: int| covered(marks, was, g, w) implies covered(
                visited@,
                stack@,
                g,
                w,
            ) by {
                if w != v {
                    assert(covered(marks, rest, g, w));
                    if exists|k: int| 0 <= k < rest.len() && (#[trigger] rest[k]).0 == w {
                        let k = choose|k: int| 0 <= k < rest.len() && (#[trigger] rest[k]).0 == w;
                        assert(stack@[k].0 == w);
                    }
                }
            }
            assert(closed_under_edges(edges, visited@, stack@, g)) by {
                assert forall|d: int|
                    0 <= d < edges.len() && visited@[crate::uabi::dag::source(
                        edges,
                        d,
                    )] implies covered(
                    visited@,
                    stack@,
                    g,
                    #[trigger] crate::uabi::dag::target(edges, d),
                ) by {
                    assert(edges[d].from_node.0 < visited@.len());
                    if crate::uabi::dag::source(edges, d) != v {
                        assert(marks[crate::uabi::dag::source(edges, d)]);
                        assert(covered(marks, was, g, crate::uabi::dag::target(edges, d)));
                    }
                }
            }
        }
    }
}

/// A node that no edge leaves reaches itself only.
proof fn lone_node_reaches_itself_only(edges: Seq<AiGraphEdge>, v: int, w: int)
    requires
        forall|e: int| 0 <= e < edges.len() ==> #[trigger] crate::uabi::dag::source(edges, e) != v,
        v != w,
    ensures
        !crate::uabi::dag::reachable(edges, v, w),
{
    if crate::uabi::dag::reachable(edges, v, w) {
        let path = choose|path: Seq<int>|
            #[trigger] crate::uabi::dag::is_path(edges, path) && path.first() == v && path.last()
                == w;
        assert(crate::uabi::dag::adjacent(edges, path[0], path[0int + 1]));
        let e = choose|e: int|
            0 <= e < edges.len() && crate::uabi::dag::source(edges, e) == path[0]
                && #[trigger] crate::uabi::dag::target(edges, e) == path[1];
        assert(crate::uabi::dag::source(edges, e) != v);
    }
}

impl Default for GraphManager {
    fn default() -> (r: Self)
        ensures
            r.wf(),
            r.nodes() == Seq::<AiGraphNode>::empty(),
            r.edges() == Seq::<AiGraphEdge>::empty(),
    {
        GraphManager::new()
    }
}

/// A kernel that was to be appended, what it was to wait for, and how that turned out.
pub struct Append {
    /// The ends of the chains that the kernel waits for.
    pub depends: Seq<AiGraphNodeId>,
    /// The kernel.
    pub desc: AiKernelDesc,
    /// How it turned out.
    pub outcome: Result<AiGraphChainId, AiGraphBuildError>,
}

/// Graphs under construction, from an empty one on, each made of the one before by
/// appending a kernel, where that worked.
pub open spec fn built_by(states: Seq<GraphManager>, steps: Seq<Append>) -> bool {
    &&& states.len() == steps.len() + 1
    &&& states[0].nodes() == Seq::<AiGraphNode>::empty()
    &&& states[0].edges() == Seq::<AiGraphEdge>::empty()
    &&& forall|i: int|
        0 <= i < steps.len() ==> states[i].append_outcome(
            (#[trigger] steps[i]).depends,
            steps[i].desc,
            states[i + 1],
            steps[i].outcome,
        )
}

/// The kernels that were appended.
pub open spec fn appended(steps: Seq<Append>) -> Seq<AiKernelDesc>
    decreases steps.len(),
{
    if steps.len() == 0 {
        Seq::empty()
    } else if steps.last().outcome is Ok {
        appended(steps.drop_last()).push(steps.last().desc)
    } else {
        appended(steps.drop_last())
    }
}

/// Every edge leads from a smaller id to a larger one.
pub open spec fn leads_upwards(edges: Seq<AiGraphEdge>) -> bool {
    forall|e: int| 0 <= e < edges.len() ==> (#[trigger] edges[e]).from_node.0 < edges[e].to_node.0
}

/// Where every edge leads upwards, so does every path.
proof fn paths_lead_upwards(edges: Seq<AiGraphEdge>, path: Seq<int>)
    requires
        leads_upwards(edges),
        crate::uabi::dag::is_path(edges, path),
        path.len() >= 2,
    ensures
        path.first() < path.last(),
    decreases path.len(),
{
    let k = path.len() - 2;
    assert(crate::uabi::dag::adjacent(edges, path[k], path[k + 1]));
    let e = choose|e: int|
        0 <= e < edges.len() && crate::uabi::dag::source(edges, e) == path[k]
            && #[trigger] crate::uabi::dag::target(edges, e) == path[k + 1];
    assert(edges[e].from_node.0 < edges[e].to_node.0);
    if k > 0 {
        let shorter = path.drop_last();
        assert forall|i: int| 0 <= i < shorter.len() - 1 implies crate::uabi::dag::adjacent(
            edges,
            #[trigger] shorter[i],
            shorter[i + 1],
        ) by {
            assert(shorter[i] == path[i] && shorter[i + 1] == path[i + 1]);
        }
        paths_lead_upwards(edges, shorter);
    }
}

/// A graph that was built by appending kernels alone holds one node for each kernel that
/// was appended, in order, and its edges lead from smaller ids to larger ones only.
pub proof fn appending_builds_upwards(states: Seq<GraphManager>, steps: Seq<Append>)
    requires
        built_by(states, steps),
    ensures
        states.last().wf(),
        leads_upwards(states.last().edges()),
        states.last().nodes().len() == appended(steps).len(),
        forall|i: int|
            0 <= i < states.last().nodes().len() ==> (#[trigger] states.last().nodes()[i]) == (
            AiGraphNode {
                node_id: AiGraphNodeId(i as u32),
                desc: appended(steps)[i],
                state: AiGraphState { complete: 0, error_flag: 0 },
            }),
    decreases steps.len(),
{
    let graph = states.last();
    if steps.len() > 0 {
        let earlier = states.drop_last();
        let fewer = steps.drop_last();
        assert(built_by(earlier, fewer)) by {
            assert forall|i: int| 0 <= i < fewer.len() implies earlier[i].append_outcome(
                (#[trigger] fewer[i]).depends,
                fewer[i].desc,
                earlier[i + 1],
                fewer[i].outcome,
            ) by {
                assert(steps[i] == fewer[i]);
            }
        }
        appending_builds_upwards(earlier, fewer);
        let k = steps.len() - 1;
        let before = states[k];
        assert(before == earlier.last());
        assert(before.append_outcome(
            steps[k].depends,
            steps[k].desc,
            states[k + 1],
            steps[k].outcome,
        ));
        if steps.last().outcome is Ok {
            assert forall|e: int| 0 <= e < graph.edges().len() implies (#[trigger] graph.edges()[e]).from_node.0
                < graph.edges()[e].to_node.0 && graph.edges()[e].to_node.0 < graph.nodes().len() by {
                if e < before.edges().len() {
                    assert(graph.edges()[e] == before.edges()[e]);
                } else {
                    assert(before.has_node(steps[k].depends[e - before.edges().len()]));
                }
            }
        }
    }
    if crate::uabi::dag::cyclic(graph.edges()) {
        let path = choose|path: Seq<int>|
            #[trigger] crate::uabi::dag::is_path(graph.edges(), path) && path.len() >= 2
                && path.first() == path.last();
        paths_lead_upwards(graph.edges(), path);
    }
}

/// A graph that was built by appending kernels alone, and whose size can be written down,
/// freezes; every blob of it parses, and parsing gives its nodes and edges back.
pub proof fn appended_graph_freezes(
    states: Seq<GraphManager>,
    steps: Seq<Append>,
    frozen: Result<AiGraphBlob, AiGraphBuildError>,
    header: crate::uabi::node::AiGraphHeader,
    nodes: Seq<AiGraphNode>,
    edges: Seq<AiGraphEdge>,
)
    requires
        built_by(states, steps),
        4 * crate::uabi::graph::blob_len(
            states.last().nodes().len() as int,
            states.last().edges().len() as int,
        ) <= u32::MAX,
        call_ensures(GraphManager::freeze, (&states.last(),), frozen),
    ensures
        call_requires(GraphManager::freeze, (&states.last(),)),
        frozen is Ok,
        frozen->Ok_0@ == crate::uabi::graph::blob_bytes(
            states.last().nodes(),
            states.last().edges(),
        ),
        crate::uabi::graph::parse_fault(frozen->Ok_0@) is None,
        crate::uabi::graph::parses_as(frozen->Ok_0@, header, nodes, edges) ==> nodes
            == states.last().nodes() && edges == states.last().edges(),
{
    appending_builds_upwards(states, steps);
    crate::uabi::graph::parse_gives_back_graph(
        states.last().nodes(),
        states.last().edges(),
        header,
        nodes,
        edges,
    );
}

} // verus!

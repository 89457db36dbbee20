//! From a parsed graph to the chain of tasks that a worker runs.

use crate::uabi::dag::kahn_order;
use crate::uabi::error::SchedulerErr;
use crate::uabi::graph::AiParsedGraph;
use crate::uabi::node::AiGraphNode;
use vstd::prelude::*;

verus! {

/// A graph, put in a line.
pub struct TaskLink {
    /// Process that submitted the graph.
    pub pid: u32,
    /// First node, where there is one.
    pub head_node: Option<u32>,
    /// Last node, where there is one.
    pub tail_node: Option<u32>,
    /// For each node, the node after it.
    pub next_node: Vec<Option<u32>>,
    /// The nodes in the order in which they run.
    pub node_order: Vec<u32>,
    /// Copies of the nodes, in that order.
    pub ordered_nodes: Vec<AiGraphNode>,
}

impl TaskLink {
    /// The nodes that are left, in the order in which they run.
    pub fn iter(&self) -> (r: &[AiGraphNode])
        ensures
            r@ == self.ordered_nodes@,
    {
        &self.ordered_nodes
    }

    /// Takes the next node off the line.
    pub fn pop_front(&mut self) -> (r: Option<AiGraphNode>)
        ensures
            if old(self).ordered_nodes@.len() == 0 {
                r is None && *final(self) == *old(self)
            } else {
                &&& r == Some(old(self).ordered_nodes@[0])
                &&& final(self).ordered_nodes@ == old(self).ordered_nodes@.drop_first()
                &&& final(self).pid == old(self).pid
                &&& final(self).head_node == old(self).head_node
                &&& final(self).tail_node == old(self).tail_node
                &&& final(self).next_node == old(self).next_node
                &&& final(self).node_order == old(self).node_order
            },
    {
        if self.ordered_nodes.len() == 0 {
            None
        } else {
            let node: AiGraphNode = self.ordered_nodes.remove(0);
            assert(self.ordered_nodes@ =~= old(self).ordered_nodes@.drop_first());
            Some(node)
        }
    }

    /// The line holds the nodes of a graph in the given order.
    pub open spec fn in_order(self, nodes: Seq<AiGraphNode>, order: Seq<usize>) -> bool {
        let n = order.len() as int;
        &&& self.head_node == (if n > 0 {
            Some(order[0] as u32)
        } else {
            None
        })
        &&& self.tail_node == (if n > 0 {
            Some(order[n - 1] as u32)
        } else {
            None
        })
        &&& self.node_order@ == Seq::new(order.len(), |i: int| order[i] as u32)
        &&& self.ordered_nodes@ == Seq::new(order.len(), |i: int| nodes[order[i] as int])
        &&& self.next_node@.len() == n
        &&& forall|i: int|
            0 <= i < n ==> self.next_node@[#[trigger] order[i] as int] == (if i < n - 1 {
                Some(order[i + 1] as u32)
            } else {
                None
            })
    }
}

/// Puts a graph in a line: each node runs after those that it waits for, and of the nodes
/// that are ready the one with the smallest id runs first.
pub fn resolve_parsed_graph(pid: u32, graph: &AiParsedGraph) -> (r: Result<TaskLink, SchedulerErr>)
    requires
        graph.nodes@.len() <= u32::MAX,
    ensures
        match r {
            Ok(link) => {
                &&& crate::uabi::graph::valid_graph(graph.nodes@, graph.edges@)
                &&& link.pid == pid
                &&& exists|order: Seq<usize>|
                    #[trigger] crate::uabi::dag::release_order(
                        graph.edges@,
                        graph.nodes@.len() as int,
                        order,
                    ) && order.len() == graph.nodes@.len() && link.in_order(graph.nodes@, order)
            },
            Err(err) => {
                &&& !crate::uabi::graph::valid_graph(graph.nodes@, graph.edges@)
                &&& err == SchedulerErr::ParseFailed
            },
        },
{
    let n: usize = graph.nodes.len();
    let mut i: usize = 0;
    while i < graph.nodes.len()
        invariant
            i <= graph.nodes@.len() == n <= u32::MAX,
            forall|j: int| 0 <= j < i ==> (#[trigger] graph.nodes@[j]).node_id.0 == j,
        decreases graph.nodes@.len() - i,
    {
        if graph.nodes[i].node_id.0 != i as u32 {
            return Err(SchedulerErr::ParseFailed);
        }
        i = i + 1;
    }
    let mut i: usize = 0;
    while i < graph.edges.len()
        invariant
            i <= graph.edges@.len(),
            n == graph.nodes@.len(),
            forall|j: int|
                0 <= j < i ==> (#[trigger] graph.edges@[j]).from_node.0 < n
                    && graph.edges@[j].to_node.0 < n,
        decreases graph.edges@.len() - i,
    {
        if graph.edges[i].from_node.as_usize() >= n || graph.edges[i].to_node.as_usize() >= n {
            return Err(SchedulerErr::ParseFailed);
        }
        i = i + 1;
    }
    let order: Vec<usize> = kahn_order(n, &graph.edges);
    if order.len() != n {
        return Err(SchedulerErr::ParseFailed);
    }
    let mut next_node: Vec<Option<u32>> = Vec::new();
    let mut i: usize = 0;
    while i < n
        invariant
            i <= n,
            next_node@.len() == i,
            forall|j: int| 0 <= j < i ==> #[trigger] next_node@[j] is None,
        decreases n - i,
    {
        next_node.push(None);
        i = i + 1;
    }
    let mut node_order: Vec<u32> = Vec::new();
    let mut ordered_nodes: Vec<AiGraphNode> = Vec::new();
    let mut i: usize = 0;
    while i < n
        invariant
            i <= n == order@.len() == graph.nodes@.len(),
            n <= u32::MAX,
            crate::uabi::dag::distinct_below(order@, n as int),
            next_node@.len() == n,
            node_order@ == Seq::new(i as nat, |j: int| order@[j] as u32),
            ordered_nodes@ == Seq::new(i as nat, |j: int| graph.nodes@[order@[j] as int]),
            forall|j: int|
                0 <= j < n ==> next_node@[#[trigger] order@[j] as int] == (if j < n - 1 && j < i {
                    Some(order@[j + 1] as u32)
                } else {
                    None
                }),
        decreases n - i,
    {
        let node: usize = order[i];
        node_order.push(node as u32);
        ordered_nodes.push(graph.nodes[node]);
        if i + 1 < n {
            next_node.set(node, Some(order[i + 1] as u32));
        }
        i = i + 1;
        assert(node_order@ =~= Seq::new(i as nat, |j: int| order@[j] as u32));
        assert(ordered_nodes@ =~= Seq::new(i as nat, |j: int| graph.nodes@[order@[j] as int]));
    }
    let head_node: Option<u32> = if n > 0 {
        Some(order[0] as u32)
    } else {
        None
    };
    let tail_node: Option<u32> = if n > 0 {
        Some(order[n - 1] as u32)
    } else {
        None
    };
    let link = TaskLink { pid, head_node, tail_node, next_node, node_order, ordered_nodes };
    assert(link.in_order(graph.nodes@, order@));
    Ok(link)
}

/// The line of a graph runs every node once, each after the nodes that it waits for.
pub proof fn line_respects_edges(
    graph_nodes: Seq<AiGraphNode>,
    edges: Seq<crate::uabi::dag::AiGraphEdge>,
    order: Seq<usize>,
    link: TaskLink,
    e: int,
)
    requires
        crate::uabi::dag::within(edges, graph_nodes.len() as int),
        crate::uabi::dag::release_order(edges, graph_nodes.len() as int, order),
        order.len() == graph_nodes.len(),
        graph_nodes.len() <= u32::MAX,
        link.in_order(graph_nodes, order),
        0 <= e < edges.len(),
    ensures
        exists|p: int, q: int|
            0 <= p < q < link.node_order@.len() && #[trigger] link.node_order@[p]
                == edges[e].from_node.0 && #[trigger] link.node_order@[q] == edges[e].to_node.0,
{
    let n = graph_nodes.len() as int;
    assert(edges[e].from_node.0 < n && edges[e].to_node.0 < n);
    let to = edges[e].to_node.0 as int;
    crate::uabi::dag::full_order_lists_all(order, n);
    assert(crate::uabi::dag::listed(order, n, to));
    let q = choose|q: int| 0 <= q < n && #[trigger] order[q] == to;
    assert(crate::uabi::dag::target(edges, e) == order[q]);
    assert(crate::uabi::dag::listed(order, q, crate::uabi::dag::source(edges, e)));
    let p = choose|p: int| 0 <= p < q && #[trigger] order[p] == crate::uabi::dag::source(edges, e);
    assert(link.node_order@[p] == order[p] as u32);
    assert(link.node_order@[q] == order[q] as u32);
}


/// The links lead through the line: it starts at its head, each node leads to the one that
/// runs after it, and the tail leads nowhere.
pub proof fn links_lead_through_the_line(
    link: TaskLink,
    nodes: Seq<AiGraphNode>,
    order: Seq<usize>,
    i: int,
)
    requires
        link.in_order(nodes, order),
        nodes.len() == order.len(),
        nodes.len() <= u32::MAX,
        crate::uabi::dag::distinct_below(order, nodes.len() as int),
        0 <= i < order.len(),
    ensures
        link.head_node == Some(link.node_order@[0]),
        link.tail_node == Some(link.node_order@[order.len() - 1]),
        link.next_node@[link.node_order@[i] as int] == (if i + 1 < order.len() {
            Some(link.node_order@[i + 1])
        } else {
            None
        }),
        link.ordered_nodes@[i] == nodes[link.node_order@[i] as int],
{
    assert(order[i] < nodes.len());
    assert(order[0] < nodes.len() && order[order.len() - 1] < nodes.len());
}

} // verus!

//! What a worker does with a graph: run its nodes until one fails, give the mappings
//! back, and send a receipt.

use crate::backend::call::CallContext;
use crate::backend::dispatch::{k3_run_kernel, Kernel};
use crate::sched::host::K3SchedulerOps;
use crate::sched::link::TaskLink;
use crate::sched::scheduler::AINodeUnit;
use crate::uabi::desc::MAX_SUBMIT_TENSORS;
use crate::uabi::error::{AiCompletion, BackendErr, SchedulerErr};
use crate::uabi::node::AiGraphNode;
use vstd::prelude::*;

verus! {

/// The mappings of the first `k` tensors of a node: those that were mapped and have a
/// size.
pub open spec fn tensor_mappings(node: AiGraphNode, k: int) -> Seq<(u64, usize)>
    decreases k,
{
    if k <= 0 {
        Seq::empty()
    } else {
        let tensor = node.desc.tensors[k - 1];
        let rest = tensor_mappings(node, k - 1);
        if tensor.kernel_va.0 != 0 && 0 < tensor.size_bytes.0 <= usize::MAX {
            rest.push((tensor.kernel_va.0, tensor.size_bytes.0 as usize))
        } else {
            rest
        }
    }
}

/// The mappings of a node; none where its tensor counts cannot be.
pub open spec fn node_mappings(node: AiGraphNode) -> Seq<(u64, usize)> {
    let total = node.desc.input_count.0 + node.desc.output_count.0;
    if total <= 8 {
        tensor_mappings(node, total)
    } else {
        Seq::empty()
    }
}

/// The mappings of the first `k` nodes.
pub open spec fn mappings(nodes: Seq<AiGraphNode>, k: int) -> Seq<(u64, usize)>
    decreases k,
{
    if k <= 0 {
        Seq::empty()
    } else {
        mappings(nodes, k - 1) + node_mappings(nodes[k - 1])
    }
}

/// Each mapping was given back with the result at its place.
pub open spec fn released<C: K3SchedulerOps>(
    caller: &C,
    mapped: Seq<(u64, usize)>,
    results: Seq<Result<(), ()>>,
) -> bool {
    &&& results.len() == mapped.len()
    &&& forall|i: int|
        0 <= i < mapped.len() ==> call_ensures(
            C::unmap_user,
            (caller, mapped[i].0, mapped[i].1),
            #[trigger] results[i],
        )
}

/// Gives back every kernel mapping of a graph, in order, and says how each turned out. One
/// that cannot be given back does not keep the others.
pub fn release_tensor_mappings<C: K3SchedulerOps>(caller: &C, tasklink: &TaskLink) -> (r: Vec<
    Result<(), ()>,
>)
    ensures
        released(
            caller,
            mappings(tasklink.ordered_nodes@, tasklink.ordered_nodes@.len() as int),
            r@,
        ),
{
    let nodes: &[AiGraphNode] = tasklink.iter();
    let mut results: Vec<Result<(), ()>> = Vec::new();
    let mut i: usize = 0;
    while i < nodes.len()
        invariant
            i <= nodes@.len(),
            nodes@ == tasklink.ordered_nodes@,
            released(caller, mappings(nodes@, i as int), results@),
        decreases nodes@.len() - i,
    {
        let total: usize = match nodes[i].desc.input_count.checked_total(nodes[i].desc.output_count) {
            Ok(total) => if total <= MAX_SUBMIT_TENSORS {
                total
            } else {
                0
            },
            Err(_) => 0,
        };
        let ghost node = nodes@[i as int];
        let ghost before = mappings(nodes@, i as int);
        assert(node_mappings(node) == tensor_mappings(node, total as int));
        let mut k: usize = 0;
        assert(before + tensor_mappings(node, 0) =~= before);
        while k < total
            invariant
                k <= total <= 8,
                i < nodes@.len(),
                node == nodes@[i as int],
                released(caller, before + tensor_mappings(node, k as int), results@),
            decreases total - k,
        {
            let kernel_va: u64 = nodes[i].desc.tensors[k].kernel_va.get();
            let ghost done = before + tensor_mappings(node, k as int);
            let ghost earlier = results@;
            match nodes[i].desc.tensors[k].size_bytes.try_as_usize() {
                Ok(size_bytes) => {
                    if kernel_va != 0 && size_bytes != 0 {
                        results.push(caller.unmap_user(kernel_va, size_bytes));
                        proof {
                            let next = done.push((kernel_va, size_bytes));
                            assert forall|j: int| 0 <= j < next.len() implies call_ensures(
                                C::unmap_user,
                                (caller, next[j].0, next[j].1),
                                #[trigger] results@[j],
                            ) by {
                                if j < done.len() {
                                    assert(results@[j] == earlier[j]);
                                }
                            }
                        }
                    }
                },
                Err(_) => {},
            }
            k = k + 1;
            assert(before + tensor_mappings(node, k as int) =~= if results@.len() == earlier.len() {
                done
            } else {
                done.push((kernel_va, node.desc.tensors[k - 1].size_bytes.0 as usize))
            });
        }
        i = i + 1;
    }
    results
}

/// How a node failed.
#[derive(Clone, Copy, PartialEq, Eq, Structural, Debug)]
pub struct NodeFailure {
    /// Its id.
    pub node_id: u32,
    /// Its backend error code.
    pub err: u8,
    /// Its operation code.
    pub op: u8,
}

/// How a node failed, by the state that it was left in.
pub open spec fn failure_of(node: AiGraphNode) -> NodeFailure {
    NodeFailure { node_id: node.node_id.0, err: node.state.error_flag, op: node.desc.op.0 }
}

/// A graph that a worker has begun to run.
pub struct GraphRun<H> {
    unit: AINodeUnit<H>,
    next: usize,
    failure: Option<NodeFailure>,
    results: Ghost<Seq<i32>>,
}

/// The receipt for a graph that failed as said, or not at all.
pub open spec fn receipt(user_token: u32, failure: Option<NodeFailure>) -> AiCompletion {
    match failure {
        None => AiCompletion {
            user_token,
            failed_node_id: u32::MAX,
            status: 0,
            failed_node_err: 0,
            failed_node_op: 0,
            reserved: [0, 0, 0, 0, 0],
        },
        Some(failure) => AiCompletion {
            user_token,
            failed_node_id: failure.node_id,
            status: SchedulerErr::ExecutionFailed.code_of(),
            failed_node_err: failure.err,
            failed_node_op: failure.op,
            reserved: [0, 0, 0, 0, 0],
        },
    }
}

impl<H> GraphRun<H> {
    /// The graph.
    pub closed spec fn unit(&self) -> AINodeUnit<H> {
        self.unit
    }

    /// What the kernels returned so far, in order.
    pub closed spec fn results(&self) -> Seq<i32> {
        self.results@
    }

    /// How the graph failed, if it did.
    pub closed spec fn failure(&self) -> Option<NodeFailure> {
        self.failure
    }

    /// The nodes of the graph, in the order in which they run.
    pub open spec fn nodes(&self) -> Seq<AiGraphNode> {
        self.unit().tasklink.ordered_nodes@
    }

    /// The run follows the line: only the last kernel so far may have failed, and a
    /// failure names the node that it ran and the state that the node was left in.
    pub closed spec fn wf(&self) -> bool {
        let ran = self.results@.len() as int;
        &&& self.next == ran <= self.unit.tasklink.ordered_nodes@.len()
        &&& forall|i: int| 0 <= i < ran - 1 ==> #[trigger] self.results@[i] == 0
        &&& match self.failure {
            None => ran > 0 ==> self.results@[ran - 1] == 0,
            Some(failure) => {
                let node = self.unit.tasklink.ordered_nodes@[ran - 1];
                &&& ran > 0
                &&& self.results@[ran - 1] != 0
                &&& failure == failure_of(node)
            },
        }
    }

    /// Nothing is left to run.
    pub open spec fn finished(&self) -> bool {
        self.failure() is Some || self.results().len() == self.nodes().len()
    }

    /// Begins a graph.
    pub fn start(unit: AINodeUnit<H>) -> (r: Self)
        ensures
            r.wf(),
            r.unit() == unit,
            r.results() == Seq::<i32>::empty(),
            r.failure() is None,
    {
        GraphRun { unit, next: 0, failure: None, results: Ghost(Seq::empty()) }
    }

    /// The node that is to run next, unless the run is finished.
    pub fn next_node(&self) -> (r: Option<AiGraphNode>)
        requires
            self.wf(),
        ensures
            r == (if self.finished() {
                None
            } else {
                Some(self.nodes()[self.results().len() as int])
            }),
    {
        if self.failure.is_some() || self.next >= self.unit.tasklink.ordered_nodes.len() {
            None
        } else {
            Some(self.unit.tasklink.ordered_nodes[self.next])
        }
    }

    /// Notes what the kernel of the next node returned and how it left the node. The
    /// first result other than zero ends the run.
    pub fn node_ran(&mut self, node: AiGraphNode, ret: i32)
        requires
            old(self).wf(),
            !old(self).finished(),
        ensures
            final(self).wf(),
            final(self).results() == old(self).results().push(ret),
            final(self).nodes() == old(self).nodes().update(
                old(self).results().len() as int,
                node,
            ),
            final(self).unit().user_token == old(self).unit().user_token,
            final(self).unit().host == old(self).unit().host,
            final(self).failure() == (if ret == 0 {
                None
            } else {
                Some(failure_of(node))
            }),
    {
        let index: usize = self.next;
        assert(index < self.unit.tasklink.ordered_nodes.len());
        self.unit.tasklink.ordered_nodes.set(index, node);
        self.next = index + 1;
        if ret != 0 {
            self.failure = Some(
                NodeFailure {
                    node_id: node.node_id.0,
                    err: node.state.error_flag,
                    op: node.desc.op.0,
                },
            );
        }
        self.results = Ghost(self.results@.push(ret));
    }

    /// Who submitted the graph.
    pub fn host(&self) -> (r: &H)
        ensures
            *r == self.unit().host,
    {
        &self.unit.host
    }

    /// The line of the graph.
    pub fn tasklink(&self) -> (r: &TaskLink)
        ensures
            *r == self.unit().tasklink,
    {
        &self.unit.tasklink
    }

    /// The receipt of a finished run.
    fn completion(&self) -> (r: AiCompletion)
        requires
            self.wf(),
            self.finished(),
        ensures
            r == receipt(self.unit().user_token.0, self.failure()),
            r.status == 0 <==> self.results().len() == self.nodes().len() && forall|i: int|
                0 <= i < self.results().len() ==> #[trigger] self.results()[i] == 0,
    {
        match self.failure {
            None => AiCompletion {
                user_token: self.unit.user_token.0,
                failed_node_id: u32::MAX,
                status: 0,
                failed_node_err: 0,
                failed_node_op: 0,
                reserved: [0, 0, 0, 0, 0],
            },
            Some(failure) => AiCompletion {
                user_token: self.unit.user_token.0,
                failed_node_id: failure.node_id,
                status: SchedulerErr::ExecutionFailed.code(),
                failed_node_err: failure.err,
                failed_node_op: failure.op,
                reserved: [0, 0, 0, 0, 0],
            },
        }
    }

    /// Ends a finished run: gives every mapping of the graph back, in order, and then makes
    /// out the receipt. There is no receipt of a run whose mappings have not been given back.
    pub fn conclude<C: K3SchedulerOps>(&self, caller: &C) -> (r: (
        Vec<Result<(), ()>>,
        AiCompletion,
    ))
        requires
            self.wf(),
            self.finished(),
        ensures
            released(caller, mappings(self.nodes(), self.nodes().len() as int), r.0@),
            r.1 == receipt(self.unit().user_token.0, self.failure()),
            r.1.status == 0 <==> self.results().len() == self.nodes().len() && forall|i: int|
                0 <= i < self.results().len() ==> #[trigger] self.results()[i] == 0,
    {
        let given_back: Vec<Result<(), ()>> = release_tensor_mappings(caller, &self.unit.tasklink);
        (given_back, self.completion())
    }
}

/// Runs the nodes of a graph in order, until one fails or none is left. `run` performs a
/// call that has been found in order.
pub fn run_nodes<H, R: Fn(Kernel, &CallContext) -> Result<(), BackendErr>>(
    graph: &mut GraphRun<H>,
    run: &R,
)
    requires
        old(graph).wf(),
        forall|kernel: Kernel, ctx: CallContext|
            ctx.wf() && kernel.fault(ctx) is None ==> #[trigger] run.requires((kernel, &ctx)),
    ensures
        final(graph).wf(),
        final(graph).finished(),
        final(graph).unit().user_token == old(graph).unit().user_token,
        final(graph).unit().host == old(graph).unit().host,
        final(graph).nodes().len() == old(graph).nodes().len(),
        final(graph).results().len() <= final(graph).nodes().len(),
        old(graph).results().is_prefix_of(final(graph).results()),
        forall|i: int|
            old(graph).results().len() <= i < final(graph).results().len()
                ==> crate::backend::dispatch::kernel_ran(
                old(graph).nodes()[i],
                run,
                final(graph).nodes()[i],
                #[trigger] final(graph).results()[i],
            ),
        forall|i: int|
            0 <= i < final(graph).nodes().len() && !(old(graph).results().len() <= i < final(graph).results().len()) ==> #[trigger] final(graph).nodes()[i] == old(graph).nodes()[i],
        forall|i: int|
            0 <= i < final(graph).results().len() - 1 ==> #[trigger] final(graph).results()[i] == 0,
        final(graph).failure() == (if final(graph).results().len() > 0
            && final(graph).results().last() != 0 {
            Some(failure_of(final(graph).nodes()[final(graph).results().len() - 1]))
        } else {
            None
        }),
{
    let ghost first = graph.results().len() as int;
    let ghost before = graph.nodes();
    let ghost earlier = graph.results();
    loop
        invariant
            graph.wf(),
            graph.unit().user_token == old(graph).unit().user_token,
            graph.unit().host == old(graph).unit().host,
            earlier == old(graph).results(),
            before == old(graph).nodes(),
            first == earlier.len() <= graph.results().len() <= graph.nodes().len(),
            graph.nodes().len() == before.len(),
            forall|kernel: Kernel, ctx: CallContext|
                ctx.wf() && kernel.fault(ctx) is None ==> #[trigger] run.requires((kernel, &ctx)),
            earlier.is_prefix_of(graph.results()),
            forall|i: int|
                first <= i < graph.results().len() ==> crate::backend::dispatch::kernel_ran(
                    before[i],
                    run,
                    graph.nodes()[i],
                    #[trigger] graph.results()[i],
                ),
            forall|i: int|
                0 <= i < before.len() && !(first <= i < graph.results().len())
                    ==> #[trigger] graph.nodes()[i] == before[i],
        decreases graph.nodes().len() - graph.results().len(),
    {
        let mut node: AiGraphNode = match graph.next_node() {
            Some(next) => next,
            None => {
                return;
            },
        };
        let ret: i32 = k3_run_kernel(&mut node, run);
        graph.node_ran(node, ret);
    }
}


/// A tensor of a node that was mapped and has a size.
pub open spec fn is_mapped(node: AiGraphNode, tensor: int) -> bool {
    let total = node.desc.input_count.0 + node.desc.output_count.0;
    &&& total <= 8
    &&& 0 <= tensor < total
    &&& node.desc.tensors[tensor].kernel_va.0 != 0
    &&& 0 < node.desc.tensors[tensor].size_bytes.0 <= usize::MAX
}

/// The mapping of a tensor: where it starts and how long it is.
pub open spec fn mapping_of(node: AiGraphNode, tensor: int) -> (u64, usize) {
    (
        node.desc.tensors[tensor].kernel_va.0,
        node.desc.tensors[tensor].size_bytes.0 as usize,
    )
}

proof fn mapped_tensor_is_listed(node: AiGraphNode, tensor: int, k: int) -> (at: int)
    requires
        is_mapped(node, tensor),
        tensor < k,
    ensures
        0 <= at < tensor_mappings(node, k).len(),
        tensor_mappings(node, k)[at] == mapping_of(node, tensor),
    decreases k,
{
    if tensor == k - 1 {
        tensor_mappings(node, k - 1).len() as int
    } else {
        mapped_tensor_is_listed(node, tensor, k - 1)
    }
}

proof fn listed_tensor_is_mapped(node: AiGraphNode, k: int, at: int) -> (tensor: int)
    requires
        0 <= k <= node.desc.input_count.0 + node.desc.output_count.0 <= 8,
        0 <= at < tensor_mappings(node, k).len(),
    ensures
        is_mapped(node, tensor),
        tensor < k,
        tensor_mappings(node, k)[at] == mapping_of(node, tensor),
    decreases k,
{
    if k <= 0 {
        0
    } else if at < tensor_mappings(node, k - 1).len() {
        listed_tensor_is_mapped(node, k - 1, at)
    } else {
        k - 1
    }
}

/// Every tensor of the graph that was mapped is given back, at its own address and with its
/// own size.
pub proof fn mapped_tensors_are_given_back(
    nodes: Seq<AiGraphNode>,
    n: int,
    node: int,
    tensor: int,
) -> (at: int)
    requires
        0 <= node < n <= nodes.len(),
        is_mapped(nodes[node], tensor),
    ensures
        0 <= at < mappings(nodes, n).len(),
        mappings(nodes, n)[at] == mapping_of(nodes[node], tensor),
    decreases n,
{
    if node == n - 1 {
        let last = nodes[node];
        let total = last.desc.input_count.0 + last.desc.output_count.0;
        let at = mapped_tensor_is_listed(last, tensor, total);
        mappings(nodes, n - 1).len() + at
    } else {
        mapped_tensors_are_given_back(nodes, n - 1, node, tensor)
    }
}

/// Nothing is given back but tensors of the graph that were mapped.
pub proof fn only_mapped_tensors_are_given_back(nodes: Seq<AiGraphNode>, n: int, at: int) -> (r: (
    int,
    int,
))
    requires
        0 <= n <= nodes.len(),
        0 <= at < mappings(nodes, n).len(),
    ensures
        0 <= r.0 < n,
        is_mapped(nodes[r.0], r.1),
        mappings(nodes, n)[at] == mapping_of(nodes[r.0], r.1),
    decreases n,
{
    if n <= 0 {
        (0, 0)
    } else {
        let before = mappings(nodes, n - 1).len() as int;
        if at < before {
            only_mapped_tensors_are_given_back(nodes, n - 1, at)
        } else {
            let last = nodes[n - 1];
            let total = last.desc.input_count.0 + last.desc.output_count.0;
            (n - 1, listed_tensor_is_mapped(last, total, at - before))
        }
    }
}

/// The receipt carries the token of the graph, and of a graph that failed the number, the
/// operation and the error of the node that failed.
pub proof fn receipt_names_the_failed_node(user_token: u32, node: AiGraphNode)
    ensures
        ({
            let good = receipt(user_token, None);
            good.user_token == user_token && good.status == 0
        }),
        ({
            let bad = receipt(user_token, Some(failure_of(node)));
            &&& bad.user_token == user_token
            &&& bad.status != 0
            &&& bad.failed_node_id == node.node_id.0
            &&& bad.failed_node_op == node.desc.op.0
            &&& bad.failed_node_err == node.state.error_flag
        }),
{
}

} // verus!

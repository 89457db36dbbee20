//! From parsed graphs to task lines, queues and workers.

use std::cell::Cell;
use std::rc::Rc;

use k3_hera::backend::call::CallContext;
use k3_hera::backend::dispatch::Kernel;
use k3_hera::sched::host::{K3SchedulerOps, K3SchedulerWaitQueue};
use k3_hera::sched::link::{resolve_parsed_graph, TaskLink};
use k3_hera::sched::ring::{
    PerCoreTaskQueue, QueuePopError, QueuePushError, SCHEDULER_QUEUE_CAPACITY,
};
use k3_hera::sched::scheduler::{
    try_claim_scheduler_initialization, AINodeUnit, GraphScheduler, PushOutcome, SchedulerReadiness,
    SchedulerTable, MAX_SCHEDULER_CORES, SCHEDULER_INITIALIZING, SCHEDULER_READY, SCHEDULER_UNINIT,
};
use k3_hera::sched::worker::{release_tensor_mappings, run_nodes, GraphRun};
use k3_hera::uabi::builder::GraphManager;
use k3_hera::uabi::dag::{AiGraphEdge, AiGraphNodeId};
use k3_hera::uabi::desc::AiKernelDesc;
use k3_hera::uabi::error::{BackendErr, SchedulerErr};
use k3_hera::uabi::graph::{AiGraphBuildError, AiGraphParser, AiParsedGraph};
use k3_hera::uabi::kernel::KernelOp;
use k3_hera::uabi::node::{AiGraphNode, AiGraphState};
use k3_hera::uabi::types::{ByteSize, KernelVa, TensorCount, UserToken};

fn build_graph<F>(f: F) -> AiParsedGraph
where
    F: FnOnce(&mut GraphManager) -> Result<(), AiGraphBuildError>,
{
    let mut graph = GraphManager::new();
    f(&mut graph).expect("graph build should succeed");
    let blob = graph.freeze().expect("graph freeze should succeed");
    AiGraphParser::parse(blob.as_bytes()).expect("graph parse should succeed")
}

#[test]
fn resolve_chain_keeps_edge_order() {
    let parsed = build_graph(|graph| {
        let a = graph.push_kernel_no_depend(AiKernelDesc::default())?;
        let b = graph.push_kernel_depend(a, AiKernelDesc::default())?;
        let _c = graph.push_kernel_depend(b, AiKernelDesc::default())?;
        Ok(())
    });

    let link = match resolve_parsed_graph(7, &parsed) {
        Ok(link) => link,
        Err(_) => panic!("resolve graph should succeed"),
    };

    assert_eq!(link.pid, 7);
    assert_eq!(link.node_order, vec![0, 1, 2]);
    assert_eq!(link.head_node, Some(0));
    assert_eq!(link.tail_node, Some(2));
    assert_eq!(link.next_node[0], Some(1));
    assert_eq!(link.next_node[1], Some(2));
    assert_eq!(link.next_node[2], None);
}

#[test]
fn resolve_join_and_fork_respects_dependencies() {
    let parsed = build_graph(|graph| {
        let a = graph.push_kernel_no_depend(AiKernelDesc::default())?;
        let c = graph.push_kernel_no_depend(AiKernelDesc::default())?;
        let b = graph.push_kernel_depend_many(&[a, c], AiKernelDesc::default())?;
        let _d = graph.push_kernel_depend(b, AiKernelDesc::default())?;
        let _e = graph.push_kernel_depend(b, AiKernelDesc::default())?;
        Ok(())
    });

    let link = match resolve_parsed_graph(9, &parsed) {
        Ok(link) => link,
        Err(_) => panic!("resolve graph should succeed"),
    };

    assert_eq!(link.head_node, Some(link.node_order[0]));
    assert_eq!(link.tail_node, Some(*link.node_order.last().unwrap()));
    assert_eq!(link.ordered_nodes.len(), parsed.nodes.len());

    for edge in &parsed.edges {
        let from_pos = link
            .node_order
            .iter()
            .position(|node_id| *node_id == edge.from_node.get())
            .expect("from node should exist in order");
        let to_pos = link
            .node_order
            .iter()
            .position(|node_id| *node_id == edge.to_node.get())
            .expect("to node should exist in order");
        assert!(
            from_pos < to_pos,
            "edge {:?} -> {:?} violated by {:?}",
            edge.from_node,
            edge.to_node,
            link.node_order
        );
    }
}

#[test]
fn reject_out_of_range_edge() {
    let mut parsed = build_graph(|graph| {
        graph.push_kernel_no_depend(AiKernelDesc::default())?;
        Ok(())
    });
    parsed.edges.push(AiGraphEdge {
        from_node: AiGraphNodeId(0),
        to_node: AiGraphNodeId(3),
    });

    match resolve_parsed_graph(1, &parsed) {
        Err(err) => assert_eq!(err, SchedulerErr::ParseFailed),
        Ok(_) => panic!("resolve_graph should reject out-of-range edge"),
    }
}

#[test]
fn reject_cycle_by_edges() {
    let mut parsed = build_graph(|graph| {
        let a = graph.push_kernel_no_depend(AiKernelDesc::default())?;
        let b = graph.push_kernel_depend(a, AiKernelDesc::default())?;
        let _c = graph.push_kernel_depend(b, AiKernelDesc::default())?;
        Ok(())
    });
    parsed.edges.push(AiGraphEdge {
        from_node: AiGraphNodeId(2),
        to_node: AiGraphNodeId(0),
    });

    match resolve_parsed_graph(2, &parsed) {
        Err(err) => assert_eq!(err, SchedulerErr::ParseFailed),
        Ok(_) => panic!("resolve_graph should reject cycle graph"),
    }
}

/// A wait queue that never blocks and counts the wake-ups.
#[derive(Clone)]
struct TestWaitQueue {
    woken: Rc<Cell<usize>>,
}

impl K3SchedulerWaitQueue for TestWaitQueue {
    fn wait(&self) {}

    fn wait_until<F: Fn() -> bool>(&self, condition: &F) {
        let _ = condition();
    }

    fn notify_one(&self) {
        self.woken.set(self.woken.get() + 1);
    }

    fn notify_all(&self) {
        self.woken.set(self.woken.get() + 1);
    }
}

struct TestCaller {
    core_id: u32,
    unmap_count: Cell<usize>,
    wait_queue_count: Cell<usize>,
    spawn_core: Cell<usize>,
    woken: Rc<Cell<usize>>,
}

fn test_caller(core_id: u32) -> TestCaller {
    TestCaller {
        core_id,
        unmap_count: Cell::new(0),
        wait_queue_count: Cell::new(0),
        spawn_core: Cell::new(usize::MAX),
        woken: Rc::new(Cell::new(0)),
    }
}

impl K3SchedulerOps for TestCaller {
    type WaitQueue = TestWaitQueue;

    fn new_wait_queue(&self) -> TestWaitQueue {
        self.wait_queue_count.set(self.wait_queue_count.get() + 1);
        TestWaitQueue {
            woken: self.woken.clone(),
        }
    }

    fn current_core_id(&self) -> u32 {
        self.core_id
    }

    fn copy_from_user(&self, _user_va: u64, _len: usize) -> Result<Vec<u8>, ()> {
        Err(())
    }

    fn copy_to_user(&self, _user_va: u64, _bytes: &[u8]) -> Result<(), ()> {
        Err(())
    }

    fn map_user_to_kernel(&self, _user_va: u64, _len: usize) -> Result<u64, ()> {
        Err(())
    }

    fn unmap_user(&self, _kernel_va: u64, _len: usize) -> Result<(), ()> {
        self.unmap_count.set(self.unmap_count.get() + 1);
        Ok(())
    }

    fn spawn_thread_on_core(&self, core_id: u32, arg: usize) {
        assert_eq!(core_id as usize, arg);
        self.spawn_core.set(arg);
    }
}

fn empty_link() -> TaskLink {
    TaskLink {
        pid: 0,
        head_node: None,
        tail_node: None,
        next_node: Vec::new(),
        node_order: Vec::new(),
        ordered_nodes: Vec::new(),
    }
}

fn unit(token: u32) -> AINodeUnit<u32> {
    AINodeUnit {
        user_token: UserToken::new(token),
        host: 0,
        tasklink: empty_link(),
    }
}

#[test]
fn cleanup_releases_every_tensor_mapping() {
    let mut desc = AiKernelDesc::default();
    desc.input_count = TensorCount::new(1);
    desc.output_count = TensorCount::new(1);
    desc.tensors[0].kernel_va = KernelVa::new(0x1000);
    desc.tensors[0].size_bytes = ByteSize::new(64);
    desc.tensors[1].kernel_va = KernelVa::new(0x2000);
    desc.tensors[1].size_bytes = ByteSize::new(128);

    let mut tasklink = empty_link();
    tasklink.ordered_nodes.push(AiGraphNode {
        node_id: AiGraphNodeId(0),
        desc,
        state: AiGraphState::default(),
    });
    let caller = test_caller(0);
    let before = caller.unmap_count.get();

    let results = release_tensor_mappings(&caller, &tasklink);

    assert_eq!(caller.unmap_count.get(), before + 2);
    assert_eq!(results, vec![Ok(()), Ok(())]);
}

#[test]
fn queue_preserves_fifo_order() {
    let core_id = 8;
    let mut queue = PerCoreTaskQueue::new(core_id);

    for token in 1..=3 {
        let mut pending = Some(unit(token));
        assert_eq!(queue.try_push(core_id, &mut pending), Ok(()));
        assert!(pending.is_none());
    }

    for token in 1..=3 {
        let task = queue
            .try_pop(core_id)
            .expect("core id should match")
            .expect("queued task should exist");
        assert_eq!(task.user_token.get(), token);
    }
    assert!(queue
        .try_pop(core_id)
        .expect("core id should match")
        .is_none());
}

#[test]
fn queue_reports_full_at_capacity() {
    let core_id = 9;
    let mut queue = PerCoreTaskQueue::new(core_id);

    for token in 0..SCHEDULER_QUEUE_CAPACITY as u32 {
        let mut pending = Some(unit(token));
        assert_eq!(queue.try_push(core_id, &mut pending), Ok(()));
    }

    let mut pending = Some(unit(99));
    assert_eq!(
        queue.try_push(core_id, &mut pending),
        Err(QueuePushError::Full)
    );
    assert_eq!(
        pending.as_ref().map(|task| task.user_token),
        Some(UserToken::new(99))
    );
    assert_eq!(queue.len_approx(), SCHEDULER_QUEUE_CAPACITY);

    for _ in 0..SCHEDULER_QUEUE_CAPACITY {
        assert!(queue
            .try_pop(core_id)
            .expect("core id should match")
            .is_some());
    }
}

#[test]
fn queue_reuses_slots_after_pop() {
    let core_id = 10;
    let mut queue = PerCoreTaskQueue::new(core_id);

    for token in 0..SCHEDULER_QUEUE_CAPACITY as u32 {
        let mut pending = Some(unit(token));
        assert_eq!(queue.try_push(core_id, &mut pending), Ok(()));
    }
    for token in 0..8 {
        let task = queue
            .try_pop(core_id)
            .expect("core id should match")
            .expect("queued task should exist");
        assert_eq!(task.user_token.get(), token);
    }
    for token in 64..72 {
        let mut pending = Some(unit(token));
        assert_eq!(queue.try_push(core_id, &mut pending), Ok(()));
    }

    for token in 8..72 {
        let task = queue
            .try_pop(core_id)
            .expect("core id should match")
            .expect("queued task should exist");
        assert_eq!(task.user_token.get(), token);
    }
    assert_eq!(queue.len_approx(), 0);
}

#[test]
fn queue_rejects_core_mismatch() {
    let core_id = 11;
    let wrong_core_id = 12;
    let mut queue = PerCoreTaskQueue::new(core_id);
    let mut pending = Some(unit(7));

    assert_eq!(
        queue.try_push(wrong_core_id, &mut pending),
        Err(QueuePushError::CoreMismatch)
    );
    assert!(pending.is_some());
    assert_eq!(queue.len_approx(), 0);

    assert_eq!(queue.try_push(core_id, &mut pending), Ok(()));
    assert!(matches!(
        queue.try_pop(wrong_core_id),
        Err(QueuePopError::CoreMismatch)
    ));
    assert_eq!(queue.len_approx(), 1);
    assert_eq!(
        queue
            .try_pop(core_id)
            .expect("core id should match")
            .expect("queued task should exist")
            .user_token
            .get(),
        7
    );
}

/// Four producers take turns, and the consumer empties the queue whenever it is full.
#[test]
fn queue_accepts_concurrent_producers() {
    const PRODUCERS: u32 = 4;
    const TASKS_PER_PRODUCER: u32 = 128;
    const TOTAL_TASKS: usize = (PRODUCERS * TASKS_PER_PRODUCER) as usize;

    let core_id = 13;
    let mut queue = PerCoreTaskQueue::new(core_id);
    let mut tokens = Vec::with_capacity(TOTAL_TASKS);
    for sequence in 0..TASKS_PER_PRODUCER {
        for producer in 0..PRODUCERS {
            let token = producer * TASKS_PER_PRODUCER + sequence;
            let mut pending = Some(unit(token));
            loop {
                match queue.try_push(core_id, &mut pending) {
                    Ok(()) => break,
                    Err(QueuePushError::Full) => {
                        if let Some(task) = queue
                            .try_pop(core_id)
                            .expect("consumer core id should match")
                        {
                            tokens.push(task.user_token.get());
                        }
                    }
                    Err(err) => panic!("unexpected queue push error: {err:?}"),
                }
            }
        }
    }
    while tokens.len() < TOTAL_TASKS {
        if let Some(task) = queue
            .try_pop(core_id)
            .expect("consumer core id should match")
        {
            tokens.push(task.user_token.get());
        }
    }
    tokens.sort_unstable();
    assert_eq!(tokens, (0..TOTAL_TASKS as u32).collect::<Vec<_>>());
    assert_eq!(queue.len_approx(), 0);
}

#[test]
fn queue_wants_a_task_to_push() {
    let mut queue: PerCoreTaskQueue<AINodeUnit<u32>> = PerCoreTaskQueue::new(3);
    let mut nothing = None;
    assert_eq!(
        queue.try_push(3, &mut nothing),
        Err(QueuePushError::MissingTask)
    );
}

#[test]
fn scheduler_init_is_single_owner() {
    let mut state = SCHEDULER_UNINIT;

    assert!(try_claim_scheduler_initialization(&mut state));
    assert_eq!(state, SCHEDULER_INITIALIZING);
    assert!(!try_claim_scheduler_initialization(&mut state));

    state = SCHEDULER_READY;
    assert!(!try_claim_scheduler_initialization(&mut state));
}

/// A scheduler is bound to its core and to the place where its worker sleeps.
#[test]
fn scheduler_constructor_binds_worker_and_wait_queue() {
    let woken = Rc::new(Cell::new(0));
    let mut scheduler: GraphScheduler<u32, TestWaitQueue> =
        GraphScheduler::new_with_core(3, TestWaitQueue { woken: woken.clone() });

    scheduler.wait_queue().notify_all();
    assert_eq!(woken.get(), 1);
    assert_eq!(scheduler.core_id(), 3);
    assert_eq!(scheduler.queue_len_approx(), 0);
    assert!(matches!(
        scheduler.push_task_for_core(4, unit(1)),
        PushOutcome::Rejected(_)
    ));
    assert!(matches!(scheduler.push_task(unit(2)), PushOutcome::Queued));
    assert!(scheduler.take_task_for_core(4).is_none());
    assert_eq!(scheduler.take_task().unwrap().user_token.get(), 2);
}

/// The one that sets a core up starts its worker, and nobody after it.
#[test]
fn scheduler_initialization_spawns_bound_worker() {
    let core_id = (MAX_SCHEDULER_CORES - 1) as u32;
    let caller = test_caller(core_id);
    let mut table: SchedulerTable<u32, TestWaitQueue> = SchedulerTable::new();

    assert!(table.start_worker(core_id as usize).is_err());
    assert!(table.scheduler_after_ready(core_id).is_err());
    assert_eq!(table.get_or_init_scheduler(&caller, core_id), Ok(true));
    assert_eq!(
        table.scheduler_after_ready(core_id),
        Ok(SchedulerReadiness::Ready)
    );
    assert_eq!(caller.wait_queue_count.get(), 1);
    assert_eq!(caller.spawn_core.get(), core_id as usize);

    assert_eq!(table.get_or_init_scheduler(&caller, core_id), Ok(false));
    assert_eq!(caller.wait_queue_count.get(), 1);
    assert_eq!(table.start_worker(core_id as usize), Ok(core_id));
    assert!(table.get_or_init_scheduler(&caller, core_id + 1).is_err());
}

#[test]
fn graphs_wait_on_the_core_that_submits_them() {
    let caller = test_caller(5);
    let mut table: SchedulerTable<u32, TestWaitQueue> = SchedulerTable::new();
    for token in 0..SCHEDULER_QUEUE_CAPACITY as u32 {
        let outcome = table.run_graph(&caller, unit(token + 1)).unwrap();
        assert_eq!(outcome.spawn_worker, token == 0);
        assert!(matches!(outcome.pushed, PushOutcome::Queued));
    }
    assert_eq!(caller.woken.get(), SCHEDULER_QUEUE_CAPACITY);
    match table.run_graph(&caller, unit(99)).unwrap().pushed {
        PushOutcome::Full(unit) => assert_eq!(unit.user_token.get(), 99),
        _ => panic!("a full queue gives the graph back"),
    }
    assert_eq!(caller.woken.get(), SCHEDULER_QUEUE_CAPACITY);

    assert_eq!(
        table.scheduler(5).unwrap().queue_len_approx(),
        SCHEDULER_QUEUE_CAPACITY
    );
    assert!(table.scheduler(4).is_none());
    let run = table.begin_task(5).unwrap();
    assert_eq!(run.conclude(&test_caller(0)).1.user_token, 1);
    table.end_task(5);
    assert_eq!(
        table.scheduler(5).unwrap().queue_len_approx(),
        SCHEDULER_QUEUE_CAPACITY - 1
    );
    assert!(table.begin_task(4).is_none());
    assert!(table.run_graph(&test_caller(64), unit(1)).is_err());
}

#[test]
fn a_run_stops_at_the_first_node_that_fails() {
    let parsed = build_graph(|graph| {
        let mut desc = AiKernelDesc::default();
        let a = graph.push_kernel_no_depend(desc)?;
        desc.op = KernelOp(KernelOp::ADD);
        let _b = graph.push_kernel_depend(a, desc)?;
        Ok(())
    });
    let link = match resolve_parsed_graph(1, &parsed) {
        Ok(link) => link,
        Err(_) => panic!("resolve graph should succeed"),
    };
    let mut run = GraphRun::start(AINodeUnit {
        user_token: UserToken(8),
        host: 3_u32,
        tasklink: link,
    });
    run_nodes(&mut run, &|_: Kernel, _: &CallContext| Ok(()));
    assert!(run.next_node().is_none());
    assert_eq!(*run.host(), 3);
    let (_, receipt) = run.conclude(&test_caller(0));
    assert_eq!(receipt.status, SchedulerErr::ExecutionFailed.code());
    assert_eq!(receipt.failed_node_id, 0);
    assert_eq!(receipt.failed_node_op, KernelOp::INVALID);
    assert_eq!(receipt.failed_node_err, BackendErr::UnsupportedOp.code());
    assert_eq!(run.tasklink().iter()[1].state.complete, 0);
}

#[test]
fn a_run_ends_with_its_receipt() {
    let parsed = build_graph(|graph| {
        let mut desc = AiKernelDesc::default();
        desc.op = KernelOp(KernelOp::ADD);
        let a = graph.push_kernel_no_depend(desc)?;
        let _b = graph.push_kernel_depend(a, desc)?;
        Ok(())
    });
    let link = match resolve_parsed_graph(1, &parsed) {
        Ok(link) => link,
        Err(_) => panic!("resolve graph should succeed"),
    };
    let mut run = GraphRun::start(AINodeUnit {
        user_token: UserToken(77),
        host: 0_u32,
        tasklink: link,
    });
    let mut first = run.next_node().unwrap();
    first.state.complete = 1;
    run.node_ran(first, 0);
    let mut second = run.next_node().unwrap();
    assert_eq!(second.node_id.get(), 1);
    second.state.error_flag = 2;
    run.node_ran(second, -2);
    assert!(run.next_node().is_none());
    let (_, receipt) = run.conclude(&test_caller(0));
    assert_eq!(receipt.user_token, 77);
    assert_eq!(receipt.failed_node_id, 1);
    assert_eq!(receipt.failed_node_err, 2);
    assert_eq!(receipt.failed_node_op, KernelOp::ADD);
}

#[test]
fn lines_hand_out_their_nodes_in_order() {
    let parsed = build_graph(|graph| {
        let a = graph.push_kernel_no_depend(AiKernelDesc::default())?;
        let _b = graph.push_kernel_depend(a, AiKernelDesc::default())?;
        Ok(())
    });
    let mut link = match resolve_parsed_graph(1, &parsed) {
        Ok(link) => link,
        Err(_) => panic!("resolve graph should succeed"),
    };
    assert_eq!(link.iter().len(), 2);
    assert_eq!(link.pop_front().unwrap().node_id.get(), 0);
    assert_eq!(link.pop_front().unwrap().node_id.get(), 1);
    assert!(link.pop_front().is_none());
}

#[test]
fn the_smallest_ready_node_leaves_first() {
    let parsed = build_graph(|graph| {
        let a = graph.push_kernel_no_depend(AiKernelDesc::default())?;
        let b = graph.push_kernel_no_depend(AiKernelDesc::default())?;
        let _c = graph.push_kernel_depend(b, AiKernelDesc::default())?;
        let _d = graph.push_kernel_depend(a, AiKernelDesc::default())?;
        Ok(())
    });
    let link = match resolve_parsed_graph(1, &parsed) {
        Ok(link) => link,
        Err(_) => panic!("resolve graph should succeed"),
    };
    assert_eq!(link.node_order, vec![0, 1, 2, 3]);
}

#[test]
fn popped_tasks_are_the_first_of_those_pushed() {
    let core_id = 3;
    let mut queue = PerCoreTaskQueue::new(core_id);
    let mut taken = Vec::new();
    let mut given = Vec::new();
    let mut token = 0;
    for round in 0..60_u32 {
        for _ in 0..round % 7 {
            let mut pending = Some(unit(token));
            if queue.try_push(core_id, &mut pending).is_ok() {
                taken.push(token);
            }
            token += 1;
        }
        assert!(matches!(
            queue.try_pop(core_id + 1),
            Err(QueuePopError::CoreMismatch)
        ));
        for _ in 0..round % 4 {
            match queue.try_pop(core_id) {
                Ok(Some(task)) => given.push(task.user_token.get()),
                Ok(None) => assert_eq!(given, taken),
                Err(_) => panic!("core id should match"),
            }
        }
    }
    assert!(given.len() > SCHEDULER_QUEUE_CAPACITY);
    assert!(given.len() < taken.len());
    assert_eq!(given, taken[..given.len()].to_vec());
}

#[test]
fn mappings_are_given_back_with_the_receipt() {
    let mut desc = AiKernelDesc::default();
    desc.input_count = TensorCount::new(1);
    desc.output_count = TensorCount::new(1);
    for index in 0..2 {
        desc.tensors[index].kernel_va = KernelVa::new(0x1000 * (index as u64 + 1));
        desc.tensors[index].size_bytes = ByteSize::new(64);
    }
    let mut tasklink = empty_link();
    tasklink.ordered_nodes.push(AiGraphNode {
        node_id: AiGraphNodeId(5),
        desc,
        state: AiGraphState::default(),
    });
    let mut run = GraphRun::start(AINodeUnit {
        user_token: UserToken(9),
        host: 0_u32,
        tasklink,
    });
    let node = run.next_node().unwrap();
    run.node_ran(node, 0);
    let caller = test_caller(0);
    let (given_back, receipt) = run.conclude(&caller);
    assert_eq!(caller.unmap_count.get(), 2);
    assert_eq!(given_back, vec![Ok(()), Ok(())]);
    assert_eq!(receipt.user_token, 9);
    assert_eq!(receipt.status, 0);
}

#[test]
fn workers_begin_on_cores_with_a_scheduler() {
    let mut table: SchedulerTable<u32, TestWaitQueue> = SchedulerTable::new();
    assert_eq!(table.start_worker(64), Err(SchedulerErr::InvalidGraph));
    assert_eq!(table.start_worker(2), Err(SchedulerErr::InvalidGraph));
    assert_eq!(table.get_or_init_scheduler(&test_caller(2), 2), Ok(true));
    assert_eq!(table.start_worker(2), Ok(2));
}

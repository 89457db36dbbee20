//! One scheduler for each core, and the table that holds them.

use crate::sched::host::{K3SchedulerOps, K3SchedulerWaitQueue};
use crate::sched::link::TaskLink;
use crate::sched::ring::{PerCoreTaskQueue, QueuePushError};
use crate::sched::worker::GraphRun;
use crate::uabi::error::SchedulerErr;
use crate::uabi::types::UserToken;
use vstd::prelude::*;

verus! {

/// Cores that the table has a place for.
pub const MAX_SCHEDULER_CORES: usize = 64;

/// Nobody has set the scheduler up.
pub const SCHEDULER_UNINIT: u8 = 0;

/// Somebody is setting the scheduler up.
pub const SCHEDULER_INITIALIZING: u8 = 1;

/// The scheduler can be used.
pub const SCHEDULER_READY: u8 = 2;

/// A graph on its way to a worker. `host` is what the caller needs to end it: the way
/// to give mappings back and the channel for the receipt.
pub struct AINodeUnit<H> {
    /// Token of the submission.
    pub user_token: UserToken,
    /// What the caller needs to end the graph.
    pub host: H,
    /// The nodes, in a line.
    pub tasklink: TaskLink,
}

/// What became of a task that was to be queued.
pub enum PushOutcome<H> {
    /// It waits in the queue.
    Queued,
    /// The queue is full; the caller keeps the task and tries again.
    Full(AINodeUnit<H>),
    /// It was turned away.
    Rejected(SchedulerErr),
}

/// The scheduler of a core: graphs run in the order in which they came.
pub struct GraphScheduler<H, Q> {
    core_id: u32,
    wait_queue: Q,
    ready_queue: PerCoreTaskQueue<AINodeUnit<H>>,
}

impl<H, Q: K3SchedulerWaitQueue> GraphScheduler<H, Q> {
    /// The graphs that wait, the next one first.
    pub closed spec fn waiting(&self) -> Seq<AINodeUnit<H>> {
        self.ready_queue@
    }

    /// The core of the scheduler.
    pub closed spec fn bound_core(&self) -> u32 {
        self.core_id
    }

    /// Where the worker of the scheduler sleeps.
    pub closed spec fn sleeping_place(&self) -> Q {
        self.wait_queue
    }

    /// The queue is in order and belongs to the core of the scheduler.
    pub closed spec fn wf(&self) -> bool {
        &&& self.ready_queue.wf()
        &&& self.ready_queue.bound_core() == self.core_id
    }

    /// A scheduler for a core, without graphs, whose worker sleeps in the given place.
    pub fn new_with_core(core_id: u32, wait_queue: Q) -> (r: Self)
        ensures
            r.wf(),
            r.bound_core() == core_id,
            r.sleeping_place() == wait_queue,
            r.waiting() == Seq::<AINodeUnit<H>>::empty(),
    {
        GraphScheduler { core_id, wait_queue, ready_queue: PerCoreTaskQueue::new(core_id) }
    }

    /// Where the worker of the scheduler sleeps.
    pub fn wait_queue(&self) -> (r: &Q)
        ensures
            *r == self.sleeping_place(),
    {
        &self.wait_queue
    }

    /// The core of the scheduler.
    pub fn core_id(&self) -> (r: u32)
        ensures
            r == self.bound_core(),
    {
        self.core_id
    }

    /// Queues a graph on the scheduler's own core.
    pub fn push_task(&mut self, task: AINodeUnit<H>) -> (r: PushOutcome<H>)
        requires
            old(self).wf(),
        ensures
            final(self).wf(),
            final(self).bound_core() == old(self).bound_core(),
            final(self).sleeping_place() == old(self).sleeping_place(),
            if old(self).waiting().len() < 64 {
                &&& r is Queued
                &&& final(self).waiting() == old(self).waiting().push(task)
            } else {
                &&& r == PushOutcome::Full(task)
                &&& final(self).waiting() == old(self).waiting()
            },
    {
        let core_id: u32 = self.core_id;
        self.push_task_for_core(core_id, task)
    }

    /// Queues a graph for a core, which has to be the scheduler's.
    pub fn push_task_for_core(&mut self, expected_core_id: u32, task: AINodeUnit<H>) -> (r:
        PushOutcome<H>)
        requires
            old(self).wf(),
        ensures
            final(self).wf(),
            final(self).bound_core() == old(self).bound_core(),
            final(self).sleeping_place() == old(self).sleeping_place(),
            if expected_core_id != old(self).bound_core() {
                &&& r == PushOutcome::<H>::Rejected(SchedulerErr::InvalidGraph)
                &&& final(self).waiting() == old(self).waiting()
            } else if old(self).waiting().len() < 64 {
                &&& r is Queued
                &&& final(self).waiting() == old(self).waiting().push(task)
            } else {
                &&& r == PushOutcome::Full(task)
                &&& final(self).waiting() == old(self).waiting()
            },
    {
        if expected_core_id != self.core_id {
            return PushOutcome::Rejected(SchedulerErr::InvalidGraph);
        }
        let mut pending: Option<AINodeUnit<H>> = Some(task);
        proof {
            self.ready_queue.length_is_bounded();
        }
        match self.ready_queue.try_push(expected_core_id, &mut pending) {
            Ok(()) => PushOutcome::Queued,
            Err(QueuePushError::Full) => match pending {
                Some(task) => PushOutcome::Full(task),
                None => PushOutcome::Rejected(SchedulerErr::InvalidGraph),
            },
            Err(_) => PushOutcome::Rejected(SchedulerErr::InvalidGraph),
        }
    }

    /// Takes the next graph of the scheduler's own core.
    pub fn take_task(&mut self) -> (r: Option<AINodeUnit<H>>)
        requires
            old(self).wf(),
        ensures
            final(self).wf(),
            final(self).bound_core() == old(self).bound_core(),
            final(self).sleeping_place() == old(self).sleeping_place(),
            if old(self).waiting().len() == 0 {
                &&& r is None
                &&& final(self).waiting() == old(self).waiting()
            } else {
                &&& r == Some(old(self).waiting()[0])
                &&& final(self).waiting() == old(self).waiting().drop_first()
            },
    {
        let core_id: u32 = self.core_id;
        self.take_task_for_core(core_id)
    }

    /// Takes the next graph for a core; a core that is not the scheduler's gets none.
    pub fn take_task_for_core(&mut self, expected_core_id: u32) -> (r: Option<AINodeUnit<H>>)
        requires
            old(self).wf(),
        ensures
            final(self).wf(),
            final(self).bound_core() == old(self).bound_core(),
            final(self).sleeping_place() == old(self).sleeping_place(),
            if expected_core_id != old(self).bound_core() || old(self).waiting().len() == 0 {
                &&& r is None
                &&& final(self).waiting() == old(self).waiting()
            } else {
                &&& r == Some(old(self).waiting()[0])
                &&& final(self).waiting() == old(self).waiting().drop_first()
            },
    {
        match self.ready_queue.try_pop(expected_core_id) {
            Ok(task) => task,
            Err(_) => None,
        }
    }

    /// Number of graphs that wait.
    pub fn queue_len_approx(&self) -> (r: usize)
        requires
            self.wf(),
        ensures
            r == self.waiting().len(),
            r <= 64,
    {
        self.ready_queue.len_approx()
    }
}

/// Makes the caller the one who sets a scheduler up, if nobody else is or was.
pub fn try_claim_scheduler_initialization(state: &mut u8) -> (r: bool)
    ensures
        r == (*old(state) == SCHEDULER_UNINIT),
        *final(state) == (if r {
            SCHEDULER_INITIALIZING
        } else {
            *old(state)
        }),
{
    if *state == SCHEDULER_UNINIT {
        *state = SCHEDULER_INITIALIZING;
        true
    } else {
        false
    }
}

/// The place of a core in the table.
pub struct SchedulerSlot<H, Q> {
    init_state: u8,
    scheduler: Option<GraphScheduler<H, Q>>,
    worker_busy: bool,
    worker_token: u32,
    worker_core_id: u32,
}

/// What is to be done about the scheduler of a core.
#[derive(Clone, Copy, PartialEq, Eq, Structural, Debug)]
pub enum SchedulerReadiness {
    /// It can be used.
    Ready,
    /// Somebody is setting it up: look again.
    Wait,
}

/// What a setup state says about a scheduler.
pub open spec fn readiness_of(state: u8) -> Result<SchedulerReadiness, SchedulerErr> {
    if state == SCHEDULER_READY {
        Ok(SchedulerReadiness::Ready)
    } else if state == SCHEDULER_INITIALIZING {
        Ok(SchedulerReadiness::Wait)
    } else {
        Err(SchedulerErr::InvalidGraph)
    }
}

/// What a setup state says about a scheduler.
pub fn readiness(state: u8) -> (r: Result<SchedulerReadiness, SchedulerErr>)
    ensures
        r == readiness_of(state),
{
    if state == SCHEDULER_READY {
        Ok(SchedulerReadiness::Ready)
    } else if state == SCHEDULER_INITIALIZING {
        Ok(SchedulerReadiness::Wait)
    } else {
        Err(SchedulerErr::InvalidGraph)
    }
}

/// What became of a graph that was to be run.
pub struct RunOutcome<H> {
    /// The worker of the core was started by this call.
    pub spawn_worker: bool,
    /// What became of the graph.
    pub pushed: PushOutcome<H>,
}

/// What setting a scheduler up asks of the system: a place for its worker to sleep, and
/// the worker.
pub open spec fn set_up_by<C: K3SchedulerOps>(
    caller: &C,
    core_id: u32,
    place: Option<C::WaitQueue>,
) -> bool {
    &&& place is Some
    &&& call_ensures(C::new_wait_queue, (caller,), place->0)
    &&& call_ensures(C::spawn_thread_on_core, (caller, core_id, core_id as usize), ())
}

/// What became of a graph that was to be queued on a core: it waits behind the others, or
/// it is given back where the queue is full, or turned away where the table has no place
/// for the core. The scheduler of the core is set up where it was not, and its worker is
/// woken where there is something new.
pub open spec fn queued<H, C: K3SchedulerOps>(
    before: SchedulerTable<H, C::WaitQueue>,
    after: SchedulerTable<H, C::WaitQueue>,
    caller: &C,
    submit_core_id: u32,
    unit: AINodeUnit<H>,
    r: Result<RunOutcome<H>, SchedulerErr>,
) -> bool {
    let core = submit_core_id as int;
    &&& after.others_kept(before, core)
    &&& match r {
        Ok(outcome) => {
            &&& core < 64
            &&& after.state(core) == SCHEDULER_READY
            &&& outcome.spawn_worker == (before.state(core) == SCHEDULER_UNINIT)
            &&& after.running(core) == before.running(core)
            &&& after.worker_core(core) == before.worker_core(core)
            &&& if outcome.spawn_worker {
                set_up_by(caller, submit_core_id, after.sleeping_place(core))
            } else {
                after.sleeping_place(core) == before.sleeping_place(core)
            }
            &&& if before.waiting(core).len() < 64 {
                &&& outcome.pushed is Queued
                &&& after.waiting(core) == before.waiting(core).push(unit)
                &&& call_ensures(
                    <C::WaitQueue as K3SchedulerWaitQueue>::notify_one,
                    (&after.sleeping_place(core)->0,),
                    (),
                )
            } else {
                &&& outcome.pushed == PushOutcome::Full(unit)
                &&& after.waiting(core) == before.waiting(core)
            }
        },
        Err(err) => {
            &&& core >= 64
            &&& err == SchedulerErr::InvalidGraph
            &&& after == before
        },
    }
}

/// The schedulers of all cores.
pub struct SchedulerTable<H, Q> {
    slots: Vec<SchedulerSlot<H, Q>>,
}

impl<H, Q: K3SchedulerWaitQueue> SchedulerTable<H, Q> {
    /// Every place is in order: a scheduler that can be used is there, belongs to the
    /// core of its place, and is itself in order.
    pub closed spec fn wf(&self) -> bool {
        &&& self.slots@.len() == 64
        &&& forall|c: int| 0 <= c < 64 ==> #[trigger] slot_wf(self.slots@[c], c)
    }

    /// How far the scheduler of a core is set up.
    pub closed spec fn state(&self, core_id: int) -> u8 {
        self.slots@[core_id].init_state
    }

    /// The graphs that wait for a core, the next one first.
    pub closed spec fn waiting(&self, core_id: int) -> Seq<AINodeUnit<H>> {
        match self.slots@[core_id].scheduler {
            Some(scheduler) => scheduler.waiting(),
            None => Seq::empty(),
        }
    }

    /// Where the worker of a core sleeps, once the core has a scheduler.
    pub closed spec fn sleeping_place(&self, core_id: int) -> Option<Q> {
        match self.slots@[core_id].scheduler {
            Some(scheduler) => Some(scheduler.sleeping_place()),
            None => None,
        }
    }

    /// The token of the graph that the worker of a core runs, while it runs one.
    pub closed spec fn running(&self, core_id: int) -> Option<u32> {
        if self.slots@[core_id].worker_busy {
            Some(self.slots@[core_id].worker_token)
        } else {
            None
        }
    }

    /// The core that the worker at a place serves, once it has begun; zero before.
    pub closed spec fn worker_core(&self, core_id: int) -> u32 {
        self.slots@[core_id].worker_core_id
    }

    /// Nothing about the other cores changed.
    pub closed spec fn others_kept(&self, before: Self, core_id: int) -> bool {
        &&& self.slots@.len() == before.slots@.len()
        &&& forall|c: int|
            0 <= c < self.slots@.len() && c != core_id ==> #[trigger] self.slots@[c]
                == before.slots@[c]
    }

    /// A table in order stays so where one place changes and is left in order.
    proof fn one_place_changed(&self, before: Self, core_id: int)
        requires
            before.wf(),
            0 <= core_id < 64,
            self.others_kept(before, core_id),
            slot_wf(self.slots@[core_id], core_id),
        ensures
            self.wf(),
    {
        assert forall|c: int| 0 <= c < 64 implies #[trigger] slot_wf(self.slots@[c], c) by {
            if c != core_id {
                assert(slot_wf(before.slots@[c], c));
            }
        }
    }

    /// A table without schedulers.
    pub fn new() -> (r: Self)
        ensures
            r.wf(),
            forall|c: int|
                0 <= c < 64 ==> #[trigger] r.state(c) == SCHEDULER_UNINIT && r.waiting(c)
                    == Seq::<AINodeUnit<H>>::empty() && r.running(c) is None && r.worker_core(c) == 0,
    {
        let mut slots: Vec<SchedulerSlot<H, Q>> = Vec::new();
        let mut c: usize = 0;
        while c < 64
            invariant
                c <= 64,
                slots@.len() == c,
                forall|d: int|
                    0 <= d < c ==> (#[trigger] slots@[d]).init_state == SCHEDULER_UNINIT
                        && slots@[d].scheduler is None && !slots@[d].worker_busy
                        && slots@[d].worker_core_id == 0,
            decreases 64 - c,
        {
            slots.push(
                SchedulerSlot {
                    init_state: SCHEDULER_UNINIT,
                    scheduler: None,
                    worker_busy: false,
                    worker_token: 0,
                    worker_core_id: 0,
                },
            );
            c = c + 1;
        }
        SchedulerTable { slots }
    }

    /// Whether the scheduler of a core can be used.
    pub fn scheduler_after_ready(&self, core_id: u32) -> (r: Result<
        SchedulerReadiness,
        SchedulerErr,
    >)
        requires
            self.wf(),
        ensures
            r == (if core_id < 64 {
                readiness_of(self.state(core_id as int))
            } else {
                Err::<SchedulerReadiness, SchedulerErr>(SchedulerErr::InvalidGraph)
            }),
    {
        match scheduler_slot(core_id) {
            Ok(index) => readiness(self.slots[index].init_state),
            Err(err) => Err(err),
        }
    }

    /// Sets the scheduler of a core up, unless it is, and starts its worker. Says whether
    /// that was done here, which is so for the one who set it up and for nobody else.
    pub fn get_or_init_scheduler<C: K3SchedulerOps<WaitQueue = Q>>(
        &mut self,
        caller: &C,
        core_id: u32,
    ) -> (r: Result<bool, SchedulerErr>)
        requires
            old(self).wf(),
        ensures
            final(self).wf(),
            final(self).others_kept(*old(self), core_id as int),
            if core_id >= 64 {
                &&& r == Err::<bool, SchedulerErr>(SchedulerErr::InvalidGraph)
                &&& *final(self) == *old(self)
            } else {
                &&& r == Ok::<bool, SchedulerErr>(
                    old(self).state(core_id as int) == SCHEDULER_UNINIT,
                )
                &&& final(self).state(core_id as int) == (if r->Ok_0 {
                    SCHEDULER_READY
                } else {
                    old(self).state(core_id as int)
                })
                &&& final(self).waiting(core_id as int) == old(self).waiting(core_id as int)
                &&& final(self).running(core_id as int) == old(self).running(core_id as int)
                &&& final(self).worker_core(core_id as int) == old(self).worker_core(core_id as int)
                &&& if r->Ok_0 {
                    set_up_by(caller, core_id, final(self).sleeping_place(core_id as int))
                } else {
                    final(self).sleeping_place(core_id as int) == old(self).sleeping_place(
                        core_id as int,
                    )
                }
            },
    {
        let index: usize = match scheduler_slot(core_id) {
            Ok(index) => index,
            Err(err) => {
                return Err(err);
            },
        };
        assert(slot_wf(self.slots@[index as int], index as int));
        let mut state: u8 = self.slots[index].init_state;
        let claimed: bool = try_claim_scheduler_initialization(&mut state);
        if claimed {
            let busy: bool = self.slots[index].worker_busy;
            let token: u32 = self.slots[index].worker_token;
            let core: u32 = self.slots[index].worker_core_id;
            let wait_queue: Q = caller.new_wait_queue();
            let ghost place = wait_queue;
            let slot = SchedulerSlot {
                init_state: SCHEDULER_READY,
                scheduler: Some(GraphScheduler::new_with_core(core_id, wait_queue)),
                worker_busy: busy,
                worker_token: token,
                worker_core_id: core,
            };
            self.slots.set(index, slot);
            proof {
                self.one_place_changed(*old(self), index as int);
            }
            caller.spawn_thread_on_core(core_id, core_id as usize);
            assert(self.sleeping_place(core_id as int) == Some(place));
        }
        Ok(claimed)
    }

    /// Queues a graph on a core, after setting the scheduler of that core up where need be,
    /// and wakes the worker of the core.
    pub fn run_graph_on_core<C: K3SchedulerOps<WaitQueue = Q>>(
        &mut self,
        caller: &C,
        submit_core_id: u32,
        unit: AINodeUnit<H>,
    ) -> (r: Result<RunOutcome<H>, SchedulerErr>)
        requires
            old(self).wf(),
        ensures
            final(self).wf(),
            queued(*old(self), *final(self), caller, submit_core_id, unit, r),
    {
        let spawn_worker: bool = match self.get_or_init_scheduler(caller, submit_core_id) {
            Ok(spawn) => spawn,
            Err(err) => {
                return Err(err);
            },
        };
        let index: usize = submit_core_id as usize;
        let ghost before = *self;
        assert(slot_wf(self.slots@[index as int], index as int));
        let pushed: PushOutcome<H> = match &mut self.slots[index].scheduler {
            Some(scheduler) => scheduler.push_task_for_core(submit_core_id, unit),
            None => PushOutcome::Rejected(SchedulerErr::InvalidGraph),
        };
        if let PushOutcome::Queued = &pushed {
            if let Some(scheduler) = &self.slots[index].scheduler {
                scheduler.wait_queue().notify_one();
            }
        }
        proof {
            self.one_place_changed(before, index as int);
        }
        Ok(RunOutcome { spawn_worker, pushed })
    }

    /// Queues a graph on the core that the caller runs on.
    pub fn run_graph<C: K3SchedulerOps<WaitQueue = Q>>(
        &mut self,
        caller: &C,
        unit: AINodeUnit<H>,
    ) -> (r: Result<RunOutcome<H>, SchedulerErr>)
        requires
            old(self).wf(),
        ensures
            final(self).wf(),
            exists|submit_core_id: u32|
                {
                    &&& call_ensures(C::current_core_id, (caller,), submit_core_id)
                    &&& #[trigger] queued(
                        *old(self),
                        *final(self),
                        caller,
                        submit_core_id,
                        unit,
                        r,
                    )
                },
    {
        let submit_core_id: u32 = caller.current_core_id();
        let r = self.run_graph_on_core(caller, submit_core_id, unit);
        assert(queued(*old(self), *self, caller, submit_core_id, unit, r));
        r
    }

    /// The scheduler of a core, where it can be used.
    pub fn scheduler(&self, core_id: u32) -> (r: Option<&GraphScheduler<H, Q>>)
        requires
            self.wf(),
        ensures
            r is Some == (core_id < 64 && self.state(core_id as int) == SCHEDULER_READY),
            r is Some ==> {
                &&& r->0.wf()
                &&& r->0.bound_core() == core_id
                &&& r->0.waiting() == self.waiting(core_id as int)
                &&& Some(r->0.sleeping_place()) == self.sleeping_place(core_id as int)
            },
    {
        match scheduler_slot(core_id) {
            Ok(index) => {
                assert(slot_wf(self.slots@[index as int], index as int));
                if self.slots[index].init_state == SCHEDULER_READY {
                    self.slots[index].scheduler.as_ref()
                } else {
                    None
                }
            },
            Err(_) => None,
        }
    }

    /// Lets the worker of a core begin, and notes the core that it serves. Its core has to
    /// have a scheduler that can be used; where the table has a place for the core, the core
    /// is noted all the same.
    pub fn start_worker(&mut self, arg: usize) -> (r: Result<u32, SchedulerErr>)
        requires
            old(self).wf(),
        ensures
            final(self).wf(),
            final(self).others_kept(*old(self), arg as int),
            if arg < 64 {
                &&& r == (if old(self).state(arg as int) == SCHEDULER_READY {
                    Ok::<u32, SchedulerErr>(arg as u32)
                } else {
                    Err(SchedulerErr::InvalidGraph)
                })
                &&& final(self).state(arg as int) == old(self).state(arg as int)
                &&& final(self).waiting(arg as int) == old(self).waiting(arg as int)
                &&& final(self).running(arg as int) == old(self).running(arg as int)
                &&& final(self).sleeping_place(arg as int) == old(self).sleeping_place(arg as int)
                &&& final(self).worker_core(arg as int) == arg as u32
            } else {
                &&& r == Err::<u32, SchedulerErr>(SchedulerErr::InvalidGraph)
                &&& *final(self) == *old(self)
            },
    {
        if arg >= MAX_SCHEDULER_CORES {
            return Err(SchedulerErr::InvalidGraph);
        }
        assert(slot_wf(self.slots@[arg as int], arg as int));
        self.slots[arg].worker_core_id = arg as u32;
        proof {
            self.one_place_changed(*old(self), arg as int);
        }
        if self.slots[arg].init_state != SCHEDULER_READY {
            return Err(SchedulerErr::InvalidGraph);
        }
        Ok(arg as u32)
    }

    /// Gives the worker of a core the next graph to run, or nothing where it may sleep.
    pub fn begin_task(&mut self, core_id: u32) -> (r: Option<GraphRun<H>>)
        requires
            old(self).wf(),
            core_id < 64,
        ensures
            final(self).wf(),
            final(self).others_kept(*old(self), core_id as int),
            final(self).state(core_id as int) == old(self).state(core_id as int),
            final(self).sleeping_place(core_id as int) == old(self).sleeping_place(core_id as int),
            final(self).worker_core(core_id as int) == old(self).worker_core(core_id as int),
            if old(self).waiting(core_id as int).len() == 0 {
                &&& r is None
                &&& final(self).waiting(core_id as int) == old(self).waiting(core_id as int)
                &&& final(self).running(core_id as int) == old(self).running(core_id as int)
            } else {
                let unit = old(self).waiting(core_id as int)[0];
                &&& r is Some
                &&& r->0.wf()
                &&& r->0.unit() == unit
                &&& r->0.results() == Seq::<i32>::empty()
                &&& final(self).waiting(core_id as int) == old(self).waiting(
                    core_id as int,
                ).drop_first()
                &&& final(self).running(core_id as int) == Some(unit.user_token.0)
            },
    {
        let index: usize = core_id as usize;
        assert(slot_wf(self.slots@[index as int], index as int));
        let taken: Option<AINodeUnit<H>> = match &mut self.slots[index].scheduler {
            Some(scheduler) => scheduler.take_task_for_core(core_id),
            None => None,
        };
        let r = match taken {
            Some(unit) => {
                self.slots[index].worker_busy = true;
                self.slots[index].worker_token = unit.user_token.0;
                Some(GraphRun::start(unit))
            },
            None => None,
        };
        proof {
            self.one_place_changed(*old(self), index as int);
        }
        r
    }

    /// Notes that the worker of a core has ended its graph.
    pub fn end_task(&mut self, core_id: u32)
        requires
            old(self).wf(),
            core_id < 64,
        ensures
            final(self).wf(),
            final(self).others_kept(*old(self), core_id as int),
            final(self).state(core_id as int) == old(self).state(core_id as int),
            final(self).sleeping_place(core_id as int) == old(self).sleeping_place(core_id as int),
            final(self).waiting(core_id as int) == old(self).waiting(core_id as int),
            final(self).worker_core(core_id as int) == old(self).worker_core(core_id as int),
            final(self).running(core_id as int) is None,
    {
        let index: usize = core_id as usize;
        assert(slot_wf(self.slots@[index as int], index as int));
        self.slots[index].worker_token = 0;
        self.slots[index].worker_busy = false;
        proof {
            self.one_place_changed(*old(self), index as int);
        }
    }
}

/// The place of a core is in order.
spec fn slot_wf<H, Q: K3SchedulerWaitQueue>(slot: SchedulerSlot<H, Q>, core_id: int) -> bool {
    &&& slot.init_state == SCHEDULER_UNINIT || slot.init_state == SCHEDULER_READY
    &&& slot.init_state == SCHEDULER_READY <==> slot.scheduler is Some
    &&& slot.scheduler matches Some(scheduler) ==> scheduler.wf() && scheduler.bound_core()
        == core_id
}

/// Index of the place of a core.
pub fn scheduler_slot(core_id: u32) -> (r: Result<usize, SchedulerErr>)
    ensures
        r == (if core_id < 64 {
            Ok::<usize, SchedulerErr>(core_id as usize)
        } else {
            Err(SchedulerErr::InvalidGraph)
        }),
{
    if (core_id as usize) < MAX_SCHEDULER_CORES {
        Ok(core_id as usize)
    } else {
        Err(SchedulerErr::InvalidGraph)
    }
}


/// A graph that was queued on a core is the last to run there; those before it keep their
/// order, and it is given back where there was no room.
pub proof fn queued_graph_waits_last<H, C: K3SchedulerOps>(
    before: SchedulerTable<H, C::WaitQueue>,
    after: SchedulerTable<H, C::WaitQueue>,
    caller: &C,
    core: u32,
    unit: AINodeUnit<H>,
    outcome: RunOutcome<H>,
)
    requires
        queued(
            before,
            after,
            caller,
            core,
            unit,
            Ok::<RunOutcome<H>, SchedulerErr>(outcome),
        ),
    ensures
        outcome.pushed is Queued ==> {
            let (old_line, line) = (before.waiting(core as int), after.waiting(core as int));
            &&& line.len() == old_line.len() + 1
            &&& line.last() == unit
            &&& forall|i: int| 0 <= i < old_line.len() ==> #[trigger] line[i] == old_line[i]
        },
        !(outcome.pushed is Queued) ==> outcome.pushed == PushOutcome::Full(unit) && after.waiting(
            core as int,
        ) == before.waiting(core as int),
        outcome.pushed is Queued <==> before.waiting(core as int).len() < 64,
{
}

} // verus!

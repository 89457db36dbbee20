//! The bounded queue of a core.
//!
//! Each slot carries a sequence number that says whose turn it is: a slot is free for
//! position `p` when its number is `p`, and holds the task of position `p` when its
//! number is `p + 1`. Positions count up and wrap around.

use vstd::prelude::*;

verus! {

/// Tasks that the queue of a core can hold.
pub const SCHEDULER_QUEUE_CAPACITY: usize = 64;

/// Why a task was not queued.
#[derive(Clone, Copy, PartialEq, Eq, Structural, Debug)]
pub enum QueuePushError {
    /// Every slot holds a task.
    Full,
    /// The caller is not on the queue's core.
    CoreMismatch,
    /// There was no task.
    MissingTask,
}

/// Why no task was looked for.
#[derive(Clone, Copy, PartialEq, Eq, Structural, Debug)]
pub enum QueuePopError {
    /// The caller is not on the queue's core.
    CoreMismatch,
}

/// One place in the queue.
pub struct QueueSlot<T> {
    /// Whose turn the slot is.
    sequence: u64,
    /// The task, where the slot holds one.
    value: Option<T>,
}

/// The queue of a core.
pub struct PerCoreTaskQueue<T> {
    core_id: u32,
    head: u64,
    tail: u64,
    slots: Vec<QueueSlot<T>>,
}

/// Position `p`, wrapped around.
spec fn wrap(p: int) -> int {
    p % 0x1_0000_0000_0000_0000
}

/// Slot of a position.
spec fn slot_of(p: int) -> int {
    p % 64
}

/// A wrapped position has the same slot.
proof fn wrap_keeps_slot(p: int)
    requires
        0 <= p,
    ensures
        slot_of(wrap(p)) == slot_of(p),
{
    assert((p % 0x1_0000_0000_0000_0000) % 64 == p % 64) by (nonlinear_arith);
}

/// Every slot agrees with the position of the front and the number of tasks about
/// whose turn it is.
spec fn turns_agree<T>(slots: Seq<QueueSlot<T>>, head: int, count: int) -> bool {
    &&& slots.len() == 64
    &&& 0 <= count <= 64
    &&& forall|i: int| 0 <= i < 64 ==> #[trigger] turn_agrees(slots, head, count, i)
}

/// The slot that is `i` places from the front agrees about whose turn it is.
spec fn turn_agrees<T>(slots: Seq<QueueSlot<T>>, head: int, count: int, i: int) -> bool {
    let slot = slots[slot_of(head + i)];
    if i < count {
        slot.sequence == wrap(head + i + 1) && slot.value is Some
    } else {
        slot.sequence == wrap(head + i) && slot.value is None
    }
}

/// The tasks in the slots, from the front on.
spec fn tasks_from<T>(slots: Seq<QueueSlot<T>>, head: int, count: int) -> Seq<T> {
    Seq::new(count as nat, |i: int| slots[slot_of(head + i)].value->0)
}

/// Seen from the next front, every position is one nearer.
proof fn next_front(head: int, i: int)
    requires
        0 <= head < 0x1_0000_0000_0000_0000,
        0 <= i <= 64,
    ensures
        slot_of(wrap(head + 1) + i) == slot_of(head + (i + 1)),
        wrap(wrap(head + 1) + i) == wrap(head + (i + 1)),
        wrap(wrap(head + 1) + i + 1) == wrap(head + (i + 1) + 1),
{
}

/// Positions less than a round apart have slots of their own.
proof fn slots_differ(head: int, i: int, k: int)
    requires
        0 <= head,
        0 <= i < 64,
        0 <= k < 64,
        i != k,
    ensures
        slot_of(head + i) != slot_of(head + k),
{
}

/// Emptying the front slot leaves the other tasks in order.
proof fn front_leaves<T>(slots: Seq<QueueSlot<T>>, head: int, count: int, empty: QueueSlot<T>)
    requires
        turns_agree(slots, head, count),
        0 <= head < 0x1_0000_0000_0000_0000,
        count > 0,
        empty.sequence == wrap(head + 64),
        empty.value is None,
    ensures
        turns_agree(slots.update(slot_of(head), empty), wrap(head + 1), count - 1),
        tasks_from(slots.update(slot_of(head), empty), wrap(head + 1), count - 1) == tasks_from(
            slots,
            head,
            count,
        ).drop_first(),
{
    let after = slots.update(slot_of(head), empty);
    let front = wrap(head + 1);
    assert forall|i: int| 0 <= i < 64 implies #[trigger] turn_agrees(after, front, count - 1, i) by {
        let k = i + 1;
        next_front(head, i);
        if k < 64 {
            assert(turn_agrees(slots, head, count, k));
            slots_differ(head, k, 0);
        }
    }
    let rest = tasks_from(after, front, count - 1);
    let tasks = tasks_from(slots, head, count);
    assert forall|i: int| 0 <= i < count - 1 implies #[trigger] rest[i] == tasks[i + 1] by {
        next_front(head, i);
        slots_differ(head, i + 1, 0);
    }
    assert(rest =~= tasks.drop_first());
}

/// Filling the slot behind the last task puts the task at the back.
proof fn back_joins<T>(slots: Seq<QueueSlot<T>>, head: int, count: int, full: QueueSlot<T>)
    requires
        turns_agree(slots, head, count),
        0 <= head < 0x1_0000_0000_0000_0000,
        count < 64,
        full.sequence == wrap(head + count + 1),
        full.value is Some,
    ensures
        turns_agree(slots.update(slot_of(head + count), full), head, count + 1),
        tasks_from(slots.update(slot_of(head + count), full), head, count + 1) == tasks_from(
            slots,
            head,
            count,
        ).push(full.value->0),
{
    let after = slots.update(slot_of(head + count), full);
    assert forall|i: int| 0 <= i < 64 implies #[trigger] turn_agrees(after, head, count + 1, i) by {
        assert(turn_agrees(slots, head, count, i));
        if i != count {
            slots_differ(head, i, count);
        }
    }
    let tasks = tasks_from(after, head, count + 1);
    assert forall|i: int| 0 <= i < count implies #[trigger] tasks[i] == tasks_from(
        slots,
        head,
        count,
    )[i] by {
        slots_differ(head, i, count);
    }
    assert(tasks =~= tasks_from(slots, head, count).push(full.value->0));
}

impl<T> PerCoreTaskQueue<T> {
    /// Number of tasks that wait.
    spec fn count(&self) -> int {
        wrap(self.tail - self.head)
    }

    /// Every slot agrees with head and tail about whose turn it is.
    pub closed spec fn wf(&self) -> bool {
        turns_agree(self.slots@, self.head as int, self.count())
    }

    /// The core that the queue belongs to.
    pub closed spec fn bound_core(&self) -> u32 {
        self.core_id
    }
}

impl<T> View for PerCoreTaskQueue<T> {
    type V = Seq<T>;

    /// The tasks that wait, the next one first.
    closed spec fn view(&self) -> Seq<T> {
        tasks_from(self.slots@, self.head as int, self.count())
    }
}

/// How queueing a task turns out: on the queue's core, where there is a task and a free
/// slot, the task joins at the back; else nothing changes.
pub open spec fn pushed<T>(
    before: PerCoreTaskQueue<T>,
    core_id: u32,
    task: Option<T>,
    after: PerCoreTaskQueue<T>,
    r: Result<(), QueuePushError>,
) -> bool {
    &&& after.bound_core() == before.bound_core()
    &&& r == (if core_id != before.bound_core() {
        Err::<(), QueuePushError>(QueuePushError::CoreMismatch)
    } else if task is None {
        Err(QueuePushError::MissingTask)
    } else if before@.len() == SCHEDULER_QUEUE_CAPACITY {
        Err(QueuePushError::Full)
    } else {
        Ok(())
    })
    &&& after@ == (if r is Ok {
        before@.push(task->0)
    } else {
        before@
    })
}

/// How taking a task turns out: on the queue's core, the task at the front leaves, where
/// there is one; else nothing changes.
pub open spec fn popped<T>(
    before: PerCoreTaskQueue<T>,
    core_id: u32,
    after: PerCoreTaskQueue<T>,
    r: Result<Option<T>, QueuePopError>,
) -> bool {
    &&& after.bound_core() == before.bound_core()
    &&& if core_id != before.bound_core() {
        &&& r == Err::<Option<T>, QueuePopError>(QueuePopError::CoreMismatch)
        &&& after@ == before@
    } else if before@.len() == 0 {
        &&& r == Ok::<Option<T>, QueuePopError>(None)
        &&& after@ == before@
    } else {
        &&& r == Ok::<Option<T>, QueuePopError>(Some(before@[0]))
        &&& after@ == before@.drop_first()
    }
}

/// A call on a queue, and what it answered.
pub enum QueueCall<T> {
    /// A task was to be queued: the core of the caller, the task and the answer.
    Push(u32, Option<T>, Result<(), QueuePushError>),
    /// A task was to be taken: the core of the caller and the answer.
    Pop(u32, Result<Option<T>, QueuePopError>),
}

/// What a call makes of a queue.
pub open spec fn called<T>(
    before: PerCoreTaskQueue<T>,
    call: QueueCall<T>,
    after: PerCoreTaskQueue<T>,
) -> bool {
    match call {
        QueueCall::Push(core_id, task, r) => pushed(before, core_id, task, after, r),
        QueueCall::Pop(core_id, r) => popped(before, core_id, after, r),
    }
}

/// Queues, from an empty one on, each made of the one before by a call.
pub open spec fn called_in_turn<T>(
    states: Seq<PerCoreTaskQueue<T>>,
    calls: Seq<QueueCall<T>>,
) -> bool {
    &&& states.len() == calls.len() + 1
    &&& states[0]@ == Seq::<T>::empty()
    &&& forall|i: int|
        0 <= i < calls.len() ==> called(states[i], #[trigger] calls[i], states[i + 1])
}

/// The tasks that a series of calls queued, in order.
pub open spec fn taken_in<T>(calls: Seq<QueueCall<T>>) -> Seq<T>
    decreases calls.len(),
{
    if calls.len() == 0 {
        Seq::empty()
    } else {
        match calls.last() {
            QueueCall::Push(_, task, Ok(_)) => taken_in(calls.drop_last()).push(
                task->0,
            ),
            _ => taken_in(calls.drop_last()),
        }
    }
}

/// The tasks that a series of calls handed out, in order.
pub open spec fn handed_out<T>(calls: Seq<QueueCall<T>>) -> Seq<T>
    decreases calls.len(),
{
    if calls.len() == 0 {
        Seq::empty()
    } else {
        match calls.last() {
            QueueCall::Pop(_, Ok(Some(task))) => handed_out(
                calls.drop_last(),
            ).push(task),
            _ => handed_out(calls.drop_last()),
        }
    }
}

/// Over any series of calls, the tasks that were handed out and those that still wait are,
/// in order, the tasks that were taken in: none is lost, doubled or overtaken.
pub proof fn tasks_leave_as_they_came<T>(
    states: Seq<PerCoreTaskQueue<T>>,
    calls: Seq<QueueCall<T>>,
)
    requires
        called_in_turn(states, calls),
    ensures
        taken_in(calls) == handed_out(calls) + states.last()@,
        handed_out(calls).is_prefix_of(taken_in(calls)),
        states.last().bound_core() == states[0].bound_core(),
    decreases calls.len(),
{
    if calls.len() > 0 {
        let earlier = states.drop_last();
        let fewer = calls.drop_last();
        assert forall|i: int| 0 <= i < fewer.len() implies called(
            earlier[i],
            #[trigger] fewer[i],
            earlier[i + 1],
        ) by {
            assert(fewer[i] == calls[i]);
        }
        tasks_leave_as_they_came(earlier, fewer);
        let k = calls.len() - 1;
        assert(called(states[k], calls[k], states[k + 1]));
    }
    assert(taken_in(calls) =~= handed_out(calls) + states.last()@);
}

impl<T> PerCoreTaskQueue<T> {
    /// An empty queue for a core.
    pub fn new(core_id: u32) -> (r: Self)
        ensures
            r.wf(),
            r.bound_core() == core_id,
            r@ == Seq::<T>::empty(),
    {
        let mut slots: Vec<QueueSlot<T>> = Vec::new();
        let mut i: u64 = 0;
        while i < 64
            invariant
                i <= 64,
                slots@.len() == i,
                forall|j: int|
                    0 <= j < i ==> (#[trigger] slots@[j]).sequence == j && slots@[j].value is None,
            decreases 64 - i,
        {
            slots.push(QueueSlot { sequence: i, value: None });
            i = i + 1;
        }
        let r = PerCoreTaskQueue { core_id, head: 0, tail: 0, slots };
        assert(r@ =~= Seq::<T>::empty());
        r
    }

    /// Queues the task, if there is one, the caller is on the queue's core and a slot
    /// is free. A task that was not queued stays with the caller.
    pub fn try_push(&mut self, expected_core_id: u32, task: &mut Option<T>) -> (r: Result<
        (),
        QueuePushError,
    >)
        requires
            old(self).wf(),
        ensures
            final(self).wf(),
            pushed(*old(self), expected_core_id, *old(task), *final(self), r),
            *final(task) == (if r is Ok {
                None
            } else {
                *old(task)
            }),
            final(self)@.len() <= SCHEDULER_QUEUE_CAPACITY,
    {
        if expected_core_id != self.core_id {
            return Err(QueuePushError::CoreMismatch);
        }
        if task.is_none() {
            return Err(QueuePushError::MissingTask);
        }
        let tail: u64 = self.tail;
        let index: usize = (tail % 64) as usize;
        let ghost h = self.head as int;
        let ghost c = self.count();
        proof {
            assert(wrap(h + c) == tail);
            wrap_keeps_slot(h + c);
            assert(index == slot_of(h + c));
            if c == 64 {
                assert(slot_of(h + 64) == slot_of(h + 0));
                assert(turn_agrees(self.slots@, h, c, 0));
            } else {
                assert(turn_agrees(self.slots@, h, c, c));
            }
        }
        let sequence: u64 = self.slots[index].sequence;
        let delta: u64 = sequence.wrapping_sub(tail);
        if delta == 0 {
            assert(c < 64);
            let unit: Option<T> = task.take();
            let slot = QueueSlot { sequence: tail.wrapping_add(1), value: unit };
            self.slots.set(index, slot);
            self.tail = tail.wrapping_add(1);
            proof {
                back_joins(old(self).slots@, h, c, slot);
                assert(self.count() == c + 1);
            }
            Ok(())
        } else {
            assert(c == 64);
            Err(QueuePushError::Full)
        }
    }

    /// Takes the task at the front, if the caller is on the queue's core.
    pub fn try_pop(&mut self, expected_core_id: u32) -> (r: Result<Option<T>, QueuePopError>)
        requires
            old(self).wf(),
        ensures
            final(self).wf(),
            popped(*old(self), expected_core_id, *final(self), r),
            final(self)@.len() <= SCHEDULER_QUEUE_CAPACITY,
    {
        if expected_core_id != self.core_id {
            return Err(QueuePopError::CoreMismatch);
        }
        let head: u64 = self.head;
        let index: usize = (head % 64) as usize;
        let ghost h = self.head as int;
        let ghost c = self.count();
        proof {
            assert(index == slot_of(h + 0));
            assert(turn_agrees(self.slots@, h, c, 0));
        }
        let sequence: u64 = self.slots[index].sequence;
        let delta: u64 = sequence.wrapping_sub(head.wrapping_add(1));
        if delta == 0 {
            assert(c > 0);
            let mut slot = QueueSlot { sequence: head.wrapping_add(64), value: None };
            let ghost empty = slot;
            std::mem::swap(&mut self.slots[index], &mut slot);
            self.head = head.wrapping_add(1);
            proof {
                front_leaves(old(self).slots@, h, c, empty);
                assert(self.count() == c - 1);
                assert(old(self)@[0] == old(self).slots@[slot_of(h + 0)].value->0);
            }
            Ok(slot.value)
        } else {
            assert(c == 0);
            Ok(None)
        }
    }

    /// No more tasks wait than there are slots.
    pub proof fn length_is_bounded(&self)
        requires
            self.wf(),
        ensures
            self@.len() <= SCHEDULER_QUEUE_CAPACITY,
    {
    }

    /// Number of tasks that wait.
    pub fn len_approx(&self) -> (r: usize)
        requires
            self.wf(),
        ensures
            r == self@.len(),
            r <= SCHEDULER_QUEUE_CAPACITY,
    {
        self.tail.wrapping_sub(self.head) as usize
    }
}

} // verus!

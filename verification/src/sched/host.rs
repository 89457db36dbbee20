//! What the scheduler needs from the system that it runs on.

use vstd::prelude::*;

verus! {

/// Where a worker sleeps while it has nothing to do.
pub trait K3SchedulerWaitQueue {
    /// Sleeps until woken.
    fn wait(&self);

    /// Sleeps while the condition does not hold, and looks again when woken. Looking and
    /// falling asleep are one step, so that no wake-up in between is missed.
    fn wait_until<F: Fn() -> bool>(&self, condition: &F)
        requires
            condition.requires(()),
    ;

    /// Wakes one sleeper.
    fn notify_one(&self);

    /// Wakes every sleeper.
    fn notify_all(&self);
}

/// The system calls of the scheduler.
pub trait K3SchedulerOps {
    /// Where the workers sleep.
    type WaitQueue: K3SchedulerWaitQueue;

    /// A place for one worker to sleep.
    fn new_wait_queue(&self) -> Self::WaitQueue;

    /// The core that the caller runs on.
    fn current_core_id(&self) -> u32;

    /// Copies `len` bytes from a user address.
    fn copy_from_user(&self, user_va: u64, len: usize) -> Result<Vec<u8>, ()>;

    /// Copies bytes to a user address.
    fn copy_to_user(&self, user_va: u64, bytes: &[u8]) -> Result<(), ()>;

    /// Makes a user buffer visible to the kernel and gives its kernel address.
    fn map_user_to_kernel(&self, user_va: u64, len: usize) -> Result<u64, ()>;

    /// Gives a kernel mapping back.
    fn unmap_user(&self, kernel_va: u64, len: usize) -> Result<(), ()>;

    /// Starts the worker of a core.
    fn spawn_thread_on_core(&self, core_id: u32, arg: usize);
}

} // verus!

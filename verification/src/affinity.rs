//! CPU affinity management: how many workers to run, and which core each thread is bound to.
use vstd::prelude::*;

use crate::error::{internal_error, Error, Result};
use crate::text;

verus! {

broadcast use vstd::string::group_string_axioms;

/// CPU affinity manager for distributing threads across CPU cores.
#[derive(Debug)]
pub struct CpuAffinityManager {
    pub cpu_count: usize,
    pub next_cpu: usize,
}

/// `num_cpus::get` counts the processors that this process may use, and always finds at least one.
/// How many more there are is a matter of the machine.
#[verifier::external_body]
fn available_cpus() -> (result: usize)
    ensures
        result >= 1,
{
    num_cpus::get()
}

/// All cores but no more than 32, and at least one.
pub open spec fn worker_count(cpus: usize) -> usize {
    if cpus > 32 {
        32
    } else if cpus < 1 {
        1
    } else {
        cpus
    }
}

/// There is always a worker, there are never more than 32, and a larger machine has no fewer. Up to
/// 32 cores there is one for each.
pub proof fn law_worker_count_bounds(cpus: usize, more: usize)
    requires
        cpus <= more,
    ensures
        1 <= worker_count(cpus) <= 32,
        worker_count(cpus) <= worker_count(more),
        cpus > 0 ==> worker_count(cpus) <= cpus,
        1 <= cpus <= 32 ==> worker_count(cpus) == cpus,
        cpus >= 32 ==> worker_count(cpus) == 32,
{
}

impl CpuAffinityManager {
    /// A manager for a machine with this many cores, none of them assigned yet.
    pub fn with_cpus(cpu_count: usize) -> (result: Self)
        ensures
            result == (CpuAffinityManager { cpu_count, next_cpu: 0 }),
    {
        CpuAffinityManager { cpu_count, next_cpu: 0 }
    }

    /// Create a new CPU affinity manager for this machine.
    pub fn new() -> (result: Self)
        ensures
            result.next_cpu == 0,
            result.cpu_count >= 1,
    {
        CpuAffinityManager::with_cpus(available_cpus())
    }

    /// Get the number of available CPU cores.
    pub fn cpu_count(&self) -> (result: usize)
        ensures
            result == self.cpu_count,
    {
        self.cpu_count
    }

    /// Get the optimal number of worker threads.
    /// Uses all available cores but caps at a reasonable maximum.
    pub fn optimal_worker_count(&self) -> (result: usize)
        ensures
            result == worker_count(self.cpu_count),
    {
        if self.cpu_count > 32 {
            32
        } else if self.cpu_count < 1 {
            1
        } else {
            self.cpu_count
        }
    }

    /// The core that the current thread is to be bound to: each call takes the next one in turn.
    pub fn assign_current_thread(&mut self) -> (result: usize)
        requires
            old(self).cpu_count > 0,
        ensures
            result == old(self).next_cpu % old(self).cpu_count,
            final(self).cpu_count == old(self).cpu_count,
            final(self).next_cpu == (if old(self).next_cpu == usize::MAX {
                0
            } else {
                old(self).next_cpu + 1
            }),
    {
        let cpu_id: usize = self.next_cpu % self.cpu_count;
        self.next_cpu = self.next_cpu.wrapping_add(1);
        cpu_id
    }

    /// The core that stands for this number on the machine at hand.
    pub fn core_for(&self, cpu_id: usize) -> (result: usize)
        requires
            self.cpu_count > 0,
        ensures
            result == cpu_id % self.cpu_count,
    {
        cpu_id % self.cpu_count
    }
}

/// What binding a thread to a core comes to, given the failure that the system reported, if any.
pub fn set_thread_affinity(failure: Option<&str>) -> (result: Result<()>)
    ensures
        match failure {
            Some(f) => result matches Err(e) && e@ == internal_error(
                "Failed to set CPU affinity: "@ + f@,
            ),
            None => result is Ok,
        },
{
    match failure {
        Some(f) => {
            let message = text::cat2("Failed to set CPU affinity: ", f);
            Err(Error::internal(message.as_str()))
        },
        None => Ok(()),
    }
}

/// Get the number of available CPU cores, as the manager that all threads share counted them.
pub fn cpu_count(manager: &CpuAffinityManager) -> (result: usize)
    ensures
        result == manager.cpu_count,
{
    manager.cpu_count()
}

/// Get the optimal number of worker threads, by the manager that all threads share.
pub fn optimal_worker_count(manager: &CpuAffinityManager) -> (result: usize)
    ensures
        result == worker_count(manager.cpu_count),
{
    manager.optimal_worker_count()
}

} // verus!

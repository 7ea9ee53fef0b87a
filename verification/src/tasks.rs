//! How many worker threads the task pools start.

use vstd::prelude::*;

verus! {

/// `num_cpus::get`: the number of logical CPUs this process may run on, which its
/// documentation promises is at least 1. It depends on the machine, so nothing more is stated.
#[verifier::external_body]
fn available_cpus() -> (r: usize)
    ensures
        r >= 1,
{
    num_cpus::get()
}

/// Half of `cpus`, rounded up.
pub open spec fn compute_threads_for(cpus: int) -> int {
    cpus / 2 + cpus % 2
}

/// Half of `cpus`, rounded down.
pub open spec fn async_threads_for(cpus: int) -> int {
    cpus / 2
}

/// On the same CPUs, a compute pool and an asynchronous compute pool together start exactly
/// one thread per CPU.
pub proof fn lemma_pools_share_the_cpus(cpus: usize)
    ensures
        compute_threads_for(cpus as int) + async_threads_for(cpus as int) == cpus,
{
}

/// Threads of a compute pool on `cpus` CPUs: half of them, rounded up.
pub fn compute_pool_threads(cpus: usize) -> (r: usize)
    ensures
        r == compute_threads_for(cpus as int),
        2 * r == cpus || 2 * r == cpus + 1,
{
    cpus / 2 + cpus % 2
}

/// Threads of an asynchronous compute pool on `cpus` CPUs: half of them, rounded down.
pub fn async_compute_pool_threads(cpus: usize) -> (r: usize)
    ensures
        r == async_threads_for(cpus as int),
        2 * r == cpus || 2 * r + 1 == cpus,
{
    cpus / 2
}

/// Threads of a compute pool on this machine: half of its CPUs, rounded up; at least one.
pub fn compute_pool_size() -> (r: usize)
    ensures
        r >= 1,
        exists|cpus: usize| cpus >= 1 && r == #[trigger] (cpus / 2 + cpus % 2),
{
    let cpus = available_cpus();
    let r = compute_pool_threads(cpus);
    assert(cpus >= 1 && r == (cpus / 2 + cpus % 2));
    r
}

/// Threads of an asynchronous compute pool on this machine: half of its CPUs, rounded down.
pub fn async_compute_pool_size() -> (r: usize)
    ensures
        exists|cpus: usize| cpus >= 1 && r == #[trigger] (cpus / 2),
{
    let cpus = available_cpus();
    let r = async_compute_pool_threads(cpus);
    assert(cpus >= 1 && r == cpus / 2);
    r
}

/// Threads of a task pool: the requested number, or one per CPU of this machine.
pub fn task_pool_threads(num_threads: Option<usize>) -> (r: usize)
    ensures
        match num_threads {
            Some(n) => r == n,
            None => r >= 1,
        },
{
    match num_threads {
        Some(n) => n,
        None => available_cpus(),
    }
}

} // verus!

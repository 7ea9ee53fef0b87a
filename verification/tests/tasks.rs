use render::tasks::{
    async_compute_pool_size, async_compute_pool_threads, compute_pool_size, compute_pool_threads,
    task_pool_threads,
};

#[test]
fn compute_pools_split_the_cpus() {
    assert_eq!(compute_pool_threads(8), 4);
    assert_eq!(compute_pool_threads(7), 4);
    assert_eq!(compute_pool_threads(1), 1);
    assert_eq!(async_compute_pool_threads(8), 4);
    assert_eq!(async_compute_pool_threads(7), 3);
    assert_eq!(async_compute_pool_threads(1), 0);
}

#[test]
fn pool_sizes_on_this_machine() {
    let cpus = num_cpus::get();
    assert_eq!(compute_pool_size(), (cpus + 1) / 2);
    assert_eq!(async_compute_pool_size(), cpus / 2);
    assert_eq!(task_pool_threads(None), cpus);
    assert_eq!(task_pool_threads(Some(3)), 3);
}

#[test]
fn compute_pools_together_use_every_cpu() {
    for cpus in 0..64usize {
        assert_eq!(compute_pool_threads(cpus) + async_compute_pool_threads(cpus), cpus);
    }
}

use harbr_router::affinity::{cpu_count, optimal_worker_count, set_thread_affinity, CpuAffinityManager};

#[test]
fn test_cpu_count() {
    let manager = CpuAffinityManager::new();
    let count = cpu_count(&manager);
    assert!(count > 0, "Should detect at least one CPU core");
    assert!(count <= 256, "Unrealistic number of CPU cores");
    assert_eq!(count, manager.cpu_count());
    assert_eq!(count, cpu_count(&manager));
}

#[test]
fn test_optimal_worker_count() {
    let count = optimal_worker_count(&CpuAffinityManager::new());
    assert!(count > 0, "Should have at least one worker thread");
    assert!(count <= 32, "Should cap worker threads at reasonable maximum");
}

#[test]
fn test_affinity_manager() {
    let manager = CpuAffinityManager::new();
    assert_eq!(manager.cpu_count(), num_cpus::get());

    let optimal = manager.optimal_worker_count();
    assert!(optimal > 0);
    assert!(optimal <= manager.cpu_count().min(32));
}

#[test]
fn worker_counts_are_capped() {
    assert_eq!(CpuAffinityManager::with_cpus(1).optimal_worker_count(), 1);
    assert_eq!(CpuAffinityManager::with_cpus(4).optimal_worker_count(), 4);
    assert_eq!(CpuAffinityManager::with_cpus(200).optimal_worker_count(), 32);
}

#[test]
fn threads_go_round_the_cores() {
    let mut manager = CpuAffinityManager::with_cpus(3);
    let cores: Vec<usize> = (0..7).map(|_| manager.assign_current_thread()).collect();
    assert_eq!(cores, vec![0, 1, 2, 0, 1, 2, 0]);
    assert_eq!(manager.core_for(7), 1);
}

#[test]
fn a_failed_pinning_is_reported() {
    assert!(set_thread_affinity(None).is_ok());
    assert!(set_thread_affinity(Some("no such core")).is_err());
}

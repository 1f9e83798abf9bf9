use multithreading_practice::thread_pool::{Task, ThreadPool};

#[test]
fn tasks_go_to_the_first_free_worker() {
    let mut pool: ThreadPool<&str> = ThreadPool::new(2);
    assert_eq!(pool.add("a"), Some((0, "a")));
    assert_eq!(pool.add("b"), Some((1, "b")));
    assert_eq!(pool.add("c"), None);
    pool.worker_ready(1);
    assert_eq!(pool.add("d"), Some((1, "d")));
}

#[test]
fn waiting_tasks_leave_in_order() {
    let mut pool: ThreadPool<u32> = ThreadPool::new(1);
    assert_eq!(pool.add(1), Some((0, 1)));
    assert_eq!(pool.add(2), None);
    assert_eq!(pool.add(3), None);
    pool.worker_ready(0);
    assert_eq!(pool.dispatch(), Some((0, 2)));
    pool.worker_ready(0);
    assert_eq!(pool.dispatch(), Some((0, 3)));
    pool.worker_ready(0);
    assert_eq!(pool.dispatch(), None);
    assert_eq!(pool.add(4), Some((0, 4)));
}

#[test]
fn dispatch_without_free_worker_drops_the_oldest_task() {
    let mut pool: ThreadPool<u32> = ThreadPool::new(1);
    assert_eq!(pool.add(1), Some((0, 1)));
    assert_eq!(pool.add(2), None);
    assert_eq!(pool.add(3), None);
    assert_eq!(pool.dispatch(), None);
    pool.worker_ready(0);
    assert_eq!(pool.dispatch(), Some((0, 3)));
}

#[test]
fn find_free_worker_claims_the_lowest_free_worker() {
    let mut pool: ThreadPool<u32> = ThreadPool::new(3);
    assert_eq!(pool.find_free_worker(), Some(0));
    assert_eq!(pool.find_free_worker(), Some(1));
    pool.worker_ready(0);
    assert_eq!(pool.find_free_worker(), Some(0));
    assert_eq!(pool.find_free_worker(), Some(2));
    assert_eq!(pool.find_free_worker(), None);
}

#[test]
fn pool_without_workers_queues_everything() {
    let mut pool: ThreadPool<u32> = ThreadPool::new(0);
    assert_eq!(pool.add(1), None);
    assert_eq!(pool.dispatch(), None);
    assert_eq!(pool.dispatch(), None);
}

#[test]
fn task_keeps_its_computation_and_channel() {
    let task = Task::new(|| 41 + 1, "results");
    assert_eq!((task.runnable)(), 42);
    assert_eq!(task.result_sender, "results");
}

#[test]
fn busy_worker_is_not_handed_out_until_it_reports() {
    let mut pool: ThreadPool<u32> = ThreadPool::new(2);
    assert_eq!(pool.add(1), Some((0, 1)));
    for t in 2..6 {
        match pool.add(t) {
            Some((w, _)) => {
                assert_eq!(w, 1);
                pool.worker_ready(1);
            }
            None => unreachable!(),
        }
    }
    assert_eq!(pool.add(9), Some((1, 9)));
    assert_eq!(pool.add(10), None);
    assert_eq!(pool.find_free_worker(), None);
    pool.worker_ready(0);
    assert_eq!(pool.dispatch(), Some((0, 10)));
}

use chimes_utils::queue::count_queue_tasks;
use chimes_utils::queue::notify_queue_process;
use chimes_utils::queue::queue_registry_handler;
use chimes_utils::queue::start_task_queue_thread;
use chimes_utils::queue::stop_task_queue_thread;
use chimes_utils::queue::task_queue_is_full;
use chimes_utils::queue::config_task_queue_max_tasks;
use chimes_utils::queue::config_task_queue_wait_timeout;
use chimes_utils::queue::HandlerRegistry;
use chimes_utils::queue::ProcessQueue;
use chimes_utils::queue::ProcessTask;
use chimes_utils::queue::WakeSignal;

#[test]
fn periodic_task_fires_every_tick() {
    // a periodic task with period 0 and a registered handler fires on each
    // of three ticks, incrementing the counter three times
    let mut q = ProcessQueue::new();
    let mut reg: HandlerRegistry<u32> = HandlerRegistry::new();
    queue_registry_handler(&mut reg, "ping", 7);
    q.queue_add(ProcessTask::new_at("t1", true, 0, 100, "", "ping"));
    let mut counter = 0;
    for now in [101u64, 102, 103] {
        let due = q.tick(now);
        assert_eq!(due.len(), 1);
        for t in &due {
            if q.process_task(&reg, t).is_some() {
                counter += 1;
            }
        }
    }
    assert!(counter >= 3);
    assert_eq!(counter, 3);
    assert_eq!(q.count(), 1);
}

#[test]
fn one_shot_fires_once_then_leaves() {
    // a one-shot task with period 10 added at time 100 has not fired by
    // 110, fires exactly once at 111, and is gone afterwards
    let mut q = ProcessQueue::new();
    q.queue_add(ProcessTask::new_at("once", false, 10, 100, "", "noop"));
    assert_eq!(q.tick(105).len(), 0);
    assert_eq!(q.tick(110).len(), 0);
    assert_eq!(q.count(), 1);
    let due = q.tick(111);
    assert_eq!(due.len(), 1);
    assert_eq!(due[0].handler_type, "noop");
    assert_eq!(q.count(), 0);
    assert_eq!(q.tick(112).len(), 0);
}

#[test]
fn task_ids_stay_unique() {
    // adding a task under a live identifier does not create a second one
    let mut q = ProcessQueue::new();
    q.queue_add(ProcessTask::new_at("same", true, 5, 100, "", "a"));
    q.queue_add(ProcessTask::new_at("same", true, 9, 100, "", "b"));
    assert_eq!(q.count(), 1);
    q.queue_add(ProcessTask::new_at("other", true, 5, 100, "", "a"));
    assert_eq!(q.count(), 2);
}

#[test]
fn add_wakes_an_idle_waiter() {
    // an add leaves a wake pending, so the wait step returns at once
    let mut q = ProcessQueue::new();
    assert!(!q.take_wake_signal());
    q.queue_add(ProcessTask::new_at("w", true, 1, 100, "", "k"));
    assert!(q.take_wake_signal());
    // the wake was consumed: the next wait would block again
    assert!(!q.take_wake_signal());
}

#[test]
fn shutdown_wakes_all_waiters() {
    let mut q = ProcessQueue::new();
    assert!(start_task_queue_thread(&mut q));
    assert!(q.started);
    let _ = q.take_wake_signal();
    stop_task_queue_thread(&mut q);
    assert!(!q.started);
    assert_eq!(q.wake, WakeSignal::WakeAll);
    assert!(q.take_wake_signal());
}

#[test]
fn start_spawns_only_once() {
    let mut q = ProcessQueue::new();
    assert!(start_task_queue_thread(&mut q));
    assert!(!start_task_queue_thread(&mut q));
    stop_task_queue_thread(&mut q);
    assert!(start_task_queue_thread(&mut q));
}

#[test]
fn notify_wakes_only_running_queue() {
    let mut q = ProcessQueue::new();
    notify_queue_process(&mut q);
    assert!(!q.take_wake_signal());
    let _ = start_task_queue_thread(&mut q);
    notify_queue_process(&mut q);
    assert!(q.take_wake_signal());
}

#[test]
fn remove_is_idempotent() {
    let mut q = ProcessQueue::new();
    let a = ProcessTask::new_at("a", true, 5, 100, "", "k");
    let b = ProcessTask::new_at("b", true, 5, 100, "", "k");
    q.queue_add(a.duplicate());
    q.queue_add(b.duplicate());
    assert_eq!(count_queue_tasks(&q), 2);
    q.queue_remove(&a);
    assert_eq!(count_queue_tasks(&q), 1);
    q.queue_remove(&a);
    assert_eq!(count_queue_tasks(&q), 1);
    q.queue_remove(&b);
    assert_eq!(count_queue_tasks(&q), 0);
}

#[test]
fn capacity_is_advisory() {
    // the bound is informational: is_full reports it, add does not enforce it
    let mut q = ProcessQueue::new();
    config_task_queue_max_tasks(&mut q, 2);
    assert!(!task_queue_is_full(&q));
    q.queue_add(ProcessTask::new_at("1", true, 5, 100, "", "k"));
    q.queue_add(ProcessTask::new_at("2", true, 5, 100, "", "k"));
    assert!(task_queue_is_full(&q));
    q.queue_add(ProcessTask::new_at("3", true, 5, 100, "", "k"));
    assert_eq!(q.count(), 3);
    assert!(task_queue_is_full(&q));
}

#[test]
fn wait_timeout_knob_is_stored() {
    let mut q = ProcessQueue::new();
    assert_eq!(q.waiting_timeout, 30);
    config_task_queue_wait_timeout(&mut q, 90, 5);
    assert_eq!(q.waiting_timeout, 90);
}

#[test]
fn lookup_miss_skips_silently() {
    // a due task whose kind has no handler is skipped without disturbing
    // the other due tasks of the same tick
    let mut q = ProcessQueue::new();
    let mut reg: HandlerRegistry<u32> = HandlerRegistry::new();
    queue_registry_handler(&mut reg, "known", 1);
    q.queue_add(ProcessTask::new_at("m", true, 0, 100, "", "missing"));
    q.queue_add(ProcessTask::new_at("k", true, 0, 100, "", "known"));
    let due = q.tick(101);
    assert_eq!(due.len(), 2);
    let mut handled = 0;
    for t in &due {
        match q.process_task(&reg, t) {
            Some(h) => {
                assert_eq!(*h, 1);
                handled += 1;
            }
            None => {}
        }
    }
    assert_eq!(handled, 1);
    assert_eq!(q.count(), 2);
}

#[test]
fn registry_last_writer_wins() {
    let mut reg: HandlerRegistry<u32> = HandlerRegistry::new();
    queue_registry_handler(&mut reg, "k", 1);
    queue_registry_handler(&mut reg, "k", 2);
    assert_eq!(reg.lookup("k"), Some(&2));
    assert_eq!(reg.lookup("absent"), None);
    assert!(reg.contains("k"));
    assert!(!reg.contains("absent"));
    reg.clear();
    assert!(!reg.contains("k"));
}

#[test]
fn fresh_tasks_have_digit_ids() {
    let t = ProcessTask::new(true, 5, "cookie", "kind");
    assert_eq!(t.task_id.len(), 16);
    assert!(t.task_id.chars().all(|c| c.is_ascii_digit()));
    assert_eq!(t.cookie.as_deref(), Some("cookie"));
    assert_eq!(t.handler_type, "kind");
    assert!(t.cyclicity);
    assert_eq!(t.period, 5);
    let u = ProcessTask::new_with_cookie_fn("c2", false, 9, "k2");
    assert_eq!(u.task_id.len(), 16);
    assert!(!u.cyclicity);
    assert_eq!(u.period, 9);
    assert_eq!(u.cookie.as_deref(), Some("c2"));
    assert_eq!(u.handler_type, "k2");
}

#[test]
fn dispatched_snapshot_keeps_old_last_time() {
    // the scan hands the handler the task as it stood before the tick
    // moved its last run time
    let mut q = ProcessQueue::new();
    q.queue_add(ProcessTask::new_at("s", true, 2, 100, "", "k"));
    let due = q.tick(105);
    assert_eq!(due.len(), 1);
    assert_eq!(due[0].last_time, 100);
    // the kept task was refreshed, so it is not due again right away
    assert_eq!(q.tick(106).len(), 0);
    // and it becomes due again once its period passes anew
    assert_eq!(q.tick(108).len(), 1);
}

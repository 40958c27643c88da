use myos::task::scheduler::{
    check_all_done, init, next_spawn_order, request_spawn, should_spawn, spawn_order, SpawnQueue,
    TaskId, YieldNow,
};

#[test]
fn nothing_spawns_before_init() {
    let mut queue = SpawnQueue::new();
    assert!(!request_spawn(&mut queue));
    assert!(!should_spawn(&mut queue));
}

#[test]
fn request_then_spawn_once() {
    let mut queue = SpawnQueue::new();
    init(&mut queue);
    assert!(!should_spawn(&mut queue));
    assert!(request_spawn(&mut queue));
    assert!(should_spawn(&mut queue));
    assert!(!should_spawn(&mut queue));
}

#[test]
fn requests_beyond_capacity_are_dropped() {
    let mut queue = SpawnQueue::new();
    init(&mut queue);
    for _ in 0..12 {
        assert!(request_spawn(&mut queue));
    }
    let mut served = 0;
    while should_spawn(&mut queue) {
        served += 1;
    }
    assert_eq!(served, 10);
}

#[test]
fn fifth_completion_reports_all_done() {
    let mut done: u8 = 0;
    for _ in 0..4 {
        assert!(!check_all_done(&mut done));
    }
    assert_eq!(done, 4);
    assert!(check_all_done(&mut done));
    assert_eq!(done, 0);
    assert!(!check_all_done(&mut done));
    assert_eq!(done, 1);
}

#[test]
fn completion_past_the_batch_resets() {
    let mut done: u8 = 9;
    assert!(check_all_done(&mut done));
    assert_eq!(done, 0);
}

#[test]
fn spawn_orders_cycle() {
    let (one, two, three, four, five) =
        (TaskId::One, TaskId::Two, TaskId::Three, TaskId::Four, TaskId::Five);
    assert_eq!(spawn_order(0), [one, two, three, four, five]);
    assert_eq!(spawn_order(1), [three, one, five, two, four]);
    assert_eq!(spawn_order(2), [five, four, three, two, one]);
    assert_eq!(spawn_order(3), [two, four, one, five, three]);
    assert_eq!(spawn_order(4), [four, two, five, one, three]);
    assert_eq!(spawn_order(7), spawn_order(2));
    assert_eq!(spawn_order(u64::MAX), spawn_order(0));
}

#[test]
fn every_order_spawns_each_task_once() {
    for order in 0..5u64 {
        let tasks = spawn_order(order);
        for t in [TaskId::One, TaskId::Two, TaskId::Three, TaskId::Four, TaskId::Five] {
            assert_eq!(tasks.iter().filter(|x| **x == t).count(), 1);
        }
    }
}

#[test]
fn batch_counter_counts_and_wraps() {
    let mut counter: u64 = 0;
    assert_eq!(next_spawn_order(&mut counter), 0);
    assert_eq!(next_spawn_order(&mut counter), 1);
    assert_eq!(counter, 2);
    let mut last: u64 = u64::MAX;
    assert_eq!(next_spawn_order(&mut last), u64::MAX);
    assert_eq!(last, 0);
}

#[test]
fn yield_now_is_pending_once() {
    let mut y = YieldNow::new();
    assert!(!y.poll_ready());
    assert!(y.poll_ready());
    assert!(y.poll_ready());
}

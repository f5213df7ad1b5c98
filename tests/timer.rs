use rsipstack::timer::Timer;

#[test]
fn test_timer() {
    let mut timer = Timer::new();
    let now: u64 = 10_000;
    let task_id = timer.timeout_at(now, "task1");
    assert_eq!(task_id, 1);
    assert_eq!(timer.cancel(task_id), Some("task1"));
    assert_eq!(timer.cancel(task_id), None);

    timer.timeout_at(now, "task2");
    let must_hass_task_2 = timer.poll(now + 1000);
    assert_eq!(must_hass_task_2.len(), 1);

    timer.timeout_at(now + 1001, "task3");
    let non_tasks = timer.poll(now + 1000);
    assert_eq!(non_tasks.len(), 0);
    assert_eq!(timer.len(), 1);
}

#[test]
fn poll_returns_due_in_deadline_then_id_order() {
    let mut timer = Timer::new();
    timer.timeout_at(300, "c");
    timer.timeout_at(100, "a");
    timer.timeout_at(300, "d");
    timer.timeout_at(200, "b");
    timer.timeout_at(400, "e");
    assert_eq!(timer.poll(300), vec!["a", "b", "c", "d"]);
    assert_eq!(timer.len(), 1);
    assert_eq!(timer.poll(1000), vec!["e"]);
    assert_eq!(timer.len(), 0);
}

#[test]
fn cancelled_payload_never_fires() {
    let mut timer = Timer::new();
    let a = timer.timeout_at(50, 1u32);
    let b = timer.timeout_at(60, 2u32);
    let c = timer.timeout_at(70, 3u32);
    assert_eq!(timer.cancel(b), Some(2));
    assert_eq!(timer.poll(100), vec![1, 3]);
    assert_eq!(timer.cancel(a), None);
    assert_eq!(timer.cancel(c), None);
    assert_eq!(timer.cancel(99), None);
}

#[test]
fn timeout_schedules_relative_to_now() {
    let mut timer = Timer::new();
    let id = timer.timeout(1000, 500, "x");
    assert_eq!(id, 1);
    assert_eq!(timer.poll(1499).len(), 0);
    assert_eq!(timer.poll(1500), vec!["x"]);
    let id2 = timer.timeout(0, 0, "y");
    assert_eq!(id2, 2);
}

#[test]
fn poll_on_empty_timer() {
    let mut timer: Timer<u8> = Timer::new();
    assert_eq!(timer.poll(u64::MAX).len(), 0);
    assert_eq!(timer.len(), 0);
}

use rover_core::executor::{Executor, Progress, SpaceExhausted, Task, WakeHandle};

fn poll_once(exec: &mut Executor<u32, 3>, outcome: Progress) -> Option<(usize, u32)> {
    let idx = exec.next_ready_task()?;
    let task = exec.begin_poll(idx);
    assert!(exec.is_busy_output());
    let mut task = task;
    let value = *task.future_mut();
    exec.end_poll(idx, task, outcome);
    assert!(!exec.is_busy_output());
    Some((idx, value))
}

#[test]
fn new_executor_has_nothing_ready() {
    let mut exec: Executor<u32, 3> = Executor::new();
    assert!(!exec.is_busy_output());
    assert_eq!(exec.next_ready_task(), None);
}

#[test]
fn submit_beyond_capacity_is_refused() {
    let mut exec: Executor<u32, 3> = Executor::new();
    assert_eq!(exec.submit(Task::new(10)), Ok(()));
    assert_eq!(exec.submit(Task::new(11)), Ok(()));
    assert_eq!(exec.submit(Task::new(12)), Ok(()));
    assert_eq!(exec.submit(Task::new(13)), Err(SpaceExhausted));
    assert_eq!(exec.submit(Task::new(14)), Err(SpaceExhausted));
    // the three installed tasks are still there, in order
    assert_eq!(poll_once(&mut exec, Progress::Pending), Some((0, 10)));
    assert_eq!(poll_once(&mut exec, Progress::Pending), Some((1, 11)));
    assert_eq!(poll_once(&mut exec, Progress::Pending), Some((2, 12)));
    assert_eq!(poll_once(&mut exec, Progress::Pending), None);
}

#[test]
fn zero_capacity_refuses_everything() {
    let mut exec: Executor<u32, 0> = Executor::new();
    assert_eq!(exec.submit(Task::new(1)), Err(SpaceExhausted));
    assert_eq!(exec.next_ready_task(), None);
}

#[test]
fn scan_polls_in_ascending_order() {
    let mut exec: Executor<u32, 3> = Executor::new();
    for id in [100u32, 200, 300] {
        assert_eq!(exec.submit(Task::new(id)), Ok(()));
    }
    let mut seen = Vec::new();
    while let Some((idx, id)) = poll_once(&mut exec, Progress::Pending) {
        seen.push((idx, id));
    }
    assert_eq!(seen, vec![(0, 100), (1, 200), (2, 300)]);
}

#[test]
fn scan_clears_ready_flag() {
    let mut exec: Executor<u32, 3> = Executor::new();
    assert_eq!(exec.submit(Task::new(5)), Ok(()));
    assert_eq!(exec.next_ready_task(), Some(0));
    assert_eq!(exec.next_ready_task(), None);
}

#[test]
fn completed_task_frees_its_slot() {
    let mut exec: Executor<u32, 1> = Executor::new();
    assert_eq!(exec.submit(Task::new(1)), Ok(()));
    assert_eq!(exec.submit(Task::new(2)), Err(SpaceExhausted));
    let idx = exec.next_ready_task().unwrap();
    let task = exec.begin_poll(idx);
    exec.end_poll(idx, task, Progress::Ready);
    assert_eq!(exec.next_ready_task(), None);
    assert_eq!(exec.submit(Task::new(3)), Ok(()));
    assert_eq!(exec.next_ready_task(), Some(0));
    let task = exec.begin_poll(0);
    assert_eq!(task.into_inner(), 3);
}

#[test]
fn freed_lower_slot_is_reused_first() {
    let mut exec: Executor<u32, 3> = Executor::new();
    for id in [1u32, 2, 3] {
        assert_eq!(exec.submit(Task::new(id)), Ok(()));
    }
    // complete the task in slot 0, leave the others pending
    assert_eq!(poll_once(&mut exec, Progress::Ready), Some((0, 1)));
    assert_eq!(poll_once(&mut exec, Progress::Pending), Some((1, 2)));
    assert_eq!(exec.submit(Task::new(4)), Ok(()));
    assert_eq!(poll_once(&mut exec, Progress::Pending), Some((0, 4)));
    assert_eq!(poll_once(&mut exec, Progress::Pending), Some((2, 3)));
    assert_eq!(exec.submit(Task::new(5)), Err(SpaceExhausted));
}

#[test]
fn wake_makes_pending_task_eligible() {
    let mut exec: Executor<u32, 3> = Executor::new();
    assert_eq!(exec.submit(Task::new(7)), Ok(()));
    assert_eq!(exec.submit(Task::new(8)), Ok(()));
    assert_eq!(poll_once(&mut exec, Progress::Pending), Some((0, 7)));
    assert_eq!(poll_once(&mut exec, Progress::Pending), Some((1, 8)));
    assert_eq!(exec.next_ready_task(), None);
    let handle = WakeHandle::new(1);
    let copy = handle;
    assert_eq!(copy.slot(), 1);
    exec.wake(copy);
    assert_eq!(exec.next_ready_task(), Some(1));
    assert_eq!(exec.next_ready_task(), None);
}

#[test]
fn wake_of_empty_slot_selects_nothing() {
    let mut exec: Executor<u32, 3> = Executor::new();
    assert_eq!(exec.submit(Task::new(7)), Ok(()));
    assert_eq!(poll_once(&mut exec, Progress::Ready), Some((0, 7)));
    exec.wake(WakeHandle::new(0));
    exec.wake(WakeHandle::new(2));
    exec.wake(WakeHandle::new(99));
    assert_eq!(exec.next_ready_task(), None);
}

#[test]
fn task_future_is_resumed_in_place() {
    let mut task = Task::new(41u32);
    *task.future_mut() += 1;
    assert_eq!(task.into_inner(), 42);
}

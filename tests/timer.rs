use rover_core::executor::Progress;
use rover_core::timer::{
    rig_sleep_timer2, sleep_timer2, Delay, Sleep2, SleepError, TimerInterruptState,
    MAX_GRANULARITY_US,
};

fn sleeper(ticks: u32) -> Sleep2 {
    let (tick, _) = rig_sleep_timer2(10);
    sleep_timer2(Delay::new(tick, ticks))
}

#[test]
fn rig_computes_compare_value() {
    let (tick, compare) = rig_sleep_timer2(10);
    assert_eq!(compare, 20);
    let (_, compare) = rig_sleep_timer2(MAX_GRANULARITY_US);
    assert_eq!(compare, 254);
    let (_, compare) = rig_sleep_timer2(0);
    assert_eq!(compare, 0);
    assert_eq!(Delay::new(tick, 5000).count(), 5000);
}

#[test]
fn tick_counter_wraps() {
    let mut state: TimerInterruptState<u8> = TimerInterruptState::starting_at(u32::MAX - 1);
    for _ in 0..3 {
        assert_eq!(state.on_tick(), None);
    }
    assert_eq!(state.ticks(), 1);
}

#[test]
fn tick_counter_counts_from_zero() {
    let mut state: TimerInterruptState<u8> = TimerInterruptState::new();
    for _ in 0..1000 {
        state.on_tick();
    }
    assert_eq!(state.ticks(), 1000);
}

#[test]
fn tick_wakes_registered_sleeper_once() {
    let mut state: TimerInterruptState<u8> = TimerInterruptState::new();
    let mut s = sleeper(5);
    assert_eq!(s.poll(&mut state, 3), Ok(Progress::Pending));
    assert!(state.is_registered());
    assert_eq!(state.on_tick(), Some(3));
    assert!(!state.is_registered());
    assert_eq!(state.on_tick(), None);
}

#[test]
fn sleep_completes_after_duration() {
    let mut state: TimerInterruptState<u8> = TimerInterruptState::starting_at(100);
    let mut s = sleeper(3);
    assert_eq!(s.started_at(), None);
    assert_eq!(s.poll(&mut state, 1), Ok(Progress::Pending));
    assert_eq!(s.started_at(), Some(100));
    for _ in 0..2 {
        state.on_tick();
        assert_eq!(s.poll(&mut state, 1), Ok(Progress::Pending));
    }
    state.on_tick();
    assert_eq!(state.ticks(), 103);
    assert_eq!(s.poll(&mut state, 1), Ok(Progress::Ready));
    state.on_tick();
    assert_eq!(s.poll(&mut state, 1), Ok(Progress::Ready));
}

#[test]
fn sleep_completes_across_wraparound() {
    let mut state: TimerInterruptState<u8> = TimerInterruptState::starting_at(u32::MAX - 1);
    let mut s = sleeper(4);
    assert_eq!(s.poll(&mut state, 1), Ok(Progress::Pending));
    for _ in 0..3 {
        state.on_tick();
        assert_eq!(s.poll(&mut state, 1), Ok(Progress::Pending));
    }
    state.on_tick();
    assert_eq!(state.ticks(), 2);
    assert_eq!(s.poll(&mut state, 1), Ok(Progress::Ready));
}

#[test]
fn zero_duration_completes_on_second_poll() {
    let mut state: TimerInterruptState<u8> = TimerInterruptState::new();
    let mut s = sleeper(0);
    assert_eq!(s.poll(&mut state, 1), Ok(Progress::Pending));
    assert_eq!(s.poll(&mut state, 1), Ok(Progress::Ready));
}

#[test]
fn pending_sleeper_registers_again() {
    let mut state: TimerInterruptState<u8> = TimerInterruptState::new();
    let mut s = sleeper(2);
    assert_eq!(s.poll(&mut state, 7), Ok(Progress::Pending));
    assert_eq!(state.on_tick(), Some(7));
    assert_eq!(s.poll(&mut state, 8), Ok(Progress::Pending));
    assert!(state.is_registered());
    assert_eq!(state.on_tick(), Some(8));
    assert_eq!(s.poll(&mut state, 9), Ok(Progress::Ready));
    assert!(!state.is_registered());
}

#[test]
fn second_sleeper_is_refused() {
    let mut state: TimerInterruptState<u8> = TimerInterruptState::new();
    let mut a = sleeper(10);
    let mut b = sleeper(10);
    assert_eq!(a.poll(&mut state, 1), Ok(Progress::Pending));
    assert_eq!(b.poll(&mut state, 2), Err(SleepError::AlreadyRegistered));
    assert_eq!(b.started_at(), None);
    // the first registration is untouched
    assert_eq!(state.on_tick(), Some(1));
}

#[test]
fn cancel_releases_registration() {
    let mut state: TimerInterruptState<u8> = TimerInterruptState::new();
    let mut a = sleeper(10);
    assert_eq!(a.poll(&mut state, 1), Ok(Progress::Pending));
    a.cancel(&mut state);
    assert!(!state.is_registered());
    let mut b = sleeper(10);
    assert_eq!(b.poll(&mut state, 2), Ok(Progress::Pending));
    assert_eq!(state.on_tick(), Some(2));
}

#[test]
fn cancel_keeps_tick_count() {
    let mut state: TimerInterruptState<u8> = TimerInterruptState::starting_at(42);
    let a = sleeper(1);
    a.cancel(&mut state);
    assert_eq!(state.ticks(), 42);
}

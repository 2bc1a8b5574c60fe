use core::marker::PhantomData;
use vstd::arithmetic::div_mod::lemma_add_mod_noop;
use vstd::prelude::*;

use crate::executor::Progress;

verus! {

/// Number of distinct tick counter values.
pub open spec fn tick_modulus() -> int {
    0x1_0000_0000
}

/// The counter value one firing after `t`, wrapping on overflow.
pub open spec fn wrapping_inc(t: u32) -> u32 {
    ((t as int + 1) % tick_modulus()) as u32
}

/// Ticks elapsed from `start` to `now`, computed modulo the counter range.
pub open spec fn elapsed(start: u32, now: u32) -> int {
    (now as int - start as int) % tick_modulus()
}

/// What a started sleeper reports when polled at tick `now`.
pub open spec fn sleep_outcome(start: u32, now: u32, duration: u32) -> Progress {
    if elapsed(start, now) >= duration as int {
        Progress::Ready
    } else {
        Progress::Pending
    }
}

/// Largest timer granularity, in microseconds, that the compare register can
/// hold: half the range of a `u8`.
pub const MAX_GRANULARITY_US: u8 = 127;

/// Marker for ticks and delays that belong to the second hardware timer.
#[derive(Clone, Copy)]
pub struct Timer2 {}

/// Witness that the tick domain `Timer` has been configured.
pub struct Tick<Timer> {
    phantom: PhantomData<Timer>,
}

impl<Timer> Clone for Tick<Timer> {
    fn clone(&self) -> (r: Tick<Timer>) {
        Tick { phantom: PhantomData }
    }
}

impl<Timer> Copy for Tick<Timer> {

}

impl<Timer> Tick<Timer> {
    fn new() -> Tick<Timer> {
        Tick { phantom: PhantomData }
    }
}

/// A duration in ticks of the domain `Timer`.
pub struct Delay<Timer> {
    count: u32,
    phantom: PhantomData<Timer>,
}

impl<Timer> Delay<Timer> {
    pub closed spec fn ticks(&self) -> u32 {
        self.count
    }

    pub fn new(tick: Tick<Timer>, count: u32) -> (r: Delay<Timer>)
        ensures
            r.ticks() == count,
    {
        let _ = tick;
        Delay { count, phantom: PhantomData }
    }

    pub fn count(&self) -> (r: u32)
        ensures
            r == self.ticks(),
    {
        self.count
    }
}

/// Checks the requested granularity and computes the compare-match value
/// that makes the second timer fire once per `granularity_us` microseconds.
/// At a prescale of 8 the timer counts twice per microsecond.
pub fn rig_sleep_timer2(granularity_us: u8) -> (r: (Tick<Timer2>, u8))
    requires
        granularity_us <= MAX_GRANULARITY_US,
    ensures
        r.1 == 2 * granularity_us,
{
    (Tick::new(), granularity_us * 2)
}

/// State shared between the tick interrupt and the sleepers: the wrapping
/// tick counter and at most one registered wake target.
pub struct TimerInterruptState<W> {
    pub waker_opt: Option<W>,
    pub overflow_ct: u32,
}

/// One firing of the tick interrupt takes `pre` to `post`, and hands out `r`
/// to be woken.
pub open spec fn tick_spec<W>(
    pre: TimerInterruptState<W>,
    r: Option<W>,
    post: TimerInterruptState<W>,
) -> bool {
    &&& post.overflow_ct == wrapping_inc(pre.overflow_ct)
    &&& post.waker_opt is None
    &&& r == pre.waker_opt
}

impl<W> TimerInterruptState<W> {
    /// A counter at zero with nothing registered.
    pub fn new() -> (r: TimerInterruptState<W>)
        ensures
            r.overflow_ct == 0,
            r.waker_opt is None,
    {
        TimerInterruptState { waker_opt: None, overflow_ct: 0 }
    }

    /// A counter at `ticks` with nothing registered.
    pub fn starting_at(ticks: u32) -> (r: TimerInterruptState<W>)
        ensures
            r.overflow_ct == ticks,
            r.waker_opt is None,
    {
        TimerInterruptState { waker_opt: None, overflow_ct: ticks }
    }

    pub fn ticks(&self) -> (r: u32)
        ensures
            r == self.overflow_ct,
    {
        self.overflow_ct
    }

    pub fn is_registered(&self) -> (r: bool)
        ensures
            r == self.waker_opt is Some,
    {
        self.waker_opt.is_some()
    }

    /// The work of one timer interrupt: advance the counter by one, wrapping,
    /// and remove the registered wake target, which the caller must wake.
    pub fn on_tick(&mut self) -> (r: Option<W>)
        ensures
            tick_spec(*old(self), r, *final(self)),
    {
        self.overflow_ct = self.overflow_ct.wrapping_add(1);
        self.waker_opt.take()
    }
}

/// The error of a sleeper that finds another one already registered.
#[derive(Clone, Copy, Debug, PartialEq, Eq, Structural)]
pub enum SleepError {
    AlreadyRegistered,
}

/// A suspended computation that completes once its delay has elapsed on the
/// second timer. Only one may be registered at a time.
pub struct Sleep2 {
    delay: Delay<Timer2>,
    start_ticks: Option<u32>,
}

/// One poll of the sleeper `pre` with the shared state `st`, offering `waker`,
/// returns `r` and leaves `post` and `st_post`.
pub open spec fn poll_spec<W>(
    pre: Sleep2,
    st: TimerInterruptState<W>,
    waker: W,
    r: Result<Progress, SleepError>,
    post: Sleep2,
    st_post: TimerInterruptState<W>,
) -> bool {
    &&& post.duration() == pre.duration()
    &&& st_post.overflow_ct == st.overflow_ct
    &&& match pre.start() {
        None => if st.waker_opt is Some {
            &&& r == Err::<Progress, SleepError>(SleepError::AlreadyRegistered)
            &&& post.start() is None
            &&& st_post.waker_opt == st.waker_opt
        } else {
            &&& r == Ok::<Progress, SleepError>(Progress::Pending)
            &&& post.start() == Some(st.overflow_ct)
            &&& st_post.waker_opt == Some(waker)
        },
        Some(start) => {
            let outcome = sleep_outcome(start, st.overflow_ct, pre.duration());
            &&& r == Ok::<Progress, SleepError>(outcome)
            &&& post.start() == Some(start)
            &&& st_post.waker_opt == if outcome == Progress::Pending && st.waker_opt is None {
                Some(waker)
            } else {
                st.waker_opt
            }
        },
    }
}

/// Cancelling a sleeper takes the shared state from `st` to `st_post`.
pub open spec fn cancel_spec<W>(st: TimerInterruptState<W>, st_post: TimerInterruptState<W>) -> bool {
    &&& st_post.waker_opt is None
    &&& st_post.overflow_ct == st.overflow_ct
}

impl Sleep2 {
    /// Tick at which this sleeper registered, if it has been polled.
    pub closed spec fn start(&self) -> Option<u32> {
        self.start_ticks
    }

    /// Requested duration in ticks.
    pub closed spec fn duration(&self) -> u32 {
        self.delay.ticks()
    }

    pub fn new(delay: Delay<Timer2>) -> (r: Sleep2)
        ensures
            r.start() is None,
            r.duration() == delay.ticks(),
    {
        Sleep2 { delay, start_ticks: None }
    }

    pub fn started_at(&self) -> (r: Option<u32>)
        ensures
            r == self.start(),
    {
        self.start_ticks
    }

    /// Drives the sleeper one step. The first poll reads the counter as its
    /// start and registers `waker`, failing if another sleeper is registered;
    /// later polls complete once `duration` ticks have elapsed (modulo the
    /// counter range), and re-register `waker` while waiting if the interrupt
    /// consumed the registration.
    pub fn poll<W>(&mut self, state: &mut TimerInterruptState<W>, waker: W) -> (r: Result<
        Progress,
        SleepError,
    >)
        ensures
            poll_spec(*old(self), *old(state), waker, r, *final(self), *final(state)),
    {
        match self.start_ticks {
            None => {
                if state.waker_opt.is_some() {
                    Err(SleepError::AlreadyRegistered)
                } else {
                    state.waker_opt = Some(waker);
                    self.start_ticks = Some(state.overflow_ct);
                    Ok(Progress::Pending)
                }
            },
            Some(start) => {
                let passed = state.overflow_ct.wrapping_sub(start);
                assert(passed as int == elapsed(start, state.overflow_ct));
                if passed >= self.delay.count {
                    Ok(Progress::Ready)
                } else {
                    if state.waker_opt.is_none() {
                        state.waker_opt = Some(waker);
                    }
                    Ok(Progress::Pending)
                }
            },
        }
    }

    /// Destroys the sleeper and clears any pending registration, so that the
    /// interrupt never wakes a computation that no longer exists.
    pub fn cancel<W>(self, state: &mut TimerInterruptState<W>)
        ensures
            cancel_spec(*old(state), *final(state)),
    {
        state.waker_opt = None;
    }
}

/// Builds a sleeper for `delay` ticks of the second timer.
pub fn sleep_timer2(delay: Delay<Timer2>) -> (r: Sleep2)
    ensures
        r.start() is None,
        r.duration() == delay.ticks(),
{
    Sleep2::new(delay)
}

proof fn lemma_ticks_prefix<W>(
    states: Seq<TimerInterruptState<W>>,
    woken: Seq<Option<W>>,
    k: int,
)
    requires
        states.len() == woken.len() + 1,
        forall|j: int|
            0 <= j < woken.len() ==> tick_spec(#[trigger] states[j], woken[j], states[j + 1]),
        0 <= k < states.len(),
    ensures
        states[k].overflow_ct == (states[0].overflow_ct + k) % tick_modulus(),
    decreases k,
{
    if k > 0 {
        lemma_ticks_prefix(states, woken, k - 1);
        assert(tick_spec(states[k - 1], woken[k - 1], states[k]));
        lemma_add_mod_noop(states[0].overflow_ct + k - 1, 1, tick_modulus());
    }
}

/// After `k` firings of the tick interrupt from counter value `t0`, the
/// counter holds `(t0 + k) mod 2^32`.
pub proof fn lemma_ticks_wrap<W>(states: Seq<TimerInterruptState<W>>, woken: Seq<Option<W>>)
    requires
        states.len() == woken.len() + 1,
        forall|j: int|
            0 <= j < woken.len() ==> tick_spec(#[trigger] states[j], woken[j], states[j + 1]),
    ensures
        forall|k: int|
            0 <= k < states.len() ==> #[trigger] states[k].overflow_ct == (states[0].overflow_ct + k)
                % tick_modulus(),
{
    assert forall|k: int| 0 <= k < states.len() implies #[trigger] states[k].overflow_ct == (
    states[0].overflow_ct + k) % tick_modulus() by {
        lemma_ticks_prefix(states, woken, k);
    }
}

/// A sleeper that registered at tick `T`, polled when the counter has
/// advanced `k` ticks past `T` (wrapping), reports completion exactly when
/// `k` reaches its duration, and "not yet" before.
pub proof fn lemma_sleep_deadline<W>(
    pre: Sleep2,
    st: TimerInterruptState<W>,
    waker: W,
    r: Result<Progress, SleepError>,
    post: Sleep2,
    st_post: TimerInterruptState<W>,
    k: int,
)
    requires
        pre.start() is Some,
        0 <= k < tick_modulus(),
        st.overflow_ct == (pre.start().unwrap() + k) % tick_modulus(),
        poll_spec(pre, st, waker, r, post, st_post),
    ensures
        r == Ok::<Progress, SleepError>(
            if k >= pre.duration() {
                Progress::Ready
            } else {
                Progress::Pending
            },
        ),
{
    let t = pre.start().unwrap();
    if t + k < tick_modulus() {
        assert(st.overflow_ct == t + k);
    } else {
        assert(st.overflow_ct == t + k - tick_modulus());
    }
    assert(elapsed(t, st.overflow_ct) == k);
}

/// While one sleeper holds the registration, the first poll of a second one
/// fails and leaves the first one's wake target in place.
pub proof fn lemma_single_registration<W>(
    a: Sleep2,
    st0: TimerInterruptState<W>,
    wa: W,
    ra: Result<Progress, SleepError>,
    a_post: Sleep2,
    st1: TimerInterruptState<W>,
    b: Sleep2,
    wb: W,
    rb: Result<Progress, SleepError>,
    b_post: Sleep2,
    st2: TimerInterruptState<W>,
)
    requires
        a.start() is None,
        poll_spec(a, st0, wa, ra, a_post, st1),
        ra is Ok,
        b.start() is None,
        poll_spec(b, st1, wb, rb, b_post, st2),
    ensures
        st1.waker_opt == Some(wa),
        rb == Err::<Progress, SleepError>(SleepError::AlreadyRegistered),
        st2.waker_opt == Some(wa),
{
}

/// A sleeper that registered and is cancelled before completing releases the
/// registration: the first poll of a fresh sleeper then registers it.
pub proof fn lemma_cancel_releases<W>(
    a: Sleep2,
    st0: TimerInterruptState<W>,
    wa: W,
    ra: Result<Progress, SleepError>,
    a_post: Sleep2,
    st1: TimerInterruptState<W>,
    st2: TimerInterruptState<W>,
    b: Sleep2,
    wb: W,
    rb: Result<Progress, SleepError>,
    b_post: Sleep2,
    st3: TimerInterruptState<W>,
)
    requires
        a.start() is None,
        poll_spec(a, st0, wa, ra, a_post, st1),
        ra is Ok,
        cancel_spec(st1, st2),
        b.start() is None,
        poll_spec(b, st2, wb, rb, b_post, st3),
    ensures
        st1.waker_opt == Some(wa),
        rb == Ok::<Progress, SleepError>(Progress::Pending),
        st3.waker_opt == Some(wb),
        b_post.start() == Some(st1.overflow_ct),
{
}

} // verus!

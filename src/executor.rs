use vstd::prelude::*;

verus! {

/// What one poll of a suspended computation reports.
#[derive(Clone, Copy, Debug, PartialEq, Eq, Structural)]
pub enum Progress {
    Ready,
    Pending,
}

/// Returned by `submit` when every slot of the arena holds a task.
#[derive(Clone, Copy, Debug, PartialEq, Eq, Structural)]
pub struct SpaceExhausted;

/// Capability to mark one slot of the arena ready to run again.
#[derive(Clone, Copy, Debug, PartialEq, Eq, Structural)]
pub struct WakeHandle {
    slot: usize,
}

impl WakeHandle {
    pub closed spec fn index(&self) -> usize {
        self.slot
    }

    /// A handle bound to slot `slot`.
    pub fn new(slot: usize) -> (r: WakeHandle)
        ensures
            r.index() == slot,
    {
        WakeHandle { slot }
    }

    pub fn slot(&self) -> (r: usize)
        ensures
            r == self.index(),
    {
        self.slot
    }
}

/// A resumable unit of work, opaque to the scheduler.
pub struct Task<F> {
    future: F,
}

impl<F> Task<F> {
    pub closed spec fn inner(&self) -> F {
        self.future
    }

    pub fn new(future: F) -> (r: Task<F>)
        ensures
            r.inner() == future,
    {
        Task { future }
    }

    /// The suspended computation, to be resumed in place.
    pub fn future_mut(&mut self) -> (r: &mut F)
        ensures
            *r == old(self).inner(),
            final(self).inner() == *final(r),
    {
        &mut self.future
    }

    pub fn into_inner(self) -> (r: F)
        ensures
            r == self.inner(),
    {
        self.future
    }
}

/// Slot `i` holds a task and is marked ready.
pub open spec fn eligible<T>(tasks: Seq<Option<T>>, ready: Seq<bool>, i: int) -> bool {
    ready[i] && tasks[i] is Some
}

/// `i` is the lowest eligible slot.
pub open spec fn is_first_ready<T>(tasks: Seq<Option<T>>, ready: Seq<bool>, i: int) -> bool {
    &&& 0 <= i < tasks.len()
    &&& eligible(tasks, ready, i)
    &&& forall|j: int| 0 <= j < i ==> !eligible(tasks, ready, j)
}

/// `i` is the lowest empty slot.
pub open spec fn is_first_free<T>(tasks: Seq<Option<T>>, i: int) -> bool {
    &&& 0 <= i < tasks.len()
    &&& tasks[i] is None
    &&& forall|j: int| 0 <= j < i ==> tasks[j] is Some
}

/// Number of slots that hold a task.
pub open spec fn count_present<T>(tasks: Seq<Option<T>>) -> nat
    decreases tasks.len(),
{
    if tasks.len() == 0 {
        0
    } else {
        count_present(tasks.drop_last()) + if tasks.last() is Some {
            1nat
        } else {
            0nat
        }
    }
}

/// A fixed table of `N` slots, each with an optional task and a ready flag,
/// and a watermark below which slots have been brought into use.
pub struct Executor<F, const N: usize> {
    slots: Vec<Option<Task<F>>>,
    ready: Vec<bool>,
    limit: usize,
    busy: bool,
}

/// `submit(task)` on `pre` returns `r` and leaves `post`: the task goes to the
/// lowest empty slot, ready, raising the watermark past it if needed; with no
/// empty slot the arena is left as it was.
pub open spec fn submit_spec<F, const N: usize>(
    pre: Executor<F, N>,
    task: Task<F>,
    r: Result<(), SpaceExhausted>,
    post: Executor<F, N>,
) -> bool {
    &&& post.is_busy() == pre.is_busy()
    &&& (r is Ok <==> exists|i: int| 0 <= i < N && pre.tasks()[i] is None)
    &&& match r {
        Ok(_) => exists|i: int|
            {
                &&& is_first_free(pre.tasks(), i)
                &&& post.tasks() == pre.tasks().update(i, Some(task))
                &&& post.ready_flags() == pre.ready_flags().update(i, true)
                &&& post.watermark() == if i < pre.watermark() {
                    pre.watermark() as int
                } else {
                    i + 1
                }
            },
        Err(_) => {
            &&& post.tasks() == pre.tasks()
            &&& post.ready_flags() == pre.ready_flags()
            &&& post.watermark() == pre.watermark()
        },
    }
}

/// One scan of `pre` returns `r` and leaves `post`: the lowest eligible slot
/// is selected and its ready flag cleared, or nothing is when none is.
pub open spec fn scan_spec<F, const N: usize>(
    pre: Executor<F, N>,
    r: Option<usize>,
    post: Executor<F, N>,
) -> bool {
    &&& post.tasks() == pre.tasks()
    &&& post.watermark() == pre.watermark()
    &&& post.is_busy() == pre.is_busy()
    &&& match r {
        Some(i) => {
            &&& is_first_ready(pre.tasks(), pre.ready_flags(), i as int)
            &&& post.ready_flags() == pre.ready_flags().update(i as int, false)
        },
        None => {
            &&& forall|i: int| 0 <= i < N ==> !eligible(pre.tasks(), pre.ready_flags(), i)
            &&& post.ready_flags() == pre.ready_flags()
        },
    }
}

/// `begin_poll(idx)` on `pre` lends out the task `r` of slot `idx`, leaving
/// the slot empty meanwhile, and raises the busy output.
pub open spec fn begin_poll_spec<F, const N: usize>(
    pre: Executor<F, N>,
    idx: usize,
    r: Task<F>,
    post: Executor<F, N>,
) -> bool {
    &&& Some(r) == pre.tasks()[idx as int]
    &&& post.tasks() == pre.tasks().update(idx as int, None)
    &&& post.ready_flags() == pre.ready_flags()
    &&& post.watermark() == pre.watermark()
    &&& post.is_busy()
}

/// `end_poll(idx, task, outcome)` on `pre` puts the task back in slot `idx`
/// when it is pending, drops it when it completed, and lowers the busy output.
pub open spec fn end_poll_spec<F, const N: usize>(
    pre: Executor<F, N>,
    idx: usize,
    task: Task<F>,
    outcome: Progress,
    post: Executor<F, N>,
) -> bool {
    &&& post.tasks() == match outcome {
        Progress::Pending => pre.tasks().update(idx as int, Some(task)),
        Progress::Ready => pre.tasks(),
    }
    &&& post.ready_flags() == pre.ready_flags()
    &&& post.watermark() == pre.watermark()
    &&& !post.is_busy()
}

/// `wake(h)` on `pre` sets the ready flag of the slot `h` is bound to.
pub open spec fn wake_spec<F, const N: usize>(
    pre: Executor<F, N>,
    h: WakeHandle,
    post: Executor<F, N>,
) -> bool {
    &&& post.tasks() == pre.tasks()
    &&& post.ready_flags() == if h.index() < N {
        pre.ready_flags().update(h.index() as int, true)
    } else {
        pre.ready_flags()
    }
    &&& post.watermark() == pre.watermark()
    &&& post.is_busy() == pre.is_busy()
}

impl<F, const N: usize> Executor<F, N> {
    /// The task held by each of the `N` slots.
    pub closed spec fn tasks(&self) -> Seq<Option<Task<F>>> {
        self.slots@
    }

    /// The ready flag of each of the `N` slots.
    pub closed spec fn ready_flags(&self) -> Seq<bool> {
        self.ready@
    }

    /// How many slots have been brought into use.
    pub closed spec fn watermark(&self) -> nat {
        self.limit as nat
    }

    /// Level of the diagnostic output, high while a task is being polled.
    pub closed spec fn is_busy(&self) -> bool {
        self.busy
    }

    /// Both tables have `N` entries, and no slot at or above the watermark
    /// holds a task.
    pub closed spec fn wf(&self) -> bool {
        &&& self.slots@.len() == N
        &&& self.ready@.len() == N
        &&& self.limit <= N
        &&& forall|i: int| self.limit <= i < N ==> self.slots@[i] is None
    }

    /// An empty arena: no task, no slot ready, watermark 0.
    pub fn new() -> (r: Executor<F, N>)
        ensures
            r.wf(),
            r.watermark() == 0,
            !r.is_busy(),
            r.tasks() == Seq::new(N as nat, |i: int| None::<Task<F>>),
            r.ready_flags() == Seq::new(N as nat, |i: int| false),
    {
        let mut slots: Vec<Option<Task<F>>> = Vec::new();
        let mut ready: Vec<bool> = Vec::new();
        let mut i: usize = 0;
        while i < N
            invariant
                i <= N,
                slots@.len() == i,
                ready@.len() == i,
                slots@ =~= Seq::new(i as nat, |j: int| None::<Task<F>>),
                ready@ =~= Seq::new(i as nat, |j: int| false),
            decreases N - i,
        {
            slots.push(None);
            ready.push(false);
            i = i + 1;
        }
        Executor { slots, ready, limit: 0, busy: false }
    }

    pub fn is_busy_output(&self) -> (r: bool)
        ensures
            r == self.is_busy(),
    {
        self.busy
    }

    /// Installs `task` in the lowest empty slot below the watermark, or else
    /// in a new slot at the watermark, and marks it ready; fails when all `N`
    /// slots hold a task.
    pub fn submit(&mut self, task: Task<F>) -> (r: Result<(), SpaceExhausted>)
        requires
            old(self).wf(),
        ensures
            final(self).wf(),
            submit_spec(*old(self), task, r, *final(self)),
    {
        let mut i: usize = 0;
        while i < self.limit
            invariant
                *self == *old(self),
                self.wf(),
                i <= self.limit,
                forall|j: int| 0 <= j < i ==> self.slots@[j] is Some,
            decreases self.limit - i,
        {
            if self.slots[i].is_none() {
                self.slots.set(i, Some(task));
                self.ready.set(i, true);
                assert(is_first_free(old(self).tasks(), i as int));
                return Ok(());
            }
            i = i + 1;
        }
        if self.limit < N {
            let at = self.limit;
            self.slots.set(at, Some(task));
            self.ready.set(at, true);
            self.limit = at + 1;
            assert(is_first_free(old(self).tasks(), at as int));
            return Ok(());
        }
        Err(SpaceExhausted)
    }

    /// Selects the lowest slot that is ready and holds a task, and clears its
    /// ready flag, so that observing and clearing happen as one step.
    pub fn next_ready_task(&mut self) -> (r: Option<usize>)
        requires
            old(self).wf(),
        ensures
            final(self).wf(),
            scan_spec(*old(self), r, *final(self)),
    {
        let mut i: usize = 0;
        while i < self.limit
            invariant
                *self == *old(self),
                self.wf(),
                i <= self.limit,
                forall|j: int| 0 <= j < i ==> !eligible(self.slots@, self.ready@, j),
            decreases self.limit - i,
        {
            if self.ready[i] && self.slots[i].is_some() {
                self.ready.set(i, false);
                return Some(i);
            }
            i = i + 1;
        }
        None
    }

    /// Lends out the task of slot `idx` for one poll and raises the busy
    /// output; `end_poll` gives it back.
    pub fn begin_poll(&mut self, idx: usize) -> (r: Task<F>)
        requires
            old(self).wf(),
            idx < N,
            old(self).tasks()[idx as int] is Some,
        ensures
            final(self).wf(),
            begin_poll_spec(*old(self), idx, r, *final(self)),
    {
        self.busy = true;
        let mut taken: Option<Task<F>> = None;
        self.slots.set_and_swap(idx, &mut taken);
        taken.unwrap()
    }

    /// Takes back the task lent out by `begin_poll(idx)` after it was polled
    /// once: a pending task is reinstalled, a completed one is dropped and
    /// its slot left free. Lowers the busy output.
    pub fn end_poll(&mut self, idx: usize, task: Task<F>, outcome: Progress)
        requires
            old(self).wf(),
            idx < old(self).watermark(),
            old(self).tasks()[idx as int] is None,
        ensures
            final(self).wf(),
            end_poll_spec(*old(self), idx, task, outcome, *final(self)),
    {
        match outcome {
            Progress::Pending => {
                self.slots.set(idx, Some(task));
            },
            Progress::Ready => {},
        }
        self.busy = false;
    }

    /// Marks the slot that `handle` is bound to as ready, so that the next
    /// scan may select it.
    pub fn wake(&mut self, handle: WakeHandle)
        requires
            old(self).wf(),
        ensures
            final(self).wf(),
            wake_spec(*old(self), handle, *final(self)),
    {
        if handle.slot < N {
            self.ready.set(handle.slot, true);
        }
    }
}

proof fn lemma_count_bounds<T>(tasks: Seq<Option<T>>)
    ensures
        count_present(tasks) <= tasks.len(),
        count_present(tasks) == tasks.len() <==> forall|i: int|
            0 <= i < tasks.len() ==> tasks[i] is Some,
    decreases tasks.len(),
{
    if tasks.len() > 0 {
        let rest = tasks.drop_last();
        lemma_count_bounds(rest);
        if count_present(tasks) == tasks.len() {
            assert forall|i: int| 0 <= i < tasks.len() implies tasks[i] is Some by {
                if i < tasks.len() - 1 {
                    assert(rest[i] == tasks[i]);
                }
            }
        }
        if forall|i: int| 0 <= i < tasks.len() ==> tasks[i] is Some {
            assert forall|i: int| 0 <= i < rest.len() implies rest[i] is Some by {
                assert(rest[i] == tasks[i]);
            }
        }
    }
}

proof fn lemma_count_fill<T>(tasks: Seq<Option<T>>, i: int, v: T)
    requires
        0 <= i < tasks.len(),
        tasks[i] is None,
    ensures
        count_present(tasks.update(i, Some(v))) == count_present(tasks) + 1,
    decreases tasks.len(),
{
    let filled = tasks.update(i, Some(v));
    if i == tasks.len() - 1 {
        assert(filled.drop_last() =~= tasks.drop_last());
    } else {
        assert(filled.drop_last() =~= tasks.drop_last().update(i, Some(v)));
        lemma_count_fill(tasks.drop_last(), i, v);
    }
}

/// An arena never holds more than `N` tasks. One that holds fewer accepts a
/// submission and then holds one more; one that holds `N` refuses it and
/// keeps every installed task and ready flag as they were.
pub proof fn lemma_submit_capacity<F, const N: usize>(
    pre: Executor<F, N>,
    task: Task<F>,
    r: Result<(), SpaceExhausted>,
    post: Executor<F, N>,
)
    requires
        pre.wf(),
        submit_spec(pre, task, r, post),
    ensures
        count_present(pre.tasks()) <= N,
        count_present(pre.tasks()) < N ==> r is Ok && count_present(post.tasks()) == count_present(
            pre.tasks(),
        ) + 1,
        count_present(pre.tasks()) == N ==> {
            &&& r is Err
            &&& post.tasks() == pre.tasks()
            &&& post.ready_flags() == pre.ready_flags()
        },
{
    lemma_count_bounds(pre.tasks());
    if r is Ok {
        let i = choose|i: int|
            {
                &&& is_first_free(pre.tasks(), i)
                &&& post.tasks() == pre.tasks().update(i, Some(task))
                &&& post.ready_flags() == pre.ready_flags().update(i, true)
                &&& post.watermark() == if i < pre.watermark() {
                    pre.watermark() as int
                } else {
                    i + 1
                }
            };
        lemma_count_fill(pre.tasks(), i, task);
    }
}

proof fn lemma_fill_count<F, const N: usize>(
    states: Seq<Executor<F, N>>,
    tasks: Seq<Task<F>>,
    results: Seq<Result<(), SpaceExhausted>>,
    k: int,
)
    requires
        states.len() == tasks.len() + 1,
        results.len() == tasks.len(),
        forall|j: int| 0 <= j < states.len() ==> #[trigger] states[j].wf(),
        forall|i: int| 0 <= i < N ==> states[0].tasks()[i] is None,
        forall|j: int|
            0 <= j < tasks.len() ==> submit_spec(
                #[trigger] states[j],
                tasks[j],
                results[j],
                states[j + 1],
            ),
        0 <= k < states.len(),
    ensures
        count_present(states[k].tasks()) == if k < N {
            k
        } else {
            N as int
        },
    decreases k,
{
    if k == 0 {
        let s0 = states[0];
        assert(s0.wf());
        lemma_count_bounds(s0.tasks());
        assert(count_present(s0.tasks()) == 0) by {
            lemma_count_zero(s0.tasks());
        }
    } else {
        lemma_fill_count(states, tasks, results, k - 1);
        assert(submit_spec(states[k - 1], tasks[k - 1], results[k - 1], states[k]));
        assert(states[k - 1].wf());
        lemma_submit_capacity(states[k - 1], tasks[k - 1], results[k - 1], states[k]);
    }
}

proof fn lemma_count_zero<T>(tasks: Seq<Option<T>>)
    requires
        forall|i: int| 0 <= i < tasks.len() ==> tasks[i] is None,
    ensures
        count_present(tasks) == 0,
    decreases tasks.len(),
{
    if tasks.len() > 0 {
        let rest = tasks.drop_last();
        assert forall|i: int| 0 <= i < rest.len() implies rest[i] is None by {
            assert(rest[i] == tasks[i]);
        }
        lemma_count_zero(rest);
    }
}

/// Submitting tasks one after another to an empty arena: the first `N`
/// submissions succeed, and every one after them fails with the `N`
/// installed tasks and their ready flags left untouched.
pub proof fn lemma_fill_then_refuse<F, const N: usize>(
    states: Seq<Executor<F, N>>,
    tasks: Seq<Task<F>>,
    results: Seq<Result<(), SpaceExhausted>>,
)
    requires
        states.len() == tasks.len() + 1,
        results.len() == tasks.len(),
        forall|j: int| 0 <= j < states.len() ==> #[trigger] states[j].wf(),
        forall|i: int| 0 <= i < N ==> states[0].tasks()[i] is None,
        forall|j: int|
            0 <= j < tasks.len() ==> submit_spec(
                #[trigger] states[j],
                tasks[j],
                results[j],
                states[j + 1],
            ),
    ensures
        forall|k: int| 0 <= k < tasks.len() ==> (#[trigger] results[k] is Ok <==> k < N),
        forall|k: int|
            N <= k < tasks.len() ==> {
                &&& #[trigger] states[k + 1].tasks() == states[k].tasks()
                &&& states[k + 1].ready_flags() == states[k].ready_flags()
            },
{
    assert forall|k: int| 0 <= k < tasks.len() implies {
        &&& (#[trigger] results[k] is Ok <==> k < N)
        &&& k >= N ==> {
            &&& states[k + 1].tasks() == states[k].tasks()
            &&& states[k + 1].ready_flags() == states[k].ready_flags()
        }
    } by {
        lemma_fill_count(states, tasks, results, k);
        assert(states[k].wf());
        assert(submit_spec(states[k], tasks[k], results[k], states[k + 1]));
        lemma_submit_capacity(states[k], tasks[k], results[k], states[k + 1]);
    }
}

/// A task that completes on its poll is gone from its slot when the poll
/// ends; the next submission then succeeds without raising the watermark,
/// and goes to that slot or to a lower free one.
pub proof fn lemma_completion_reuse<F, const N: usize>(
    s0: Executor<F, N>,
    idx: usize,
    lent: Task<F>,
    s1: Executor<F, N>,
    s2: Executor<F, N>,
    next: Task<F>,
    r: Result<(), SpaceExhausted>,
    s3: Executor<F, N>,
)
    requires
        s0.wf(),
        idx < N,
        s0.tasks()[idx as int] is Some,
        begin_poll_spec(s0, idx, lent, s1),
        end_poll_spec(s1, idx, lent, Progress::Ready, s2),
        submit_spec(s2, next, r, s3),
    ensures
        s2.tasks()[idx as int] is None,
        r is Ok,
        s3.watermark() == s0.watermark(),
        exists|i: int| 0 <= i <= idx && s3.tasks()[i] == Some(next),
{
    assert(0 <= idx < N && s2.tasks()[idx as int] is None);
    let i = choose|i: int|
        {
            &&& is_first_free(s2.tasks(), i)
            &&& s3.tasks() == s2.tasks().update(i, Some(next))
            &&& s3.ready_flags() == s2.ready_flags().update(i, true)
            &&& s3.watermark() == if i < s2.watermark() {
                s2.watermark() as int
            } else {
                i + 1
            }
        };
    assert(s3.tasks()[i] == Some(next));
}

/// Waking the slot of an installed task makes that slot eligible, so the
/// next scan selects a slot: that one, or a lower one that was eligible
/// already.
pub proof fn lemma_wake_then_scan<F, const N: usize>(
    s0: Executor<F, N>,
    h: WakeHandle,
    s1: Executor<F, N>,
    r: Option<usize>,
    s2: Executor<F, N>,
)
    requires
        s0.wf(),
        h.index() < N,
        s0.tasks()[h.index() as int] is Some,
        wake_spec(s0, h, s1),
        scan_spec(s1, r, s2),
    ensures
        eligible(s1.tasks(), s1.ready_flags(), h.index() as int),
        r is Some,
        r.unwrap() <= h.index(),
        (forall|j: int| 0 <= j < h.index() ==> !eligible(s0.tasks(), s0.ready_flags(), j)) ==> r
            == Some(h.index()),
{
    let w = h.index() as int;
    assert(eligible(s1.tasks(), s1.ready_flags(), w));
    if (forall|j: int| 0 <= j < h.index() ==> !eligible(s0.tasks(), s0.ready_flags(), j)) {
        assert forall|j: int| 0 <= j < w implies !eligible(s1.tasks(), s1.ready_flags(), j) by {
            assert(!eligible(s0.tasks(), s0.ready_flags(), j));
        }
    }
}

} // verus!

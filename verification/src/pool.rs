//! The bookkeeping of a pool of workers: which worker is free, which task a
//! worker runs, and when an abort request still refers to the running task.
//!
//! The pool hands a request to the first free worker; when every worker is
//! busy the caller creates a new one and adds it, already busy with that
//! request. Each task started on a worker raises that worker's generation,
//! a worker put in place of an aborted one carries the generation on, and an
//! [`AbortHandle`] only acts while its worker is busy with the very task that
//! produced it.

use crate::errors::CreateWorkerError;
use vstd::prelude::*;

verus! {

/// What the pool records of one worker besides its handle.
#[derive(Clone, Copy, Debug)]
pub struct WorkerPoolState {
    /// Whether the worker may be handed a new request.
    pub available: bool,
    /// The worker's position in the pool, which it keeps for its lifetime.
    pub id: usize,
    /// How many tasks have been started in this worker's place in the pool.
    pub generation: usize,
}

/// The state of a worker that the pool was created with.
pub open spec fn fresh_state(id: usize) -> WorkerPoolState {
    WorkerPoolState { available: true, id, generation: 0 }
}

/// The state of a worker created because every other worker was busy: it is
/// created for the request at hand, so it is busy from the start.
pub open spec fn grown_state(id: usize) -> WorkerPoolState {
    WorkerPoolState { available: false, id, generation: 0 }
}

/// `i` is the first free worker of `states`.
pub open spec fn is_first_available(states: Seq<WorkerPoolState>, i: int) -> bool {
    &&& 0 <= i < states.len()
    &&& states[i].available
    &&& forall|j: int| 0 <= j < i ==> !(#[trigger] states[j]).available
}

/// No worker of `states` is free.
pub open spec fn none_available(states: Seq<WorkerPoolState>) -> bool {
    forall|j: int| 0 <= j < states.len() ==> !(#[trigger] states[j]).available
}

/// The states after worker `i` has been handed a request.
pub open spec fn spec_take(states: Seq<WorkerPoolState>, i: int) -> Seq<WorkerPoolState> {
    states.update(i, WorkerPoolState { available: false, ..states[i] })
}

/// The states after a task has been started on worker `i`.
pub open spec fn spec_begin(states: Seq<WorkerPoolState>, i: int) -> Seq<WorkerPoolState> {
    states.update(i, WorkerPoolState { generation: (states[i].generation + 1) as usize, ..states[i] })
}

/// The states after worker `i` has finished its task.
pub open spec fn spec_release(states: Seq<WorkerPoolState>, i: int) -> Seq<WorkerPoolState> {
    states.update(i, WorkerPoolState { available: true, ..states[i] })
}

/// The states after worker `i` has been replaced by a newly created worker:
/// the new worker keeps the id, is free, and carries the generation on, so
/// that no task started on it shares a generation with an earlier one.
pub open spec fn spec_replace(states: Seq<WorkerPoolState>, i: int) -> Seq<WorkerPoolState> {
    states.update(i, WorkerPoolState { available: true, id: i as usize, generation: states[i].generation })
}

/// An abort request for `(worker, generation)` still refers to the task that
/// the worker is running.
pub open spec fn spec_abort_applies(
    states: Seq<WorkerPoolState>,
    worker: usize,
    generation: usize,
) -> bool {
    &&& worker < states.len()
    &&& !states[worker as int].available
    &&& states[worker as int].generation == generation
}

/// A pool of workers, each with a handle of type `H` that talks to it.
pub struct PoolExecutor<H> {
    handles: Vec<H>,
    states: Vec<WorkerPoolState>,
}

/// Returned when a task is started on a worker of a pool. It can abort that
/// task while it runs, leading to the creation of a new worker in its place.
#[derive(Clone, Copy, Debug)]
pub struct AbortHandle {
    worker: usize,
    generation: usize,
}

impl AbortHandle {
    /// The worker that runs the task.
    pub closed spec fn spec_worker(&self) -> usize {
        self.worker
    }

    /// The generation of the worker when the task was started.
    pub closed spec fn spec_generation(&self) -> usize {
        self.generation
    }

    /// The worker that runs the task.
    pub fn worker(&self) -> (w: usize)
        ensures
            w == self.spec_worker(),
    {
        self.worker
    }

    /// The generation of the worker when the task was started.
    pub fn generation(&self) -> (g: usize)
        ensures
            g == self.spec_generation(),
    {
        self.generation
    }

    /// Whether aborting now would terminate the worker: it is busy, and with
    /// the task that produced this handle.
    pub fn abort_applies<H>(&self, pool: &PoolExecutor<H>) -> (applies: bool)
        ensures
            applies == spec_abort_applies(pool.states(), self.spec_worker(), self.spec_generation()),
    {
        if self.worker < pool.states.len() {
            let state = pool.states[self.worker];
            !state.available && state.generation == self.generation
        } else {
            false
        }
    }

    /// Aborts the task of this handle. Where the abort applies, the caller
    /// has terminated the worker and tried to create its replacement, and
    /// hands in the outcome: a new worker takes the old one's place, and a
    /// failure to start the new worker leaves the pool as it was. Any other
    /// failure of the creation is a bug, and is not accepted.
    pub fn abort<H>(&self, pool: &mut PoolExecutor<H>, replacement: Result<H, CreateWorkerError>)
        requires
            old(pool).wf(),
            spec_abort_applies(old(pool).states(), self.spec_worker(), self.spec_generation()),
            replacement is Ok || replacement->Err_0 is NewWorker,
        ensures
            final(pool).wf(),
            replacement is Ok ==> final(pool).states() == spec_replace(old(pool).states(), self.spec_worker() as int)
                && final(pool).handles() == old(pool).handles().update(self.spec_worker() as int, replacement->Ok_0)
                && !spec_abort_applies(final(pool).states(), self.spec_worker(), self.spec_generation()),
            replacement is Err ==> final(pool).states() == old(pool).states()
                && final(pool).handles() == old(pool).handles(),
    {
        match replacement {
            Ok(handle) => pool.replace_worker(self.worker, handle),
            Err(_) => {},
        }
    }
}

impl<H> PoolExecutor<H> {
    /// Every worker has a handle, and its id is its position in the pool.
    pub open spec fn wf(&self) -> bool {
        &&& self.handles().len() == self.states().len()
        &&& forall|i: int| 0 <= i < self.states().len() ==> (#[trigger] self.states()[i]).id == i
    }

    /// What the pool records of each worker, in order of creation.
    pub closed spec fn states(&self) -> Seq<WorkerPoolState> {
        self.states@
    }

    /// The handle of each worker, in the same order.
    pub closed spec fn handles(&self) -> Seq<H> {
        self.handles@
    }

    /// A pool of the given workers, all free, numbered in order.
    pub fn new(handles: Vec<H>) -> (pool: Self)
        ensures
            pool.wf(),
            pool.handles() == handles@,
            pool.states() == Seq::new(handles@.len(), |i: int| fresh_state(i as usize)),
    {
        let mut states: Vec<WorkerPoolState> = Vec::new();
        let n = handles.len();
        for i in 0..n
            invariant
                n == handles@.len(),
                states@ == Seq::new(i as nat, |k: int| fresh_state(k as usize)),
        {
            states.push(WorkerPoolState { available: true, id: i, generation: 0 });
            assert(states@ =~= Seq::new((i + 1) as nat, |k: int| fresh_state(k as usize)));
        }
        PoolExecutor { handles, states }
    }

    /// The number of workers in the pool.
    pub fn len(&self) -> (n: usize)
        ensures
            n == self.states().len(),
    {
        self.states.len()
    }

    /// What the pool records of worker `id`.
    pub fn state(&self, id: usize) -> (s: WorkerPoolState)
        requires
            id < self.states().len(),
        ensures
            s == self.states()[id as int],
    {
        self.states[id]
    }

    /// The handle of worker `id`.
    pub fn handle(&self, id: usize) -> (h: &H)
        requires
            self.wf(),
            id < self.states().len(),
        ensures
            *h == self.handles()[id as int],
    {
        &self.handles[id]
    }

    /// Hands a request to the first free worker, which is no longer free, and
    /// returns its id; when every worker is busy, returns `None` and leaves
    /// the pool as it was.
    pub fn acquire(&mut self) -> (r: Option<usize>)
        requires
            old(self).wf(),
        ensures
            final(self).wf(),
            final(self).handles() == old(self).handles(),
            match r {
                Some(i) => is_first_available(old(self).states(), i as int)
                    && final(self).states() == spec_take(old(self).states(), i as int),
                None => none_available(old(self).states()) && final(self).states() == old(self).states(),
            },
    {
        let n = self.states.len();
        let mut i: usize = 0;
        while i < n
            invariant
                n == self.states@.len(),
                i <= n,
                self.handles@ == old(self).handles@,
                self.states@ == old(self).states@,
                old(self).wf(),
                forall|j: int| 0 <= j < i ==> !(#[trigger] self.states@[j]).available,
            decreases n - i,
        {
            if self.states[i].available {
                let s = self.states[i];
                self.states[i] = WorkerPoolState { available: false, ..s };
                return Some(i);
            }
            i = i + 1;
        }
        None
    }

    /// Adds a worker created for a request that found every worker busy. It
    /// gets the next id and is busy with that request, so no other request is
    /// handed to it until it is released. Returns its id.
    pub fn add_worker(&mut self, handle: H) -> (id: usize)
        requires
            old(self).wf(),
            old(self).states().len() < usize::MAX,
        ensures
            final(self).wf(),
            id == old(self).states().len(),
            final(self).states() == old(self).states().push(grown_state(id)),
            !final(self).states()[id as int].available,
            final(self).handles() == old(self).handles().push(handle),
    {
        let id = self.states.len();
        self.handles.push(handle);
        self.states.push(WorkerPoolState { available: false, id, generation: 0 });
        id
    }

    /// Starts a task on worker `id` and returns the handle that can abort
    /// it; the worker's count of started tasks goes up by one.
    pub fn begin_task(&mut self, id: usize) -> (abort: AbortHandle)
        requires
            old(self).wf(),
            id < old(self).states().len(),
            old(self).states()[id as int].generation < usize::MAX,
        ensures
            final(self).wf(),
            final(self).handles() == old(self).handles(),
            final(self).states() == spec_begin(old(self).states(), id as int),
            abort.spec_worker() == id,
            abort.spec_generation() == final(self).states()[id as int].generation,
    {
        let s = self.states[id];
        let generation = s.generation + 1;
        self.states[id] = WorkerPoolState { generation, ..s };
        AbortHandle { worker: id, generation }
    }

    /// Worker `id` has finished its task and is free again.
    pub fn release(&mut self, id: usize)
        requires
            old(self).wf(),
            id < old(self).states().len(),
        ensures
            final(self).wf(),
            final(self).handles() == old(self).handles(),
            final(self).states() == spec_release(old(self).states(), id as int),
    {
        let s = self.states[id];
        self.states[id] = WorkerPoolState { available: true, ..s };
    }

    /// Puts a newly created worker in the place of worker `id`: it keeps the
    /// id and the generation, and is free.
    pub fn replace_worker(&mut self, id: usize, handle: H)
        requires
            old(self).wf(),
            id < old(self).states().len(),
        ensures
            final(self).wf(),
            final(self).states() == spec_replace(old(self).states(), id as int),
            final(self).handles() == old(self).handles().update(id as int, handle),
    {
        let generation = self.states[id].generation;
        self.handles[id] = handle;
        self.states[id] = WorkerPoolState { available: true, id, generation };
    }
}

/// The task just started on a worker that was handed a request can be
/// aborted with the handle it produced.
pub proof fn lemma_running_task_abortable(states: Seq<WorkerPoolState>, i: usize)
    requires
        is_first_available(states, i as int),
        states[i as int].generation < usize::MAX,
    ensures
        ({
            let running = spec_begin(spec_take(states, i as int), i as int);
            spec_abort_applies(running, i, running[i as int].generation)
        }),
{
}

/// Once its worker has finished, no handle aborts anything on it.
pub proof fn lemma_finished_task_not_abortable(
    states: Seq<WorkerPoolState>,
    i: usize,
    generation: usize,
)
    requires
        i < states.len(),
    ensures
        !spec_abort_applies(spec_release(states, i as int), i, generation),
{
}

/// A handle is stale once a later task has started on the same worker: it
/// no longer aborts anything.
pub proof fn lemma_superseded_task_not_abortable(states: Seq<WorkerPoolState>, i: usize)
    requires
        i < states.len(),
        states[i as int].generation + 1 < usize::MAX,
    ensures
        ({
            let first = spec_begin(states, i as int);
            !spec_abort_applies(spec_begin(first, i as int), i, first[i as int].generation)
        }),
{
}

/// A worker put in place of an aborted one is free, keeps the id and the
/// generation, and is the one handed the next request when every worker
/// before it is busy.
pub proof fn lemma_replaced_worker_is_free(states: Seq<WorkerPoolState>, i: usize)
    requires
        i < states.len(),
        forall|j: int| 0 <= j < i ==> !(#[trigger] states[j]).available,
    ensures
        spec_replace(states, i as int)[i as int].available,
        spec_replace(states, i as int)[i as int].id == i,
        spec_replace(states, i as int)[i as int].generation == states[i as int].generation,
        is_first_available(spec_replace(states, i as int), i as int),
{
    assert forall|j: int| 0 <= j < i implies !(#[trigger] spec_replace(states, i as int)[j]).available by {
        assert(spec_replace(states, i as int)[j] == states[j]);
    }
}

/// Handing a request to a worker and releasing it again leaves the pool as
/// it was.
pub proof fn lemma_take_release_roundtrip(states: Seq<WorkerPoolState>, i: usize)
    requires
        is_first_available(states, i as int),
    ensures
        spec_release(spec_take(states, i as int), i as int) == states,
{
    assert(spec_release(spec_take(states, i as int), i as int) =~= states);
}

/// A worker that was handed a request is not handed another one until it is
/// released: two requests in a row go to different workers.
pub proof fn lemma_busy_worker_not_handed_out(states: Seq<WorkerPoolState>, i: usize, j: usize)
    requires
        is_first_available(states, i as int),
        is_first_available(spec_take(states, i as int), j as int),
    ensures
        i != j,
        i < j,
{
}

/// One step of the pool's bookkeeping, as an executor takes it while it holds
/// the pool.
pub enum PoolStep {
    /// A task is started on the free worker with this id.
    Run(usize),
    /// A worker is created for a request and a task is started on it.
    Grow,
    /// The worker with this id has finished its task.
    Release(usize),
    /// The worker with this id is put in place of an aborted one.
    Replace(usize),
}

/// The states after one step.
pub open spec fn spec_step(states: Seq<WorkerPoolState>, step: PoolStep) -> Seq<WorkerPoolState> {
    match step {
        PoolStep::Run(i) => spec_begin(spec_take(states, i as int), i as int),
        PoolStep::Grow => spec_begin(states.push(grown_state(states.len() as usize)), states.len() as int),
        PoolStep::Release(i) => spec_release(states, i as int),
        PoolStep::Replace(i) => spec_replace(states, i as int),
    }
}

/// The step can be taken on `states`: its worker exists, a task is only
/// started on a free worker, and no count runs past the machine's limit.
pub open spec fn step_allowed(states: Seq<WorkerPoolState>, step: PoolStep) -> bool {
    match step {
        PoolStep::Run(i) => i < states.len() && states[i as int].available
            && states[i as int].generation < usize::MAX,
        PoolStep::Grow => states.len() < usize::MAX,
        PoolStep::Release(i) => i < states.len(),
        PoolStep::Replace(i) => i < states.len(),
    }
}

/// The states after the steps, in order.
pub open spec fn spec_run(states: Seq<WorkerPoolState>, steps: Seq<PoolStep>) -> Seq<WorkerPoolState>
    decreases steps.len(),
{
    if steps.len() == 0 {
        states
    } else {
        spec_run(spec_step(states, steps[0]), steps.drop_first())
    }
}

/// Each of the steps can be taken on the states that the earlier ones left.
pub open spec fn steps_allowed(states: Seq<WorkerPoolState>, steps: Seq<PoolStep>) -> bool
    decreases steps.len(),
{
    steps.len() == 0 || (step_allowed(states, steps[0]) && steps_allowed(
        spec_step(states, steps[0]),
        steps.drop_first(),
    ))
}

/// A worker created because every worker was busy is busy with the request
/// it was created for: the next request is not handed to it.
pub proof fn lemma_grown_worker_not_handed_out(states: Seq<WorkerPoolState>, j: int)
    requires
        states.len() < usize::MAX,
        is_first_available(spec_step(states, PoolStep::Grow), j),
    ensures
        j != states.len(),
        j < states.len(),
{
}

/// The task started on a worker created for it can be aborted with the
/// handle it produced.
pub proof fn lemma_grown_task_abortable(states: Seq<WorkerPoolState>)
    requires
        states.len() < usize::MAX,
    ensures
        ({
            let grown = spec_step(states, PoolStep::Grow);
            &&& !grown[states.len() as int].available
            &&& spec_abort_applies(grown, states.len() as usize, grown[states.len() as int].generation)
        }),
{
}

/// The pool never shrinks, and no step lowers the generation of a worker.
pub proof fn lemma_generation_never_decreases(
    states: Seq<WorkerPoolState>,
    steps: Seq<PoolStep>,
    w: usize,
)
    requires
        steps_allowed(states, steps),
        w < states.len(),
    ensures
        states.len() <= spec_run(states, steps).len(),
        states[w as int].generation <= spec_run(states, steps)[w as int].generation,
    decreases steps.len(),
{
    if steps.len() > 0 {
        let next = spec_step(states, steps[0]);
        assert(states.len() <= next.len() && states[w as int].generation <= next[w as int].generation);
        lemma_generation_never_decreases(next, steps.drop_first(), w);
    }
}

/// A worker that is busy stays busy, and no task is started on it, until it
/// is released or replaced.
pub proof fn lemma_busy_worker_not_rerun(states: Seq<WorkerPoolState>, steps: Seq<PoolStep>, w: usize)
    requires
        steps_allowed(states, steps),
        w < states.len(),
        !states[w as int].available,
        forall|k: int| 0 <= k < steps.len() ==> #[trigger] steps[k] != PoolStep::Release(w),
        forall|k: int| 0 <= k < steps.len() ==> #[trigger] steps[k] != PoolStep::Replace(w),
    ensures
        !spec_run(states, steps)[w as int].available,
        forall|k: int| 0 <= k < steps.len() ==> #[trigger] steps[k] != PoolStep::Run(w),
    decreases steps.len(),
{
    if steps.len() > 0 {
        let rest = steps.drop_first();
        assert(steps[0] != PoolStep::Release(w) && steps[0] != PoolStep::Replace(w));
        let next = spec_step(states, steps[0]);
        assert(w < next.len() && !next[w as int].available);
        assert forall|k: int| 0 <= k < rest.len() implies #[trigger] rest[k] != PoolStep::Release(w)
            && rest[k] != PoolStep::Replace(w) by {
            assert(rest[k] == steps[k + 1]);
        }
        lemma_busy_worker_not_rerun(next, rest, w);
        assert forall|k: int| 0 <= k < steps.len() implies #[trigger] steps[k] != PoolStep::Run(w) by {
            if k > 0 {
                assert(steps[k] == rest[k - 1]);
            }
        }
    }
}

/// Worker `w` is free with generation `g`, or has gone past `g`.
spec fn past_generation(states: Seq<WorkerPoolState>, w: usize, g: usize) -> bool {
    &&& w < states.len()
    &&& (states[w as int].available && states[w as int].generation == g) || states[w as int].generation > g
}

proof fn lemma_past_generation_kept(states: Seq<WorkerPoolState>, steps: Seq<PoolStep>, w: usize, g: usize)
    requires
        steps_allowed(states, steps),
        past_generation(states, w, g),
    ensures
        past_generation(spec_run(states, steps), w, g),
    decreases steps.len(),
{
    if steps.len() > 0 {
        let next = spec_step(states, steps[0]);
        assert(past_generation(next, w, g));
        lemma_past_generation_kept(next, steps.drop_first(), w, g);
    }
}

/// Once a worker has been replaced, no handle of a task started on it before
/// the replacement aborts anything, whatever steps come after.
pub proof fn lemma_replaced_handle_never_applies(
    states: Seq<WorkerPoolState>,
    w: usize,
    g: usize,
    steps: Seq<PoolStep>,
)
    requires
        w < states.len(),
        g <= states[w as int].generation,
        steps_allowed(spec_replace(states, w as int), steps),
    ensures
        !spec_abort_applies(spec_run(spec_replace(states, w as int), steps), w, g),
{
    lemma_past_generation_kept(spec_replace(states, w as int), steps, w, g);
}


} // verus!

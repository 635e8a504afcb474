//! The state of one pool of Node.js workers: idle workers, tasks waiting for one, and counts.
use vstd::prelude::*;

verus! {

/// Worker counts of a pool.
#[derive(Clone, Copy, Debug, PartialEq, Eq, Structural)]
pub struct PoolStats {
    /// Workers started and not removed, booting ones included.
    pub workers: usize,
    /// Workers started whose boot has not finished.
    pub booting_workers: usize,
}

/// What a task gets when it asks the pool for a worker.
#[derive(Clone, Copy, Debug, PartialEq, Eq, Structural)]
pub enum Acquired {
    /// This idle worker is handed out.
    Idle(u32),
    /// Room was reserved for a new worker: create it, then call
    /// [`PoolState::finish_booting`].
    Create,
    /// The pool is full: the task waits until a worker is released to it.
    Wait,
}

/// The model of a pool: idle workers (the last is handed out first), worker counts, and
/// the tickets of the waiting tasks (the last is served first).
pub struct PoolView {
    pub idle: Seq<u32>,
    pub workers: int,
    pub booting: int,
    pub waiters: Seq<u64>,
}

/// A pool is consistent: idle and booting workers are among the counted ones, and no
/// worker sits idle while a task waits.
pub open spec fn pool_wf(s: PoolView) -> bool {
    &&& s.idle.len() + s.booting <= s.workers
    &&& 0 <= s.booting
    &&& (s.idle.len() == 0 || s.waiters.len() == 0)
}

/// Workers handed out to tasks: counted, neither idle nor booting.
pub open spec fn leased(s: PoolView) -> int {
    s.workers - s.idle.len() - s.booting
}

/// An empty pool.
pub open spec fn empty_pool() -> PoolView {
    PoolView { idle: Seq::empty(), workers: 0, booting: 0, waiters: Seq::empty() }
}

/// A task asks for a worker: the last idle one, else a new one while fewer than
/// `concurrency` workers exist, else the task waits with its ticket.
pub open spec fn spec_acquire(s: PoolView, concurrency: int, waiter: u64) -> (PoolView, Acquired) {
    if s.idle.len() > 0 {
        (PoolView { idle: s.idle.drop_last(), ..s }, Acquired::Idle(s.idle.last()))
    } else if s.workers < concurrency {
        (PoolView { workers: s.workers + 1, booting: s.booting + 1, ..s }, Acquired::Create)
    } else {
        (PoolView { waiters: s.waiters.push(waiter), ..s }, Acquired::Wait)
    }
}

/// A new worker finished booting.
pub open spec fn spec_finish_booting(s: PoolView) -> PoolView {
    PoolView { booting: s.booting - 1, ..s }
}

/// A task gives its worker back: the last waiting task gets it, else it becomes idle.
pub open spec fn spec_release(s: PoolView, worker: u32) -> (PoolView, Option<u64>) {
    if s.waiters.len() > 0 {
        (PoolView { waiters: s.waiters.drop_last(), ..s }, Some(s.waiters.last()))
    } else {
        (PoolView { idle: s.idle.push(worker), ..s }, None)
    }
}

/// A handed-out worker leaves the pool for good.
pub open spec fn spec_retire(s: PoolView) -> PoolView {
    PoolView { workers: s.workers - 1, ..s }
}

/// All idle workers but the first leave the pool; they are returned, in order.
pub open spec fn spec_scale_down(s: PoolView) -> (PoolView, Seq<u32>) {
    if s.idle.len() > 1 {
        (PoolView { idle: s.idle.take(1), workers: s.workers - (s.idle.len() - 1), ..s }, s.idle.skip(1))
    } else {
        (s, Seq::empty())
    }
}

/// All idle workers leave the pool; they are returned, in order.
pub open spec fn spec_scale_zero(s: PoolView) -> (PoolView, Seq<u32>) {
    (PoolView { idle: Seq::empty(), workers: s.workers - s.idle.len(), ..s }, s.idle)
}

/// The state of one pool of workers.
pub struct PoolState {
    idle_workers: Vec<u32>,
    stats: PoolStats,
    waiters: Vec<u64>,
}

impl View for PoolState {
    type V = PoolView;

    closed spec fn view(&self) -> PoolView {
        PoolView {
            idle: self.idle_workers@,
            workers: self.stats.workers as int,
            booting: self.stats.booting_workers as int,
            waiters: self.waiters@,
        }
    }
}

impl Default for PoolState {
    fn default() -> (r: PoolState)
        ensures
            r@ == empty_pool(),
    {
        PoolState::new()
    }
}

impl PoolState {
    /// A pool without workers.
    pub fn new() -> (r: PoolState)
        ensures
            r@ == empty_pool(),
    {
        let r = PoolState {
            idle_workers: Vec::new(),
            stats: PoolStats { workers: 0, booting_workers: 0 },
            waiters: Vec::new(),
        };
        assert(r@.idle =~= Seq::<u32>::empty());
        assert(r@.waiters =~= Seq::<u64>::empty());
        r
    }

    /// The idle workers, the one handed out next last.
    pub fn idle_workers(&self) -> (r: &Vec<u32>)
        ensures
            r@ == self@.idle,
    {
        &self.idle_workers
    }

    /// The worker counts.
    pub fn stats(&self) -> (r: PoolStats)
        ensures
            r.workers == self@.workers,
            r.booting_workers == self@.booting,
    {
        self.stats
    }

    /// The tickets of the waiting tasks, the one served next last.
    pub fn waiters(&self) -> (r: &Vec<u64>)
        ensures
            r@ == self@.waiters,
    {
        &self.waiters
    }

    /// A worker for a task, which waits with ticket `waiter` when the pool is full.
    pub fn acquire(&mut self, concurrency: usize, waiter: u64) -> (r: Acquired)
        requires
            pool_wf(old(self)@),
        ensures
            (final(self)@, r) == spec_acquire(old(self)@, concurrency as int, waiter),
            pool_wf(final(self)@),
    {
        if let Some(worker_id) = self.idle_workers.pop() {
            return Acquired::Idle(worker_id);
        }
        if self.stats.workers < concurrency {
            self.stats.workers = self.stats.workers + 1;
            self.stats.booting_workers = self.stats.booting_workers + 1;
            return Acquired::Create;
        }
        self.waiters.push(waiter);
        Acquired::Wait
    }

    /// A worker created after [`Acquired::Create`] finished booting.
    pub fn finish_booting(&mut self)
        requires
            pool_wf(old(self)@),
            old(self)@.booting > 0,
        ensures
            final(self)@ == spec_finish_booting(old(self)@),
            pool_wf(final(self)@),
    {
        self.stats.booting_workers = self.stats.booting_workers - 1;
    }

    /// A task is done with its worker. Returns the ticket of the waiting task that gets
    /// the worker, if any; otherwise the worker becomes idle.
    pub fn release(&mut self, worker_id: u32) -> (r: Option<u64>)
        requires
            pool_wf(old(self)@),
            leased(old(self)@) > 0,
        ensures
            (final(self)@, r) == spec_release(old(self)@, worker_id),
            pool_wf(final(self)@),
    {
        match self.waiters.pop() {
            Some(waiter) => Some(waiter),
            None => {
                self.idle_workers.push(worker_id);
                None
            },
        }
    }

    /// A handed-out worker is not to be reused: it no longer counts as a worker of the pool.
    pub fn retire(&mut self)
        requires
            pool_wf(old(self)@),
            leased(old(self)@) > 0,
        ensures
            final(self)@ == spec_retire(old(self)@),
            pool_wf(final(self)@),
    {
        self.stats.workers = self.stats.workers - 1;
    }

    /// Keeps one idle worker; returns the others, which leave the pool.
    pub fn scale_down(&mut self) -> (r: Vec<u32>)
        requires
            pool_wf(old(self)@),
        ensures
            (final(self)@, r@) == spec_scale_down(old(self)@),
            pool_wf(final(self)@),
    {
        if self.idle_workers.len() > 1 {
            let ghost before = self.idle_workers@;
            let workers = self.idle_workers.split_off(1);
            self.stats.workers = self.stats.workers - workers.len();
            assert(self.idle_workers@ =~= before.take(1));
            assert(workers@ =~= before.skip(1));
            workers
        } else {
            Vec::new()
        }
    }

    /// Returns all idle workers, which leave the pool.
    pub fn scale_zero(&mut self) -> (r: Vec<u32>)
        requires
            pool_wf(old(self)@),
        ensures
            (final(self)@, r@) == spec_scale_zero(old(self)@),
            pool_wf(final(self)@),
    {
        let mut workers: Vec<u32> = Vec::new();
        std::mem::swap(&mut workers, &mut self.idle_workers);
        self.stats.workers = self.stats.workers - workers.len();
        assert(self.idle_workers@ =~= Seq::<u32>::empty());
        workers
    }
}

/// A worker given back with no task waiting is the one the next task gets, and the pool
/// is then as it was before the worker was given back.
pub proof fn law_release_then_acquire(s: PoolView, worker: u32, concurrency: int, waiter: u64)
    requires
        pool_wf(s),
        leased(s) > 0,
        s.waiters.len() == 0,
    ensures
        spec_release(s, worker).1 is None,
        spec_acquire(spec_release(s, worker).0, concurrency, waiter) == (s, Acquired::Idle(worker)),
{
    let t = spec_release(s, worker).0;
    assert(t.idle.drop_last() =~= s.idle);
}

/// A task that had to wait is the first served when a worker is given back.
pub proof fn law_waiting_task_gets_released_worker(s: PoolView, concurrency: int, waiter: u64, worker: u32)
    requires
        pool_wf(s),
        s.idle.len() == 0,
        s.workers >= concurrency,
        leased(s) > 0,
    ensures
        spec_acquire(s, concurrency, waiter).1 == Acquired::Wait,
        spec_release(spec_acquire(s, concurrency, waiter).0, worker) == (s, Some(waiter)),
{
    let t = spec_acquire(s, concurrency, waiter).0;
    assert(t.waiters.drop_last() =~= s.waiters);
}

/// Scaling down leaves at most one idle worker, the first; the others leave the pool and
/// the worker count drops by their number.
pub proof fn law_scale_down_keeps_one_idle(s: PoolView)
    requires
        pool_wf(s),
    ensures
        spec_scale_down(s).0.idle.len() <= 1,
        spec_scale_down(s).0.idle + spec_scale_down(s).1 == s.idle,
        spec_scale_down(s).0.workers == s.workers - spec_scale_down(s).1.len(),
        spec_scale_down(s).0.waiters == s.waiters,
        pool_wf(spec_scale_down(s).0),
{
    if s.idle.len() > 1 {
        assert(s.idle.take(1) + s.idle.skip(1) =~= s.idle);
    } else {
        assert(s.idle + Seq::<u32>::empty() =~= s.idle);
    }
}

/// After scaling to zero no idle worker is left, so the next task is given a new worker
/// or waits.
pub proof fn law_scale_zero_then_no_reuse(s: PoolView, concurrency: int, waiter: u64)
    requires
        pool_wf(s),
    ensures
        !(spec_acquire(spec_scale_zero(s).0, concurrency, waiter).1 is Idle),
        spec_scale_zero(s).0.workers + spec_scale_zero(s).1.len() == s.workers,
{
}

} // verus!

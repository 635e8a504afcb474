//! All pools of workers, one per set of worker options, and the routes of messages from
//! tasks to workers and back.
use vstd::prelude::*;
use crate::text::str_equal;
use crate::worker_pool::mailbox::Mailboxes;
use crate::worker_pool::state::{
    Acquired, PoolState, PoolView, empty_pool, leased, pool_wf, spec_acquire, spec_finish_booting,
    spec_release, spec_retire, spec_scale_down, spec_scale_zero,
};

verus! {

/// What the workers of a pool run: the entry file and the working directory.
#[derive(Debug)]
pub struct WorkerOptions {
    pub filename: String,
    pub cwd: String,
}

/// A message for a task, as a worker receives it.
#[derive(Debug)]
pub struct WorkerMessage {
    pub task_id: u32,
    pub message: String,
}

/// The options as texts.
pub open spec fn options_view(o: WorkerOptions) -> (Seq<char>, Seq<char>) {
    (o.filename@, o.cwd@)
}

/// A copy of `o`.
fn copy_options(o: &WorkerOptions) -> (r: WorkerOptions)
    ensures
        options_view(r) == options_view(*o),
{
    WorkerOptions { filename: o.filename.as_str().to_owned(), cwd: o.cwd.as_str().to_owned() }
}

/// Whether two option sets are the same.
fn same_options(a: &WorkerOptions, b: &WorkerOptions) -> (r: bool)
    ensures
        r == (options_view(*a) == options_view(*b)),
{
    str_equal(a.filename.as_str(), b.filename.as_str()) && str_equal(a.cwd.as_str(), b.cwd.as_str())
}

/// The pools as options and pool models.
pub open spec fn pools_view(v: Seq<(WorkerOptions, PoolState)>) -> Seq<((Seq<char>, Seq<char>), PoolView)> {
    v.map_values(|p: (WorkerOptions, PoolState)| (options_view(p.0), p.1@))
}

/// The model of all pools and message routes.
pub struct OperationView {
    /// The pools, each under its options.
    pub pools: Seq<((Seq<char>, Seq<char>), PoolView)>,
    /// The messages waiting for each worker, with the task each belongs to.
    pub worker_channels: Map<u32, Seq<(u32, String)>>,
    /// The messages waiting for each task.
    pub task_channels: Map<u32, Seq<String>>,
}

/// No two pools share options, and each pool is consistent.
pub open spec fn pools_wf(pools: Seq<((Seq<char>, Seq<char>), PoolView)>) -> bool {
    &&& forall|i: int, j: int| 0 <= i < j < pools.len() ==> #[trigger] pools[i].0 != #[trigger] pools[j].0
    &&& forall|i: int| 0 <= i < pools.len() ==> pool_wf(#[trigger] pools[i].1)
}

/// Shrinks a pool: to one idle worker, or to none.
pub open spec fn shrink(s: PoolView, zero: bool) -> (PoolView, Seq<u32>) {
    if zero {
        spec_scale_zero(s)
    } else {
        spec_scale_down(s)
    }
}

/// The workers that leave when every pool is shrunk, each with its pool's options, pool
/// by pool.
pub open spec fn terminations(pools: Seq<((Seq<char>, Seq<char>), PoolView)>, zero: bool) -> Seq<((Seq<char>, Seq<char>), u32)>
    decreases pools.len(),
{
    if pools.len() == 0 {
        Seq::empty()
    } else {
        let last = pools.last();
        terminations(pools.drop_last(), zero) + tagged(last.0, shrink(last.1, zero).1)
    }
}

/// The workers `ws`, each with the options `key`.
pub open spec fn tagged(key: (Seq<char>, Seq<char>), ws: Seq<u32>) -> Seq<((Seq<char>, Seq<char>), u32)> {
    ws.map_values(|w: u32| (key, w))
}

/// A list of workers with their pools' options, the options as texts.
pub open spec fn terminations_view(v: Seq<(WorkerOptions, u32)>) -> Seq<((Seq<char>, Seq<char>), u32)> {
    v.map_values(|p: (WorkerOptions, u32)| (options_view(p.0), p.1))
}

/// `m` without the queues of the workers in `ws`.
pub open spec fn remove_all<V>(m: Map<u32, V>, ws: Seq<u32>) -> Map<u32, V>
    decreases ws.len(),
{
    if ws.len() == 0 {
        m
    } else {
        remove_all(m, ws.drop_last()).remove(ws.last())
    }
}

/// The workers of a list of terminations.
pub open spec fn terminated_ids(t: Seq<((Seq<char>, Seq<char>), u32)>) -> Seq<u32> {
    t.map_values(|p: ((Seq<char>, Seq<char>), u32)| p.1)
}

/// The position of the pool with options `key`, if any.
pub open spec fn has_pool(pools: Seq<((Seq<char>, Seq<char>), PoolView)>, key: (Seq<char>, Seq<char>)) -> bool {
    exists|i: int| 0 <= i < pools.len() && #[trigger] pools[i].0 == key
}

/// The pools of workers and the message routes between tasks and workers.
pub struct WorkerPoolOperation {
    worker_routed_channel: Mailboxes<(u32, String)>,
    task_routed_channel: Mailboxes<String>,
    pools: Vec<(WorkerOptions, PoolState)>,
}

impl View for WorkerPoolOperation {
    type V = OperationView;

    closed spec fn view(&self) -> OperationView {
        OperationView {
            pools: pools_view(self.pools@),
            worker_channels: self.worker_routed_channel@,
            task_channels: self.task_routed_channel@,
        }
    }
}

impl Default for WorkerPoolOperation {
    fn default() -> (r: WorkerPoolOperation)
        ensures
            r@.pools.len() == 0,
            r@.worker_channels == Map::<u32, Seq<(u32, String)>>::empty(),
            r@.task_channels == Map::<u32, Seq<String>>::empty(),
    {
        WorkerPoolOperation::new()
    }
}

impl WorkerPoolOperation {
    /// No pool and no message.
    pub fn new() -> (r: WorkerPoolOperation)
        ensures
            r@.pools.len() == 0,
            r@.worker_channels == Map::<u32, Seq<(u32, String)>>::empty(),
            r@.task_channels == Map::<u32, Seq<String>>::empty(),
            pools_wf(r@.pools),
    {
        WorkerPoolOperation {
            worker_routed_channel: Mailboxes::new(),
            task_routed_channel: Mailboxes::new(),
            pools: Vec::new(),
        }
    }

    /// The position of the pool for `options`, which is created empty when there is none.
    pub fn get_pool_state(&mut self, options: &WorkerOptions) -> (r: usize)
        requires
            pools_wf(old(self)@.pools),
        ensures
            pools_wf(final(self)@.pools),
            r < final(self)@.pools.len(),
            final(self)@.pools[r as int].0 == options_view(*options),
            has_pool(old(self)@.pools, options_view(*options)) ==> final(self)@ == old(self)@,
            !has_pool(old(self)@.pools, options_view(*options)) ==> final(self)@ == (OperationView {
                pools: old(self)@.pools.push((options_view(*options), empty_pool())),
                ..old(self)@
            }),
    {
        let mut i: usize = 0;
        while i < self.pools.len()
            invariant
                i <= self.pools@.len(),
                pools_wf(self@.pools),
                forall|j: int| 0 <= j < i ==> #[trigger] pools_view(self.pools@)[j].0 != options_view(*options),
            decreases self.pools@.len() - i,
        {
            if same_options(&self.pools[i].0, options) {
                assert(pools_view(self.pools@)[i as int].0 == options_view(*options));
                return i;
            }
            assert(pools_view(self.pools@)[i as int].0 == options_view(self.pools@[i as int].0));
            i = i + 1;
        }
        let ghost before = self@;
        self.pools.push((copy_options(options), PoolState::new()));
        proof {
            assert(pools_view(self.pools@) =~= before.pools.push((options_view(*options), empty_pool())));
            if has_pool(before.pools, options_view(*options)) {
                let j = choose|j: int| 0 <= j < before.pools.len() && #[trigger] before.pools[j].0 == options_view(*options);
            }
        }
        i
    }

    /// The pool at position `pool`.
    pub fn pool(&self, pool: usize) -> (r: &PoolState)
        requires
            pool < self@.pools.len(),
        ensures
            r@ == self@.pools[pool as int].1,
    {
        assert(pools_view(self.pools@)[pool as int].1 == self.pools@[pool as int].1@);
        &self.pools[pool].1
    }

    /// Takes the pool at `pool` out.
    fn take_pool(&mut self, pool: usize) -> (r: (WorkerOptions, PoolState))
        requires
            pool < old(self)@.pools.len(),
        ensures
            (options_view(r.0), r.1@) == old(self)@.pools[pool as int],
            final(self).pools@ == old(self).pools@.remove(pool as int),
            final(self).worker_routed_channel == old(self).worker_routed_channel,
            final(self).task_routed_channel == old(self).task_routed_channel,
    {
        let r = self.pools.remove(pool);
        assert(pools_view(old(self).pools@)[pool as int] == (options_view(r.0), r.1@));
        r
    }

    /// Puts a pool back at `pool`.
    fn put_pool(&mut self, pool: usize, p: (WorkerOptions, PoolState))
        requires
            pool <= old(self).pools@.len(),
        ensures
            final(self).pools@ == old(self).pools@.insert(pool as int, p),
            final(self).worker_routed_channel == old(self).worker_routed_channel,
            final(self).task_routed_channel == old(self).task_routed_channel,
    {
        self.pools.insert(pool, p);
    }

    /// Applies `f` to the pool at `pool`: the model after taking a pool out and putting it
    /// back changed.
    proof fn lemma_replace_pool(before: Seq<(WorkerOptions, PoolState)>, pool: int, p: (WorkerOptions, PoolState))
        requires
            0 <= pool < before.len(),
            options_view(p.0) == options_view(before[pool].0),
        ensures
            pools_view(before.remove(pool).insert(pool, p)) == pools_view(before).update(pool, (options_view(p.0), p.1@)),
    {
        assert(pools_view(before.remove(pool).insert(pool, p)) =~= pools_view(before).update(pool, (options_view(p.0), p.1@)));
    }

    /// A worker for a task of the pool at `pool`, as [`PoolState::acquire`].
    pub fn acquire_worker(&mut self, pool: usize, concurrency: usize, waiter: u64) -> (r: Acquired)
        requires
            pools_wf(old(self)@.pools),
            pool < old(self)@.pools.len(),
        ensures
            pools_wf(final(self)@.pools),
            final(self)@ == (OperationView {
                pools: old(self)@.pools.update(pool as int, (old(self)@.pools[pool as int].0, spec_acquire(old(self)@.pools[pool as int].1, concurrency as int, waiter).0)),
                ..old(self)@
            }),
            r == spec_acquire(old(self)@.pools[pool as int].1, concurrency as int, waiter).1,
    {
        let ghost before = self.pools@;
        let (options, mut state) = self.take_pool(pool);
        let r = state.acquire(concurrency, waiter);
        self.put_pool(pool, (options, state));
        proof {
            Self::lemma_replace_pool(before, pool as int, self.pools@[pool as int]);
            assert(self.pools@ == before.remove(pool as int).insert(pool as int, self.pools@[pool as int]));
            lemma_update_keeps_pools_wf(pools_view(before), pool as int, pools_view(self.pools@)[pool as int].1);
        }
        r
    }

    /// A worker of the pool at `pool` finished booting, as [`PoolState::finish_booting`].
    pub fn finish_booting(&mut self, pool: usize)
        requires
            pools_wf(old(self)@.pools),
            pool < old(self)@.pools.len(),
            old(self)@.pools[pool as int].1.booting > 0,
        ensures
            pools_wf(final(self)@.pools),
            final(self)@ == (OperationView {
                pools: old(self)@.pools.update(pool as int, (old(self)@.pools[pool as int].0, spec_finish_booting(old(self)@.pools[pool as int].1))),
                ..old(self)@
            }),
    {
        let ghost before = self.pools@;
        let (options, mut state) = self.take_pool(pool);
        state.finish_booting();
        self.put_pool(pool, (options, state));
        proof {
            Self::lemma_replace_pool(before, pool as int, self.pools@[pool as int]);
            assert(self.pools@ == before.remove(pool as int).insert(pool as int, self.pools@[pool as int]));
            lemma_update_keeps_pools_wf(pools_view(before), pool as int, pools_view(self.pools@)[pool as int].1);
        }
    }

    /// A task of the pool at `pool` is done with `worker_id`, as [`PoolState::release`].
    pub fn release_worker(&mut self, pool: usize, worker_id: u32) -> (r: Option<u64>)
        requires
            pools_wf(old(self)@.pools),
            pool < old(self)@.pools.len(),
            leased(old(self)@.pools[pool as int].1) > 0,
        ensures
            pools_wf(final(self)@.pools),
            final(self)@ == (OperationView {
                pools: old(self)@.pools.update(pool as int, (old(self)@.pools[pool as int].0, spec_release(old(self)@.pools[pool as int].1, worker_id).0)),
                ..old(self)@
            }),
            r == spec_release(old(self)@.pools[pool as int].1, worker_id).1,
    {
        let ghost before = self.pools@;
        let (options, mut state) = self.take_pool(pool);
        let r = state.release(worker_id);
        self.put_pool(pool, (options, state));
        proof {
            Self::lemma_replace_pool(before, pool as int, self.pools@[pool as int]);
            assert(self.pools@ == before.remove(pool as int).insert(pool as int, self.pools@[pool as int]));
            lemma_update_keeps_pools_wf(pools_view(before), pool as int, pools_view(self.pools@)[pool as int].1);
        }
        r
    }

    /// A worker of the pool at `pool` is not to be reused, as [`PoolState::retire`].
    pub fn retire_worker(&mut self, pool: usize)
        requires
            pools_wf(old(self)@.pools),
            pool < old(self)@.pools.len(),
            leased(old(self)@.pools[pool as int].1) > 0,
        ensures
            pools_wf(final(self)@.pools),
            final(self)@ == (OperationView {
                pools: old(self)@.pools.update(pool as int, (old(self)@.pools[pool as int].0, spec_retire(old(self)@.pools[pool as int].1))),
                ..old(self)@
            }),
    {
        let ghost before = self.pools@;
        let (options, mut state) = self.take_pool(pool);
        state.retire();
        self.put_pool(pool, (options, state));
        proof {
            Self::lemma_replace_pool(before, pool as int, self.pools@[pool as int]);
            assert(self.pools@ == before.remove(pool as int).insert(pool as int, self.pools@[pool as int]));
            lemma_update_keeps_pools_wf(pools_view(before), pool as int, pools_view(self.pools@)[pool as int].1);
        }
    }

    /// Shrinks every pool and drops the message queues of the workers that leave; returns
    /// them, each with its pool's options, pool by pool, for the caller to terminate.
    fn shrink_pools(&mut self, zero: bool) -> (r: Vec<(WorkerOptions, u32)>)
        requires
            pools_wf(old(self)@.pools),
        ensures
            pools_wf(final(self)@.pools),
            final(self)@.pools.len() == old(self)@.pools.len(),
            forall|j: int| 0 <= j < old(self)@.pools.len() ==> #[trigger] final(self)@.pools[j]
                == (old(self)@.pools[j].0, shrink(old(self)@.pools[j].1, zero).0),
            terminations_view(r@) == terminations(old(self)@.pools, zero),
            final(self)@.worker_channels == remove_all(old(self)@.worker_channels, terminated_ids(terminations(old(self)@.pools, zero))),
            final(self)@.task_channels == old(self)@.task_channels,
    {
        let ghost start = self@;
        let mut to_terminate: Vec<(WorkerOptions, u32)> = Vec::new();
        let mut i: usize = 0;
        while i < self.pools.len()
            invariant
                i <= self@.pools.len(),
                self@.pools.len() == start.pools.len(),
                pools_wf(start.pools),
                pools_wf(self@.pools),
                forall|j: int| 0 <= j < i ==> #[trigger] self@.pools[j] == (start.pools[j].0, shrink(start.pools[j].1, zero).0),
                forall|j: int| i <= j < self@.pools.len() ==> #[trigger] self@.pools[j] == start.pools[j],
                terminations_view(to_terminate@) == terminations(start.pools.take(i as int), zero),
                self@.worker_channels == remove_all(start.worker_channels, terminated_ids(terminations(start.pools.take(i as int), zero))),
                self@.task_channels == start.task_channels,
            decreases self@.pools.len() - i,
        {
            let ghost before = self.pools@;
            let ghost before_view = self@;
            assert(pool_wf(self@.pools[i as int].1));
            let (options, mut state) = self.take_pool(i);
            let leaving = if zero { state.scale_zero() } else { state.scale_down() };
            let ghost key = options_view(options);
            let mut k: usize = 0;
            let ghost t0 = terminations_view(to_terminate@);
            assert(terminated_ids(t0) + leaving@.take(0) =~= terminated_ids(t0));
            assert(tagged(key, leaving@.take(0)) =~= Seq::<((Seq<char>, Seq<char>), u32)>::empty());
            assert(t0 + tagged(key, leaving@.take(0)) =~= t0);
            while k < leaving.len()
                invariant
                    k <= leaving@.len(),
                    key == options_view(options),
                    terminations_view(to_terminate@)
                        == t0 + tagged(key, leaving@.take(k as int)),
                    self.worker_routed_channel@ == remove_all(start.worker_channels, terminated_ids(t0) + leaving@.take(k as int)),
                    self.task_routed_channel@ == before_view.task_channels,
                    self.pools@ == before.remove(i as int),
                    t0 == terminations(start.pools.take(i as int), zero),
                decreases leaving@.len() - k,
            {
                let ghost prev = to_terminate@;
                let worker_id = leaving[k];
                to_terminate.push((copy_options(&options), worker_id));
                self.worker_routed_channel.remove(worker_id);
                proof {
                    assert(leaving@.take(k + 1) =~= leaving@.take(k as int).push(worker_id));
                    assert(terminations_view(to_terminate@) =~= terminations_view(prev).push((key, worker_id)));
                    assert(tagged(key, leaving@.take(k + 1)) =~= tagged(key, leaving@.take(k as int)).push((key, worker_id)));
                    assert(terminations_view(to_terminate@)
                        =~= t0 + tagged(key, leaving@.take(k + 1)));
                    assert((terminated_ids(t0) + leaving@.take(k + 1)).drop_last() =~= terminated_ids(t0) + leaving@.take(k as int));
                }
                k = k + 1;
            }
            self.put_pool(i, (options, state));
            proof {
                Self::lemma_replace_pool(before, i as int, self.pools@[i as int]);
                assert(self.pools@ == before.remove(i as int).insert(i as int, self.pools@[i as int]));
                lemma_update_keeps_pools_wf(pools_view(before), i as int, pools_view(self.pools@)[i as int].1);
                let taken = start.pools.take(i + 1);
                assert(taken.drop_last() =~= start.pools.take(i as int));
                assert(taken.last() == start.pools[i as int]);
                assert(leaving@.take(k as int) =~= leaving@);
                assert(terminated_ids(terminations(taken, zero)) =~= terminated_ids(t0) + leaving@);
            }
            i = i + 1;
        }
        proof {
            assert(start.pools.take(i as int) =~= start.pools);
        }
        to_terminate
    }

    /// Every pool keeps at most one idle worker; the others leave, their message queues are
    /// dropped, and they are returned with their pools' options for the caller to terminate.
    pub fn scale_down(&mut self) -> (r: Vec<(WorkerOptions, u32)>)
        requires
            pools_wf(old(self)@.pools),
        ensures
            pools_wf(final(self)@.pools),
            final(self)@.pools.len() == old(self)@.pools.len(),
            forall|j: int| 0 <= j < old(self)@.pools.len() ==> #[trigger] final(self)@.pools[j]
                == (old(self)@.pools[j].0, spec_scale_down(old(self)@.pools[j].1).0),
            forall|j: int| 0 <= j < final(self)@.pools.len() ==> (#[trigger] final(self)@.pools[j]).1.idle.len() <= 1,
            terminations_view(r@) == terminations(old(self)@.pools, false),
            final(self)@.worker_channels == remove_all(old(self)@.worker_channels, terminated_ids(terminations(old(self)@.pools, false))),
            final(self)@.task_channels == old(self)@.task_channels,
    {
        self.shrink_pools(false)
    }

    /// No pool keeps an idle worker; they all leave, their message queues are dropped, and
    /// they are returned with their pools' options for the caller to terminate.
    pub fn scale_zero(&mut self) -> (r: Vec<(WorkerOptions, u32)>)
        requires
            pools_wf(old(self)@.pools),
        ensures
            pools_wf(final(self)@.pools),
            final(self)@.pools.len() == old(self)@.pools.len(),
            forall|j: int| 0 <= j < old(self)@.pools.len() ==> #[trigger] final(self)@.pools[j]
                == (old(self)@.pools[j].0, spec_scale_zero(old(self)@.pools[j].1).0),
            forall|j: int| 0 <= j < final(self)@.pools.len() ==> (#[trigger] final(self)@.pools[j]).1.idle.len() == 0,
            terminations_view(r@) == terminations(old(self)@.pools, true),
            final(self)@.worker_channels == remove_all(old(self)@.worker_channels, terminated_ids(terminations(old(self)@.pools, true))),
            final(self)@.task_channels == old(self)@.task_channels,
    {
        self.shrink_pools(true)
    }

    /// Queues `message` of task `task_id` for worker `worker_id`.
    pub fn send_message_to_worker(&mut self, worker_id: u32, task_id: u32, message: String)
        ensures
            final(self)@ == (OperationView {
                worker_channels: old(self)@.worker_channels.insert(
                    worker_id,
                    crate::worker_pool::mailbox::queue_of(old(self)@.worker_channels, worker_id).push((task_id, message)),
                ),
                ..old(self)@
            }),
    {
        self.worker_routed_channel.send(worker_id, (task_id, message));
    }

    /// The oldest message queued for worker `worker_id`, with its task; `None` when there
    /// is none yet (the worker then waits for one).
    pub fn recv_message_in_worker(&mut self, worker_id: u32) -> (r: Option<(u32, String)>)
        ensures
            final(self)@.pools == old(self)@.pools,
            final(self)@.task_channels == old(self)@.task_channels,
            ({
                let q = crate::worker_pool::mailbox::queue_of(old(self)@.worker_channels, worker_id);
                &&& q.len() > 0 ==> r == Some(q[0]) && final(self)@.worker_channels == old(self)@.worker_channels.insert(worker_id, q.drop_first())
                &&& q.len() == 0 ==> r is None && final(self)@.worker_channels == old(self)@.worker_channels.insert(worker_id, Seq::empty())
            }),
    {
        self.worker_routed_channel.recv(worker_id)
    }

    /// The oldest message queued for worker `worker_id`, as [`Self::recv_message_in_worker`],
    /// as a [`WorkerMessage`].
    pub fn recv_task_message_in_worker(&mut self, worker_id: u32) -> (r: Option<WorkerMessage>)
        ensures
            final(self)@.pools == old(self)@.pools,
            final(self)@.task_channels == old(self)@.task_channels,
            ({
                let q = crate::worker_pool::mailbox::queue_of(old(self)@.worker_channels, worker_id);
                &&& q.len() > 0 ==> r is Some && r.unwrap().task_id == q[0].0 && r.unwrap().message == q[0].1
                    && final(self)@.worker_channels == old(self)@.worker_channels.insert(worker_id, q.drop_first())
                &&& q.len() == 0 ==> r is None && final(self)@.worker_channels == old(self)@.worker_channels.insert(worker_id, Seq::empty())
            }),
    {
        match self.recv_message_in_worker(worker_id) {
            Some((task_id, message)) => Some(WorkerMessage { task_id, message }),
            None => None,
        }
    }

    /// Queues `message` for task `task_id`.
    pub fn send_task_message(&mut self, task_id: u32, message: String)
        ensures
            final(self)@ == (OperationView {
                task_channels: old(self)@.task_channels.insert(
                    task_id,
                    crate::worker_pool::mailbox::queue_of(old(self)@.task_channels, task_id).push(message),
                ),
                ..old(self)@
            }),
    {
        self.task_routed_channel.send(task_id, message);
    }

    /// The oldest message queued for task `task_id`; `None` when there is none yet (the
    /// task then waits for one).
    pub fn recv_task_message(&mut self, task_id: u32) -> (r: Option<String>)
        ensures
            final(self)@.pools == old(self)@.pools,
            final(self)@.worker_channels == old(self)@.worker_channels,
            ({
                let q = crate::worker_pool::mailbox::queue_of(old(self)@.task_channels, task_id);
                &&& q.len() > 0 ==> r == Some(q[0]) && final(self)@.task_channels == old(self)@.task_channels.insert(task_id, q.drop_first())
                &&& q.len() == 0 ==> r is None && final(self)@.task_channels == old(self)@.task_channels.insert(task_id, Seq::empty())
            }),
    {
        self.task_routed_channel.recv(task_id)
    }

    /// Drops the message queue of task `task_id`, when the task ends.
    pub fn remove_task_channel(&mut self, task_id: u32)
        ensures
            final(self)@ == (OperationView { task_channels: old(self)@.task_channels.remove(task_id), ..old(self)@ }),
    {
        self.task_routed_channel.remove(task_id);
    }

    /// Drops the message queue of worker `worker_id`, which is being terminated.
    pub fn terminate_worker(&mut self, worker_id: u32)
        ensures
            final(self)@ == (OperationView { worker_channels: old(self)@.worker_channels.remove(worker_id), ..old(self)@ }),
    {
        self.worker_routed_channel.remove(worker_id);
    }
}

/// Replacing one pool's model by a consistent one keeps the pools consistent.
proof fn lemma_update_keeps_pools_wf(pools: Seq<((Seq<char>, Seq<char>), PoolView)>, i: int, s: PoolView)
    requires
        pools_wf(pools),
        0 <= i < pools.len(),
        pool_wf(s),
    ensures
        pools_wf(pools.update(i, (pools[i].0, s))),
{
    let u = pools.update(i, (pools[i].0, s));
    assert forall|a: int, b: int| 0 <= a < b < u.len() implies #[trigger] u[a].0 != #[trigger] u[b].0 by {
        assert(u[a].0 == pools[a].0 && u[b].0 == pools[b].0);
    }
}

} // verus!

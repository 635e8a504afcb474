//! Worker creations asked of the host and not yet answered. The host reports each new
//! worker without saying which request it answers, so requests are answered in order.
use vstd::prelude::*;

verus! {

/// The tickets of the requests for a new worker, oldest first.
pub struct PendingCreations {
    tickets: Vec<u64>,
}

impl View for PendingCreations {
    type V = Seq<u64>;

    closed spec fn view(&self) -> Seq<u64> {
        self.tickets@
    }
}

impl PendingCreations {
    /// No request pending.
    pub fn new() -> (r: PendingCreations)
        ensures
            r@ == Seq::<u64>::empty(),
    {
        PendingCreations { tickets: Vec::new() }
    }

    /// A worker was asked for under `ticket`.
    pub fn request(&mut self, ticket: u64)
        ensures
            final(self)@ == old(self)@.push(ticket),
    {
        self.tickets.push(ticket);
    }

    /// The host could not start the worker last asked for: that request is withdrawn.
    pub fn creator_failed(&mut self) -> (r: Option<u64>)
        ensures
            old(self)@.len() > 0 ==> r == Some(old(self)@.last()) && final(self)@ == old(self)@.drop_last(),
            old(self)@.len() == 0 ==> r is None && final(self)@ == old(self)@,
    {
        self.tickets.pop()
    }

    /// A worker is asked for under `ticket`; the request stays pending even when the host
    /// has no worker creator, which is then an error.
    pub fn create_worker(&mut self, ticket: u64, scheduler: &WorkerScheduler) -> (r: Result<(), String>)
        ensures
            final(self)@ == old(self)@.push(ticket),
            scheduler.creator_registered ==> r is Ok,
            !scheduler.creator_registered ==> (r matches Err(m) && m@ == "Worker creator not registered"@),
    {
        self.tickets.push(ticket);
        if scheduler.creator_registered {
            Ok(())
        } else {
            Err("Worker creator not registered".to_owned())
        }
    }

    /// The host reports a new worker: it answers the oldest pending request, whose ticket
    /// is returned; `None` when no request is pending.
    pub fn worker_created(&mut self, worker_id: u32) -> (r: Option<u64>)
        ensures
            old(self)@.len() > 0 ==> r == Some(old(self)@[0]) && final(self)@ == old(self)@.drop_first(),
            old(self)@.len() == 0 ==> r is None && final(self)@ == old(self)@,
    {
        if self.tickets.len() > 0 {
            let t = self.tickets.remove(0);
            assert(self.tickets@ =~= old(self)@.drop_first());
            Some(t)
        } else {
            None
        }
    }
}

/// Which host functions create and terminate workers have been registered; each can be
/// registered once.
#[derive(Clone, Copy, Debug, PartialEq, Eq, Structural)]
pub struct WorkerScheduler {
    pub creator_registered: bool,
    pub terminator_registered: bool,
}

impl WorkerScheduler {
    /// Nothing registered yet.
    pub fn new() -> (r: WorkerScheduler)
        ensures
            !r.creator_registered && !r.terminator_registered,
    {
        WorkerScheduler { creator_registered: false, terminator_registered: false }
    }

    /// Registers the host's worker creator, then its terminator; fails, registering
    /// nothing more, at the first that was registered before.
    pub fn register_worker_scheduler(&mut self) -> (r: Result<(), String>)
        ensures
            old(self).creator_registered ==> (r matches Err(m) && m@ == "Worker creator already registered"@ && *final(self) == *old(self)),
            !old(self).creator_registered && old(self).terminator_registered ==> (r matches Err(m)
                && m@ == "Worker terminator already registered"@ && final(self).creator_registered && final(self).terminator_registered),
            !old(self).creator_registered && !old(self).terminator_registered ==> (r is Ok && final(self).creator_registered
                && final(self).terminator_registered),
    {
        if self.creator_registered {
            return Err("Worker creator already registered".to_owned());
        }
        self.creator_registered = true;
        if self.terminator_registered {
            return Err("Worker terminator already registered".to_owned());
        }
        self.terminator_registered = true;
        Ok(())
    }
}

/// The tickets that `n` consecutive reports of new workers answer, when `pending` is
/// pending: one per report, oldest first, while any is pending.
pub open spec fn reports_answer(pending: Seq<u64>, n: nat) -> Seq<u64>
    decreases n,
{
    if n == 0 || pending.len() == 0 {
        Seq::empty()
    } else {
        seq![pending[0]] + reports_answer(pending.drop_first(), (n - 1) as nat)
    }
}

/// Requests are answered in the order they were made: as many reports as pending
/// requests answer exactly those requests, oldest first.
pub proof fn law_creations_answered_in_order(pending: Seq<u64>)
    ensures
        reports_answer(pending, pending.len()) == pending,
    decreases pending.len(),
{
    if pending.len() > 0 {
        law_creations_answered_in_order(pending.drop_first());
        assert(seq![pending[0]] + pending.drop_first() =~= pending);
    }
}

} // verus!

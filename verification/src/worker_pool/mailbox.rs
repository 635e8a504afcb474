//! Message queues keyed by a worker or task id; a key's queue is created on first use.
use vstd::prelude::*;
use vstd::hash_map::HashMapWithView;

verus! {

broadcast use vstd::std_specs::hash::group_hash_axioms;

/// The queue of `key` in `m`; empty when `key` has none.
pub open spec fn queue_of<T>(m: Map<u32, Seq<T>>, key: u32) -> Seq<T> {
    if m.contains_key(key) {
        m[key]
    } else {
        Seq::empty()
    }
}

/// One first-in first-out queue of messages per key.
#[verifier::reject_recursive_types(T)]
pub struct Mailboxes<T> {
    queues: HashMapWithView<u32, Vec<T>>,
}

impl<T> View for Mailboxes<T> {
    type V = Map<u32, Seq<T>>;

    closed spec fn view(&self) -> Map<u32, Seq<T>> {
        self.queues@.map_values(|q: Vec<T>| q@)
    }
}

impl<T> Mailboxes<T> {
    /// No queue at all.
    pub fn new() -> (r: Mailboxes<T>)
        ensures
            r@ == Map::<u32, Seq<T>>::empty(),
    {
        let r = Mailboxes { queues: HashMapWithView::new() };
        assert(r@ =~= Map::<u32, Seq<T>>::empty());
        r
    }

    /// Whether `key` has a queue.
    pub fn has_queue(&self, key: u32) -> (r: bool)
        ensures
            r == self@.contains_key(key),
    {
        self.queues.contains_key(&key)
    }

    /// Takes the queue of `key` out, or a new empty one.
    fn take_queue(&mut self, key: u32) -> (r: Vec<T>)
        ensures
            r@ == queue_of(old(self)@, key),
            final(self)@ == old(self)@.remove(key),
    {
        let q = match self.queues.remove(&key) {
            Some(q) => q,
            None => Vec::new(),
        };
        assert(final(self)@ =~= old(self)@.remove(key));
        q
    }

    /// Puts `q` back as the queue of `key`.
    fn put_queue(&mut self, key: u32, q: Vec<T>)
        ensures
            final(self)@ == old(self)@.insert(key, q@),
    {
        self.queues.insert(key, q);
        assert(final(self)@ =~= old(self)@.insert(key, q@));
    }

    /// Appends `message` to the queue of `key`, creating the queue if needed.
    pub fn send(&mut self, key: u32, message: T)
        ensures
            final(self)@ == old(self)@.insert(key, queue_of(old(self)@, key).push(message)),
    {
        let mut q = self.take_queue(key);
        q.push(message);
        self.put_queue(key, q);
        assert(final(self)@ =~= old(self)@.insert(key, queue_of(old(self)@, key).push(message)));
    }

    /// Takes the oldest message of the queue of `key`, creating the queue if needed;
    /// `None` when the queue is empty.
    pub fn recv(&mut self, key: u32) -> (r: Option<T>)
        ensures
            queue_of(old(self)@, key).len() > 0 ==> r == Some(queue_of(old(self)@, key)[0])
                && final(self)@ == old(self)@.insert(key, queue_of(old(self)@, key).drop_first()),
            queue_of(old(self)@, key).len() == 0 ==> r is None
                && final(self)@ == old(self)@.insert(key, Seq::empty()),
    {
        let mut q = self.take_queue(key);
        let r = if q.len() > 0 {
            Some(q.remove(0))
        } else {
            None
        };
        let ghost rest = q@;
        self.put_queue(key, q);
        proof {
            if queue_of(old(self)@, key).len() > 0 {
                assert(rest =~= queue_of(old(self)@, key).drop_first());
            } else {
                assert(rest =~= Seq::<T>::empty());
            }
            assert(final(self)@ =~= old(self)@.remove(key).insert(key, rest));
            assert(old(self)@.remove(key).insert(key, rest) =~= old(self)@.insert(key, rest));
        }
        r
    }

    /// Drops the queue of `key` with the messages in it.
    pub fn remove(&mut self, key: u32)
        ensures
            final(self)@ == old(self)@.remove(key),
    {
        let _ = self.take_queue(key);
    }
}

/// What one key sends, the same key receives, in the order it was sent, and no other
/// key's queue is touched.
pub proof fn law_send_then_recv<T>(m: Map<u32, Seq<T>>, key: u32, message: T, other: u32)
    requires
        other != key,
    ensures
        ({
            let sent = m.insert(key, queue_of(m, key).push(message));
            &&& queue_of(sent, key).last() == message
            &&& queue_of(sent, key).len() == queue_of(m, key).len() + 1
            &&& queue_of(sent, key)[0] == if queue_of(m, key).len() == 0 { message } else { queue_of(m, key)[0] }
            &&& queue_of(sent, other) == queue_of(m, other)
        }),
{
}

} // verus!

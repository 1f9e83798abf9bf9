//! Producers and consumers sharing a bounded queue.
//!
//! Two semaphores count the queued items and the free places. A producer
//! takes a free place, queues its item and announces it; a consumer takes an
//! announced item, dequeues it and frees its place. Each method is one step
//! taken under the lock that guards the buffer; the agreement between the
//! queue and the semaphores is a type invariant that every step keeps.
use vstd::prelude::*;
use crate::semaphore::Semaphore;

verus! {

/// The state of a bounded buffer, as values.
pub struct BufferState<T> {
    /// The queued items, oldest first.
    pub items: Seq<T>,
    /// Free permits of the semaphore that counts queued items.
    pub queued: nat,
    /// Free permits of the semaphore that counts free places.
    pub empty: nat,
    /// The number of places.
    pub capacity: nat,
}

/// The semaphores agree with the queue: one permit per queued item, one per
/// free place.
pub open spec fn buffer_accounted<T>(s: BufferState<T>) -> bool {
    &&& s.items.len() == s.queued
    &&& s.queued + s.empty == s.capacity
}

/// The fields of a bounded buffer.
struct BufferFields<T> {
    item_queue: std::collections::VecDeque<T>,
    queue_length: Semaphore,
    empty_number: Semaphore,
    capacity: usize,
}

impl<T> BufferFields<T> {
    spec fn state(&self) -> BufferState<T> {
        BufferState {
            items: self.item_queue@,
            queued: self.queue_length@,
            empty: self.empty_number@,
            capacity: self.capacity as nat,
        }
    }

    /// Fields of an empty buffer with `capacity` places.
    fn empty(capacity: usize) -> (f: BufferFields<T>)
        ensures
            f.state() == (BufferState {
                items: Seq::<T>::empty(),
                queued: 0,
                empty: capacity as nat,
                capacity: capacity as nat,
            }),
    {
        BufferFields {
            item_queue: std::collections::VecDeque::with_capacity(capacity),
            queue_length: Semaphore::new(0),
            empty_number: Semaphore::new(capacity),
            capacity,
        }
    }
}

/// A bounded queue with its two counting semaphores.
pub struct BoundedBuffer<T> {
    fields: BufferFields<T>,
}

impl<T> View for BoundedBuffer<T> {
    type V = BufferState<T>;

    closed spec fn view(&self) -> BufferState<T> {
        self.fields.state()
    }
}

impl<T> BoundedBuffer<T> {
    #[verifier::type_invariant]
    spec fn accounted(self) -> bool {
        buffer_accounted(self@)
    }

    /// An empty buffer with `capacity` places.
    pub fn new(capacity: usize) -> (b: BoundedBuffer<T>)
        ensures
            b@.items == Seq::<T>::empty(),
            b@.queued == 0,
            b@.empty == capacity,
            b@.capacity == capacity,
            buffer_accounted(b@),
    {
        BoundedBuffer { fields: BufferFields::empty(capacity) }
    }

    /// Whether a producer starts producing at all: it does unless the two
    /// semaphores hold the same number of permits.
    pub fn producer_may_start(&self) -> (start: bool)
        ensures
            start == (self@.queued != self@.empty),
            buffer_accounted(self@),
    {
        proof {
            use_type_invariant(self);
        }
        self.fields.queue_length.get_value() != self.fields.empty_number.get_value()
    }

    /// A producer tries to queue `item`: when a place is free it takes it,
    /// queues the item last and announces it. Otherwise the item comes back
    /// and the producer waits for a free place.
    pub fn produce(&mut self, item: T) -> (rejected: Option<T>)
        ensures
            buffer_accounted(final(self)@),
            final(self)@.capacity == old(self)@.capacity,
            rejected is None <==> old(self)@.empty > 0,
            rejected is None ==> final(self)@.items == old(self)@.items.push(item),
            rejected is Some ==> final(self)@ == old(self)@ && rejected->0 == item,
    {
        proof {
            use_type_invariant(&*self);
        }
        let mut f = BufferFields::empty(0);
        std::mem::swap(&mut f, &mut self.fields);
        let rejected = if f.empty_number.acquire() {
            f.item_queue.push_back(item);
            f.queue_length.release();
            None
        } else {
            Some(item)
        };
        self.fields = f;
        rejected
    }

    /// Whether a consumer goes on: while producers run, or while items are
    /// announced.
    pub fn consumer_continues(&self, is_running: bool) -> (go_on: bool)
        ensures
            go_on == (is_running || self@.queued > 0),
            buffer_accounted(self@),
    {
        proof {
            use_type_invariant(self);
        }
        is_running || self.fields.queue_length.get_value() > 0
    }

    /// A consumer, once its wait for an announced item is over, takes the
    /// oldest item if one is announced and frees its place. `lock_ok` tells
    /// whether the wait gave the lock back intact.
    pub fn consume(&mut self, lock_ok: bool) -> (item: Option<T>)
        ensures
            buffer_accounted(final(self)@),
            final(self)@.capacity == old(self)@.capacity,
            item is Some <==> (lock_ok && old(self)@.queued > 0),
            item is Some ==> item->0 == old(self)@.items[0] && final(self)@.items
                == old(self)@.items.drop_first(),
            item is None ==> final(self)@ == old(self)@,
    {
        proof {
            use_type_invariant(&*self);
        }
        let mut f = BufferFields::empty(0);
        std::mem::swap(&mut f, &mut self.fields);
        let item = if f.queue_length.acquire_timeout(lock_ok) {
            let item = f.item_queue.pop_front();
            f.empty_number.release();
            proof {
                assert(item is Some);
                assert(f.item_queue@ =~= old(self)@.items.drop_first());
            }
            item
        } else {
            None
        };
        self.fields = f;
        item
    }
}

/// A buffer whose semaphores agree with its queue never holds more items than
/// it has places.
pub proof fn lemma_buffer_bounded<T>(s: BufferState<T>)
    requires
        buffer_accounted(s),
    ensures
        s.items.len() <= s.capacity,
{
}

} // verus!

//! The sleeping barber.
//!
//! Customers who find a free chair sit down in arrival order and wake the
//! barber; the rest walk away. The barber takes the customer who has waited
//! longest, cuts, and signals that the cut is done. Each method is one step
//! taken under the lock that guards the shop; the agreement between the queue
//! and the announcements is a type invariant that every step keeps.
use vstd::prelude::*;
use crate::semaphore::Semaphore;

verus! {

/// The state of the shop, as values.
pub struct ShopState {
    /// The seated customers, in the order they sat down.
    pub queue: Seq<usize>,
    /// The number of chairs in the waiting room.
    pub chairs: nat,
    /// Free permits of the semaphore that announces seated customers.
    pub customers_ready: nat,
    /// Free permits of the semaphore that announces finished cuts.
    pub barber_ready: nat,
}

/// One announcement per seated customer, and no more customers than chairs.
pub open spec fn shop_accounted(s: ShopState) -> bool {
    &&& s.queue.len() == s.customers_ready
    &&& s.queue.len() <= s.chairs
}

/// The fields of a barber shop.
struct ShopFields {
    customer_queue: std::collections::VecDeque<usize>,
    chairs: usize,
    customer_ready: Semaphore,
    barber_ready: Semaphore,
}

impl ShopFields {
    spec fn state(&self) -> ShopState {
        ShopState {
            queue: self.customer_queue@,
            chairs: self.chairs as nat,
            customers_ready: self.customer_ready@,
            barber_ready: self.barber_ready@,
        }
    }

    /// Fields of an empty shop with `chairs` chairs.
    fn empty(chairs: usize) -> (f: ShopFields)
        ensures
            f.state() == (ShopState {
                queue: Seq::empty(),
                chairs: chairs as nat,
                customers_ready: 0,
                barber_ready: 0,
            }),
    {
        ShopFields {
            customer_queue: std::collections::VecDeque::with_capacity(chairs),
            chairs,
            customer_ready: Semaphore::new(0),
            barber_ready: Semaphore::new(0),
        }
    }
}

/// The waiting room and the two semaphores of a barber shop.
pub struct BarberShop {
    fields: ShopFields,
}

impl View for BarberShop {
    type V = ShopState;

    closed spec fn view(&self) -> ShopState {
        self.fields.state()
    }
}

impl BarberShop {
    #[verifier::type_invariant]
    spec fn accounted(self) -> bool {
        shop_accounted(self@)
    }

    /// An empty shop with `chairs` chairs in the waiting room.
    pub fn new(chairs: usize) -> (shop: BarberShop)
        ensures
            shop@ == (ShopState {
                queue: Seq::empty(),
                chairs: chairs as nat,
                customers_ready: 0,
                barber_ready: 0,
            }),
            shop_accounted(shop@),
    {
        BarberShop { fields: ShopFields::empty(chairs) }
    }

    /// Customer `index` arrives: it sits down last in the queue and wakes the
    /// barber when a chair is free, and walks away otherwise. Returns whether
    /// it sat down.
    pub fn customer_sits(&mut self, index: usize) -> (sat: bool)
        ensures
            shop_accounted(final(self)@),
            sat == (old(self)@.queue.len() < old(self)@.chairs),
            sat ==> final(self)@ == (ShopState {
                queue: old(self)@.queue.push(index),
                customers_ready: old(self)@.customers_ready + 1,
                ..old(self)@
            }),
            !sat ==> final(self)@ == old(self)@,
    {
        proof {
            use_type_invariant(&*self);
        }
        let mut f = ShopFields::empty(0);
        std::mem::swap(&mut f, &mut self.fields);
        let sat = if f.chairs > f.customer_queue.len() {
            f.customer_queue.push_back(index);
            f.customer_ready.release();
            true
        } else {
            false
        };
        self.fields = f;
        sat
    }

    /// A seated customer, once its wait for the barber is over, takes the
    /// signal of a finished cut if there is one. `lock_ok` tells whether the
    /// wait gave the lock back intact.
    pub fn customer_served(&mut self, lock_ok: bool) -> (served: bool)
        ensures
            shop_accounted(final(self)@),
            served == (lock_ok && old(self)@.barber_ready > 0),
            final(self)@ == (ShopState {
                barber_ready: if served { (old(self)@.barber_ready - 1) as nat } else {
                    old(self)@.barber_ready
                },
                ..old(self)@
            }),
    {
        proof {
            use_type_invariant(&*self);
        }
        let mut f = ShopFields::empty(0);
        std::mem::swap(&mut f, &mut self.fields);
        let served = f.barber_ready.acquire_timeout(lock_ok);
        self.fields = f;
        served
    }

    /// Whether the barber goes on working: while customers keep coming, or
    /// while someone is seated.
    pub fn barber_continues(&self, is_running: bool) -> (go_on: bool)
        ensures
            go_on == (is_running || self@.queue.len() > 0),
            shop_accounted(self@),
    {
        proof {
            use_type_invariant(self);
        }
        is_running || self.fields.customer_queue.len() > 0
    }

    /// The barber, once his wait for a customer is over, takes the customer
    /// who sat down first, if anyone is announced. `lock_ok` tells whether
    /// the wait gave the lock back intact.
    pub fn barber_next(&mut self, lock_ok: bool) -> (customer: Option<usize>)
        ensures
            shop_accounted(final(self)@),
            customer is Some <==> (lock_ok && old(self)@.queue.len() > 0),
            customer is Some ==> customer->0 == old(self)@.queue[0] && final(self)@ == (ShopState {
                queue: old(self)@.queue.drop_first(),
                customers_ready: (old(self)@.customers_ready - 1) as nat,
                ..old(self)@
            }),
            customer is None ==> final(self)@ == old(self)@,
    {
        proof {
            use_type_invariant(&*self);
        }
        let mut f = ShopFields::empty(0);
        std::mem::swap(&mut f, &mut self.fields);
        let customer = if f.customer_ready.acquire_timeout(lock_ok) {
            let customer = f.customer_queue.pop_front();
            proof {
                assert(customer is Some);
                assert(f.customer_queue@ =~= old(self)@.queue.drop_first());
            }
            customer
        } else {
            None
        };
        self.fields = f;
        customer
    }

    /// The barber signals that a cut is done.
    pub fn haircut_done(&mut self)
        requires
            old(self)@.barber_ready < usize::MAX,
        ensures
            shop_accounted(final(self)@),
            final(self)@ == (ShopState { barber_ready: old(self)@.barber_ready + 1, ..old(self)@ }),
    {
        proof {
            use_type_invariant(&*self);
        }
        let mut f = ShopFields::empty(0);
        std::mem::swap(&mut f, &mut self.fields);
        f.barber_ready.release();
        self.fields = f;
    }

    /// The number of finished cuts whose customers have not taken the signal
    /// yet.
    pub fn haircuts_waiting(&self) -> (count: usize)
        ensures
            count == self@.barber_ready,
    {
        self.fields.barber_ready.get_value()
    }
}

/// A shop whose announcements agree with its queue never seats more
/// customers than it has chairs, and the barber finds a seated customer
/// whenever one is announced.
pub proof fn lemma_shop_bounded(s: ShopState)
    requires
        shop_accounted(s),
    ensures
        s.queue.len() <= s.chairs,
        s.customers_ready > 0 ==> s.queue.len() > 0,
{
}

} // verus!

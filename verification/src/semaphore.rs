//! A counting semaphore.
//!
//! The semaphore holds a number of permits. Taking a permit succeeds only when
//! one is available; a caller that finds none waits (outside this module, on a
//! condition variable) and asks again. Giving a permit back adds one.
use vstd::prelude::*;

verus! {

/// A counting semaphore: the number of permits that are currently free.
pub struct Semaphore {
    count: usize,
}

/// The count after one permit is given back.
pub open spec fn released(count: nat) -> nat {
    count + 1
}

/// Whether a permit can be taken from `count` free permits.
pub open spec fn can_take(count: nat) -> bool {
    count > 0
}

/// The count after an attempt to take a permit: one less when one was free,
/// unchanged otherwise.
pub open spec fn after_take(count: nat) -> nat {
    if count > 0 { (count - 1) as nat } else { count }
}

impl View for Semaphore {
    type V = nat;

    closed spec fn view(&self) -> nat {
        self.count as nat
    }
}

impl Semaphore {
    /// A semaphore with `count` free permits.
    pub fn new(count: usize) -> (s: Semaphore)
        ensures
            s@ == count,
    {
        Semaphore { count }
    }

    /// Tries to take a permit. Returns `true` and removes one permit when one
    /// is free; returns `false` and changes nothing when none is, in which
    /// case the caller must wait for a release and ask again.
    pub fn acquire(&mut self) -> (taken: bool)
        ensures
            taken == can_take(old(self)@),
            final(self)@ == after_take(old(self)@),
            taken <==> old(self)@ > 0,
            taken ==> final(self)@ + 1 == old(self)@,
            !taken ==> final(self)@ == old(self)@,
    {
        if self.count == 0 {
            false
        } else {
            self.count = self.count - 1;
            true
        }
    }

    /// Decides a timed acquisition once the wait for a release is over.
    /// `lock_ok` tells whether the wait gave the lock back intact (a
    /// poisoned lock gives up). A permit is taken, and `true` returned, only
    /// when the lock is intact and a permit is free; a wait that merely timed
    /// out still takes a permit that happens to be free.
    pub fn acquire_timeout(&mut self, lock_ok: bool) -> (taken: bool)
        ensures
            taken == (lock_ok && can_take(old(self)@)),
            final(self)@ == (if lock_ok { after_take(old(self)@) } else { old(self)@ }),
            taken <==> (lock_ok && old(self)@ > 0),
            taken ==> final(self)@ + 1 == old(self)@,
            !taken ==> final(self)@ == old(self)@,
    {
        if lock_ok {
            if self.count > 0 {
                self.count = self.count - 1;
                true
            } else {
                false
            }
        } else {
            false
        }
    }

    /// Gives a permit back.
    pub fn release(&mut self)
        requires
            old(self)@ < usize::MAX,
        ensures
            final(self)@ == released(old(self)@),
            final(self)@ == old(self)@ + 1,
    {
        self.count = self.count + 1;
    }

    /// The number of free permits.
    pub fn get_value(&self) -> (count: usize)
        ensures
            count == self@,
    {
        self.count
    }
}

/// One operation on a semaphore, for stating what a run of them does.
pub enum PermitOp {
    /// An attempt to take a permit (`acquire`).
    Take,
    /// A permit given back (`release`).
    Give,
}

/// The count after one operation.
pub open spec fn step(count: nat, op: PermitOp) -> nat {
    match op {
        PermitOp::Take => after_take(count),
        PermitOp::Give => released(count),
    }
}

/// The count after a run of operations from `count` free permits.
pub open spec fn run(count: nat, ops: Seq<PermitOp>) -> nat
    decreases ops.len(),
{
    if ops.len() == 0 {
        count
    } else {
        step(run(count, ops.drop_last()), ops.last())
    }
}

/// How many of the attempts to take a permit in a run succeeded.
pub open spec fn taken(count: nat, ops: Seq<PermitOp>) -> nat
    decreases ops.len(),
{
    if ops.len() == 0 {
        0
    } else {
        let before = run(count, ops.drop_last());
        taken(count, ops.drop_last()) + match ops.last() {
            PermitOp::Take => if can_take(before) { 1nat } else { 0nat },
            PermitOp::Give => 0nat,
        }
    }
}

/// How many permits a run gives back.
pub open spec fn given(ops: Seq<PermitOp>) -> nat
    decreases ops.len(),
{
    if ops.len() == 0 {
        0
    } else {
        given(ops.drop_last()) + match ops.last() {
            PermitOp::Take => 0nat,
            PermitOp::Give => 1nat,
        }
    }
}

/// Taking a permit right after one was given back always succeeds and leaves
/// the semaphore as it was before the release.
pub proof fn lemma_acquire_undoes_release(count: nat)
    ensures
        can_take(released(count)),
        after_take(released(count)) == count,
{
}

/// Permits are neither created nor lost: after any run of operations, the free
/// permits plus the permits taken equal the initial permits plus the permits
/// given back.
pub proof fn lemma_permits_conserved(count: nat, ops: Seq<PermitOp>)
    ensures
        run(count, ops) + taken(count, ops) == count + given(ops),
    decreases ops.len(),
{
    if ops.len() > 0 {
        lemma_permits_conserved(count, ops.drop_last());
    }
}

/// A semaphore of one permit, used as a lock: as long as permits are given
/// back only after they were taken, it never holds more than one permit, and
/// at most one taker holds a permit at a time.
pub proof fn lemma_one_permit_one_holder(ops: Seq<PermitOp>)
    requires
        given(ops) <= taken(1, ops),
    ensures
        run(1, ops) <= 1,
        taken(1, ops) - given(ops) <= 1,
        taken(1, ops) - given(ops) == 1 - run(1, ops),
{
    lemma_permits_conserved(1, ops);
}

} // verus!

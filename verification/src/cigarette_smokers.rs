//! The cigarette smokers.
//!
//! Three smokers each own one of three resources (tobacco, paper, matches) and
//! need the other two. An agent repeatedly puts two different resources on
//! the table; the smoker who owns the third should take both, smoke, and call
//! the agent again. A smoker takes its first missing resource, then tries the
//! second without waiting and puts the first back when it cannot have it, so
//! two smokers never hold one resource each forever.
//!
//! Resource `k` is owned by smoker `k`; each method is one step taken under
//! the lock that guards the table, and every step keeps the table within one
//! round of the agent (a type invariant).
use vstd::prelude::*;
use crate::semaphore::Semaphore;

verus! {

/// The resource that smoker `k` takes first.
pub open spec fn first_need(k: int) -> int {
    (k + 1) % 3
}

/// The resource that smoker `k` takes second.
pub open spec fn second_need(k: int) -> int {
    (k + 2) % 3
}

/// The two resources that the agent provides for a random `choice`.
pub open spec fn provided(choice: int) -> (int, int) {
    (choice % 3, (choice + 1) % 3)
}

/// The state of the table, as values.
pub struct TableState {
    /// Free permits of the agent's semaphore.
    pub agent_free: nat,
    /// Whether the agent has been called and is about to provide.
    pub providing: bool,
    /// Free permits of each resource's semaphore.
    pub free: Seq<nat>,
    /// Whether each smoker holds its first missing resource.
    pub holding: Seq<bool>,
    /// How many times the agent has been called.
    pub rounds: nat,
    /// How many times a smoker has smoked.
    pub smokes: nat,
}

/// The units of resource `r` in play: on the table, or in the hand of the
/// smoker whose first missing resource it is (smoker `(r + 2) % 3`).
pub open spec fn units(s: TableState, r: int) -> nat {
    s.free[r] + (if s.holding[(r + 2) % 3] { 1nat } else { 0nat })
}

/// At any time exactly one round is under way: the agent is free to be
/// called, or about to provide, or the two different resources of its last
/// round are on the table or in smokers' hands, one unit each. The agent has
/// been called once more than smokers have smoked, unless it is free to be
/// called again.
pub open spec fn one_round(s: TableState) -> bool {
    &&& s.free.len() == 3
    &&& s.holding.len() == 3
    &&& units(s, 0) <= 1
    &&& units(s, 1) <= 1
    &&& units(s, 2) <= 1
    &&& 2 * (s.agent_free + (if s.providing { 1nat } else { 0nat })) + units(s, 0) + units(s, 1)
        + units(s, 2) == 2
    &&& s.agent_free + s.rounds == 1 + s.smokes
}

/// One round at a time means: at most one call of the agent pending, at most
/// one unit of each resource on the table, and the agent called at least as
/// often as smokers smoked and at most once more.
pub proof fn lemma_one_round_bounds(s: TableState)
    requires
        one_round(s),
    ensures
        s.agent_free <= 1,
        s.free[0] <= 1 && s.free[1] <= 1 && s.free[2] <= 1,
        s.smokes <= s.rounds <= s.smokes + 1,
{
}

/// The table after smoker `k` took its first missing resource.
pub open spec fn after_take_first(s: TableState, k: int) -> TableState {
    TableState {
        free: s.free.update(first_need(k), (s.free[first_need(k)] - 1) as nat),
        holding: s.holding.update(k, true),
        ..s
    }
}

/// The table after smoker `k`, holding its first missing resource, tried the
/// second: with it (`smokes`) the second is used up, the first leaves the
/// smoker's hand used up too and the agent is called again; without it the
/// first goes back on the table.
pub open spec fn after_smoker(s: TableState, k: int, smokes: bool) -> TableState {
    if smokes {
        TableState {
            agent_free: s.agent_free + 1,
            free: s.free.update(second_need(k), (s.free[second_need(k)] - 1) as nat),
            holding: s.holding.update(k, false),
            smokes: s.smokes + 1,
            ..s
        }
    } else {
        TableState {
            free: s.free.update(first_need(k), s.free[first_need(k)] + 1),
            holding: s.holding.update(k, false),
            ..s
        }
    }
}

/// One iteration of a smoker that holds nothing and finds its first missing
/// resource on the table: it never keeps the first while waiting for the
/// second. With the second, both resources are used up, the agent is called
/// again and one more smoke is counted; without it, the table is left exactly
/// as the smoker found it. Either way the smoker ends holding nothing.
pub proof fn lemma_smoker_iteration(s: TableState, k: int)
    requires
        one_round(s),
        0 <= k < 3,
        !s.holding[k],
        s.free[first_need(k)] > 0,
    ensures
        after_smoker(after_take_first(s, k), k, false) == s,
        after_smoker(after_take_first(s, k), k, true) == (TableState {
            agent_free: s.agent_free + 1,
            free: s.free.update(first_need(k), (s.free[first_need(k)] - 1) as nat).update(
                second_need(k),
                (s.free[second_need(k)] - 1) as nat,
            ),
            smokes: s.smokes + 1,
            ..s
        }),
        !after_smoker(after_take_first(s, k), k, true).holding[k],
        !after_smoker(after_take_first(s, k), k, false).holding[k],
{
    let t = after_take_first(s, k);
    assert(first_need(k) != second_need(k));
    assert(t.holding.update(k, false) =~= s.holding);
    assert(t.free.update(first_need(k), t.free[first_need(k)] + 1) =~= s.free);
}

/// The fields of a table.
struct TableFields {
    agent_sem: Semaphore,
    res0: Semaphore,
    res1: Semaphore,
    res2: Semaphore,
    holding0: bool,
    holding1: bool,
    holding2: bool,
    providing: bool,
    rounds: Ghost<nat>,
    smokes: Ghost<nat>,
}

impl TableFields {
    spec fn state(&self) -> TableState {
        TableState {
            agent_free: self.agent_sem@,
            providing: self.providing,
            free: seq![self.res0@, self.res1@, self.res2@],
            holding: seq![self.holding0, self.holding1, self.holding2],
            rounds: self.rounds@,
            smokes: self.smokes@,
        }
    }

    /// Fields of a table with the agent ready to be called and nothing on it.
    fn fresh() -> (f: TableFields)
        ensures
            f.state() == (TableState {
                agent_free: 1,
                providing: false,
                free: seq![0nat, 0nat, 0nat],
                holding: seq![false, false, false],
                rounds: 0,
                smokes: 0,
            }),
    {
        TableFields {
            agent_sem: Semaphore::new(1),
            res0: Semaphore::new(0),
            res1: Semaphore::new(0),
            res2: Semaphore::new(0),
            holding0: false,
            holding1: false,
            holding2: false,
            providing: false,
            rounds: Ghost(0),
            smokes: Ghost(0),
        }
    }

    /// Puts one unit of resource `r` on the table.
    fn release_resource(&mut self, r: usize)
        requires
            r < 3,
            old(self).state().free[r as int] < usize::MAX,
        ensures
            final(self).state() == (TableState {
                free: old(self).state().free.update(r as int, old(self).state().free[r as int] + 1),
                ..old(self).state()
            }),
    {
        if r == 0 {
            self.res0.release();
        } else if r == 1 {
            self.res1.release();
        } else {
            self.res2.release();
        }
        proof {
            assert(self.state().free =~= old(self).state().free.update(
                r as int,
                old(self).state().free[r as int] + 1,
            ));
        }
    }

    /// Takes one unit of resource `r` when one is on the table and the lock
    /// is intact.
    fn take_resource(&mut self, r: usize, lock_ok: bool) -> (taken: bool)
        requires
            r < 3,
        ensures
            taken == (lock_ok && old(self).state().free[r as int] > 0),
            final(self).state() == (TableState {
                free: if taken {
                    old(self).state().free.update(r as int, (old(self).state().free[r as int] - 1) as nat)
                } else {
                    old(self).state().free
                },
                ..old(self).state()
            }),
    {
        let taken = if r == 0 {
            self.res0.acquire_timeout(lock_ok)
        } else if r == 1 {
            self.res1.acquire_timeout(lock_ok)
        } else {
            self.res2.acquire_timeout(lock_ok)
        };
        proof {
            if taken {
                assert(self.state().free =~= old(self).state().free.update(
                    r as int,
                    (old(self).state().free[r as int] - 1) as nat,
                ));
            } else {
                assert(self.state().free =~= old(self).state().free);
            }
        }
        taken
    }

    /// Records whether smoker `k` holds its first missing resource.
    fn set_holding(&mut self, k: usize, value: bool)
        requires
            k < 3,
        ensures
            final(self).state() == (TableState {
                holding: old(self).state().holding.update(k as int, value),
                ..old(self).state()
            }),
    {
        if k == 0 {
            self.holding0 = value;
        } else if k == 1 {
            self.holding1 = value;
        } else {
            self.holding2 = value;
        }
        proof {
            assert(self.state().holding =~= old(self).state().holding.update(k as int, value));
        }
    }
}

/// A table with an agent, three resources and three smokers.
pub struct SmokersTable {
    fields: TableFields,
}

impl View for SmokersTable {
    type V = TableState;

    closed spec fn view(&self) -> TableState {
        self.fields.state()
    }
}

impl SmokersTable {
    #[verifier::type_invariant]
    spec fn in_one_round(self) -> bool {
        one_round(self@)
    }

    /// A table with the agent ready to be called and nothing on it.
    pub fn new() -> (t: SmokersTable)
        ensures
            t@ == (TableState {
                agent_free: 1,
                providing: false,
                free: seq![0nat, 0nat, 0nat],
                holding: seq![false, false, false],
                rounds: 0,
                smokes: 0,
            }),
            one_round(t@),
    {
        SmokersTable { fields: TableFields::fresh() }
    }

    /// The agent, once its wait for a call is over, takes the call if there
    /// is one. `lock_ok` tells whether the wait gave the lock back intact.
    pub fn agent_called(&mut self, lock_ok: bool) -> (called: bool)
        requires
            !old(self)@.providing,
        ensures
            one_round(final(self)@),
            called == (lock_ok && old(self)@.agent_free > 0),
            called ==> final(self)@ == (TableState {
                agent_free: (old(self)@.agent_free - 1) as nat,
                providing: true,
                rounds: old(self)@.rounds + 1,
                ..old(self)@
            }),
            !called ==> final(self)@ == old(self)@,
    {
        proof {
            use_type_invariant(&*self);
        }
        let mut f = TableFields::fresh();
        std::mem::swap(&mut f, &mut self.fields);
        let called = f.agent_sem.acquire_timeout(lock_ok);
        if called {
            f.providing = true;
            f.rounds = Ghost(f.rounds@ + 1);
        }
        proof {
            assert(f.state().free =~= old(self)@.free);
            assert(f.state().holding =~= old(self)@.holding);
        }
        self.fields = f;
        called
    }

    /// The agent, once called, puts two resources on the table as the random
    /// `choice` says: resources `choice % 3` and `(choice + 1) % 3`, returned
    /// in that order.
    pub fn agent_provide(&mut self, choice: u64) -> (pair: (usize, usize))
        requires
            old(self)@.providing,
        ensures
            one_round(final(self)@),
            pair.0 == provided(choice as int).0,
            pair.1 == provided(choice as int).1,
            pair.0 == choice % 3,
            pair.1 == (choice + 1) % 3,
            final(self)@ == (TableState {
                providing: false,
                free: old(self)@.free.update(pair.0 as int, old(self)@.free[pair.0 as int] + 1).update(
                    pair.1 as int,
                    old(self)@.free[pair.1 as int] + 1,
                ),
                ..old(self)@
            }),
    {
        proof {
            use_type_invariant(&*self);
        }
        let first: usize = (choice % 3) as usize;
        let second: usize = ((choice % 3 + 1) % 3) as usize;
        proof {
            assert((choice as int + 1) % 3 == ((choice as int % 3) + 1) % 3) by {
                vstd::arithmetic::div_mod::lemma_add_mod_noop(choice as int, 1, 3);
            }
        }
        let mut f = TableFields::fresh();
        std::mem::swap(&mut f, &mut self.fields);
        f.providing = false;
        f.release_resource(first);
        f.release_resource(second);
        self.fields = f;
        (first, second)
    }

    /// Smoker `k`, once its wait is over, takes its first missing resource if
    /// it is on the table. `lock_ok` tells whether the wait gave the lock back
    /// intact.
    pub fn smoker_take_first(&mut self, k: usize, lock_ok: bool) -> (taken: bool)
        requires
            k < 3,
            !old(self)@.holding[k as int],
        ensures
            one_round(final(self)@),
            taken == (lock_ok && old(self)@.free[first_need(k as int)] > 0),
            taken ==> final(self)@ == after_take_first(old(self)@, k as int),
            taken ==> final(self)@.free == old(self)@.free.update(
                (k + 1) % 3,
                (old(self)@.free[(k + 1) % 3] - 1) as nat,
            ) && final(self)@.holding[k as int] && final(self)@.agent_free == old(self)@.agent_free,
            !taken ==> final(self)@ == old(self)@,
    {
        proof {
            use_type_invariant(&*self);
        }
        let first: usize = (k + 1) % 3;
        let mut f = TableFields::fresh();
        std::mem::swap(&mut f, &mut self.fields);
        let taken = f.take_resource(first, lock_ok);
        if taken {
            f.set_holding(k, true);
        }
        self.fields = f;
        taken
    }

    /// Smoker `k`, holding its first missing resource, tries the second
    /// without waiting. With both, it calls the agent again and smokes; the
    /// two resources are used up. Without the second, it puts the first back.
    /// Returns whether it smokes. `lock_ok` tells whether the lock was intact.
    pub fn smoker(&mut self, k: usize, lock_ok: bool) -> (smokes: bool)
        requires
            k < 3,
            old(self)@.holding[k as int],
        ensures
            one_round(final(self)@),
            smokes == (lock_ok && old(self)@.free[second_need(k as int)] > 0),
            final(self)@ == after_smoker(old(self)@, k as int, smokes),
            smokes == (lock_ok && old(self)@.free[(k + 2) % 3] > 0),
            !final(self)@.holding[k as int],
            final(self)@.providing == old(self)@.providing,
            final(self)@.rounds == old(self)@.rounds,
            smokes ==> final(self)@.agent_free == old(self)@.agent_free + 1 && final(self)@.free
                == old(self)@.free.update((k + 2) % 3, (old(self)@.free[(k + 2) % 3] - 1) as nat)
                && final(self)@.smokes == old(self)@.smokes + 1,
            !smokes ==> final(self)@.agent_free == old(self)@.agent_free && final(self)@.free
                == old(self)@.free.update((k + 1) % 3, old(self)@.free[(k + 1) % 3] + 1)
                && final(self)@.smokes == old(self)@.smokes,
    {
        proof {
            use_type_invariant(&*self);
        }
        let first: usize = (k + 1) % 3;
        let second: usize = (k + 2) % 3;
        let mut f = TableFields::fresh();
        std::mem::swap(&mut f, &mut self.fields);
        let smokes = f.take_resource(second, lock_ok);
        f.set_holding(k, false);
        if smokes {
            f.agent_sem.release();
            f.smokes = Ghost(f.smokes@ + 1);
        } else {
            f.release_resource(first);
        }
        self.fields = f;
        smokes
    }
}

/// For every choice of the agent, the two resources differ, and smoker
/// `(choice + 2) % 3` is the one smoker who needs exactly those two.
pub proof fn lemma_provided_matches_one_smoker(choice: int, k: int)
    requires
        choice >= 0,
        0 <= k < 3,
    ensures
        provided(choice).0 != provided(choice).1,
        (first_need(k) == provided(choice).0 && second_need(k) == provided(choice).1)
            || (first_need(k) == provided(choice).1 && second_need(k) == provided(choice).0)
            <==> k == (choice + 2) % 3,
{
    let c = choice % 3;
    assert((choice + 1) % 3 == (c + 1) % 3) by {
        vstd::arithmetic::div_mod::lemma_add_mod_noop(choice, 1, 3);
        vstd::arithmetic::div_mod::lemma_small_mod(1, 3);
    }
    assert((choice + 2) % 3 == (c + 2) % 3) by {
        vstd::arithmetic::div_mod::lemma_add_mod_noop(choice, 2, 3);
        vstd::arithmetic::div_mod::lemma_small_mod(2, 3);
    }
}

} // verus!

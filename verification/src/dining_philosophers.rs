//! The dining philosophers, with Dijkstra's solution: a philosopher eats only
//! when neither neighbour eats, and each philosopher has a semaphore that is
//! released when it may start eating.
//!
//! The functions here are the steps taken while holding the lock on the
//! table's states; waiting on a philosopher's semaphore, thinking and eating
//! happen around them.
use vstd::prelude::*;
use crate::semaphore::Semaphore;

verus! {

/// What a philosopher is doing.
#[derive(PartialEq, Eq, Structural, Clone, Copy, Debug)]
pub enum PhilosopherState {
    Thinking,
    Hungry,
    Eating,
}

/// The seat to the left of `index` at a table of `n`.
pub open spec fn left_of(index: int, n: int) -> int {
    (index + n - 1) % n
}

/// The seat to the right of `index` at a table of `n`.
pub open spec fn right_of(index: int, n: int) -> int {
    (index + 1) % n
}

/// The free permits of each philosopher's semaphore.
pub open spec fn permits(forks: Seq<Semaphore>) -> Seq<nat> {
    forks.map_values(|s: Semaphore| s@)
}

/// Philosopher `i` does not eat together with a neighbour.
pub open spec fn apart_at(states: Seq<PhilosopherState>, i: int) -> bool {
    let n = states.len() as int;
    states[i] == PhilosopherState::Eating ==> {
        &&& (left_of(i, n) == i || states[left_of(i, n)] != PhilosopherState::Eating)
        &&& (right_of(i, n) == i || states[right_of(i, n)] != PhilosopherState::Eating)
    }
}

/// No two philosophers that sit next to each other eat at the same time.
pub open spec fn neighbours_apart(states: Seq<PhilosopherState>) -> bool {
    forall|i: int| 0 <= i < states.len() ==> #[trigger] apart_at(states, i)
}

/// Whether philosopher `index` may start eating: it is hungry and neither
/// neighbour eats.
pub open spec fn may_eat(states: Seq<PhilosopherState>, index: int) -> bool {
    let n = states.len() as int;
    &&& states[index] == PhilosopherState::Hungry
    &&& states[left_of(index, n)] != PhilosopherState::Eating
    &&& states[right_of(index, n)] != PhilosopherState::Eating
}

/// The states after `update_state(index, ..)`.
pub open spec fn updated(states: Seq<PhilosopherState>, index: int) -> Seq<PhilosopherState> {
    if may_eat(states, index) {
        states.update(index, PhilosopherState::Eating)
    } else {
        states
    }
}

/// The permits after `update_state(index, ..)`: one more for `index` when it
/// starts eating.
pub open spec fn updated_permits(
    states: Seq<PhilosopherState>,
    permits: Seq<nat>,
    index: int,
) -> Seq<nat> {
    if may_eat(states, index) {
        permits.update(index, permits[index] + 1)
    } else {
        permits
    }
}

/// The states after `take_forks(index, ..)`.
pub open spec fn after_take(states: Seq<PhilosopherState>, index: int) -> Seq<PhilosopherState> {
    updated(states.update(index, PhilosopherState::Hungry), index)
}

/// The states after `put_forks(index, ..)`.
pub open spec fn after_put(states: Seq<PhilosopherState>, index: int) -> Seq<PhilosopherState> {
    let n = states.len() as int;
    let thinking = states.update(index, PhilosopherState::Thinking);
    updated(updated(thinking, left_of(index, n)), right_of(index, n))
}

/// The permits after `take_forks(index, ..)`.
pub open spec fn take_permits(
    states: Seq<PhilosopherState>,
    permits: Seq<nat>,
    index: int,
) -> Seq<nat> {
    updated_permits(states.update(index, PhilosopherState::Hungry), permits, index)
}

/// The permits after `put_forks(index, ..)`: one more for each neighbour
/// that starts eating, the left one considered first.
pub open spec fn put_permits(
    states: Seq<PhilosopherState>,
    permits: Seq<nat>,
    index: int,
) -> Seq<nat> {
    let n = states.len() as int;
    let thinking = states.update(index, PhilosopherState::Thinking);
    let l = left_of(index, n);
    updated_permits(updated(thinking, l), updated_permits(thinking, permits, l), right_of(index, n))
}

/// On a table of `n`, the left and right seats of a seat are seats, and they
/// are each other's inverse: the seat to the right of the left seat, and the
/// seat to the left of the right seat, is the seat itself.
pub proof fn lemma_seats(index: int, n: int)
    requires
        0 <= index < n,
    ensures
        left_of(index, n) == (if index == 0 { n - 1 } else { index - 1 }),
        right_of(index, n) == (if index == n - 1 { 0 } else { index + 1 }),
        0 <= left_of(index, n) < n,
        0 <= right_of(index, n) < n,
        right_of(left_of(index, n), n) == index,
        left_of(right_of(index, n), n) == index,
{
    lemma_seat_arith(index, n);
    let l = left_of(index, n);
    let r = right_of(index, n);
    lemma_seat_arith(l, n);
    lemma_seat_arith(r, n);
}

proof fn lemma_seat_arith(index: int, n: int)
    requires
        0 <= index < n,
    ensures
        (index + n - 1) % n == (if index == 0 { n - 1 } else { index - 1 }),
        (index + 1) % n == (if index == n - 1 { 0 } else { index + 1 }),
{
    if index == 0 {
        vstd::arithmetic::div_mod::lemma_small_mod((n - 1) as nat, n as nat);
    } else {
        vstd::arithmetic::div_mod::lemma_mod_add_multiples_vanish(index - 1, n);
        vstd::arithmetic::div_mod::lemma_small_mod((index - 1) as nat, n as nat);
    }
    if index == n - 1 {
        vstd::arithmetic::div_mod::lemma_mod_self_0(n);
    } else {
        vstd::arithmetic::div_mod::lemma_small_mod((index + 1) as nat, n as nat);
    }
}

/// Letting philosopher `index` start eating when it may keeps neighbours from
/// eating together.
pub proof fn lemma_update_keeps_neighbours_apart(states: Seq<PhilosopherState>, index: int)
    requires
        neighbours_apart(states),
        0 <= index < states.len(),
    ensures
        neighbours_apart(updated(states, index)),
{
    let n = states.len() as int;
    lemma_seats(index, n);
    let s2 = updated(states, index);
    assert forall|i: int| 0 <= i < n implies #[trigger] apart_at(s2, i) by {
        lemma_seats(i, n);
        assert(apart_at(states, i));
        if may_eat(states, index) && i != index && s2[i] == PhilosopherState::Eating {
            if left_of(i, n) == index {
                assert(right_of(index, n) == i);
            }
            if right_of(i, n) == index {
                assert(left_of(index, n) == i);
            }
        }
    }
}

/// A philosopher that stops eating, or never ate, keeps neighbours from eating
/// together.
pub proof fn lemma_not_eating_keeps_neighbours_apart(
    states: Seq<PhilosopherState>,
    index: int,
    state: PhilosopherState,
)
    requires
        neighbours_apart(states),
        0 <= index < states.len(),
        state != PhilosopherState::Eating,
    ensures
        neighbours_apart(states.update(index, state)),
{
    let n = states.len() as int;
    let s2 = states.update(index, state);
    assert forall|i: int| 0 <= i < n implies #[trigger] apart_at(s2, i) by {
        lemma_seats(i, n);
        assert(apart_at(states, i));
    }
}

/// Taking and putting forks keep neighbours from eating together.
pub proof fn lemma_forks_keep_neighbours_apart(states: Seq<PhilosopherState>, index: int)
    requires
        neighbours_apart(states),
        0 <= index < states.len(),
    ensures
        neighbours_apart(after_take(states, index)),
        neighbours_apart(after_put(states, index)),
{
    let n = states.len() as int;
    lemma_seats(index, n);
    let hungry = states.update(index, PhilosopherState::Hungry);
    lemma_not_eating_keeps_neighbours_apart(states, index, PhilosopherState::Hungry);
    lemma_update_keeps_neighbours_apart(hungry, index);
    let thinking = states.update(index, PhilosopherState::Thinking);
    lemma_not_eating_keeps_neighbours_apart(states, index, PhilosopherState::Thinking);
    lemma_update_keeps_neighbours_apart(thinking, left_of(index, n));
    lemma_update_keeps_neighbours_apart(updated(thinking, left_of(index, n)), right_of(index, n));
}

/// Philosopher `i`'s semaphore holds at most one permit, and holds one only
/// while the philosopher eats.
pub open spec fn permit_at(states: Seq<PhilosopherState>, permits: Seq<nat>, i: int) -> bool {
    &&& permits[i] <= 1
    &&& permits[i] > 0 ==> states[i] == PhilosopherState::Eating
}

/// Every philosopher's semaphore holds at most one permit, and holds one only
/// while its philosopher eats.
pub open spec fn permits_match(states: Seq<PhilosopherState>, permits: Seq<nat>) -> bool {
    &&& permits.len() == states.len()
    &&& forall|i: int| 0 <= i < states.len() ==> #[trigger] permit_at(states, permits, i)
}

/// Letting a philosopher start eating when it may keeps each permit tied to
/// an eating philosopher.
pub proof fn lemma_update_keeps_permits_matched(
    states: Seq<PhilosopherState>,
    permits: Seq<nat>,
    index: int,
)
    requires
        permits_match(states, permits),
        0 <= index < states.len(),
    ensures
        permits_match(updated(states, index), updated_permits(states, permits, index)),
{
    let s2 = updated(states, index);
    let p2 = updated_permits(states, permits, index);
    assert(permit_at(states, permits, index));
    assert forall|i: int| 0 <= i < s2.len() implies #[trigger] permit_at(s2, p2, i) by {
        assert(permit_at(states, permits, i));
    }
}

/// A philosopher whose semaphore holds no permit may stop eating, or become
/// hungry, without untying any permit from an eating philosopher.
pub proof fn lemma_not_eating_keeps_permits_matched(
    states: Seq<PhilosopherState>,
    permits: Seq<nat>,
    index: int,
    state: PhilosopherState,
)
    requires
        permits_match(states, permits),
        0 <= index < states.len(),
        permits[index] == 0,
    ensures
        permits_match(states.update(index, state), permits),
{
    let s2 = states.update(index, state);
    assert forall|i: int| 0 <= i < s2.len() implies #[trigger] permit_at(s2, permits, i) by {
        assert(permit_at(states, permits, i));
    }
}

/// A philosopher that takes a permit from its semaphore is eating, and taking
/// it keeps the permits tied to eating philosophers.
pub proof fn lemma_permit_means_eating(states: Seq<PhilosopherState>, permits: Seq<nat>, index: int)
    requires
        permits_match(states, permits),
        0 <= index < states.len(),
        permits[index] > 0,
    ensures
        states[index] == PhilosopherState::Eating,
        permits[index] == 1,
        permits_match(states, permits.update(index, (permits[index] - 1) as nat)),
{
    assert(permit_at(states, permits, index));
    let p2 = permits.update(index, (permits[index] - 1) as nat);
    assert forall|i: int| 0 <= i < states.len() implies #[trigger] permit_at(states, p2, i) by {
        assert(permit_at(states, permits, i));
    }
}

/// What other philosophers do never stops a philosopher from eating: another
/// philosopher's steps leave an eating philosopher eating.
pub proof fn lemma_eater_keeps_eating(states: Seq<PhilosopherState>, i: int, j: int)
    requires
        0 <= i < states.len(),
        0 <= j < states.len(),
        i != j,
        states[i] == PhilosopherState::Eating,
    ensures
        updated(states, j)[i] == PhilosopherState::Eating,
        after_take(states, j)[i] == PhilosopherState::Eating,
        after_put(states, j)[i] == PhilosopherState::Eating,
{
    let n = states.len() as int;
    lemma_seats(j, n);
    let thinking = states.update(j, PhilosopherState::Thinking);
    assert(updated(thinking, left_of(j, n))[i] == PhilosopherState::Eating);
}

/// One round of a philosopher's life. A thinking philosopher that takes its
/// forks is then hungry, or eating with its permit granted; whenever it takes
/// a permit from its semaphore, at whatever state of the table, it is eating,
/// and what other philosophers do leaves it eating (see
/// `lemma_eater_keeps_eating`); once it has taken the permit and puts its
/// forks down it is thinking again. Every step keeps each permit tied to an
/// eating philosopher.
pub proof fn lemma_philosopher_cycle(
    states: Seq<PhilosopherState>,
    permits: Seq<nat>,
    index: int,
    at_acquire: Seq<PhilosopherState>,
    permits_at_acquire: Seq<nat>,
)
    requires
        permits_match(states, permits),
        0 <= index < states.len(),
        states[index] == PhilosopherState::Thinking,
        permits_match(at_acquire, permits_at_acquire),
        at_acquire.len() == states.len(),
        permits_at_acquire[index] > 0,
    ensures
        after_take(states, index)[index] == PhilosopherState::Hungry || after_take(states, index)[index]
            == PhilosopherState::Eating,
        after_take(states, index)[index] == PhilosopherState::Eating <==> take_permits(
            states,
            permits,
            index,
        )[index] == 1,
        permits_match(after_take(states, index), take_permits(states, permits, index)),
        at_acquire[index] == PhilosopherState::Eating,
        ({
            let taken = permits_at_acquire.update(index, (permits_at_acquire[index] - 1) as nat);
            &&& permits_match(at_acquire, taken)
            &&& after_put(at_acquire, index)[index] == PhilosopherState::Thinking
            &&& permits_match(after_put(at_acquire, index), put_permits(at_acquire, taken, index))
        }),
{
    let n = states.len() as int;
    lemma_seats(index, n);
    assert(permit_at(states, permits, index));
    lemma_not_eating_keeps_permits_matched(states, permits, index, PhilosopherState::Hungry);
    lemma_update_keeps_permits_matched(states.update(index, PhilosopherState::Hungry), permits, index);
    lemma_permit_means_eating(at_acquire, permits_at_acquire, index);
    let taken = permits_at_acquire.update(index, (permits_at_acquire[index] - 1) as nat);
    let thinking = at_acquire.update(index, PhilosopherState::Thinking);
    lemma_not_eating_keeps_permits_matched(at_acquire, taken, index, PhilosopherState::Thinking);
    let l = left_of(index, n);
    let r = right_of(index, n);
    lemma_update_keeps_permits_matched(thinking, taken, l);
    lemma_update_keeps_permits_matched(updated(thinking, l), updated_permits(thinking, taken, l), r);
    assert(updated(thinking, l)[index] == PhilosopherState::Thinking);
}

/// What `update_state(index, ..)` does, in terms of the seats themselves:
/// philosopher `index` starts eating, and its semaphore gains one permit,
/// exactly when it is hungry and neither the seat to its left,
/// `(index + n - 1) % n`, nor the seat to its right, `(index + 1) % n`, eats;
/// otherwise nothing changes. No other seat or semaphore is touched.
pub proof fn lemma_update_state_law(states: Seq<PhilosopherState>, permits: Seq<nat>, index: int)
    requires
        0 <= index < states.len(),
        permits.len() == states.len(),
    ensures
        ({
            let n = states.len() as int;
            let l = (index + n - 1) % n;
            let r = (index + 1) % n;
            let s2 = updated(states, index);
            let p2 = updated_permits(states, permits, index);
            let starts = states[index] == PhilosopherState::Hungry && states[l]
                != PhilosopherState::Eating && states[r] != PhilosopherState::Eating;
            &&& s2.len() == n
            &&& p2.len() == n
            &&& starts ==> s2[index] == PhilosopherState::Eating && p2[index] == permits[index] + 1
            &&& !starts ==> s2[index] == states[index] && p2[index] == permits[index]
            &&& forall|j: int|
                0 <= j < n && j != index ==> s2[j] == states[j] && p2[j] == permits[j]
        }),
{
    lemma_seats(index, states.len() as int);
}

/// What `take_forks(index, ..)` does, in terms of the seats themselves:
/// philosopher `index` starts eating at once, and its semaphore gains one
/// permit, exactly when neither neighbour, `(index + n - 1) % n` and
/// `(index + 1) % n`, eats (a philosopher alone at the table is its own
/// neighbour, and is hungry by then); otherwise it is left hungry and its
/// semaphore unchanged. No other seat or semaphore is touched.
pub proof fn lemma_take_forks_law(states: Seq<PhilosopherState>, permits: Seq<nat>, index: int)
    requires
        0 <= index < states.len(),
        permits.len() == states.len(),
    ensures
        ({
            let n = states.len() as int;
            let l = (index + n - 1) % n;
            let r = (index + 1) % n;
            let s2 = after_take(states, index);
            let p2 = take_permits(states, permits, index);
            let free = (l == index || states[l] != PhilosopherState::Eating) && (r == index
                || states[r] != PhilosopherState::Eating);
            &&& s2.len() == n
            &&& p2.len() == n
            &&& free ==> s2[index] == PhilosopherState::Eating && p2[index] == permits[index] + 1
            &&& !free ==> s2[index] == PhilosopherState::Hungry && p2[index] == permits[index]
            &&& forall|j: int|
                0 <= j < n && j != index ==> s2[j] == states[j] && p2[j] == permits[j]
        }),
{
    lemma_seats(index, states.len() as int);
}

/// What `put_forks(index, ..)` does at a table of three or more, in terms of
/// the seats themselves: philosopher `index` thinks and keeps its permits.
/// Its left neighbour `l = (index + n - 1) % n` starts eating, with one more
/// permit, exactly when it is hungry and its own left neighbour
/// `(l + n - 1) % n` does not eat. Then its right neighbour
/// `r = (index + 1) % n` starts eating, with one more permit, exactly when it
/// is hungry and its own right neighbour `(r + 1) % n` does not eat after
/// that. Every other seat and semaphore is left as it was.
pub proof fn lemma_put_forks_law(states: Seq<PhilosopherState>, permits: Seq<nat>, index: int)
    requires
        0 <= index < states.len(),
        states.len() >= 3,
        permits.len() == states.len(),
    ensures
        ({
            let n = states.len() as int;
            let l = (index + n - 1) % n;
            let r = (index + 1) % n;
            let ll = (l + n - 1) % n;
            let rr = (r + 1) % n;
            let s2 = after_put(states, index);
            let p2 = put_permits(states, permits, index);
            let left_starts = states[l] == PhilosopherState::Hungry && states[ll]
                != PhilosopherState::Eating;
            let right_starts = states[r] == PhilosopherState::Hungry && s2[rr]
                != PhilosopherState::Eating;
            &&& s2.len() == n
            &&& p2.len() == n
            &&& s2[index] == PhilosopherState::Thinking
            &&& p2[index] == permits[index]
            &&& left_starts ==> s2[l] == PhilosopherState::Eating && p2[l] == permits[l] + 1
            &&& !left_starts ==> s2[l] == states[l] && p2[l] == permits[l]
            &&& right_starts ==> s2[r] == PhilosopherState::Eating && p2[r] == permits[r] + 1
            &&& !right_starts ==> s2[r] == states[r] && p2[r] == permits[r]
            &&& forall|j: int|
                0 <= j < n && j != index && j != l && j != r ==> s2[j] == states[j] && p2[j]
                    == permits[j]
        }),
{
    let n = states.len() as int;
    lemma_seats(index, n);
    let l = left_of(index, n);
    let r = right_of(index, n);
    lemma_seats(l, n);
    lemma_seats(r, n);
}

/// What `put_forks(index, ..)` does at a table of one or two: philosopher
/// `index` thinks and keeps its permits; at a table of two the other
/// philosopher, whose neighbours are both `index`, starts eating with one more
/// permit exactly when it is hungry, and is left as it was otherwise.
pub proof fn lemma_put_forks_small_table_law(
    states: Seq<PhilosopherState>,
    permits: Seq<nat>,
    index: int,
)
    requires
        0 <= index < states.len(),
        states.len() <= 2,
        permits.len() == states.len(),
    ensures
        ({
            let s2 = after_put(states, index);
            let p2 = put_permits(states, permits, index);
            let other = 1 - index;
            &&& s2.len() == states.len()
            &&& p2.len() == states.len()
            &&& s2[index] == PhilosopherState::Thinking
            &&& p2[index] == permits[index]
            &&& states.len() == 2 && states[other] == PhilosopherState::Hungry ==> s2[other]
                == PhilosopherState::Eating && p2[other] == permits[other] + 1
            &&& states.len() == 2 && states[other] != PhilosopherState::Hungry ==> s2[other]
                == states[other] && p2[other] == permits[other]
        }),
{
    let n = states.len() as int;
    lemma_seats(index, n);
    let l = left_of(index, n);
    let r = right_of(index, n);
    lemma_seats(l, n);
    lemma_seats(r, n);
}

/// The seat to the left of `index` at a table of `total_number`.
pub fn left(index: usize, total_number: usize) -> (seat: usize)
    requires
        total_number > 0,
        index + total_number <= usize::MAX,
    ensures
        seat == left_of(index as int, total_number as int),
{
    (index + total_number - 1) % total_number
}

/// The seat to the right of `index` at a table of `total_number`.
pub fn right(index: usize, total_number: usize) -> (seat: usize)
    requires
        total_number > 0,
        index + 1 <= usize::MAX,
    ensures
        seat == right_of(index as int, total_number as int),
{
    (index + 1) % total_number
}

/// Lets philosopher `index` start eating if it is hungry and neither
/// neighbour eats: its state becomes `Eating` and its semaphore gets a permit.
/// Otherwise nothing changes.
pub fn update_state(
    index: usize,
    total_number: usize,
    states: &mut Vec<PhilosopherState>,
    both_forks_available: &mut Vec<Semaphore>,
)
    requires
        index < total_number,
        index + total_number <= usize::MAX,
        old(states)@.len() == total_number,
        old(both_forks_available)@.len() == total_number,
        may_eat(old(states)@, index as int) ==> permits(old(both_forks_available)@)[index as int]
            < usize::MAX,
    ensures
        final(states)@ == updated(old(states)@, index as int),
        final(both_forks_available)@.len() == total_number,
        permits(final(both_forks_available)@) == updated_permits(
            old(states)@,
            permits(old(both_forks_available)@),
            index as int,
        ),
        neighbours_apart(old(states)@) ==> neighbours_apart(final(states)@),
        permits_match(old(states)@, permits(old(both_forks_available)@)) ==> permits_match(
            final(states)@,
            permits(final(both_forks_available)@),
        ),
{
    proof {
        lemma_seats(index as int, total_number as int);
        if neighbours_apart(old(states)@) {
            lemma_update_keeps_neighbours_apart(old(states)@, index as int);
        }
        if permits_match(old(states)@, permits(old(both_forks_available)@)) {
            lemma_update_keeps_permits_matched(
                old(states)@,
                permits(old(both_forks_available)@),
                index as int,
            );
        }
    }
    let l = left(index, total_number);
    let r = right(index, total_number);
    if states[index] == PhilosopherState::Hungry && states[l] != PhilosopherState::Eating
        && states[r] != PhilosopherState::Eating {
        states[index] = PhilosopherState::Eating;
        both_forks_available[index].release();
        proof {
            assert(permits(both_forks_available@) =~= permits(
                old(both_forks_available)@,
            ).update(index as int, permits(old(both_forks_available)@)[index as int] + 1));
        }
    }
}

/// Philosopher `index` becomes hungry and starts eating at once if neither
/// neighbour eats. The caller then waits for a permit of the philosopher's
/// semaphore, which it holds already when the philosopher started eating here.
pub fn take_forks(
    index: usize,
    total_number: usize,
    states: &mut Vec<PhilosopherState>,
    both_forks_available: &mut Vec<Semaphore>,
)
    requires
        index < total_number,
        index + total_number <= usize::MAX,
        old(states)@.len() == total_number,
        old(both_forks_available)@.len() == total_number,
        may_eat(old(states)@.update(index as int, PhilosopherState::Hungry), index as int)
            ==> permits(old(both_forks_available)@)[index as int] < usize::MAX,
    ensures
        final(states)@ == after_take(old(states)@, index as int),
        final(both_forks_available)@.len() == total_number,
        permits(final(both_forks_available)@) == take_permits(
            old(states)@,
            permits(old(both_forks_available)@),
            index as int,
        ),
        neighbours_apart(old(states)@) ==> neighbours_apart(final(states)@),
        permits_match(old(states)@, permits(old(both_forks_available)@))
            && old(states)@[index as int] != PhilosopherState::Eating ==> permits_match(
            final(states)@,
            permits(final(both_forks_available)@),
        ),
{
    proof {
        if neighbours_apart(old(states)@) {
            lemma_forks_keep_neighbours_apart(old(states)@, index as int);
        }
        if permits_match(old(states)@, permits(old(both_forks_available)@))
            && old(states)@[index as int] != PhilosopherState::Eating {
            assert(permit_at(old(states)@, permits(old(both_forks_available)@), index as int));
            lemma_not_eating_keeps_permits_matched(
                old(states)@,
                permits(old(both_forks_available)@),
                index as int,
                PhilosopherState::Hungry,
            );
        }
    }
    states[index] = PhilosopherState::Hungry;
    update_state(index, total_number, states, both_forks_available);
}

/// Philosopher `index` puts its forks down and thinks; each neighbour that is
/// hungry and now has both forks free starts eating, the left one first.
pub fn put_forks(
    index: usize,
    total_number: usize,
    states: &mut Vec<PhilosopherState>,
    both_forks_available: &mut Vec<Semaphore>,
)
    requires
        index < total_number,
        index + total_number <= usize::MAX,
        left_of(index as int, total_number as int) + total_number <= usize::MAX,
        right_of(index as int, total_number as int) + total_number <= usize::MAX,
        old(states)@.len() == total_number,
        old(both_forks_available)@.len() == total_number,
        ({
            let n = total_number as int;
            let l = left_of(index as int, n);
            let r = right_of(index as int, n);
            let thinking = old(states)@.update(index as int, PhilosopherState::Thinking);
            let p = permits(old(both_forks_available)@);
            &&& may_eat(thinking, l) ==> p[l] < usize::MAX
            &&& may_eat(updated(thinking, l), r) ==> updated_permits(thinking, p, l)[r] < usize::MAX
        }),
    ensures
        final(states)@ == after_put(old(states)@, index as int),
        permits(final(both_forks_available)@) == put_permits(
            old(states)@,
            permits(old(both_forks_available)@),
            index as int,
        ),
        neighbours_apart(old(states)@) ==> neighbours_apart(final(states)@),
        permits_match(old(states)@, permits(old(both_forks_available)@))
            && permits(old(both_forks_available)@)[index as int] == 0 ==> permits_match(
            final(states)@,
            permits(final(both_forks_available)@),
        ),
{
    proof {
        lemma_seats(index as int, total_number as int);
        if neighbours_apart(old(states)@) {
            lemma_forks_keep_neighbours_apart(old(states)@, index as int);
        }
        if permits_match(old(states)@, permits(old(both_forks_available)@))
            && permits(old(both_forks_available)@)[index as int] == 0 {
            lemma_not_eating_keeps_permits_matched(
                old(states)@,
                permits(old(both_forks_available)@),
                index as int,
                PhilosopherState::Thinking,
            );
        }
    }
    states[index] = PhilosopherState::Thinking;
    let l = left(index, total_number);
    let r = right(index, total_number);
    update_state(l, total_number, states, both_forks_available);
    update_state(r, total_number, states, both_forks_available);
}

} // verus!

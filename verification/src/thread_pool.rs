//! The dispatching logic of a thread pool, and the tasks it dispatches.
//!
//! Workers are numbered; each is free or busy. A new task goes to the first
//! free worker, or waits in a queue when all are busy. When a worker reports
//! that it finished, the oldest waiting task goes to the first free worker.
//! The tasks themselves, the channels to the workers and the threads are
//! handled around these steps, each of which is taken under the lock that
//! guards the pool.
use vstd::prelude::*;

verus! {

/// The state of a pool, as values.
pub struct PoolState<T> {
    /// Whether each worker is free.
    pub ready: Seq<bool>,
    /// The waiting tasks, oldest first.
    pub tasks: Seq<T>,
}

/// Worker `i` is the first free worker.
pub open spec fn first_free(ready: Seq<bool>, i: int) -> bool {
    &&& 0 <= i < ready.len()
    &&& ready[i]
    &&& forall|j: int| 0 <= j < i ==> !ready[j]
}

/// No worker is free.
pub open spec fn all_busy(ready: Seq<bool>) -> bool {
    forall|j: int| 0 <= j < ready.len() ==> !ready[j]
}

/// The worker that a claim hands out: the first free one, if any.
pub open spec fn free_worker(ready: Seq<bool>) -> Option<int> {
    if exists|i: int| first_free(ready, i) {
        Some(choose|i: int| first_free(ready, i))
    } else {
        None
    }
}

/// There is only one first free worker, and a claim hands out exactly the
/// worker that `find_free_worker`, `add` and `dispatch` report as first free;
/// when all are busy, a claim hands out nothing.
pub proof fn lemma_claim_is_first_free(ready: Seq<bool>, i: int)
    ensures
        first_free(ready, i) ==> free_worker(ready) == Some(i),
        all_busy(ready) ==> free_worker(ready) is None,
        free_worker(ready) is None ==> all_busy(ready),
{
    if first_free(ready, i) {
        let j = choose|j: int| first_free(ready, j);
        assert(first_free(ready, j));
        if j < i {
            assert(!ready[j]);
        } else if i < j {
            assert(!ready[i]);
        }
    }
    if free_worker(ready) is None {
        assert forall|j: int| 0 <= j < ready.len() implies !ready[j] by {
            if ready[j] {
                lemma_some_worker_is_first_free(ready, j);
            }
        }
    }
}

/// When some worker is free, some worker is the first free one.
proof fn lemma_some_worker_is_first_free(ready: Seq<bool>, j: int)
    requires
        0 <= j < ready.len(),
        ready[j],
    ensures
        exists|i: int| first_free(ready, i),
    decreases j,
{
    if forall|k: int| 0 <= k < j ==> !ready[k] {
        assert(first_free(ready, j));
    } else {
        let k = choose|k: int| 0 <= k < j && ready[k];
        lemma_some_worker_is_first_free(ready, k);
    }
}

/// An event that changes which workers are free.
pub enum PoolEvent {
    /// A worker is claimed for a task (by `find_free_worker`, `add` or
    /// `dispatch`).
    Claim,
    /// Worker `w` reports that it is free again (`worker_ready`).
    Ready(int),
}

/// Which workers are free after one event.
pub open spec fn after_event(ready: Seq<bool>, e: PoolEvent) -> Seq<bool> {
    match e {
        PoolEvent::Claim => match free_worker(ready) {
            Some(i) => ready.update(i, false),
            None => ready,
        },
        PoolEvent::Ready(w) => if 0 <= w < ready.len() {
            ready.update(w, true)
        } else {
            ready
        },
    }
}

/// Which workers are free after a run of events.
pub open spec fn ready_after(ready: Seq<bool>, events: Seq<PoolEvent>) -> Seq<bool>
    decreases events.len(),
{
    if events.len() == 0 {
        ready
    } else {
        after_event(ready_after(ready, events.drop_last()), events.last())
    }
}

/// Whether some claim in a run of events hands out worker `w`.
pub open spec fn hands_out(ready: Seq<bool>, events: Seq<PoolEvent>, w: int) -> bool
    decreases events.len(),
{
    if events.len() == 0 {
        false
    } else {
        let before = ready_after(ready, events.drop_last());
        hands_out(ready, events.drop_last(), w) || (events.last() is Claim && free_worker(before)
            == Some(w))
    }
}

/// A claimed worker is not handed out again until it reports that it is free:
/// over any run of events in which busy worker `w` does not report, no claim
/// hands `w` out and `w` stays busy.
pub proof fn lemma_busy_worker_not_handed_out(
    ready: Seq<bool>,
    events: Seq<PoolEvent>,
    w: int,
)
    requires
        0 <= w < ready.len(),
        !ready[w],
        forall|k: int| 0 <= k < events.len() ==> events[k] != PoolEvent::Ready(w),
    ensures
        !hands_out(ready, events, w),
        !ready_after(ready, events)[w],
        ready_after(ready, events).len() == ready.len(),
    decreases events.len(),
{
    if events.len() > 0 {
        let rest = events.drop_last();
        assert forall|k: int| 0 <= k < rest.len() implies rest[k] != PoolEvent::Ready(w) by {
            assert(rest[k] == events[k]);
        }
        lemma_busy_worker_not_handed_out(ready, rest, w);
        let before = ready_after(ready, rest);
        match free_worker(before) {
            Some(i) => {
                lemma_claim_is_first_free(before, i);
                let j = choose|j: int| first_free(before, j);
                assert(first_free(before, j));
            },
            None => {},
        }
        assert(events.last() == events[events.len() - 1]);
    }
}

/// Workers and the queue of waiting tasks.
pub struct ThreadPool<T> {
    ready: Vec<bool>,
    tasks: std::collections::VecDeque<T>,
}

impl<T> View for ThreadPool<T> {
    type V = PoolState<T>;

    closed spec fn view(&self) -> PoolState<T> {
        PoolState { ready: self.ready@, tasks: self.tasks@ }
    }
}

impl<T> ThreadPool<T> {
    /// A pool of `worker_number` free workers and no waiting task.
    pub fn new(worker_number: usize) -> (pool: ThreadPool<T>)
        ensures
            pool@.ready == Seq::new(worker_number as nat, |i: int| true),
            pool@.tasks == Seq::<T>::empty(),
    {
        let mut ready: Vec<bool> = Vec::with_capacity(worker_number);
        let mut i: usize = 0;
        while i < worker_number
            invariant
                i <= worker_number,
                ready@ == Seq::new(i as nat, |j: int| true),
            decreases worker_number - i,
        {
            ready.push(true);
            i = i + 1;
            proof {
                assert(ready@ =~= Seq::new(i as nat, |j: int| true));
            }
        }
        ThreadPool { ready, tasks: std::collections::VecDeque::new() }
    }

    /// Claims the first free worker: it becomes busy and its number is
    /// returned. Returns `None`, and changes nothing, when all are busy.
    pub fn find_free_worker(&mut self) -> (worker: Option<usize>)
        ensures
            final(self)@.tasks == old(self)@.tasks,
            match worker {
                Some(i) => first_free(old(self)@.ready, i as int) && final(self)@.ready
                    == old(self)@.ready.update(i as int, false),
                None => all_busy(old(self)@.ready) && final(self)@.ready == old(self)@.ready,
            },
            worker matches Some(i) ==> free_worker(old(self)@.ready) == Some(i as int),
            worker is None ==> free_worker(old(self)@.ready) is None,
            final(self)@.ready == after_event(old(self)@.ready, PoolEvent::Claim),
    {
        proof {
            lemma_claim_is_first_free(old(self)@.ready, 0);
        }
        let mut i: usize = 0;
        while i < self.ready.len()
            invariant
                i <= self.ready@.len(),
                self@ == old(self)@,
                forall|j: int| 0 <= j < i ==> !self.ready@[j],
            decreases self.ready@.len() - i,
        {
            if self.ready[i] {
                proof {
                    lemma_claim_is_first_free(old(self)@.ready, i as int);
                }
                self.ready.set(i, false);
                return Some(i);
            }
            i = i + 1;
        }
        None
    }

    /// Adds a task: it goes to the first free worker, which becomes busy, and
    /// the worker's number comes back with the task for sending. When all
    /// workers are busy the task waits last in the queue and `None` comes
    /// back.
    pub fn add(&mut self, task: T) -> (send: Option<(usize, T)>)
        ensures
            match send {
                Some((i, t)) => t == task && first_free(old(self)@.ready, i as int) && final(self)@
                    == (PoolState {
                    ready: old(self)@.ready.update(i as int, false),
                    tasks: old(self)@.tasks,
                }),
                None => all_busy(old(self)@.ready) && final(self)@ == (PoolState {
                    ready: old(self)@.ready,
                    tasks: old(self)@.tasks.push(task),
                }),
            },
            final(self)@.ready == after_event(old(self)@.ready, PoolEvent::Claim),
    {
        match self.find_free_worker() {
            Some(i) => Some((i, task)),
            None => {
                self.tasks.push_back(task);
                None
            },
        }
    }

    /// Worker `index` reports that it finished its task and is free again.
    pub fn worker_ready(&mut self, index: usize)
        requires
            index < old(self)@.ready.len(),
        ensures
            final(self)@ == (PoolState {
                ready: old(self)@.ready.update(index as int, true),
                tasks: old(self)@.tasks,
            }),
            final(self)@.ready == after_event(old(self)@.ready, PoolEvent::Ready(index as int)),
    {
        self.ready.set(index, true);
    }

    /// Handles a report that a worker finished: the oldest waiting task
    /// leaves the queue and goes, with the first free worker's number, out
    /// for sending; that worker becomes busy. When no worker is free the task
    /// that left the queue is dropped. Returns `None` when no task waits or
    /// no worker is free.
    pub fn dispatch(&mut self) -> (send: Option<(usize, T)>)
        ensures
            old(self)@.tasks.len() == 0 ==> send is None && final(self)@ == old(self)@,
            old(self)@.tasks.len() > 0 ==> final(self)@.tasks == old(self)@.tasks.drop_first(),
            send is Some <==> (old(self)@.tasks.len() > 0 && !all_busy(old(self)@.ready)),
            match send {
                Some((i, t)) => old(self)@.tasks.len() > 0 && t == old(self)@.tasks[0]
                    && first_free(old(self)@.ready, i as int) && final(self)@.ready
                    == old(self)@.ready.update(i as int, false),
                None => final(self)@.ready == old(self)@.ready,
            },
            old(self)@.tasks.len() > 0 ==> final(self)@.ready == after_event(
                old(self)@.ready,
                PoolEvent::Claim,
            ),
    {
        match self.tasks.pop_front() {
            Some(task) => {
                proof {
                    assert(self.tasks@ =~= old(self)@.tasks.drop_first());
                }
                match self.find_free_worker() {
                    Some(i) => Some((i, task)),
                    None => None,
                }
            },
            None => None,
        }
    }
}

/// A computation to run on a worker, with the channel on which its result
/// goes back. The computation and the channel are carried through the pool
/// untouched; the workers run the one and send on the other.
pub struct Task<R, S> {
    pub runnable: R,
    pub result_sender: S,
}

impl<R, S> Task<R, S> {
    /// A task that runs `runnable` and sends its result on `result_sender`.
    pub fn new(runnable: R, result_sender: S) -> (task: Task<R, S>)
        ensures
            task.runnable == runnable,
            task.result_sender == result_sender,
    {
        Task { runnable, result_sender }
    }
}

} // verus!

# multithreading_practice

Classic synchronisation problems, with the coordination logic verified by Verus.

- `src/` is the verified library. Each module holds the state of one problem
  (permit counts, queues, who is eating or reading) and the steps that threads
  take while holding the lock on that state, with contracts over a view of the
  state and the invariants each step keeps:
  `semaphore`, `sync_rand`, `dining_philosophers`, `readers_writers`,
  `producer_consumer`, `sleeping_barber`, `cigarette_smokers`, `aba`,
  `thread_pool`.
- `app/` is the program: it spawns the threads, sleeps, prints, keeps the
  random seed, and waits on condition variables whenever a step of the library
  says that a thread has to wait.
- `tests/` runs the library's steps on concrete scenarios.

//! Classic synchronisation problems, with their coordination logic stated and
//! proved: a counting semaphore, a linear-congruential random source, and the
//! decision steps of the dining philosophers, the cigarette smokers, the
//! producers and consumers, the readers and writers, the sleeping barber, the
//! ABA detector and a thread pool.
pub mod semaphore;
pub mod sync_rand;
pub mod dining_philosophers;
pub mod readers_writers;
pub mod producer_consumer;
pub mod sleeping_barber;
pub mod cigarette_smokers;
pub mod aba;
pub mod thread_pool;

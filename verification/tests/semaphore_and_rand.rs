use multithreading_practice::semaphore::Semaphore;
use multithreading_practice::sync_rand::{sync_rand, sync_rand_range};

#[test]
fn new_semaphore_reports_its_permits() {
    let s = Semaphore::new(3);
    assert_eq!(s.get_value(), 3);
}

#[test]
fn acquire_takes_a_free_permit() {
    let mut s = Semaphore::new(2);
    assert!(s.acquire());
    assert_eq!(s.get_value(), 1);
}

#[test]
fn acquire_without_permit_asks_to_wait() {
    let mut s = Semaphore::new(0);
    assert!(!s.acquire());
    assert_eq!(s.get_value(), 0);
}

#[test]
fn acquire_timeout_takes_a_free_permit() {
    let mut s = Semaphore::new(1);
    assert!(s.acquire_timeout(true));
    assert_eq!(s.get_value(), 0);
    assert!(!s.acquire_timeout(true));
    assert_eq!(s.get_value(), 0);
}

#[test]
fn acquire_timeout_gives_up_on_a_broken_lock() {
    let mut s = Semaphore::new(4);
    assert!(!s.acquire_timeout(false));
    assert_eq!(s.get_value(), 4);
}

#[test]
fn release_adds_a_permit() {
    let mut s = Semaphore::new(0);
    s.release();
    s.release();
    assert_eq!(s.get_value(), 2);
}

#[test]
fn acquire_undoes_release() {
    let mut s = Semaphore::new(5);
    s.release();
    assert!(s.acquire());
    assert_eq!(s.get_value(), 5);
}

#[test]
fn permits_are_conserved_over_a_run() {
    let mut s = Semaphore::new(1);
    let mut taken = 0;
    let mut given = 0;
    for step in 0..20 {
        if step % 3 == 0 {
            s.release();
            given += 1;
        } else if s.acquire() {
            taken += 1;
        }
    }
    assert_eq!(s.get_value() + taken, 1 + given);
}

#[test]
fn sync_rand_draws_known_values_from_zero() {
    let mut seed: u64 = 0;
    assert_eq!(sync_rand(&mut seed), 1012484);
    assert_eq!(seed, 17423423094097455071);
    assert_eq!(sync_rand(&mut seed), 1716955679);
    assert_eq!(seed, 11820541280853630090);
    assert_eq!(sync_rand(&mut seed), 1792309082);
    assert_eq!(seed, 11112629390534159729);
}

#[test]
fn sync_rand_wraps_around_from_the_largest_seed() {
    let mut seed: u64 = u64::MAX;
    assert_eq!(sync_rand(&mut seed), 1670702726);
    assert_eq!(seed, 973700787803155242);
}

#[test]
fn sync_rand_stays_below_two_to_the_31() {
    let mut seed: u64 = 12345;
    for _ in 0..1000 {
        assert!(sync_rand(&mut seed) < (1u64 << 31));
    }
}

#[test]
fn map_rescales_with_integer_division() {
    assert_eq!(multithreading_practice::sync_rand::map(50, 0, 100, 0, 10), 0);
    assert_eq!(multithreading_practice::sync_rand::map(200, 0, 100, 5, 10), 15);
    assert_eq!(multithreading_practice::sync_rand::map(7, 2, 3, 1, 4), 16);
    assert_eq!(multithreading_practice::sync_rand::map(100, 0, 100, 3, 9), 9);
}

#[test]
fn sync_rand_range_gives_the_lower_bound_and_advances() {
    let mut seed: u64 = 0;
    assert_eq!(sync_rand_range(&mut seed, 100, 500), 100);
    assert_eq!(seed, 17423423094097455071);
    assert_eq!(sync_rand_range(&mut seed, 7, 7), 7);
    assert_eq!(seed, 11820541280853630090);
}

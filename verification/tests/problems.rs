use multithreading_practice::aba::AbaCell;
use multithreading_practice::cigarette_smokers::SmokersTable;
use multithreading_practice::dining_philosophers::{
    left, put_forks, right, take_forks, update_state, PhilosopherState,
};
use multithreading_practice::producer_consumer::BoundedBuffer;
use multithreading_practice::readers_writers::{ReadersPreference, WritersPreference};
use multithreading_practice::semaphore::Semaphore;
use multithreading_practice::sleeping_barber::BarberShop;

fn table(n: usize) -> (Vec<PhilosopherState>, Vec<Semaphore>) {
    let mut states = Vec::new();
    let mut forks = Vec::new();
    for _ in 0..n {
        states.push(PhilosopherState::Thinking);
        forks.push(Semaphore::new(0));
    }
    (states, forks)
}

fn neighbours_apart(states: &Vec<PhilosopherState>) -> bool {
    let n = states.len();
    (0..n).all(|i| {
        !(states[i] == PhilosopherState::Eating
            && states[right(i, n)] == PhilosopherState::Eating
            && right(i, n) != i)
    })
}

#[test]
fn seats_wrap_around_the_table() {
    assert_eq!(left(0, 5), 4);
    assert_eq!(left(3, 5), 2);
    assert_eq!(right(4, 5), 0);
    assert_eq!(right(1, 5), 2);
    assert_eq!(left(0, 1), 0);
    assert_eq!(right(0, 1), 0);
}

#[test]
fn hungry_philosopher_with_free_neighbours_eats() {
    let (mut states, mut forks) = table(5);
    states[2] = PhilosopherState::Hungry;
    update_state(2, 5, &mut states, &mut forks);
    assert!(states[2] == PhilosopherState::Eating);
    assert_eq!(forks[2].get_value(), 1);
    assert_eq!(forks[1].get_value(), 0);
}

#[test]
fn hungry_philosopher_next_to_an_eater_waits() {
    let (mut states, mut forks) = table(5);
    states[2] = PhilosopherState::Hungry;
    states[3] = PhilosopherState::Eating;
    update_state(2, 5, &mut states, &mut forks);
    assert!(states[2] == PhilosopherState::Hungry);
    assert_eq!(forks[2].get_value(), 0);
}

#[test]
fn thinking_philosopher_does_not_start_eating() {
    let (mut states, mut forks) = table(5);
    update_state(0, 5, &mut states, &mut forks);
    assert!(states[0] == PhilosopherState::Thinking);
    assert_eq!(forks[0].get_value(), 0);
}

#[test]
fn put_forks_lets_both_hungry_neighbours_eat() {
    let (mut states, mut forks) = table(5);
    take_forks(1, 5, &mut states, &mut forks);
    assert!(states[1] == PhilosopherState::Eating);
    assert!(forks[1].acquire());
    take_forks(0, 5, &mut states, &mut forks);
    take_forks(2, 5, &mut states, &mut forks);
    assert!(states[0] == PhilosopherState::Hungry);
    assert!(states[2] == PhilosopherState::Hungry);
    assert!(!forks[0].acquire());
    put_forks(1, 5, &mut states, &mut forks);
    assert!(states[1] == PhilosopherState::Thinking);
    assert!(states[0] == PhilosopherState::Eating);
    assert!(states[2] == PhilosopherState::Eating);
    assert_eq!(forks[0].get_value(), 1);
    assert_eq!(forks[2].get_value(), 1);
    assert!(neighbours_apart(&states));
}

#[test]
fn neighbours_never_eat_together_in_a_run() {
    let (mut states, mut forks) = table(5);
    let order = [0usize, 1, 2, 3, 4, 2, 0, 4, 1, 3];
    for &i in order.iter() {
        if states[i] == PhilosopherState::Eating {
            put_forks(i, 5, &mut states, &mut forks);
        } else {
            take_forks(i, 5, &mut states, &mut forks);
        }
        assert!(neighbours_apart(&states));
    }
}

#[test]
fn a_permit_is_held_only_by_an_eating_philosopher() {
    let (mut states, mut forks) = table(5);
    let order = [0usize, 1, 2, 3, 4, 2, 0, 4, 1, 3, 2, 2];
    for &i in order.iter() {
        if states[i] == PhilosopherState::Eating {
            assert!(forks[i].acquire());
            put_forks(i, 5, &mut states, &mut forks);
        } else {
            take_forks(i, 5, &mut states, &mut forks);
        }
        for j in 0..5 {
            let permits = forks[j].get_value();
            assert!(permits <= 1);
            assert!(permits == 0 || states[j] == PhilosopherState::Eating);
        }
    }
}

#[test]
fn lock_counters_report_readers_and_writers() {
    let mut rp = ReadersPreference::new(0);
    assert_eq!(rp.reader_count(), 0);
    assert_eq!(rp.reader_enter(), Some(1));
    assert_eq!(rp.reader_count(), 1);
    let mut wp = WritersPreference::new(0);
    assert_eq!(wp.writer_count(), 0);
    assert_eq!(wp.writer_register(), 1);
    assert_eq!(wp.writer_count(), 1);
    assert_eq!(wp.reader_count(), 0);
}

#[test]
fn readers_share_and_keep_writers_out() {
    let mut lock = ReadersPreference::new(7);
    assert_eq!(lock.reader_enter(), Some(1));
    assert_eq!(lock.reader_enter(), Some(2));
    assert_eq!(lock.read(), 7);
    assert!(!lock.writer_enter());
    lock.reader_exit();
    assert!(!lock.writer_enter());
    lock.reader_exit();
    assert!(lock.writer_enter());
    assert_eq!(lock.reader_enter(), None);
    assert!(!lock.writer_enter());
    assert_eq!(lock.write(), 8);
    lock.writer_exit();
    assert_eq!(lock.reader_enter(), Some(1));
    assert_eq!(lock.read(), 8);
}

#[test]
fn registered_writer_keeps_new_readers_out() {
    let mut lock = WritersPreference::new(0);
    assert_eq!(lock.reader_enter(), Some(1));
    assert_eq!(lock.writer_register(), 1);
    assert_eq!(lock.reader_enter(), None);
    assert!(!lock.writer_enter());
    lock.reader_exit();
    assert!(lock.writer_enter());
    assert_eq!(lock.writer_register(), 2);
    assert!(!lock.writer_enter());
    assert_eq!(lock.write(), 1);
    lock.writer_exit();
    lock.writer_unregister();
    assert_eq!(lock.reader_enter(), None);
    assert!(lock.writer_enter());
    assert_eq!(lock.write(), 2);
    lock.writer_exit();
    lock.writer_unregister();
    assert_eq!(lock.reader_enter(), Some(1));
    assert_eq!(lock.read(), 2);
}

#[test]
fn bounded_buffer_is_first_in_first_out_and_bounded() {
    let mut b: BoundedBuffer<u32> = BoundedBuffer::new(2);
    assert!(b.producer_may_start());
    assert_eq!(b.produce(1), None);
    assert_eq!(b.produce(2), None);
    assert_eq!(b.produce(3), Some(3));
    assert!(b.consumer_continues(false));
    assert_eq!(b.consume(false), None);
    assert_eq!(b.consume(true), Some(1));
    assert_eq!(b.produce(3), None);
    assert_eq!(b.consume(true), Some(2));
    assert_eq!(b.consume(true), Some(3));
    assert_eq!(b.consume(true), None);
    assert!(!b.consumer_continues(false));
    assert!(b.consumer_continues(true));
}

#[test]
fn producer_does_not_start_on_a_buffer_without_places() {
    let b: BoundedBuffer<u32> = BoundedBuffer::new(0);
    assert!(!b.producer_may_start());
    let mut c: BoundedBuffer<u32> = BoundedBuffer::new(2);
    assert_eq!(c.produce(9), None);
    assert!(!c.producer_may_start());
}

#[test]
fn barber_serves_customers_in_arrival_order() {
    let mut shop = BarberShop::new(2);
    assert!(!shop.barber_continues(false));
    assert!(shop.customer_sits(4));
    assert!(shop.customer_sits(1));
    assert!(!shop.customer_sits(7));
    assert!(shop.barber_continues(false));
    assert_eq!(shop.barber_next(false), None);
    assert_eq!(shop.barber_next(true), Some(4));
    assert!(!shop.customer_served(true));
    assert_eq!(shop.haircuts_waiting(), 0);
    shop.haircut_done();
    assert_eq!(shop.haircuts_waiting(), 1);
    assert!(!shop.customer_served(false));
    assert!(shop.customer_served(true));
    assert!(shop.customer_sits(7));
    assert_eq!(shop.barber_next(true), Some(1));
    assert_eq!(shop.barber_next(true), Some(7));
    assert_eq!(shop.barber_next(true), None);
}

#[test]
fn agent_provides_pairs_by_choice() {
    for (choice, pair) in [(0u64, (0usize, 1usize)), (1, (1, 2)), (2, (2, 0)), (7, (1, 2))] {
        let mut t = SmokersTable::new();
        assert!(t.agent_called(true));
        assert_eq!(t.agent_provide(choice), pair);
    }
}

#[test]
fn matching_smoker_smokes_and_calls_the_agent() {
    let mut t = SmokersTable::new();
    assert!(!t.agent_called(false));
    assert!(t.agent_called(true));
    assert!(!t.agent_called(true));
    assert_eq!(t.agent_provide(0), (0, 1));
    assert!(!t.smoker_take_first(1, true));
    assert!(t.smoker_take_first(2, true));
    assert!(t.smoker(2, true));
    assert!(t.agent_called(true));
}

#[test]
fn smoker_without_second_resource_puts_the_first_back() {
    let mut t = SmokersTable::new();
    assert!(t.agent_called(true));
    assert_eq!(t.agent_provide(0), (0, 1));
    assert!(t.smoker_take_first(0, true));
    assert!(!t.smoker(0, true));
    assert!(!t.agent_called(true));
    assert!(t.smoker_take_first(2, true));
    assert!(t.smoker(2, true));
    assert!(t.agent_called(true));
}

#[test]
fn resources_stay_one_unit_each_over_rounds() {
    let mut t = SmokersTable::new();
    for round in 0..6u64 {
        assert!(t.agent_called(true));
        assert!(!t.agent_called(true));
        let (a, b) = t.agent_provide(round);
        assert_ne!(a, b);
        let winner = ((round + 2) % 3) as usize;
        for k in 0..3usize {
            if k != winner && t.smoker_take_first(k, true) {
                assert!(!t.smoker(k, true));
            }
        }
        assert!(t.smoker_take_first(winner, true));
        assert!(!t.smoker_take_first((winner + 1) % 3, true) || !t.smoker((winner + 1) % 3, true));
        assert!(t.smoker(winner, true));
    }
    assert!(t.agent_called(true));
}

#[test]
fn aba_reader_sees_a_rewrite_of_the_same_value() {
    let mut cell = AbaCell::new();
    assert_eq!(cell.read(), (0, false));
    assert_eq!(cell.write(4), 0);
    assert_eq!(cell.read(), (0, true));
    assert_eq!(cell.read(), (0, false));
    assert_eq!(cell.write(7), 1);
    assert_eq!(cell.write(9), 1);
    assert_eq!(cell.read(), (1, true));
    assert_eq!(cell.read(), (1, false));
}

#[test]
fn philosopher_goes_round_thinking_eating_thinking() {
    let (mut states, mut forks) = table(3);
    take_forks(0, 3, &mut states, &mut forks);
    assert!(states[0] == PhilosopherState::Eating);
    assert_eq!(forks[0].get_value(), 1);
    take_forks(1, 3, &mut states, &mut forks);
    assert!(states[1] == PhilosopherState::Hungry);
    assert_eq!(forks[1].get_value(), 0);
    assert!(forks[0].acquire());
    assert!(states[0] == PhilosopherState::Eating);
    put_forks(0, 3, &mut states, &mut forks);
    assert!(states[0] == PhilosopherState::Thinking);
    assert!(states[1] == PhilosopherState::Eating);
    assert_eq!(forks[1].get_value(), 1);
    assert!(forks[1].acquire());
    put_forks(1, 3, &mut states, &mut forks);
    assert!(states[1] == PhilosopherState::Thinking);
}

#[test]
fn failed_smoker_leaves_the_table_as_it_found_it() {
    let mut t = SmokersTable::new();
    assert!(t.agent_called(true));
    assert_eq!(t.agent_provide(1), (1, 2));
    assert!(t.smoker_take_first(1, true));
    assert!(!t.smoker(1, true));
    assert!(t.smoker_take_first(1, true));
    assert!(!t.smoker(1, true));
    assert!(t.smoker_take_first(0, true));
    assert!(t.smoker(0, true));
    assert!(!t.smoker_take_first(0, true));
    assert!(!t.smoker_take_first(1, true));
    assert!(t.agent_called(true));
}

use lamport_clock::{Clock, Time};

fn is_sync<T>(_: T) -> bool
where
    T: Sync,
{
    true
}

#[test]
fn increment_test() {
    let mut clk: Clock = 0.into();
    assert!(clk.time() == 0);
    assert!(clk.increment() == 1);
}

#[test]
fn iter_test() {
    let mut clk: Clock = 0.into();
    assert!(clk.next().unwrap() == 1);
    assert!(clk.next().unwrap() == 2);
    assert!(clk.next().unwrap() == 3);
}

#[test]
fn witness_test() {
    let mut clk: Clock = 0.into();
    let t2: Time = 5;
    clk.witness(t2);
    assert!(clk.time() == 6);
}

#[test]
fn sync_test() {
    assert!(is_sync(Clock::new()))
}

#[test]
fn new_starts_at_zero() {
    let clk = Clock::new();
    assert_eq!(clk.time(), 0);
}

#[test]
fn increment_is_visible_to_time() {
    let mut clk = Clock::new();
    assert_eq!(clk.increment(), 1);
    assert_eq!(clk.time(), 1);
}

#[test]
fn witness_stale_is_a_no_op() {
    let mut clk: Clock = 6.into();
    clk.witness(3);
    assert_eq!(clk.time(), 6);
}

#[test]
fn witness_equal_advances_past_it() {
    let mut clk: Clock = 4.into();
    clk.witness(4);
    assert_eq!(clk.time(), 5);
}

#[test]
fn seeded_clock_resumes_time() {
    let mut clk: Clock = 41.into();
    assert_eq!(clk.time(), 41);
    assert_eq!(clk.increment(), 42);
}

#[test]
fn reads_never_decrease_across_mixed_operations() {
    let mut clk = Clock::new();
    let mut last = clk.time();
    clk.increment();
    assert!(clk.time() >= last);
    last = clk.time();
    clk.witness(10);
    assert!(clk.time() >= last);
    last = clk.time();
    clk.witness(2);
    assert!(clk.time() >= last);
    last = clk.time();
    clk.next();
    assert!(clk.time() >= last);
}

#[test]
fn witness_lands_strictly_above_the_observation() {
    let mut clk = Clock::new();
    clk.witness(0);
    assert_eq!(clk.time(), 1);
    clk.witness(usize::MAX - 1);
    assert_eq!(clk.time(), usize::MAX);
}

#[test]
fn increment_reaches_the_maximum_tick() {
    let mut clk: Clock = (usize::MAX - 1).into();
    assert_eq!(clk.increment(), usize::MAX);
    assert_eq!(clk.time(), usize::MAX);
}

#[test]
fn pulls_share_the_counter_with_other_mutators() {
    let mut clk = Clock::new();
    assert_eq!(clk.next().unwrap(), 1);
    clk.witness(9);
    assert_eq!(clk.next().unwrap(), 11);
}

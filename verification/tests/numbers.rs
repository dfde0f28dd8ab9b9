use lock_time_ordinals::numbers::next_lock_time_number;
use lock_time_ordinals::threshold::lock_time_is_reserved;
use lock_time_ordinals::{get_next_lock_time_number, LockTimeNumbers, LOCK_TIME_THRESHOLD};

#[test]
fn threshold_is_1000() {
    assert_eq!(LOCK_TIME_THRESHOLD, 1000);
}

#[test]
fn reserved_range_is_open_below_and_closed_above() {
    assert!(!lock_time_is_reserved(0));
    assert!(lock_time_is_reserved(1));
    assert!(lock_time_is_reserved(21));
    assert!(lock_time_is_reserved(1000));
    assert!(!lock_time_is_reserved(1001));
    assert!(!lock_time_is_reserved(500_000_000));
    assert!(!lock_time_is_reserved(u32::MAX));
}

#[test]
fn first_number_is_0() {
    assert_eq!(next_lock_time_number(None), Some(0));
}

#[test]
fn later_number_is_one_more() {
    assert_eq!(next_lock_time_number(Some(0)), Some(1));
    assert_eq!(next_lock_time_number(Some(41)), Some(42));
    assert_eq!(next_lock_time_number(Some(u32::MAX - 1)), Some(u32::MAX));
}

#[test]
fn no_number_follows_the_largest() {
    assert_eq!(next_lock_time_number(Some(u32::MAX)), None);
}

#[test]
fn new_table_has_issued_nothing() {
    let numbers = LockTimeNumbers::new();
    assert_eq!(numbers.latest(21), None);
    assert_eq!(numbers.issued(21), 0);
}

#[test]
fn table_counts_from_0_and_keeps_the_latest() {
    let mut numbers = LockTimeNumbers::new();
    assert_eq!(get_next_lock_time_number(&mut numbers, 21), Ok(0));
    assert_eq!(numbers.latest(21), Some(0));
    assert_eq!(numbers.issued(21), 1);
    assert_eq!(get_next_lock_time_number(&mut numbers, 21), Ok(1));
    assert_eq!(get_next_lock_time_number(&mut numbers, 21), Ok(2));
    assert_eq!(numbers.latest(21), Some(2));
    assert_eq!(numbers.issued(21), 3);
}

#[test]
fn lock_times_are_numbered_apart() {
    let mut numbers = LockTimeNumbers::new();
    assert_eq!(get_next_lock_time_number(&mut numbers, 21), Ok(0));
    assert_eq!(get_next_lock_time_number(&mut numbers, 7), Ok(0));
    assert_eq!(get_next_lock_time_number(&mut numbers, 21), Ok(1));
    assert_eq!(get_next_lock_time_number(&mut numbers, 1000), Ok(0));
    assert_eq!(get_next_lock_time_number(&mut numbers, 7), Ok(1));
    assert_eq!(get_next_lock_time_number(&mut numbers, 21), Ok(2));
    assert_eq!(numbers.latest(7), Some(1));
    assert_eq!(numbers.latest(21), Some(2));
    assert_eq!(numbers.latest(1000), Some(0));
    assert_eq!(numbers.latest(8), None);
}

#[test]
fn a_hundred_numbers_have_no_gap() {
    let mut numbers = LockTimeNumbers::new();
    for expected in 0..100u32 {
        assert_eq!(get_next_lock_time_number(&mut numbers, 500), Ok(expected));
        assert_eq!(get_next_lock_time_number(&mut numbers, 501), Ok(expected));
    }
}

use kernel::time::system::{get_offset_seconds, get_system_time, increment_offset, reset_known_time, SystemClock, HUNDRED_NS_PER_TICK};

#[test]
fn system_time_counts_from_the_last_reset() {
    let mut clock = SystemClock::new();
    increment_offset(&mut clock, 5);
    reset_known_time(&mut clock, 1000);
    assert_eq!(get_system_time(&clock).0, 1000);
    increment_offset(&mut clock, HUNDRED_NS_PER_TICK);
    increment_offset(&mut clock, 20_000_000);
    assert_eq!(get_system_time(&clock).0, 1000 + 100002 + 20_000_000);
    assert_eq!(get_offset_seconds(&clock), 2);
}

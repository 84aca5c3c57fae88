use kyosho_backup::limits::{
    calculate_file_timeout, COPY_BUFFER_SIZE, CONNECT_TIMEOUT_SECS, WHOLE_JOB_TIMEOUT_SECS,
};
use kyosho_backup::throttle::ProgressThrottle;

const MIB: u64 = 1024 * 1024;

#[test]
fn timeout_tiers_match_the_table() {
    assert_eq!(calculate_file_timeout(9 * MIB), 60);
    assert_eq!(calculate_file_timeout(10 * MIB), 120);
    assert_eq!(calculate_file_timeout(99 * MIB), 120);
    assert_eq!(calculate_file_timeout(100 * MIB), 600);
    assert_eq!(calculate_file_timeout(999 * MIB), 600);
    assert_eq!(calculate_file_timeout(1024 * MIB), 1800);
    assert_eq!(calculate_file_timeout(5 * 1024 * MIB), 1800);
}

#[test]
fn unknown_size_gets_the_smallest_tier() {
    assert_eq!(calculate_file_timeout(0), 60);
}

#[test]
fn the_largest_size_gets_the_largest_tier() {
    assert_eq!(calculate_file_timeout(u64::MAX), 1800);
}

#[test]
fn fixed_bounds() {
    assert_eq!(COPY_BUFFER_SIZE, 128 * 1024);
    assert_eq!(CONNECT_TIMEOUT_SECS, 30);
    assert_eq!(WHOLE_JOB_TIMEOUT_SECS, 7200);
}

#[test]
fn no_emission_before_interval_or_byte_delta() {
    let mut t = ProgressThrottle::new(1000);
    assert!(!t.should_update(1000, 0));
    assert!(!t.should_update(3999, 1024));
}

#[test]
fn interval_elapsed_emits_and_resets() {
    let mut t = ProgressThrottle::new(1000);
    assert!(t.should_update(4000, 10));
    // Immediately after an emission, a near-instant second check with
    // no byte delta is suppressed.
    assert!(!t.should_update(4001, 10));
}

#[test]
fn byte_delta_forces_emission_regardless_of_time() {
    let mut t = ProgressThrottle::new(1000);
    assert!(t.should_update(1000, 50 * 1024 * 1024));
    // Again, right away: another 50 MiB crossed since the reset.
    assert!(t.should_update(1000, 100 * 1024 * 1024));
    // But not a smaller delta in under the interval.
    assert!(!t.should_update(1001, 100 * 1024 * 1024 + 1));
}

#[test]
fn two_emissions_closer_than_interval_need_the_byte_delta() {
    let mut t = ProgressThrottle::new(0);
    assert!(t.should_update(3000, 0));
    assert!(!t.should_update(3500, 49 * 1024 * 1024));
    assert!(t.should_update(3500, 50 * 1024 * 1024));
}

#[test]
fn elapsed_and_speed() {
    let t = ProgressThrottle::new(2000);
    assert_eq!(t.get_elapsed_seconds(9500), 7);
    assert_eq!(t.calculate_speed(2000, 1000), None);
    assert_eq!(t.calculate_speed(2500, 1000), None);
    assert_eq!(t.calculate_speed(4000, 1000), Some(500));
}

use pendzl::schedule::VestingSchedule;

const ONE_HOUR: u64 = 60 * 60 * 1000;
const ONE_DAY: u64 = 24 * ONE_HOUR;

fn schedule(start: u64, end: u64, amount: u128, released: u128) -> VestingSchedule {
    VestingSchedule { start, end, amount, released }
}

#[test]
fn amount_releaseable_before_start_is_zero() {
    let s = schedule(100, 200, 1_000, 0);
    assert_eq!(s.amount_releaseable(0), 0);
    assert_eq!(s.amount_releaseable(99), 0);
    assert_eq!(s.amount_releaseable(100), 0);
}

#[test]
fn amount_releaseable_is_linear_and_floored() {
    // 7 units over 10 time units: the accrual is floored, never rounded up.
    let s = schedule(0, 10, 7, 0);
    assert_eq!(s.amount_releaseable(3), 2); // floor(7 * 3 / 10)
    assert_eq!(s.amount_releaseable(5), 3); // floor(7 * 5 / 10)
    assert_eq!(s.amount_releaseable(9), 6); // floor(7 * 9 / 10)
}

#[test]
fn amount_releaseable_overdue_returns_exact_remainder() {
    let s = schedule(0, 10, 7, 2);
    assert_eq!(s.amount_releaseable(10), 5);
    assert_eq!(s.amount_releaseable(1_000_000), 5);
}

#[test]
fn degenerate_schedule_releases_nothing_before_end() {
    let s = schedule(50, 50, 1_000, 0);
    assert_eq!(s.amount_releaseable(49), 0);
    assert_eq!(s.amount_releaseable(50), 1_000);
}

#[test]
fn collect_releasable_accumulates_and_sweeps_dust() {
    let mut s = schedule(0, ONE_DAY, (ONE_DAY as u128) + 1, 0);
    // Partway through, the floored accrual comes out ...
    let first = s.collect_releasable(ONE_DAY / 2);
    assert_eq!(first, (ONE_DAY as u128) / 2); // floor((ONE_DAY + 1) / 2)
    assert_eq!(s.released, first);
    // ... collecting again at the same instant yields nothing more ...
    assert_eq!(s.collect_releasable(ONE_DAY / 2), 0);
    // ... and maturity sweeps the remainder, rounding dust included.
    let rest = s.collect_releasable(ONE_DAY);
    assert_eq!(first + rest, (ONE_DAY as u128) + 1);
    assert_eq!(s.released, s.amount);
}

#[test]
fn released_is_monotonic_and_bounded() {
    let mut s = schedule(0, 1_000, 777, 0);
    let mut last = 0u128;
    for now in [0u64, 100, 250, 251, 600, 999, 1_000, 2_000] {
        s.collect_releasable(now);
        assert!(s.released >= last);
        assert!(s.released <= s.amount);
        last = s.released;
    }
    assert_eq!(s.released, s.amount);
}

#[test]
fn is_overdue_is_end_inclusive() {
    let s = schedule(0, 10, 1, 0);
    assert!(!s.is_overdue(9));
    assert!(s.is_overdue(10));
    assert!(s.is_overdue(11));
}

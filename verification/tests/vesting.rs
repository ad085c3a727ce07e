use pendzl::errors::{PSP22Error, VestingError};
use pendzl::types::AccountId;
use pendzl::vester::{ExecContext, TokenReleased, Vester, VestingEnv, VestingScheduled};

const ONE_HOUR: u64 = 60 * 60 * 1000;
const ONE_DAY: u64 = 24 * ONE_HOUR;

fn acct(n: u8) -> AccountId {
    AccountId([n; 32])
}

fn ctx(caller: AccountId, transferred_value: u128, now: u64) -> ExecContext {
    ExecContext { caller, account_id: acct(99), transferred_value, now }
}

struct MockEnv {
    fail_native: bool,
    token_error: Option<PSP22Error>,
    native_out: Vec<(AccountId, u128)>,
    token_out: Vec<(AccountId, AccountId, u128)>,
    token_in: Vec<(AccountId, AccountId, AccountId, u128)>,
}

impl MockEnv {
    fn new() -> Self {
        MockEnv {
            fail_native: false,
            token_error: None,
            native_out: Vec::new(),
            token_out: Vec::new(),
            token_in: Vec::new(),
        }
    }
}

impl VestingEnv for MockEnv {
    fn native_transfer(&mut self, to: AccountId, amount: u128) -> Result<(), ()> {
        if self.fail_native {
            return Err(());
        }
        self.native_out.push((to, amount));
        Ok(())
    }

    fn token_transfer(
        &mut self,
        token: AccountId,
        to: AccountId,
        amount: u128,
        _data: &Vec<u8>,
    ) -> Result<(), PSP22Error> {
        if let Some(e) = &self.token_error {
            return Err(e.clone());
        }
        self.token_out.push((token, to, amount));
        Ok(())
    }

    fn token_transfer_from(
        &mut self,
        token: AccountId,
        from: AccountId,
        to: AccountId,
        amount: u128,
        _data: &Vec<u8>,
    ) -> Result<(), PSP22Error> {
        if let Some(e) = &self.token_error {
            return Err(e.clone());
        }
        self.token_in.push((token, from, to, amount));
        Ok(())
    }
}

fn create_native(
    vester: &mut Vester,
    env: &mut MockEnv,
    caller: AccountId,
    to: AccountId,
    amount: u128,
    start: u64,
    end: u64,
) {
    let c = ctx(caller, amount, 0);
    let res = vester.create_vest(env, &c, to, None, amount, start, end, &Vec::new());
    assert!(res.is_ok());
}

#[test]
fn create_vest_reports_scheduled_event() {
    let mut vester = Vester::new();
    let mut env = MockEnv::new();
    let bob = acct(2);
    let charlie = acct(3);
    let c = ctx(bob, 500, 0);
    let ev = vester
        .create_vest(&mut env, &c, charlie, None, 500, 100, 200, &Vec::new())
        .unwrap();
    assert_eq!(
        ev,
        VestingScheduled {
            creator: bob,
            receiver: charlie,
            asset: None,
            amount: 500,
            vesting_start: 100,
            vesting_end: 200,
        }
    );
    assert_eq!(vester.next_id_vest_of(charlie, None, &Vec::new()), 1);
    let s = vester.vesting_schedule_of(charlie, None, 0, &Vec::new()).unwrap();
    assert_eq!(s.start, 100);
    assert_eq!(s.end, 200);
    assert_eq!(s.amount, 500);
    assert_eq!(s.released, 0);
}

#[test]
fn create_vest_native_requires_exact_payment() {
    let mut vester = Vester::new();
    let mut env = MockEnv::new();
    let bob = acct(2);
    let charlie = acct(3);
    for paid in [499u128, 501] {
        let c = ctx(bob, paid, 0);
        let res = vester.create_vest(&mut env, &c, charlie, None, 500, 100, 200, &Vec::new());
        assert_eq!(res, Err(VestingError::InvalidAmountPaid));
    }
    assert_eq!(vester.next_id_vest_of(charlie, None, &Vec::new()), 0);
}

#[test]
fn create_vest_token_pulls_via_transfer_from() {
    let mut vester = Vester::new();
    let mut env = MockEnv::new();
    let bob = acct(2);
    let charlie = acct(3);
    let token = acct(7);
    let c = ctx(bob, 0, 0);
    let res = vester.create_vest(&mut env, &c, charlie, Some(token), 500, 100, 200, &Vec::new());
    assert!(res.is_ok());
    // The amount was pulled from the caller into the vester's own account.
    assert_eq!(env.token_in, vec![(token, bob, acct(99), 500)]);
    assert_eq!(vester.next_id_vest_of(charlie, Some(token), &Vec::new()), 1);
    // The native pair of the same beneficiary is untouched.
    assert_eq!(vester.next_id_vest_of(charlie, None, &Vec::new()), 0);
}

#[test]
fn create_vest_token_error_passes_through_and_aborts() {
    let mut vester = Vester::new();
    let mut env = MockEnv::new();
    env.token_error = Some(PSP22Error::InsufficientAllowance);
    let bob = acct(2);
    let charlie = acct(3);
    let token = acct(7);
    let c = ctx(bob, 0, 0);
    let res = vester.create_vest(&mut env, &c, charlie, Some(token), 500, 100, 200, &Vec::new());
    assert_eq!(
        res,
        Err(VestingError::PSP22Error(PSP22Error::InsufficientAllowance))
    );
    assert_eq!(vester.next_id_vest_of(charlie, Some(token), &Vec::new()), 0);
}

#[test]
fn release_works() {
    let mut vester = Vester::new();
    let mut env = MockEnv::new();
    let bob = acct(2);
    let charlie = acct(3);
    let start = 365 * ONE_DAY;
    let end = start + 9 * ONE_DAY;
    let amount = (end - start) as u128; // one unit per time unit
    create_native(&mut vester, &mut env, bob, charlie, amount, start, end);

    // Before the start: the release succeeds and releases nothing.
    let ev = vester
        .release(&mut env, &ctx(charlie, 0, start - 1), None, None, &Vec::new())
        .unwrap();
    assert_eq!(
        ev,
        TokenReleased { caller: charlie, asset: None, to: charlie, amount: 0 }
    );
    let s = vester.vesting_schedule_of(charlie, None, 0, &Vec::new()).unwrap();
    assert_eq!(s.released, 0);

    // Two units in: exactly the floored accrual comes out.
    let ev = vester
        .release(&mut env, &ctx(charlie, 0, start + 2), None, None, &Vec::new())
        .unwrap();
    assert_eq!(ev.amount, 2);
    let s = vester.vesting_schedule_of(charlie, None, 0, &Vec::new()).unwrap();
    assert_eq!(s.released, 2);
    assert_eq!(s.amount, amount);
    assert_eq!(s.start, start);
    assert_eq!(s.end, end);

    // Just short of one day in: the accrual minus what already left.
    let ev = vester
        .release(&mut env, &ctx(charlie, 0, start + ONE_DAY - 1), None, None, &Vec::new())
        .unwrap();
    assert_eq!(ev.amount, (ONE_DAY - 1 - 2) as u128);
    let s = vester.vesting_schedule_of(charlie, None, 0, &Vec::new()).unwrap();
    assert_eq!(s.released, (ONE_DAY - 1) as u128);

    // Past the end: the exact remainder, and the slot is gone.
    let ev = vester
        .release(&mut env, &ctx(charlie, 0, end + 1), None, None, &Vec::new())
        .unwrap();
    assert_eq!(ev.amount, amount - (ONE_DAY - 1) as u128);
    assert_eq!(vester.next_id_vest_of(charlie, None, &Vec::new()), 0);
    assert!(vester.vesting_schedule_of(charlie, None, 0, &Vec::new()).is_none());

    // Conservation: everything paid in has been paid out, to the beneficiary.
    let paid_out: u128 = env.native_out.iter().map(|p| p.1).sum();
    assert_eq!(paid_out, amount);
    assert!(env.native_out.iter().all(|p| p.0 == charlie));
}

#[test]
fn release_when_multiple_schedules_created() {
    let mut vester = Vester::new();
    let mut env = MockEnv::new();
    let bob = acct(2);
    let charlie = acct(3);
    let t0 = 365 * ONE_DAY;
    // Five staggered schedules, one unit per time unit each:
    // one overdue, one active, three future at t0.
    let windows: [(u64, u64); 5] = [
        (t0 - 9 * ONE_DAY, t0 - 3 * ONE_DAY),
        (t0 - 6 * ONE_DAY, t0 + 3 * ONE_DAY),
        (t0 + ONE_DAY, t0 + 6 * ONE_DAY),
        (t0 + 3 * ONE_DAY, t0 + 9 * ONE_DAY),
        (t0 + 18 * ONE_DAY, t0 + 64 * ONE_DAY),
    ];
    let mut total: u128 = 0;
    for (start, end) in windows {
        let amount = (end - start) as u128;
        total += amount;
        create_native(&mut vester, &mut env, bob, charlie, amount, start, end);
    }
    assert_eq!(vester.next_id_vest_of(charlie, None, &Vec::new()), 5);

    // At t0 the overdue schedule pays its 6 days in full, the active one its
    // 6 accrued days; one aggregate event reports the combined amount, and
    // only the overdue slot is freed.
    let transfers_before = env.native_out.len();
    let ev = vester
        .release(&mut env, &ctx(charlie, 0, t0), None, None, &Vec::new())
        .unwrap();
    assert_eq!(ev.amount, (12 * ONE_DAY) as u128);
    assert_eq!(env.native_out.len(), transfers_before + 1);
    assert_eq!(vester.next_id_vest_of(charlie, None, &Vec::new()), 4);
    assert!(vester.vesting_schedule_of(charlie, None, 4, &Vec::new()).is_none());
    // Compaction moved the last schedule into the freed slot.
    let slot0 = vester.vesting_schedule_of(charlie, None, 0, &Vec::new()).unwrap();
    assert_eq!((slot0.start, slot0.end), windows[4]);
    assert_eq!(slot0.released, 0);
    let slot1 = vester.vesting_schedule_of(charlie, None, 1, &Vec::new()).unwrap();
    assert_eq!((slot1.start, slot1.end), windows[1]);
    assert_eq!(slot1.released, (6 * ONE_DAY) as u128);

    // A day past the active schedule's end: its 3-day remainder, plus what
    // the two now-active schedules have accrued.
    let ev = vester
        .release(&mut env, &ctx(charlie, 0, windows[1].1 + ONE_DAY), None, None, &Vec::new())
        .unwrap();
    assert_eq!(ev.amount, (7 * ONE_DAY) as u128);
    assert_eq!(vester.next_id_vest_of(charlie, None, &Vec::new()), 3);

    // Past every end mark: the rest comes out and the store is empty.
    let ev = vester
        .release(&mut env, &ctx(charlie, 0, windows[4].1 + 1), None, None, &Vec::new())
        .unwrap();
    assert_eq!(ev.amount, total - (19 * ONE_DAY) as u128);
    assert_eq!(vester.next_id_vest_of(charlie, None, &Vec::new()), 0);
    for id in 0..5 {
        assert!(vester.vesting_schedule_of(charlie, None, id, &Vec::new()).is_none());
    }

    // Conservation over the whole run.
    let paid_out: u128 = env.native_out.iter().map(|p| p.1).sum();
    assert_eq!(paid_out, total);
}

#[test]
fn release_on_empty_account_is_noop() {
    let mut vester = Vester::new();
    let mut env = MockEnv::new();
    let charlie = acct(3);
    let ev = vester
        .release(&mut env, &ctx(charlie, 0, 1_000), None, None, &Vec::new())
        .unwrap();
    assert_eq!(
        ev,
        TokenReleased { caller: charlie, asset: None, to: charlie, amount: 0 }
    );
}

#[test]
fn release_before_start_leaves_schedule_in_place() {
    let mut vester = Vester::new();
    let mut env = MockEnv::new();
    let bob = acct(2);
    let charlie = acct(3);
    create_native(&mut vester, &mut env, bob, charlie, 1_000, 5_000, 9_000);
    let ev = vester
        .release(&mut env, &ctx(charlie, 0, 4_995), None, None, &Vec::new())
        .unwrap();
    assert_eq!(ev.amount, 0);
    assert_eq!(vester.next_id_vest_of(charlie, None, &Vec::new()), 1);
    let s = vester.vesting_schedule_of(charlie, None, 0, &Vec::new()).unwrap();
    assert_eq!(s.released, 0);
}

#[test]
fn release_at_maturity_releases_remainder_and_removes() {
    let mut vester = Vester::new();
    let mut env = MockEnv::new();
    let bob = acct(2);
    let charlie = acct(3);
    create_native(&mut vester, &mut env, bob, charlie, 1_000, 5_000, 9_000);
    // A partial release first, then maturity sweeps exactly the rest.
    let ev = vester
        .release(&mut env, &ctx(charlie, 0, 6_000), None, None, &Vec::new())
        .unwrap();
    assert_eq!(ev.amount, 250);
    let ev = vester
        .release(&mut env, &ctx(charlie, 0, 9_000), None, None, &Vec::new())
        .unwrap();
    assert_eq!(ev.amount, 750);
    assert_eq!(vester.next_id_vest_of(charlie, None, &Vec::new()), 0);
}

#[test]
fn release_by_vest_id_missing_slot_is_noop() {
    let mut vester = Vester::new();
    let mut env = MockEnv::new();
    let charlie = acct(3);
    let ev = vester
        .release_by_vest_id(&mut env, &ctx(charlie, 0, 1_000), None, None, 7, &Vec::new())
        .unwrap();
    assert_eq!(ev.amount, 0);
}

#[test]
fn release_by_vest_id_compacts_freed_slot() {
    let mut vester = Vester::new();
    let mut env = MockEnv::new();
    let bob = acct(2);
    let charlie = acct(3);
    // Slot 0 matures first; slots 1 and 2 run much longer.
    create_native(&mut vester, &mut env, bob, charlie, 100, 0, 1_000);
    create_native(&mut vester, &mut env, bob, charlie, 200, 0, 50_000);
    create_native(&mut vester, &mut env, bob, charlie, 300, 0, 60_000);
    let ev = vester
        .release_by_vest_id(&mut env, &ctx(charlie, 0, 2_000), None, None, 0, &Vec::new())
        .unwrap();
    assert_eq!(ev.amount, 100);
    assert_eq!(vester.next_id_vest_of(charlie, None, &Vec::new()), 2);
    // The last slot moved into the freed one; the slot between is untouched.
    let slot0 = vester.vesting_schedule_of(charlie, None, 0, &Vec::new()).unwrap();
    assert_eq!(slot0.amount, 300);
    assert_eq!(slot0.end, 60_000);
    let slot1 = vester.vesting_schedule_of(charlie, None, 1, &Vec::new()).unwrap();
    assert_eq!(slot1.amount, 200);
    assert_eq!(slot1.end, 50_000);
}

#[test]
fn release_native_failure_is_terminal() {
    let mut vester = Vester::new();
    let mut env = MockEnv::new();
    let bob = acct(2);
    let charlie = acct(3);
    create_native(&mut vester, &mut env, bob, charlie, 1_000, 0, 100);
    env.fail_native = true;
    let res = vester.release(&mut env, &ctx(charlie, 0, 200), None, None, &Vec::new());
    assert_eq!(res, Err(VestingError::NativeTransferFailed));
}

#[test]
fn release_token_error_passes_through() {
    let mut vester = Vester::new();
    let mut env = MockEnv::new();
    let bob = acct(2);
    let charlie = acct(3);
    let token = acct(7);
    let c = ctx(bob, 0, 0);
    vester
        .create_vest(&mut env, &c, charlie, Some(token), 1_000, 0, 100, &Vec::new())
        .unwrap();
    env.token_error = Some(PSP22Error::InsufficientBalance);
    let res = vester.release(&mut env, &ctx(charlie, 0, 200), None, Some(token), &Vec::new());
    assert_eq!(
        res,
        Err(VestingError::PSP22Error(PSP22Error::InsufficientBalance))
    );
}

#[test]
fn third_party_can_release_to_beneficiary() {
    let mut vester = Vester::new();
    let mut env = MockEnv::new();
    let bob = acct(2);
    let charlie = acct(3);
    let dave = acct(4);
    create_native(&mut vester, &mut env, bob, charlie, 500, 0, 100);
    let ev = vester
        .release(&mut env, &ctx(dave, 0, 200), Some(charlie), None, &Vec::new())
        .unwrap();
    assert_eq!(
        ev,
        TokenReleased { caller: dave, asset: None, to: charlie, amount: 500 }
    );
    assert_eq!(env.native_out, vec![(charlie, 500)]);
}

#[test]
fn largest_amount_releases_in_full_at_maturity() {
    // A degenerate schedule carrying the full balance width: nothing accrues
    // before the end mark, everything at it, with no overflow anywhere.
    let mut vester = Vester::new();
    let mut env = MockEnv::new();
    let bob = acct(2);
    let charlie = acct(3);
    create_native(&mut vester, &mut env, bob, charlie, u128::MAX, 1_000, 1_000);
    let ev = vester
        .release(&mut env, &ctx(charlie, 0, 999), None, None, &Vec::new())
        .unwrap();
    assert_eq!(ev.amount, 0);
    let ev = vester
        .release(&mut env, &ctx(charlie, 0, 1_000), None, None, &Vec::new())
        .unwrap();
    assert_eq!(ev.amount, u128::MAX);
    assert_eq!(vester.next_id_vest_of(charlie, None, &Vec::new()), 0);
}

#[test]
fn pairs_are_tracked_independently() {
    let mut vester = Vester::new();
    let mut env = MockEnv::new();
    let bob = acct(2);
    let charlie = acct(3);
    let dave = acct(4);
    let token = acct(7);
    create_native(&mut vester, &mut env, bob, charlie, 10, 0, 100);
    create_native(&mut vester, &mut env, bob, charlie, 20, 0, 100);
    create_native(&mut vester, &mut env, bob, dave, 30, 0, 100);
    let c = ctx(bob, 0, 0);
    vester
        .create_vest(&mut env, &c, charlie, Some(token), 40, 0, 100, &Vec::new())
        .unwrap();
    assert_eq!(vester.next_id_vest_of(charlie, None, &Vec::new()), 2);
    assert_eq!(vester.next_id_vest_of(dave, None, &Vec::new()), 1);
    assert_eq!(vester.next_id_vest_of(charlie, Some(token), &Vec::new()), 1);
    // Releasing one pair leaves every other pair alone.
    vester
        .release(&mut env, &ctx(charlie, 0, 200), None, None, &Vec::new())
        .unwrap();
    assert_eq!(vester.next_id_vest_of(charlie, None, &Vec::new()), 0);
    assert_eq!(vester.next_id_vest_of(dave, None, &Vec::new()), 1);
    assert_eq!(vester.next_id_vest_of(charlie, Some(token), &Vec::new()), 1);
}

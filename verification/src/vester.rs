//! The vesting engine: the three public operations over the schedule store,
//! the transfer-gateway policy that picks between the native coin and an
//! external fungible-token contract, and the domain events.
//!
//! The host world enters through two doors and through them only: a per-call
//! [`ExecContext`] carries who called, the contract's own account, the value
//! attached to the call and the clock reading; a [`VestingEnv`] implementation
//! actually moves funds. The engine's contracts promise nothing about the
//! gateway's outcome — they pin down, for every outcome, exactly what the
//! store does and which event is produced.

use vstd::prelude::*;

use crate::errors::{PSP22Error, VestingError};
use crate::schedule::VestingSchedule;
use crate::storage::{
    one_slot_amount, one_slot_result, release_scan, sum_releasable, sum_remaining, VestingData,
};
use crate::types::{AccountId, Balance, Timestamp};

verus! {

/// What the host knows about the current call.
pub struct ExecContext {
    /// The account that sent the current message.
    pub caller: AccountId,
    /// The vesting contract's own account — where pulled-in funds live.
    pub account_id: AccountId,
    /// The native value attached to the current call.
    pub transferred_value: Balance,
    /// The clock reading for the current call.
    pub now: Timestamp,
}

/// The funds-moving side of the host: the native transfer primitive and the
/// two calls of the external fungible-token interface. Implementations are
/// the host's business; the engine is verified for every behaviour of them.
pub trait VestingEnv {
    /// Push `amount` of the native coin to `to`; the host primitive may fail
    /// opaquely.
    fn native_transfer(&mut self, to: AccountId, amount: Balance) -> Result<(), ()>;

    /// `transfer(to, amount)` on the token contract `token`.
    fn token_transfer(
        &mut self,
        token: AccountId,
        to: AccountId,
        amount: Balance,
        data: &Vec<u8>,
    ) -> Result<(), PSP22Error>;

    /// `transfer_from(from, to, amount)` on the token contract `token`,
    /// spending the engine's allowance.
    fn token_transfer_from(
        &mut self,
        token: AccountId,
        from: AccountId,
        to: AccountId,
        amount: Balance,
        data: &Vec<u8>,
    ) -> Result<(), PSP22Error>;
}

/// Emitted when vested tokens are released.
#[derive(Clone, Copy, PartialEq, Eq, Debug)]
pub struct TokenReleased {
    /// Who triggered the release.
    pub caller: AccountId,
    /// The locked asset; `None` is the native coin.
    pub asset: Option<AccountId>,
    /// The account the tokens were sent to.
    pub to: AccountId,
    /// The total amount released.
    pub amount: Balance,
}

/// Emitted when a vesting schedule is created.
#[derive(Clone, Copy, PartialEq, Eq, Debug)]
pub struct VestingScheduled {
    /// Who funded the schedule.
    pub creator: AccountId,
    /// The beneficiary.
    pub receiver: AccountId,
    /// The locked asset; `None` is the native coin.
    pub asset: Option<AccountId>,
    /// The total amount to vest.
    pub amount: Balance,
    /// When linear accrual begins.
    pub vesting_start: Timestamp,
    /// When the full amount matures.
    pub vesting_end: Timestamp,
}

/// A token contract's verdict, rewrapped in the engine's error type with the
/// token's own error kind preserved.
pub fn wrap_token_result(r: Result<(), PSP22Error>) -> (res: Result<(), VestingError>)
    ensures
        res == match r {
            Ok(_) => Ok::<(), VestingError>(()),
            Err(e) => Err::<(), VestingError>(VestingError::PSP22Error(e)),
        },
{
    match r {
        Ok(_) => Ok(()),
        Err(e) => Err(VestingError::PSP22Error(e)),
    }
}

/// The native transfer primitive's verdict, as the engine reports it.
pub fn wrap_native_result(r: Result<(), ()>) -> (res: Result<(), VestingError>)
    ensures
        res == match r {
            Ok(_) => Ok::<(), VestingError>(()),
            Err(_) => Err::<(), VestingError>(VestingError::NativeTransferFailed),
        },
{
    match r {
        Ok(_) => Ok(()),
        Err(_) => Err(VestingError::NativeTransferFailed),
    }
}

/// Pull the vested amount in. On the native path no transfer happens — the
/// value rides on the call itself — so the policy is a pure check: the
/// attached value must equal the vest amount exactly, neither more nor less,
/// or the call fails with `InvalidAmountPaid`. On the token path the amount
/// is pulled from `from` via the token contract's allowance-based
/// `transfer_from`, and any token error passes through rewrapped.
pub fn handle_transfer_in<E: VestingEnv>(
    env: &mut E,
    ctx: &ExecContext,
    asset: Option<AccountId>,
    from: AccountId,
    amount: Balance,
    data: &Vec<u8>,
) -> (r: Result<(), VestingError>)
    ensures
        asset is None ==> r == if ctx.transferred_value == amount {
            Ok::<(), VestingError>(())
        } else {
            Err::<(), VestingError>(VestingError::InvalidAmountPaid)
        },
        asset is Some ==> (r is Ok || r matches Err(VestingError::PSP22Error(_))),
{
    match asset {
        Some(token) => wrap_token_result(
            env.token_transfer_from(token, from, ctx.account_id, amount, data),
        ),
        None => {
            if ctx.transferred_value != amount {
                Err(VestingError::InvalidAmountPaid)
            } else {
                Ok(())
            }
        },
    }
}

/// Push a released amount out: the host's native transfer primitive for the
/// native coin — a failure is terminal for the call, reported as
/// `NativeTransferFailed` — or the token contract's direct `transfer`, whose
/// errors pass through rewrapped.
pub fn handle_transfer_out<E: VestingEnv>(
    env: &mut E,
    asset: Option<AccountId>,
    to: AccountId,
    amount: Balance,
    data: &Vec<u8>,
) -> (r: Result<(), VestingError>)
    ensures
        asset is None ==> (r is Ok || r == Err::<(), VestingError>(
            VestingError::NativeTransferFailed,
        )),
        asset is Some ==> (r is Ok || r matches Err(VestingError::PSP22Error(_))),
{
    match asset {
        Some(token) => wrap_token_result(env.token_transfer(token, to, amount, data)),
        None => wrap_native_result(env.native_transfer(to, amount)),
    }
}

/// The receiver a release pays to: the explicit argument, or the caller when
/// none is given — a third party may trigger a release *to* a beneficiary.
pub open spec fn effective_receiver(receiver: Option<AccountId>, caller: AccountId) -> AccountId {
    match receiver {
        Some(a) => a,
        None => caller,
    }
}

/// The vesting engine: the schedule store together with the operations a
/// contract exposes.
pub struct Vester {
    /// The schedule store.
    pub vesting: VestingData,
}

impl Vester {
    /// A fresh engine with no schedules.
    pub fn new() -> (r: Vester)
        ensures
            r.vesting.wf(),
            forall|a: AccountId, s: Option<AccountId>| #[trigger] r.vesting.schedules_of(a, s)
                =~= Seq::<VestingSchedule>::empty(),
    {
        Vester { vesting: VestingData::new() }
    }

    /// Create a vesting schedule: pull the amount in from the caller, then
    /// append a slot for the receiver, then report the event to emit. A
    /// failed pull aborts before any bookkeeping — funds-in strictly precedes
    /// the slot.
    pub fn create_vest<E: VestingEnv>(
        &mut self,
        env: &mut E,
        ctx: &ExecContext,
        receiver: AccountId,
        asset: Option<AccountId>,
        amount: Balance,
        vesting_start: Timestamp,
        vesting_end: Timestamp,
        data: &Vec<u8>,
    ) -> (r: Result<VestingScheduled, VestingError>)
        requires
            old(self).vesting.wf(),
            old(self).vesting.schedules_of(receiver, asset).len() < u32::MAX,
        ensures
            final(self).vesting.wf(),
            r is Ok ==> final(self).vesting.schedules_of(receiver, asset) == old(
                self,
            ).vesting.schedules_of(receiver, asset).push(
                VestingSchedule {
                    start: vesting_start,
                    end: vesting_end,
                    amount,
                    released: 0,
                },
            ),
            r is Ok ==> sum_remaining(final(self).vesting.schedules_of(receiver, asset))
                == sum_remaining(old(self).vesting.schedules_of(receiver, asset)) + amount,
            r is Ok ==> forall|a: AccountId, s: Option<AccountId>|
                !(a == receiver && s == asset) ==> #[trigger] final(self).vesting.schedules_of(
                    a,
                    s,
                ) == old(self).vesting.schedules_of(a, s),
            r matches Ok(ev) ==> ev == (VestingScheduled {
                creator: ctx.caller,
                receiver,
                asset,
                amount,
                vesting_start,
                vesting_end,
            }),
            r is Err ==> final(self).vesting == old(self).vesting,
            asset is None ==> (r is Ok <==> ctx.transferred_value == amount),
            asset is None && r is Err ==> r == Err::<VestingScheduled, VestingError>(
                VestingError::InvalidAmountPaid,
            ),
            asset is Some && r is Err ==> r matches Err(VestingError::PSP22Error(_)),
    {
        match handle_transfer_in(env, ctx, asset, ctx.caller, amount, data) {
            Ok(_) => {},
            Err(e) => {
                return Err(e);
            },
        }
        match self.vesting.create(receiver, asset, amount, vesting_start, vesting_end, data) {
            Ok(_) => {},
            Err(e) => {
                return Err(e);
            },
        }
        Ok(
            VestingScheduled {
                creator: ctx.caller,
                receiver,
                asset,
                amount,
                vesting_start,
                vesting_end,
            },
        )
    }

    /// Release everything releasable for the effective receiver: the store
    /// commits the scan first, the aggregate amount is pushed out after, and
    /// one event with the total is reported — amount zero included, a no-op
    /// release is not an error. If the outward transfer fails the store
    /// mutation stands in this value; the host's atomic transaction is what
    /// rolls both back together.
    pub fn release<E: VestingEnv>(
        &mut self,
        env: &mut E,
        ctx: &ExecContext,
        receiver: Option<AccountId>,
        asset: Option<AccountId>,
        data: &Vec<u8>,
    ) -> (r: Result<TokenReleased, VestingError>)
        requires
            old(self).vesting.wf(),
            forall|k: int|
                0 <= k < old(self).vesting.schedules_of(
                    effective_receiver(receiver, ctx.caller),
                    asset,
                ).len() ==> (#[trigger] old(self).vesting.schedules_of(
                    effective_receiver(receiver, ctx.caller),
                    asset,
                )[k]).release_arith_ok(ctx.now),
            sum_remaining(
                old(self).vesting.schedules_of(effective_receiver(receiver, ctx.caller), asset),
            ) <= u128::MAX,
        ensures
            final(self).vesting.wf(),
            ({
                let to = effective_receiver(receiver, ctx.caller);
                let ss = old(self).vesting.schedules_of(to, asset);
                let scan = release_scan(ss, 0, ctx.now);
                &&& final(self).vesting.schedules_of(to, asset) == scan.0
                &&& forall|a: AccountId, s: Option<AccountId>|
                    !(a == to && s == asset) ==> #[trigger] final(self).vesting.schedules_of(a, s)
                        == old(self).vesting.schedules_of(a, s)
                &&& (r matches Ok(ev) ==> ev == (TokenReleased {
                    caller: ctx.caller,
                    asset,
                    to,
                    amount: scan.1 as Balance,
                }))
                &&& scan.1 == sum_releasable(ss, ctx.now)
                &&& sum_remaining(scan.0) + scan.1 == sum_remaining(ss)
                &&& (asset is None && r is Err ==> r == Err::<TokenReleased, VestingError>(
                    VestingError::NativeTransferFailed,
                ))
                &&& (asset is Some && r is Err ==> r matches Err(VestingError::PSP22Error(_)))
            }),
    {
        let to = match receiver {
            Some(a) => a,
            None => ctx.caller,
        };
        let total = match self.vesting.release(to, asset, ctx.now, data) {
            Ok(t) => t,
            Err(e) => {
                return Err(e);
            },
        };
        match handle_transfer_out(env, asset, to, total, data) {
            Ok(_) => {},
            Err(e) => {
                return Err(e);
            },
        }
        Ok(TokenReleased { caller: ctx.caller, asset, to, amount: total })
    }

    /// Release one slot of the effective receiver by its id, with the same
    /// commit-then-transfer-then-event pattern as [`Self::release`]. A slot
    /// that does not exist releases zero and is not an error.
    pub fn release_by_vest_id<E: VestingEnv>(
        &mut self,
        env: &mut E,
        ctx: &ExecContext,
        receiver: Option<AccountId>,
        asset: Option<AccountId>,
        id: u32,
        data: &Vec<u8>,
    ) -> (r: Result<TokenReleased, VestingError>)
        requires
            old(self).vesting.wf(),
            id < old(self).vesting.schedules_of(
                effective_receiver(receiver, ctx.caller),
                asset,
            ).len() ==> old(self).vesting.schedules_of(
                effective_receiver(receiver, ctx.caller),
                asset,
            )[id as int].release_arith_ok(ctx.now),
        ensures
            final(self).vesting.wf(),
            ({
                let to = effective_receiver(receiver, ctx.caller);
                let ss = old(self).vesting.schedules_of(to, asset);
                &&& final(self).vesting.schedules_of(to, asset) == one_slot_result(
                    ss,
                    id as int,
                    ctx.now,
                )
                &&& forall|a: AccountId, s: Option<AccountId>|
                    !(a == to && s == asset) ==> #[trigger] final(self).vesting.schedules_of(a, s)
                        == old(self).vesting.schedules_of(a, s)
                &&& (r matches Ok(ev) ==> ev == (TokenReleased {
                    caller: ctx.caller,
                    asset,
                    to,
                    amount: one_slot_amount(ss, id as int, ctx.now) as Balance,
                }))
                &&& sum_remaining(final(self).vesting.schedules_of(to, asset)) + one_slot_amount(
                    ss,
                    id as int,
                    ctx.now,
                ) == sum_remaining(ss)
                &&& (asset is None && r is Err ==> r == Err::<TokenReleased, VestingError>(
                    VestingError::NativeTransferFailed,
                ))
                &&& (asset is Some && r is Err ==> r matches Err(VestingError::PSP22Error(_)))
            }),
    {
        let to = match receiver {
            Some(a) => a,
            None => ctx.caller,
        };
        let amount_released = match self.vesting.release_by_vest_id(to, asset, id, ctx.now, data) {
            Ok((_, amt)) => amt,
            Err(e) => {
                return Err(e);
            },
        };
        match handle_transfer_out(env, asset, to, amount_released, data) {
            Ok(_) => {},
            Err(e) => {
                return Err(e);
            },
        }
        Ok(TokenReleased { caller: ctx.caller, asset, to, amount: amount_released })
    }

    /// Read-only lookup of one schedule; `None` for a slot that does not
    /// exist — never an error.
    pub fn vesting_schedule_of(
        &self,
        of: AccountId,
        asset: Option<AccountId>,
        id: u32,
        data: &Vec<u8>,
    ) -> (r: Option<VestingSchedule>)
        requires
            self.vesting.wf(),
        ensures
            r == if id < self.vesting.schedules_of(of, asset).len() {
                Some(self.vesting.schedules_of(of, asset)[id as int])
            } else {
                None::<VestingSchedule>
            },
    {
        self.vesting.get_schedule_by_id(of, asset, id, data)
    }

    /// The next free slot index of a pair — equally, its count of live slots.
    pub fn next_id_vest_of(
        &self,
        of: AccountId,
        asset: Option<AccountId>,
        data: &Vec<u8>,
    ) -> (r: u32)
        requires
            self.vesting.wf(),
        ensures
            r == self.vesting.schedules_of(of, asset).len(),
    {
        self.vesting.next_id_of(of, asset, data)
    }
}

impl Default for Vester {
    /// A fresh engine with no schedules.
    fn default() -> (r: Vester)
        ensures
            r.vesting.wf(),
            forall|a: AccountId, s: Option<AccountId>| #[trigger] r.vesting.schedules_of(a, s)
                =~= Seq::<VestingSchedule>::empty(),
    {
        Vester::new()
    }
}

} // verus!

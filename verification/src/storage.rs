//! The schedule store: for every (beneficiary, asset) pair a dense array of
//! live vesting schedules, emulated over per-pair entries.
//!
//! Slots `0 .. next_id` are exactly the live schedules, with no holes. A slot
//! is freed by copying the last live slot into it and shrinking by one — the
//! swap-remove compaction — so the account-wide release loop must re-scan a
//! slot it just freed and shrink its own bound instead of advancing.

use vstd::multiset::Multiset;
use vstd::prelude::*;

use crate::errors::VestingError;
use crate::schedule::VestingSchedule;
use crate::types::{account_eq, asset_eq, AccountId, Balance, Timestamp};

verus! {

/// The live schedules of one (beneficiary, asset) pair.
pub struct AccountVests {
    /// The beneficiary.
    pub account: AccountId,
    /// The vested asset; `None` is the native coin.
    pub asset: Option<AccountId>,
    /// The dense array of live schedules; its length is the pair's `next_id`.
    pub schedules: Vec<VestingSchedule>,
}

/// Does `e` hold the schedules of (`of`, `asset`)?
pub open spec fn key_matches(e: AccountVests, of: AccountId, asset: Option<AccountId>) -> bool {
    e.account == of && e.asset == asset
}

impl AccountVests {
    /// Slot indices fit the id width and every schedule is well-formed.
    pub open spec fn wf(self) -> bool {
        &&& self.schedules@.len() <= u32::MAX
        &&& forall|k: int|
            0 <= k < self.schedules@.len() ==> (#[trigger] self.schedules@[k]).wf()
    }
}

/// One store serves all beneficiaries and all assets.
pub struct VestingData {
    /// One entry per (beneficiary, asset) pair that ever held a schedule.
    pub entries: Vec<AccountVests>,
}

impl VestingData {
    /// No two entries share a key, and every entry is well-formed.
    pub open spec fn wf(self) -> bool {
        &&& forall|i: int, j: int|
            0 <= i < j < self.entries@.len() ==> !((#[trigger] self.entries@[i]).account
                == (#[trigger] self.entries@[j]).account && self.entries@[i].asset
                == self.entries@[j].asset)
        &&& forall|i: int| 0 <= i < self.entries@.len() ==> (#[trigger] self.entries@[i]).wf()
    }

    /// Does the store hold an entry for this pair?
    pub open spec fn has_key(self, of: AccountId, asset: Option<AccountId>) -> bool {
        exists|i: int|
            0 <= i < self.entries@.len() && key_matches(#[trigger] self.entries@[i], of, asset)
    }

    /// The index of the pair's entry (meaningful only when `has_key`).
    pub open spec fn key_idx(self, of: AccountId, asset: Option<AccountId>) -> int {
        choose|i: int|
            0 <= i < self.entries@.len() && key_matches(#[trigger] self.entries@[i], of, asset)
    }

    /// The pair's live schedules, in slot order; empty for an unknown pair.
    pub open spec fn schedules_of(self, of: AccountId, asset: Option<AccountId>) -> Seq<
        VestingSchedule,
    > {
        if self.has_key(of, asset) {
            self.entries@[self.key_idx(of, asset)].schedules@
        } else {
            Seq::<VestingSchedule>::empty()
        }
    }

    /// In a well-formed store a matching entry is the unique one, so the
    /// chosen index is exactly it.
    pub proof fn lemma_key_idx_is(self, of: AccountId, asset: Option<AccountId>, k: int)
        requires
            self.wf(),
            0 <= k < self.entries@.len(),
            key_matches(self.entries@[k], of, asset),
        ensures
            self.has_key(of, asset),
            self.key_idx(of, asset) == k,
            self.schedules_of(of, asset) == self.entries@[k].schedules@,
    {
        assert(self.has_key(of, asset));
        let i = self.key_idx(of, asset);
        assert(0 <= i < self.entries@.len() && key_matches(self.entries@[i], of, asset));
        if i != k {
            if i < k {
                assert(!(self.entries@[i].account == self.entries@[k].account
                    && self.entries@[i].asset == self.entries@[k].asset));
            } else {
                assert(!(self.entries@[k].account == self.entries@[i].account
                    && self.entries@[k].asset == self.entries@[i].asset));
            }
        }
    }

    /// An empty store.
    pub fn new() -> (r: VestingData)
        ensures
            r.wf(),
            r.entries@.len() == 0,
            forall|a: AccountId, s: Option<AccountId>| #[trigger] r.schedules_of(a, s) =~= Seq::<
                VestingSchedule,
            >::empty(),
    {
        VestingData { entries: Vec::new() }
    }

    /// The index of the pair's entry, found by scanning.
    fn find_entry(&self, of: AccountId, asset: Option<AccountId>) -> (r: Option<usize>)
        requires
            self.wf(),
        ensures
            match r {
                Some(k) => {
                    &&& k < self.entries@.len()
                    &&& key_matches(self.entries@[k as int], of, asset)
                    &&& self.has_key(of, asset)
                    &&& self.key_idx(of, asset) == k
                },
                None => !self.has_key(of, asset),
            },
    {
        let n = self.entries.len();
        let mut i: usize = 0;
        while i < n
            invariant
                self.wf(),
                n == self.entries@.len(),
                i <= n,
                forall|j: int| 0 <= j < i ==> !key_matches(#[trigger] self.entries@[j], of, asset),
            decreases n - i,
        {
            let e = &self.entries[i];
            if account_eq(&e.account, &of) && asset_eq(&e.asset, &asset) {
                proof {
                    self.lemma_key_idx_is(of, asset, i as int);
                }
                return Some(i);
            }
            i = i + 1;
        }
        None
    }

    /// The pair's `next_id`: the count of its live slots, which is also the
    /// index the next created schedule will take.
    pub fn next_id_of(&self, of: AccountId, asset: Option<AccountId>, _data: &Vec<u8>) -> (r: u32)
        requires
            self.wf(),
        ensures
            r == self.schedules_of(of, asset).len(),
    {
        match self.find_entry(of, asset) {
            Some(k) => self.entries[k].schedules.len() as u32,
            None => 0,
        }
    }

    /// Read-only lookup of one slot; `None` for a slot that does not exist.
    pub fn get_schedule_by_id(
        &self,
        of: AccountId,
        asset: Option<AccountId>,
        id: u32,
        _data: &Vec<u8>,
    ) -> (r: Option<VestingSchedule>)
        requires
            self.wf(),
        ensures
            r == if id < self.schedules_of(of, asset).len() {
                Some(self.schedules_of(of, asset)[id as int])
            } else {
                None::<VestingSchedule>
            },
    {
        match self.find_entry(of, asset) {
            Some(k) => {
                let e = &self.entries[k];
                if (id as usize) < e.schedules.len() {
                    Some(e.schedules[id as usize])
                } else {
                    None
                }
            },
            None => None,
        }
    }

    /// Append a new schedule at the pair's next free slot, with nothing
    /// released yet. Funds sufficiency is the engine's business, checked
    /// before this is called; the store itself never fails.
    pub fn create(
        &mut self,
        to: AccountId,
        asset: Option<AccountId>,
        amount: Balance,
        vesting_start: Timestamp,
        vesting_end: Timestamp,
        _data: &Vec<u8>,
    ) -> (r: Result<(), VestingError>)
        requires
            old(self).wf(),
            old(self).schedules_of(to, asset).len() < u32::MAX,
        ensures
            r is Ok,
            final(self).wf(),
            final(self).schedules_of(to, asset) == old(self).schedules_of(to, asset).push(
                VestingSchedule { start: vesting_start, end: vesting_end, amount, released: 0 },
            ),
            sum_remaining(final(self).schedules_of(to, asset)) == sum_remaining(
                old(self).schedules_of(to, asset),
            ) + amount,
            forall|a: AccountId, s: Option<AccountId>|
                !(a == to && s == asset) ==> #[trigger] final(self).schedules_of(a, s) == old(
                    self,
                ).schedules_of(a, s),
    {
        let new_schedule = VestingSchedule {
            start: vesting_start,
            end: vesting_end,
            amount,
            released: 0,
        };
        match self.find_entry(to, asset) {
            Some(k) => {
                self.entries[k].schedules.push(new_schedule);
                proof {
                    assert(self.wf());
                    self.lemma_key_idx_is(to, asset, k as int);
                    assert(self.schedules_of(to, asset) =~= old(self).schedules_of(to, asset).push(
                        new_schedule,
                    ));
                    assert forall|a: AccountId, s: Option<AccountId>| !(a == to && s == asset)
                        implies #[trigger] self.schedules_of(a, s) == old(self).schedules_of(
                        a,
                        s,
                    ) by {
                        old(self).lemma_same_schedules_elsewhere(*self, a, s);
                    }
                }
            },
            None => {
                let mut schedules: Vec<VestingSchedule> = Vec::new();
                schedules.push(new_schedule);
                self.entries.push(AccountVests { account: to, asset, schedules });
                proof {
                    let n = old(self).entries@.len();
                    assert(self.entries@[n as int].schedules@ =~= Seq::<
                        VestingSchedule,
                    >::empty().push(new_schedule));
                    assert(self.wf());
                    self.lemma_key_idx_is(to, asset, n as int);
                    assert(old(self).schedules_of(to, asset) =~= Seq::<VestingSchedule>::empty());
                    assert(self.schedules_of(to, asset) =~= old(self).schedules_of(to, asset).push(
                        new_schedule,
                    ));
                    assert forall|a: AccountId, s: Option<AccountId>| !(a == to && s == asset)
                        implies #[trigger] self.schedules_of(a, s) == old(self).schedules_of(
                        a,
                        s,
                    ) by {
                        old(self).lemma_same_schedules_elsewhere(*self, a, s);
                    }
                }
            },
        }
        proof {
            lemma_sum_remaining_push(old(self).schedules_of(to, asset), new_schedule);
        }
        Ok(())
    }

    /// Free one slot at `id`: collect what is releasable; if the schedule is
    /// then overdue, sweep any remainder into the reported amount and compact
    /// the store by swapping the last live slot into `id`. A slot that does
    /// not exist is an idempotent no-op, never an error — the account-wide
    /// release loop may legitimately pass an index it already compacted away.
    pub fn release_by_vest_id(
        &mut self,
        to: AccountId,
        asset: Option<AccountId>,
        id: u32,
        now: Timestamp,
        _data: &Vec<u8>,
    ) -> (r: Result<(bool, Balance), VestingError>)
        requires
            old(self).wf(),
            id < old(self).schedules_of(to, asset).len() ==> old(self).schedules_of(
                to,
                asset,
            )[id as int].release_arith_ok(now),
        ensures
            final(self).wf(),
            forall|a: AccountId, s: Option<AccountId>|
                !(a == to && s == asset) ==> #[trigger] final(self).schedules_of(a, s) == old(
                    self,
                ).schedules_of(a, s),
            release_one_post(
                old(self).schedules_of(to, asset),
                final(self).schedules_of(to, asset),
                id as int,
                now,
                r,
            ),
            sum_remaining(final(self).schedules_of(to, asset)) + one_slot_amount(
                old(self).schedules_of(to, asset),
                id as int,
                now,
            ) == sum_remaining(old(self).schedules_of(to, asset)),
    {
        let k = match self.find_entry(to, asset) {
            Some(k) => k,
            None => {
                return Ok((false, 0));
            },
        };
        let idx = id as usize;
        if idx >= self.entries[k].schedules.len() {
            return Ok((false, 0));
        }
        let ghost ss = self.schedules_of(to, asset);
        let mut s = self.entries[k].schedules[idx];
        let amount_released = s.collect_releasable(now);
        if s.is_overdue(now) {
            let leftover = s.amount - s.released;
            proof {
                ss[id as int].lemma_full_release_at_maturity(now);
                assert(leftover == 0);
            }
            let _tail = self.entries[k].schedules.swap_remove(idx);
            proof {
                lemma_sums_removed_slot(ss, id as int, now);
                assert(self.entries@[k as int].schedules@ =~= removed_slot(ss, id as int));
                assert forall|q: int|
                    0 <= q < self.entries@[k as int].schedules@.len() implies (
                #[trigger] self.entries@[k as int].schedules@[q]).wf() by {
                    assert(self.entries@[k as int].schedules@[q] == ss.update(
                        id as int,
                        ss.last(),
                    )[q]);
                }
                assert(self.wf());
                self.lemma_key_idx_is(to, asset, k as int);
                assert forall|a: AccountId, s2: Option<AccountId>| !(a == to && s2 == asset)
                    implies #[trigger] self.schedules_of(a, s2) == old(self).schedules_of(
                    a,
                    s2,
                ) by {
                    old(self).lemma_same_schedules_elsewhere(*self, a, s2);
                }
            }
            Ok((true, amount_released + leftover))
        } else {
            self.entries[k].schedules[idx] = s;
            proof {
                ss[id as int].lemma_releasable_bounds(now);
                lemma_sums_update(ss, id as int, ss[id as int].after_release(now), now);
                assert(self.entries@[k as int].schedules@ =~= ss.update(
                    id as int,
                    ss[id as int].after_release(now),
                ));
                assert(self.wf());
                self.lemma_key_idx_is(to, asset, k as int);
                assert forall|a: AccountId, s2: Option<AccountId>| !(a == to && s2 == asset)
                    implies #[trigger] self.schedules_of(a, s2) == old(self).schedules_of(
                    a,
                    s2,
                ) by {
                    old(self).lemma_same_schedules_elsewhere(*self, a, s2);
                }
            }
            Ok((false, amount_released))
        }
    }

    /// In a well-formed store every slot of every pair is well-formed and
    /// the slot count fits the id width.
    pub proof fn lemma_schedules_wf(self, of: AccountId, asset: Option<AccountId>)
        requires
            self.wf(),
        ensures
            forall|k: int|
                0 <= k < self.schedules_of(of, asset).len() ==> (#[trigger] self.schedules_of(
                    of,
                    asset,
                )[k]).wf(),
            self.schedules_of(of, asset).len() <= u32::MAX,
    {
        if self.has_key(of, asset) {
            let i = self.key_idx(of, asset);
            assert(0 <= i < self.entries@.len() && key_matches(self.entries@[i], of, asset));
            assert(self.entries@[i].wf());
        }
    }

    /// Release everything releasable for one (beneficiary, asset) pair: walk
    /// the slots from zero, collecting at each position; when a slot is freed
    /// the position is re-scanned — the tail just moved into it — and the
    /// tracked bound shrinks, otherwise the position advances. Returns the
    /// total paid out; an account with no schedules is a no-op returning
    /// zero, never an error.
    pub fn release(
        &mut self,
        to: AccountId,
        asset: Option<AccountId>,
        now: Timestamp,
        data: &Vec<u8>,
    ) -> (r: Result<Balance, VestingError>)
        requires
            old(self).wf(),
            forall|k: int|
                0 <= k < old(self).schedules_of(to, asset).len() ==> (#[trigger] old(
                    self,
                ).schedules_of(to, asset)[k]).release_arith_ok(now),
            sum_remaining(old(self).schedules_of(to, asset)) <= u128::MAX,
        ensures
            final(self).wf(),
            forall|a: AccountId, s: Option<AccountId>|
                !(a == to && s == asset) ==> #[trigger] final(self).schedules_of(a, s) == old(
                    self,
                ).schedules_of(a, s),
            ({
                let ss = old(self).schedules_of(to, asset);
                let scan = release_scan(ss, 0, now);
                &&& r == Ok::<Balance, VestingError>(scan.1 as Balance)
                &&& final(self).schedules_of(to, asset) == scan.0
                &&& scan.1 == sum_releasable(ss, now)
                &&& sum_remaining(scan.0) + scan.1 == sum_remaining(ss)
            }),
    {
        let ghost orig = *self;
        let ghost old_ss = self.schedules_of(to, asset);
        proof {
            self.lemma_schedules_wf(to, asset);
            lemma_scan_props(old_ss, 0, now);
            lemma_sum_bounds(old_ss, now);
            assert(old_ss.skip(0) =~= old_ss);
        }
        let mut current_id: u32 = 0;
        let mut len: u32 = self.next_id_of(to, asset, data);
        let mut total: Balance = 0;
        while current_id < len
            invariant
                self.wf(),
                len == self.schedules_of(to, asset).len(),
                current_id <= len,
                forall|k: int|
                    current_id <= k < len ==> (#[trigger] self.schedules_of(to, asset)[
                    k]).release_arith_ok(now),
                forall|a: AccountId, s: Option<AccountId>|
                    !(a == to && s == asset) ==> #[trigger] self.schedules_of(a, s)
                        == orig.schedules_of(a, s),
                old_ss == orig.schedules_of(to, asset),
                forall|k: int| 0 <= k < old_ss.len() ==> (#[trigger] old_ss[k]).wf(),
                forall|k: int| 0 <= k < old_ss.len() ==> (#[trigger] old_ss[k]).release_arith_ok(
                    now,
                ),
                sum_remaining(old_ss) <= u128::MAX,
                release_scan(old_ss, 0, now).0 == release_scan(
                    self.schedules_of(to, asset),
                    current_id as int,
                    now,
                ).0,
                release_scan(old_ss, 0, now).1 == total + release_scan(
                    self.schedules_of(to, asset),
                    current_id as int,
                    now,
                ).1,
            decreases len - current_id,
        {
            let ghost cur = self.schedules_of(to, asset);
            let res = self.release_by_vest_id(to, asset, current_id, now, data);
            match res {
                Ok((removed, amount_released)) => {
                    proof {
                        let i = current_id as int;
                        let s = cur[i];
                        let rel = s.releasable_at(now);
                        let new_cur = self.schedules_of(to, asset);
                        s.lemma_releasable_bounds(now);
                        self.lemma_schedules_wf(to, asset);
                        if removed {
                            assert(new_cur == removed_slot(cur, i));
                            assert(release_scan(cur, i, now).0 == release_scan(
                                new_cur,
                                i,
                                now,
                            ).0);
                            assert(release_scan(cur, i, now).1 == rel + release_scan(
                                new_cur,
                                i,
                                now,
                            ).1);
                            assert forall|k: int| i <= k < new_cur.len() implies (
                            #[trigger] new_cur[k]).release_arith_ok(now) by {
                                assert(new_cur[k] == cur.update(i, cur.last())[k]);
                            }
                            lemma_scan_props(new_cur, i, now);
                        } else {
                            assert(new_cur == cur.update(i, s.after_release(now)));
                            assert(release_scan(cur, i, now).0 == release_scan(
                                new_cur,
                                i + 1,
                                now,
                            ).0);
                            assert(release_scan(cur, i, now).1 == rel + release_scan(
                                new_cur,
                                i + 1,
                                now,
                            ).1);
                            assert forall|k: int| i + 1 <= k < new_cur.len() implies (
                            #[trigger] new_cur[k]).release_arith_ok(now) by {
                                assert(new_cur[k] == cur[k]);
                            }
                            lemma_scan_props(new_cur, i + 1, now);
                        }
                        lemma_scan_props(old_ss, 0, now);
                        lemma_sum_bounds(old_ss, now);
                        assert(old_ss.skip(0) =~= old_ss);
                        assert(total + amount_released <= u128::MAX);
                    }
                    total = total + amount_released;
                    if removed {
                        len = len - 1;
                    } else {
                        current_id = current_id + 1;
                    }
                },
                Err(e) => {
                    return Err(e);
                },
            }
        }
        proof {
            let cur = self.schedules_of(to, asset);
            assert(release_scan(cur, current_id as int, now) == (cur, 0int));
            lemma_scan_props(old_ss, 0, now);
            assert(old_ss.skip(0) =~= old_ss);
        }
        Ok(total)
    }

    /// Two stores whose entries agree on every key outside (`of`, `asset`) —
    /// same keys at the same positions, same schedules wherever the key is
    /// another one — give that other pair the same view.
    proof fn lemma_same_schedules_elsewhere(
        self,
        other: VestingData,
        a: AccountId,
        s: Option<AccountId>,
    )
        requires
            self.wf(),
            other.wf(),
            forall|i: int|
                0 <= i < self.entries@.len() ==> other.entries@.len() > i && (
                #[trigger] other.entries@[i]).account == self.entries@[i].account
                    && other.entries@[i].asset == self.entries@[i].asset,
            forall|i: int|
                self.entries@.len() <= i < other.entries@.len() ==> !key_matches(
                    #[trigger] other.entries@[i],
                    a,
                    s,
                ),
            forall|i: int|
                0 <= i < self.entries@.len() && key_matches(#[trigger] self.entries@[i], a, s)
                    ==> other.entries@[i].schedules@ == self.entries@[i].schedules@,
        ensures
            other.schedules_of(a, s) == self.schedules_of(a, s),
    {
        if self.has_key(a, s) {
            let k = self.key_idx(a, s);
            assert(0 <= k < self.entries@.len() && key_matches(self.entries@[k], a, s));
            assert(key_matches(other.entries@[k], a, s));
            other.lemma_key_idx_is(a, s, k);
        } else {
            if other.has_key(a, s) {
                let k = other.key_idx(a, s);
                assert(0 <= k < other.entries@.len() && key_matches(other.entries@[k], a, s));
                assert(k < self.entries@.len() ==> key_matches(self.entries@[k], a, s));
            }
        }
    }
}

/// The slot sequence after freeing slot `id`: the last slot is copied into
/// `id` and the length shrinks by one. For `id` at the very end the copy is a
/// self-copy and only the shrink remains.
pub open spec fn removed_slot(ss: Seq<VestingSchedule>, id: int) -> Seq<VestingSchedule>
    recommends
        0 <= id < ss.len(),
{
    ss.update(id, ss.last()).drop_last()
}

/// Compaction correctness: freeing slot `id` moves exactly the last slot's
/// schedule into `id`, shrinks the count by one, and touches no other slot.
pub proof fn lemma_compaction_correct(ss: Seq<VestingSchedule>, id: int)
    requires
        0 <= id < ss.len(),
    ensures
        removed_slot(ss, id).len() == ss.len() - 1,
        id < ss.len() - 1 ==> removed_slot(ss, id)[id] == ss.last(),
        forall|k: int| 0 <= k < ss.len() - 1 && k != id ==> removed_slot(ss, id)[k] == ss[k],
{
}

/// What one targeted release leaves in the pair's slots: them unchanged for
/// an absent slot, the compacted sequence for an overdue one, an in-place
/// collect for a live one.
pub open spec fn one_slot_result(ss: Seq<VestingSchedule>, id: int, now: Timestamp) -> Seq<
    VestingSchedule,
> {
    if !(0 <= id < ss.len()) {
        ss
    } else if now >= ss[id].end {
        removed_slot(ss, id)
    } else {
        ss.update(id, ss[id].after_release(now))
    }
}

/// What one targeted release pays out.
pub open spec fn one_slot_amount(ss: Seq<VestingSchedule>, id: int, now: Timestamp) -> int {
    if 0 <= id < ss.len() {
        ss[id].releasable_at(now)
    } else {
        0
    }
}

/// What one `release_by_vest_id` call does to a pair's slots: nothing for an
/// absent slot, compaction with the exact remainder swept for an overdue one,
/// an in-place collect for a live one — and in every case `Ok`.
pub open spec fn release_one_post(
    ss: Seq<VestingSchedule>,
    ss2: Seq<VestingSchedule>,
    id: int,
    now: Timestamp,
    r: Result<(bool, Balance), VestingError>,
) -> bool {
    if !(0 <= id < ss.len()) {
        r == Ok::<(bool, Balance), VestingError>((false, 0 as Balance)) && ss2 == ss
    } else {
        let s = ss[id];
        if now >= s.end {
            &&& r == Ok::<(bool, Balance), VestingError>((true, s.releasable_at(now) as Balance))
            &&& ss2 == removed_slot(ss, id)
        } else {
            &&& r == Ok::<(bool, Balance), VestingError>((false, s.releasable_at(now) as Balance))
            &&& ss2 == ss.update(id, s.after_release(now))
        }
    }
}

/// The sum of what a release at `now` would pay out over these slots.
pub open spec fn sum_releasable(ss: Seq<VestingSchedule>, now: Timestamp) -> int
    decreases ss.len(),
{
    if ss.len() == 0 {
        0
    } else {
        sum_releasable(ss.drop_last(), now) + ss.last().releasable_at(now)
    }
}

/// The locked value still held by these slots: the sum of `amount - released`.
pub open spec fn sum_remaining(ss: Seq<VestingSchedule>) -> int
    decreases ss.len(),
{
    if ss.len() == 0 {
        0
    } else {
        sum_remaining(ss.drop_last()) + (ss.last().amount - ss.last().released)
    }
}

/// Appending a schedule adds exactly its locked value to the pair's total.
pub proof fn lemma_sum_remaining_push(ss: Seq<VestingSchedule>, v: VestingSchedule)
    ensures
        sum_remaining(ss.push(v)) == sum_remaining(ss) + (v.amount - v.released),
{
    assert(ss.push(v).drop_last() =~= ss);
    assert(ss.push(v).last() == v);
}

/// Idempotent empty release: scanning an account with no schedules leaves it
/// as it is and pays out exactly zero — a no-op, never an error.
pub proof fn lemma_empty_release(ss: Seq<VestingSchedule>, now: Timestamp)
    requires
        ss.len() == 0,
    ensures
        release_scan(ss, 0, now).0 == ss,
        release_scan(ss, 0, now).1 == 0,
        sum_releasable(ss, now) == 0,
{
}

/// Replacing one slot changes each sum by exactly that slot's contribution.
proof fn lemma_sums_update(ss: Seq<VestingSchedule>, i: int, v: VestingSchedule, now: Timestamp)
    requires
        0 <= i < ss.len(),
    ensures
        sum_releasable(ss.update(i, v), now) == sum_releasable(ss, now) - ss[i].releasable_at(now)
            + v.releasable_at(now),
        sum_remaining(ss.update(i, v)) == sum_remaining(ss) - (ss[i].amount - ss[i].released) + (
        v.amount - v.released),
    decreases ss.len(),
{
    if i == ss.len() - 1 {
        assert(ss.update(i, v).drop_last() =~= ss.drop_last());
        assert(ss.update(i, v).last() == v);
    } else {
        assert(ss.update(i, v).drop_last() =~= ss.drop_last().update(i, v));
        assert(ss.update(i, v).last() == ss.last());
        lemma_sums_update(ss.drop_last(), i, v, now);
    }
}

/// Freeing a slot removes exactly its contribution from each sum.
proof fn lemma_sums_removed_slot(ss: Seq<VestingSchedule>, i: int, now: Timestamp)
    requires
        0 <= i < ss.len(),
    ensures
        sum_releasable(removed_slot(ss, i), now) == sum_releasable(ss, now) - ss[i].releasable_at(
            now,
        ),
        sum_remaining(removed_slot(ss, i)) == sum_remaining(ss) - (ss[i].amount - ss[i].released),
{
    lemma_sums_update(ss, i, ss.last(), now);
    assert(ss.update(i, ss.last()).last() == ss.last());
    assert(removed_slot(ss, i) == ss.update(i, ss.last()).drop_last());
}

/// Each sum splits at any cut point into the sum over the prefix and the sum
/// over the rest.
proof fn lemma_sums_split(ss: Seq<VestingSchedule>, i: int, now: Timestamp)
    requires
        0 <= i <= ss.len(),
    ensures
        sum_releasable(ss, now) == sum_releasable(ss.take(i), now) + sum_releasable(
            ss.skip(i),
            now,
        ),
        sum_remaining(ss) == sum_remaining(ss.take(i)) + sum_remaining(ss.skip(i)),
    decreases ss.len(),
{
    if i == ss.len() {
        assert(ss.take(i) =~= ss);
        assert(ss.skip(i) =~= Seq::<VestingSchedule>::empty());
    } else {
        lemma_sums_split(ss.drop_last(), i, now);
        assert(ss.take(i) =~= ss.drop_last().take(i));
        assert(ss.skip(i).drop_last() =~= ss.drop_last().skip(i));
        assert(ss.skip(i).last() == ss.last());
    }
}

/// Over well-formed slots whose release arithmetic is defined, the total
/// releasable is nonnegative and never exceeds the locked value.
pub proof fn lemma_sum_bounds(ss: Seq<VestingSchedule>, now: Timestamp)
    requires
        forall|k: int| 0 <= k < ss.len() ==> (#[trigger] ss[k]).wf(),
        forall|k: int| 0 <= k < ss.len() ==> (#[trigger] ss[k]).release_arith_ok(now),
    ensures
        0 <= sum_releasable(ss, now) <= sum_remaining(ss),
        0 <= sum_remaining(ss),
    decreases ss.len(),
{
    if ss.len() > 0 {
        lemma_sum_bounds(ss.drop_last(), now);
        ss.last().lemma_releasable_bounds(now);
    }
}

/// The account-wide release scan, as a mathematical function of the starting
/// slots: the exact sequence of slots it leaves behind and the exact total it
/// pays out. Freeing a slot re-scans the same position (the tail just moved
/// there); a kept slot advances the position.
pub open spec fn release_scan(ss: Seq<VestingSchedule>, i: int, now: Timestamp) -> (Seq<
    VestingSchedule,
>, int)
    decreases ss.len() - i,
    when 0 <= i <= ss.len()
{
    if i >= ss.len() {
        (ss, 0)
    } else {
        let s = ss[i];
        let rel = s.releasable_at(now);
        if now >= s.end {
            let next = release_scan(removed_slot(ss, i), i, now);
            (next.0, rel + next.1)
        } else {
            let next = release_scan(ss.update(i, s.after_release(now)), i + 1, now);
            (next.0, rel + next.1)
        }
    }
}

/// What the release scan guarantees: it pays out exactly the releasable sum
/// of the slots it scans, it conserves locked value plus payout, it never
/// grows the slot array, it leaves already-scanned slots alone, and it keeps
/// every slot well-formed.
pub proof fn lemma_scan_props(ss: Seq<VestingSchedule>, i: int, now: Timestamp)
    requires
        0 <= i <= ss.len(),
        forall|k: int| 0 <= k < ss.len() ==> (#[trigger] ss[k]).wf(),
        forall|k: int| i <= k < ss.len() ==> (#[trigger] ss[k]).release_arith_ok(now),
    ensures
        ({
            let scan = release_scan(ss, i, now);
            &&& scan.1 == sum_releasable(ss.skip(i), now)
            &&& scan.1 >= 0
            &&& sum_remaining(scan.0) + scan.1 == sum_remaining(ss)
            &&& i <= scan.0.len() <= ss.len()
            &&& forall|k: int| 0 <= k < i ==> scan.0[k] == ss[k]
            &&& forall|k: int| 0 <= k < scan.0.len() ==> (#[trigger] scan.0[k]).wf()
        }),
    decreases ss.len() - i,
{
    if i >= ss.len() {
        assert(ss.skip(i) =~= Seq::<VestingSchedule>::empty());
        lemma_sum_bounds(ss.skip(i), now);
    } else {
        let s = ss[i];
        let rel = s.releasable_at(now);
        s.lemma_releasable_bounds(now);
        lemma_sums_split(ss, i, now);
        if now >= s.end {
            let ss2 = removed_slot(ss, i);
            assert forall|k: int| 0 <= k < ss2.len() implies (#[trigger] ss2[k]).wf() by {
                assert(ss2[k] == ss.update(i, ss.last())[k]);
            }
            assert forall|k: int| i <= k < ss2.len() implies (
            #[trigger] ss2[k]).release_arith_ok(now) by {
                assert(ss2[k] == ss.update(i, ss.last())[k]);
            }
            lemma_scan_props(ss2, i, now);
            lemma_sums_removed_slot(ss, i, now);
            lemma_sums_split(ss2, i, now);
            assert(ss2.take(i) =~= ss.take(i));
            lemma_sum_bounds(ss2.skip(i), now);
            assert(release_scan(ss, i, now).0 == release_scan(ss2, i, now).0);
            assert(release_scan(ss, i, now).1 == rel + release_scan(ss2, i, now).1);
            assert forall|k: int| 0 <= k < i implies release_scan(ss, i, now).0[k] == ss[k] by {
                assert(release_scan(ss2, i, now).0[k] == ss2[k]);
                assert(ss2[k] == ss.update(i, ss.last())[k]);
            }
            assert forall|k: int| 0 <= k < release_scan(ss, i, now).0.len() implies (
            #[trigger] release_scan(ss, i, now).0[k]).wf() by {
                assert(release_scan(ss2, i, now).0[k].wf());
            }
        } else {
            let ss2 = ss.update(i, s.after_release(now));
            assert forall|k: int| 0 <= k < ss2.len() implies (#[trigger] ss2[k]).wf() by {
                if k != i {
                    assert(ss2[k] == ss[k]);
                }
            }
            assert forall|k: int| i + 1 <= k < ss2.len() implies (
            #[trigger] ss2[k]).release_arith_ok(now) by {
                assert(ss2[k] == ss[k]);
            }
            lemma_scan_props(ss2, i + 1, now);
            lemma_sums_update(ss, i, s.after_release(now), now);
            lemma_sums_split(ss2, i + 1, now);
            assert(ss2.take(i + 1) =~= ss.take(i).push(s.after_release(now)));
            assert(ss2.skip(i + 1) =~= ss.skip(i + 1));
            lemma_sums_split(ss, i + 1, now);
            assert(ss.take(i + 1) =~= ss.take(i).push(s));
            assert(ss.take(i + 1).drop_last() =~= ss.take(i));
            assert(ss.take(i + 1).last() == s);
            assert(ss2.take(i + 1).drop_last() =~= ss.take(i));
            assert(ss2.take(i + 1).last() == s.after_release(now));
            lemma_sum_bounds(ss2.skip(i + 1), now);
            assert(release_scan(ss, i, now).0 == release_scan(ss2, i + 1, now).0);
            assert(release_scan(ss, i, now).1 == rel + release_scan(ss2, i + 1, now).1);
            assert forall|k: int| 0 <= k < i implies release_scan(ss, i, now).0[k] == ss[k] by {
                assert(release_scan(ss2, i + 1, now).0[k] == ss2[k]);
                assert(ss2[k] == ss[k]);
            }
            assert forall|k: int| 0 <= k < release_scan(ss, i, now).0.len() implies (
            #[trigger] release_scan(ss, i, now).0[k]).wf() by {
                assert(release_scan(ss2, i + 1, now).0[k].wf());
            }
        }
    }
}

/// The slots a release at `now` should leave, in grant-creation order: every
/// grant not yet matured, as its collected self, and no matured grant.
pub open spec fn collected_view(ss: Seq<VestingSchedule>, now: Timestamp) -> Seq<VestingSchedule>
    decreases ss.len(),
{
    if ss.len() == 0 {
        Seq::<VestingSchedule>::empty()
    } else {
        let rest = collected_view(ss.drop_last(), now);
        if now >= ss.last().end {
            rest
        } else {
            rest.push(ss.last().after_release(now))
        }
    }
}

/// The collected view of a concatenation is the two views concatenated.
proof fn lemma_collected_view_add(a: Seq<VestingSchedule>, b: Seq<VestingSchedule>, now: Timestamp)
    ensures
        collected_view(a + b, now) == collected_view(a, now) + collected_view(b, now),
    decreases b.len(),
{
    if b.len() == 0 {
        assert(a + b =~= a);
        assert(collected_view(a, now) + collected_view(b, now) =~= collected_view(a, now));
    } else {
        lemma_collected_view_add(a, b.drop_last(), now);
        assert((a + b).drop_last() =~= a + b.drop_last());
        assert((a + b).last() == b.last());
        if now < b.last().end {
            assert((collected_view(a, now) + collected_view(b.drop_last(), now)).push(
                b.last().after_release(now),
            ) =~= collected_view(a, now) + collected_view(b.drop_last(), now).push(
                b.last().after_release(now),
            ));
        }
    }
}

/// The collected view of a single slot: nothing if it has matured, its
/// collected self otherwise.
proof fn lemma_collected_view_singleton(s: VestingSchedule, now: Timestamp)
    ensures
        now >= s.end ==> collected_view(seq![s], now) == Seq::<VestingSchedule>::empty(),
        now < s.end ==> collected_view(seq![s], now) == seq![s.after_release(now)],
{
    reveal_with_fuel(collected_view, 2);
    assert(seq![s].drop_last() =~= Seq::<VestingSchedule>::empty());
    assert(collected_view(seq![s].drop_last(), now) == Seq::<VestingSchedule>::empty());
    if now < s.end {
        assert(collected_view(seq![s], now) =~= seq![s.after_release(now)]);
    }
}

/// The scan's leftover slots, from any starting position, are the untouched
/// prefix together with the collected view of the rest — as multisets, since
/// compaction reorders slots.
proof fn lemma_scan_multiset(ss: Seq<VestingSchedule>, i: int, now: Timestamp)
    ensures
        0 <= i <= ss.len() ==> release_scan(ss, i, now).0.to_multiset() == ss.take(
            i,
        ).to_multiset().add(collected_view(ss.skip(i), now).to_multiset()),
    decreases ss.len() - i,
{
    broadcast use vstd::multiset::group_multiset_axioms;
    broadcast use vstd::seq_lib::group_to_multiset_ensures;

    if i < 0 || i > ss.len() {
    } else if i == ss.len() {
        assert(ss.skip(i) =~= Seq::<VestingSchedule>::empty());
        assert(ss.take(i) =~= ss);
        assert(collected_view(ss.skip(i), now).to_multiset() =~= Multiset::<
            VestingSchedule,
        >::empty());
        assert(ss.to_multiset().add(Multiset::<VestingSchedule>::empty()) =~= ss.to_multiset());
    } else {
        let s = ss[i];
        let rest = ss.skip(i + 1);
        assert(ss.skip(i) =~= seq![s] + rest);
        lemma_collected_view_singleton(s, now);
        if now >= s.end {
            let ss2 = removed_slot(ss, i);
            lemma_scan_multiset(ss2, i, now);
            assert(release_scan(ss, i, now).0 == release_scan(ss2, i, now).0);
            assert(ss2.take(i) =~= ss.take(i));
            lemma_collected_view_add(seq![s], rest, now);
            if rest.len() == 0 {
                assert(ss2.skip(i) =~= Seq::<VestingSchedule>::empty());
                assert(collected_view(ss.skip(i), now) =~= collected_view(rest, now));
            } else {
                let mid = rest.drop_last();
                let tail = ss.last();
                assert(rest =~= mid + seq![tail]);
                assert(ss2.skip(i) =~= seq![tail] + mid);
                lemma_collected_view_add(mid, seq![tail], now);
                lemma_collected_view_add(seq![tail], mid, now);
                vstd::seq_lib::lemma_multiset_commutative(
                    collected_view(mid, now),
                    collected_view(seq![tail], now),
                );
                vstd::seq_lib::lemma_multiset_commutative(
                    collected_view(seq![tail], now),
                    collected_view(mid, now),
                );
                assert(collected_view(ss2.skip(i), now).to_multiset() =~= collected_view(
                    ss.skip(i),
                    now,
                ).to_multiset());
            }
        } else {
            let collected = s.after_release(now);
            let ss2 = ss.update(i, collected);
            lemma_scan_multiset(ss2, i + 1, now);
            assert(release_scan(ss, i, now).0 == release_scan(ss2, i + 1, now).0);
            assert(ss2.take(i + 1) =~= ss.take(i).push(collected));
            assert(ss2.skip(i + 1) =~= rest);
            lemma_collected_view_add(seq![s], rest, now);
            vstd::seq_lib::to_multiset_build(ss.take(i), collected);
            vstd::seq_lib::lemma_multiset_commutative(
                seq![collected],
                collected_view(rest, now),
            );
            assert(seq![collected].to_multiset() =~= Multiset::<VestingSchedule>::empty().insert(
                collected,
            )) by {
                assert(seq![collected] =~= Seq::<VestingSchedule>::empty().push(collected));
                vstd::seq_lib::to_multiset_build(Seq::<VestingSchedule>::empty(), collected);
                assert(Seq::<VestingSchedule>::empty().to_multiset() =~= Multiset::<
                    VestingSchedule,
                >::empty());
            }
            assert(release_scan(ss, i, now).0.to_multiset() =~= ss.take(i).to_multiset().add(
                collected_view(ss.skip(i), now).to_multiset(),
            ));
        }
    }
}

/// Grant identity across an account-wide release: slot order aside, the scan
/// leaves exactly the grants not yet matured at `now` — each with its accrual
/// collected into `released` and nothing else changed — and drops exactly the
/// matured ones.
pub proof fn lemma_release_keeps_unmatured_grants(ss: Seq<VestingSchedule>, now: Timestamp)
    ensures
        release_scan(ss, 0, now).0.to_multiset() == collected_view(ss, now).to_multiset(),
{
    broadcast use vstd::multiset::group_multiset_axioms;
    broadcast use vstd::seq_lib::group_to_multiset_ensures;

    lemma_scan_multiset(ss, 0, now);
    assert(ss.skip(0) =~= ss);
    assert(ss.take(0) =~= Seq::<VestingSchedule>::empty());
    assert(Seq::<VestingSchedule>::empty().to_multiset() =~= Multiset::<VestingSchedule>::empty());
    assert(Multiset::<VestingSchedule>::empty().add(collected_view(ss, now).to_multiset()) =~= collected_view(ss, now).to_multiset());
}

} // verus!

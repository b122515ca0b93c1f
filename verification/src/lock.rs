//! The lock contract: proceeds of short sales are locked per position until
//! a lockup period has passed, then the receiver may unlock them; the mint
//! contract may release a position's funds at once when it closes. The
//! contract tracks the total of what it holds locked.
use vstd::prelude::*;

verus! {

/// Why a lock operation was refused.
#[derive(Debug, PartialEq, Eq, Structural)]
pub enum LockError {
    Unauthorized,
    /// The contract's balance is below what is already locked.
    Overflow,
    /// The balance did not grow since the last lock.
    NothingToLock,
    /// The position's funds are locked for another receiver.
    ReceiverMismatch,
    /// A position was listed twice for unlocking.
    DuplicatePosition,
    /// None of the listed positions can be unlocked yet.
    NoUnlockableFunds,
}

/// The lock contract's settings.
pub struct Config {
    pub owner: String,
    pub mint_contract: String,
    pub base_denom: String,
    pub lockup_period: u64,
}

/// Funds locked for one position.
pub struct PositionLockInfo {
    pub idx: u128,
    pub receiver: String,
    pub locked_amount: u128,
    pub unlock_time: u64,
}

/// Changes the given settings; only the owner may.
pub fn update_config(
    config: &mut Config,
    sender: &String,
    owner: Option<String>,
    mint_contract: Option<String>,
    base_denom: Option<String>,
    lockup_period: Option<u64>,
) -> (r: Result<(), LockError>)
    ensures
        sender@ != old(config).owner@ ==> r == Err::<(), LockError>(LockError::Unauthorized)
            && *final(config) == *old(config),
        sender@ == old(config).owner@ ==> r is Ok && *final(config) == (Config {
            owner: match owner {
                Some(v) => v,
                None => old(config).owner,
            },
            mint_contract: match mint_contract {
                Some(v) => v,
                None => old(config).mint_contract,
            },
            base_denom: match base_denom {
                Some(v) => v,
                None => old(config).base_denom,
            },
            lockup_period: match lockup_period {
                Some(v) => v,
                None => old(config).lockup_period,
            },
        }),
{
    if !sender.eq(&config.owner) {
        return Err(LockError::Unauthorized);
    }
    if let Some(v) = owner {
        config.owner = v;
    }
    if let Some(v) = mint_contract {
        config.mint_contract = v;
    }
    if let Some(v) = base_denom {
        config.base_denom = v;
    }
    if let Some(v) = lockup_period {
        config.lockup_period = v;
    }
    Ok(())
}

/// Locks, for a position, what the contract's balance gained since the last
/// lock. Only the mint contract may call it. The lock (new, or added to the
/// position's existing one for the same receiver) expires `lockup_period`
/// seconds from now. Returns the position's lock record, the new total of
/// locked funds (the current balance) and the amount just locked.
pub fn lock_position_funds_hook(
    config: &Config,
    sender: &String,
    current_balance: u128,
    total_locked_funds: u128,
    existing: Option<PositionLockInfo>,
    position_idx: u128,
    receiver: String,
    now_seconds: u64,
) -> (r: Result<(PositionLockInfo, u128, u128), LockError>)
    requires
        sender@ == config.mint_contract@ && current_balance > total_locked_funds ==> now_seconds
            + config.lockup_period <= u64::MAX,
        sender@ == config.mint_contract@ && current_balance > total_locked_funds
            && existing is Some && existing->Some_0.receiver@ == receiver@
            ==> existing->Some_0.locked_amount + (current_balance - total_locked_funds)
            <= u128::MAX,
    ensures
        ({
            let amount = current_balance - total_locked_funds;
            let unlock_time = (now_seconds + config.lockup_period) as u64;
            if sender@ != config.mint_contract@ {
                r == Err::<(PositionLockInfo, u128, u128), LockError>(LockError::Unauthorized)
            } else if current_balance < total_locked_funds {
                r == Err::<(PositionLockInfo, u128, u128), LockError>(LockError::Overflow)
            } else if amount == 0 {
                r == Err::<(PositionLockInfo, u128, u128), LockError>(LockError::NothingToLock)
            } else {
                match existing {
                    Some(e) => if e.receiver@ != receiver@ {
                        r == Err::<(PositionLockInfo, u128, u128), LockError>(
                            LockError::ReceiverMismatch,
                        )
                    } else {
                        r == Ok::<(PositionLockInfo, u128, u128), LockError>(
                            (
                                PositionLockInfo {
                                    locked_amount: (e.locked_amount + amount) as u128,
                                    unlock_time,
                                    ..e
                                },
                                current_balance,
                                amount as u128,
                            ),
                        )
                    },
                    None => r == Ok::<(PositionLockInfo, u128, u128), LockError>(
                        (
                            PositionLockInfo {
                                idx: position_idx,
                                receiver,
                                locked_amount: amount as u128,
                                unlock_time,
                            },
                            current_balance,
                            amount as u128,
                        ),
                    ),
                }
            }
        }),
{
    if !sender.eq(&config.mint_contract) {
        return Err(LockError::Unauthorized);
    }
    if current_balance < total_locked_funds {
        return Err(LockError::Overflow);
    }
    let position_locked_amount = current_balance - total_locked_funds;
    if position_locked_amount == 0 {
        return Err(LockError::NothingToLock);
    }
    let unlock_time = now_seconds + config.lockup_period;
    let lock_info = match existing {
        Some(mut e) => {
            if !receiver.eq(&e.receiver) {
                return Err(LockError::ReceiverMismatch);
            }
            e.locked_amount = e.locked_amount + position_locked_amount;
            e.unlock_time = unlock_time;
            e
        },
        None => PositionLockInfo {
            idx: position_idx,
            receiver,
            locked_amount: position_locked_amount,
            unlock_time,
        },
    };
    Ok((lock_info, current_balance, position_locked_amount))
}

/// A lock record that `sender` may unlock at `now`.
pub open spec fn unlockable(l: PositionLockInfo, sender: Seq<char>, now: u64) -> bool {
    l.receiver@ == sender && now >= l.unlock_time
}

/// Total locked amount of a list of lock records.
pub open spec fn sum_locked(s: Seq<PositionLockInfo>) -> int
    decreases s.len(),
{
    if s.len() == 0 {
        0
    } else {
        sum_locked(s.drop_last()) + s.last().locked_amount
    }
}

/// Two records of the list are for the same position.
pub open spec fn has_duplicate_idx(s: Seq<PositionLockInfo>) -> bool {
    exists|i: int, j: int| 0 <= i < j < s.len() && #[trigger] s[i].idx == #[trigger] s[j].idx
}


/// The sum over a concatenation is the sum of the sums.
pub proof fn lemma_sum_locked_concat(a: Seq<PositionLockInfo>, b: Seq<PositionLockInfo>)
    ensures
        sum_locked(a + b) == sum_locked(a) + sum_locked(b),
    decreases b.len(),
{
    if b.len() == 0 {
        assert(a + b =~= a);
    } else {
        lemma_sum_locked_concat(a, b.drop_last());
        assert((a + b).drop_last() =~= a + b.drop_last());
    }
}

/// Sums of lock records are not negative.
pub proof fn lemma_sum_locked_nonneg(s: Seq<PositionLockInfo>)
    ensures
        sum_locked(s) >= 0,
    decreases s.len(),
{
    if s.len() > 0 {
        lemma_sum_locked_nonneg(s.drop_last());
    }
}

proof fn lemma_filter_take_step(s: Seq<PositionLockInfo>, j: int, p: spec_fn(PositionLockInfo) -> bool)
    requires
        0 <= j < s.len(),
    ensures
        s.take(j + 1).filter(p) == if p(s[j]) {
            s.take(j).filter(p).push(s[j])
        } else {
            s.take(j).filter(p)
        },
{
    reveal_with_fuel(Seq::filter, 1);
    assert(s.take(j + 1).drop_last() =~= s.take(j));
}

proof fn lemma_filter_split(s: Seq<PositionLockInfo>, j: int, p: spec_fn(PositionLockInfo) -> bool)
    requires
        0 <= j <= s.len(),
    ensures
        s.filter(p) == s.take(j).filter(p) + s.skip(j).filter(p),
{
    assert(s =~= s.take(j) + s.skip(j));
    Seq::filter_distributes_over_add(s.take(j), s.skip(j), p);
}

/// The position indices of a list of lock records.
pub open spec fn idxs_of(s: Seq<PositionLockInfo>) -> Seq<u128> {
    s.map_values(|l: PositionLockInfo| l.idx)
}

fn contains_idx(v: &Vec<u128>, x: u128) -> (b: bool)
    ensures
        b == v@.contains(x),
{
    let mut i: usize = 0;
    while i < v.len()
        invariant
            i <= v.len(),
            forall|j: int| 0 <= j < i ==> v@[j] != x,
        decreases v.len() - i,
    {
        if v[i] == x {
            return true;
        }
        i = i + 1;
    }
    false
}

/// Unlocks, for the sender, the funds of the listed positions whose lock has
/// expired (`lock_infos` are the records found for the listed positions, in
/// the order listed). Refuses a position selected twice, and a request that
/// unlocks nothing. Returns the unlocked positions, the amount, and the new
/// total of locked funds.
pub fn unlock_positions_funds(
    sender: &String,
    now_seconds: u64,
    lock_infos: &Vec<PositionLockInfo>,
    total_locked_funds: u128,
) -> (r: Result<(Vec<u128>, u128, u128), LockError>)
    requires
        sum_locked(lock_infos@.filter(|l: PositionLockInfo| unlockable(l, sender@, now_seconds)))
            <= u128::MAX,
    ensures
        ({
            let sel = lock_infos@.filter(|l: PositionLockInfo| unlockable(l, sender@, now_seconds));
            let amount = sum_locked(sel);
            if has_duplicate_idx(sel) {
                r == Err::<(Vec<u128>, u128, u128), LockError>(LockError::DuplicatePosition)
            } else if amount == 0 {
                r == Err::<(Vec<u128>, u128, u128), LockError>(LockError::NoUnlockableFunds)
            } else if total_locked_funds < amount {
                r == Err::<(Vec<u128>, u128, u128), LockError>(LockError::Overflow)
            } else {
                r is Ok && r->Ok_0.0@ == idxs_of(sel) && r->Ok_0.1 == amount && r->Ok_0.2
                    == total_locked_funds - amount
            }
        }),
{
    let ghost p = |l: PositionLockInfo| unlockable(l, sender@, now_seconds);
    let ghost sel = lock_infos@.filter(p);
    let mut unlocked: Vec<u128> = Vec::new();
    let mut amount: u128 = 0;
    let mut i: usize = 0;
    while i < lock_infos.len()
        invariant
            p == (|l: PositionLockInfo| unlockable(l, sender@, now_seconds)),
            sel == lock_infos@.filter(p),
            sum_locked(sel) <= u128::MAX,
            i <= lock_infos.len(),
            unlocked@ == idxs_of(lock_infos@.take(i as int).filter(p)),
            !has_duplicate_idx(lock_infos@.take(i as int).filter(p)),
            amount == sum_locked(lock_infos@.take(i as int).filter(p)),
        decreases lock_infos.len() - i,
    {
        let ghost done = lock_infos@.take(i as int).filter(p);
        proof {
            lemma_filter_take_step(lock_infos@, i as int, p);
        }
        let l = &lock_infos[i];
        if sender.eq(&l.receiver) && now_seconds >= l.unlock_time {
            let ghost next = done.push(*l);
            proof {
                lemma_filter_split(lock_infos@, i as int + 1, p);
                lemma_sum_locked_concat(next, lock_infos@.skip(i as int + 1).filter(p));
                lemma_sum_locked_nonneg(lock_infos@.skip(i as int + 1).filter(p));
                assert(next.drop_last() =~= done);
            }
            if contains_idx(&unlocked, l.idx) {
                proof {
                    let k = choose|k: int| 0 <= k < unlocked@.len() && unlocked@[k] == l.idx;
                    assert(next[k].idx == next[done.len() as int].idx);
                    assert(sel[k] == next[k] && sel[done.len() as int] == next[done.len() as int]);
                }
                return Err(LockError::DuplicatePosition);
            }
            proof {
                assert(idxs_of(next) =~= unlocked@.push(l.idx));
                assert forall|a: int, b: int| 0 <= a < b < next.len() implies next[a].idx
                    != next[b].idx by {
                    if b == done.len() {
                        assert(unlocked@[a] == next[a].idx);
                    } else {
                        assert(next[a] == done[a] && next[b] == done[b]);
                    }
                }
            }
            unlocked.push(l.idx);
            amount = amount + l.locked_amount;
        }
        i = i + 1;
    }
    assert(lock_infos@.take(i as int) =~= lock_infos@);
    if amount == 0 {
        return Err(LockError::NoUnlockableFunds);
    }
    if total_locked_funds < amount {
        return Err(LockError::Overflow);
    }
    Ok((unlocked, amount, total_locked_funds - amount))
}

/// Releases a position's locked funds at once, whatever its lock period;
/// only the mint contract may. A position without a lock record (its funds
/// were already unlocked) releases nothing. Returns the released amount and
/// the new total of locked funds.
pub fn release_position_funds(
    config: &Config,
    sender: &String,
    lock_info: Option<&PositionLockInfo>,
    total_locked_funds: u128,
) -> (r: Result<Option<(u128, u128)>, LockError>)
    ensures
        sender@ != config.mint_contract@ ==> r == Err::<Option<(u128, u128)>, LockError>(
            LockError::Unauthorized,
        ),
        sender@ == config.mint_contract@ ==> match lock_info {
            None => r == Ok::<Option<(u128, u128)>, LockError>(None),
            Some(l) => if total_locked_funds < l.locked_amount {
                r == Err::<Option<(u128, u128)>, LockError>(LockError::Overflow)
            } else {
                r == Ok::<Option<(u128, u128)>, LockError>(
                    Some((l.locked_amount, (total_locked_funds - l.locked_amount) as u128)),
                )
            },
        },
{
    if !sender.eq(&config.mint_contract) {
        return Err(LockError::Unauthorized);
    }
    match lock_info {
        None => Ok(None),
        Some(l) => {
            if total_locked_funds < l.locked_amount {
                return Err(LockError::Overflow);
            }
            Ok(Some((l.locked_amount, total_locked_funds - l.locked_amount)))
        },
    }
}


/// Replacing one record changes the sum by the difference of the amounts.
pub proof fn lemma_sum_locked_update(s: Seq<PositionLockInfo>, i: int, rec: PositionLockInfo)
    requires
        0 <= i < s.len(),
    ensures
        sum_locked(s.update(i, rec)) == sum_locked(s) - s[i].locked_amount + rec.locked_amount,
    decreases s.len(),
{
    if i == s.len() - 1 {
        assert(s.update(i, rec).drop_last() =~= s.drop_last());
    } else {
        lemma_sum_locked_update(s.drop_last(), i, rec);
        assert(s.update(i, rec).drop_last() =~= s.drop_last().update(i, rec));
    }
}

/// Removing one record lowers the sum by its amount.
pub proof fn lemma_sum_locked_remove(s: Seq<PositionLockInfo>, i: int)
    requires
        0 <= i < s.len(),
    ensures
        sum_locked(s.remove(i)) == sum_locked(s) - s[i].locked_amount,
{
    assert(s =~= s.take(i) + seq![s[i]] + s.skip(i + 1));
    assert(s.remove(i) =~= s.take(i) + s.skip(i + 1));
    lemma_sum_locked_concat(s.take(i) + seq![s[i]], s.skip(i + 1));
    lemma_sum_locked_concat(s.take(i), seq![s[i]]);
    lemma_sum_locked_concat(s.take(i), s.skip(i + 1));
    let one = seq![s[i]];
    assert(one.drop_last() =~= Seq::<PositionLockInfo>::empty());
    assert(sum_locked(one.drop_last()) == 0);
    assert(one.last() == s[i]);
    assert(sum_locked(one) == s[i].locked_amount);
    assert(sum_locked(s) == sum_locked(s.take(i) + seq![s[i]] + s.skip(i + 1)));
}

/// The total of locked funds keeps equal to the sum of the lock records
/// when a position is locked for the first time: the new record holds
/// exactly what the total grew by.
pub proof fn lemma_lock_new_position_keeps_total(
    records: Seq<PositionLockInfo>,
    total: u128,
    new_record: PositionLockInfo,
    new_total: u128,
    amount: u128,
)
    requires
        total == sum_locked(records),
        new_record.locked_amount == amount,
        new_total == total + amount,
    ensures
        new_total == sum_locked(records.push(new_record)),
{
    assert(records.push(new_record).drop_last() =~= records);
}

/// The total of locked funds keeps equal to the sum of the lock records
/// when more is locked for a position that already has a record.
pub proof fn lemma_lock_existing_position_keeps_total(
    records: Seq<PositionLockInfo>,
    i: int,
    total: u128,
    new_record: PositionLockInfo,
    new_total: u128,
    amount: u128,
)
    requires
        0 <= i < records.len(),
        total == sum_locked(records),
        new_record.locked_amount == records[i].locked_amount + amount,
        new_total == total + amount,
    ensures
        new_total == sum_locked(records.update(i, new_record)),
{
    lemma_sum_locked_update(records, i, new_record);
}

/// The total of locked funds keeps equal to the sum of the lock records
/// when a position's record is released and removed.
pub proof fn lemma_release_keeps_total(
    records: Seq<PositionLockInfo>,
    i: int,
    total: u128,
    new_total: u128,
)
    requires
        0 <= i < records.len(),
        total == sum_locked(records),
        new_total == total - records[i].locked_amount,
    ensures
        new_total == sum_locked(records.remove(i)),
{
    lemma_sum_locked_remove(records, i);
}


/// Funds locked for a new position come back whole: once the lockup period
/// has passed, the receiver unlocking that position gets exactly the amount
/// locked, and the total of locked funds returns to what it was before.
pub proof fn lemma_lock_then_unlock_round_trip(
    config: Config,
    total_before: u128,
    amount: u128,
    position_idx: u128,
    receiver: String,
    lock_time: u64,
    unlock_time: u64,
)
    requires
        amount > 0,
        total_before + amount <= u128::MAX,
        lock_time + config.lockup_period <= u64::MAX,
        unlock_time >= lock_time + config.lockup_period,
    ensures
        ({
            let rec = PositionLockInfo {
                idx: position_idx,
                receiver,
                locked_amount: amount,
                unlock_time: (lock_time + config.lockup_period) as u64,
            };
            let sel = seq![rec].filter(|l: PositionLockInfo| unlockable(l, receiver@, unlock_time));
            &&& sel == seq![rec]
            &&& !has_duplicate_idx(sel)
            &&& idxs_of(sel) == seq![position_idx]
            &&& sum_locked(sel) == amount
            &&& (total_before + amount) - sum_locked(sel) == total_before
        }),
{
    let rec = PositionLockInfo {
        idx: position_idx,
        receiver,
        locked_amount: amount,
        unlock_time: (lock_time + config.lockup_period) as u64,
    };
    let sel = seq![rec].filter(|l: PositionLockInfo| unlockable(l, receiver@, unlock_time));
    reveal_with_fuel(Seq::filter, 2);
    assert(seq![rec].drop_last() =~= Seq::<PositionLockInfo>::empty());
    assert(sel =~= seq![rec]);
    assert(idxs_of(seq![rec]) =~= seq![position_idx]);
    assert(seq![rec].last() == rec);
    assert(sum_locked(Seq::<PositionLockInfo>::empty()) == 0);
    assert(sum_locked(seq![rec]) == sum_locked(seq![rec].drop_last()) + rec.locked_amount);
}

} // verus!

//! The pool-api contract: per-pool lock-up bookkeeping by epoch, with reward
//! markers for the 1, 7 and 14 day lock durations.
use crate::response::BankCoin;
use num_traits::{FromPrimitive, ToPrimitive};
use vstd::prelude::*;

verus! {

/// The lock durations, in days, that the contract keeps books for.
pub const DURATION_IN_DAY: [u8; 3] = [1, 7, 14];

// ---------------------------------------------------------------------------
// Messages.
/// Instantiates the contract with the address that provides the marker tokens.
#[derive(Clone, Debug, PartialEq, Eq)]
pub struct InstantiateMsg {
    pub unique_token_provider: String,
}

/// What the contract can be told to do.
#[derive(Debug, PartialEq, Eq)]
pub enum ExecuteMsg {
    InitPoolApiService(InitPoolApiServiceMsg),
    UpdateEpoch(UpdateEpochMsg),
}

/// Starts serving a pool, with the marker denominations of its three lock durations.
#[derive(Debug, PartialEq, Eq)]
pub struct InitPoolApiServiceMsg {
    pub pool_id: u64,
    pub unique_token_denoms: (String, String, String),
}

/// Brings the books up to the current epoch.
#[derive(Clone, Debug, PartialEq, Eq)]
pub struct UpdateEpochMsg {}

/// What the contract can be asked.
#[derive(Clone, Debug, PartialEq, Eq)]
pub enum QueryMsg {
    LastestEpochTotalLockUp(QueryLastestEpochTotalLockUp),
    EpochTotalLockUp(QueryEpochTotalLockUp),
}

/// Asks for the lock-ups of a pool at the latest epoch.
#[derive(Clone, Debug, PartialEq, Eq)]
pub struct QueryLastestEpochTotalLockUp {
    pub pool_id: u64,
}

/// Asks for the lock-ups of a pool at an epoch.
#[derive(Clone, Debug, PartialEq, Eq)]
pub struct QueryEpochTotalLockUp {
    pub pool_id: u64,
    pub epoch_id: u64,
}

/// The lock-ups of a pool, per duration.
#[derive(Clone, Debug, PartialEq, Eq)]
pub struct TotalLockUpResponse {
    pub lock_1_day: u128,
    pub lock_7_day: u128,
    pub lock_14_day: u128,
}

// ---------------------------------------------------------------------------
// State.
/// A served pool: its gamm share denomination and the marker denominations of its
/// 1, 7 and 14 day locks.
#[derive(Debug, PartialEq, Eq, Default)]
pub struct Pool {
    pub gamm_denom: String,
    pub unique_token_makers: (String, String, String),
}

/// The lock-ups of a pool at an epoch, per duration.
#[derive(Clone, Debug, PartialEq, Eq, Default)]
pub struct TotalLockUp {
    pub lock_1_day: u128,
    pub lock_7_day: u128,
    pub lock_14_day: u128,
}

/// The key of a pool's lock-ups at an epoch.
pub fn get_pool_at_epoch_key(pool_id: u64, epoch_id: u64) -> (key: (u64, u64))
    ensures
        key == (pool_id, epoch_id),
{
    (pool_id, epoch_id)
}

// ---------------------------------------------------------------------------
// Epoch updates.
/// Refuses to update the books twice in one epoch.
pub fn check_epoch_update(current_epoch_id: u64, last_updated_epoch: u64) -> (res: Result<u64, String>)
    ensures
        res is Err <==> current_epoch_id == last_updated_epoch,
        res matches Err(e) ==> e@ == "already updated"@,
        res matches Ok(id) ==> id == current_epoch_id,
{
    if current_epoch_id == last_updated_epoch {
        return Err("already updated".to_string());
    }
    Ok(current_epoch_id)
}

/// One piece of an epoch update: the books of pool `pool_id` for its lock of
/// `duration` days.
#[derive(Clone, Copy, Debug, PartialEq, Eq)]
pub struct EpochWork {
    pub duration: u8,
    pub pool_id: u64,
}

/// The work of one lock duration: each pool in order.
pub open spec fn duration_work(duration: u8, pool_ids: Seq<u64>) -> Seq<EpochWork> {
    pool_ids.map_values(|pool_id: u64| EpochWork { duration, pool_id })
}

/// The work of an epoch update: every pool for the one day lock, then every pool
/// for the seven day lock, then every pool for the fourteen day lock.
pub open spec fn epoch_plan(pool_ids: Seq<u64>) -> Seq<EpochWork> {
    duration_work(1, pool_ids) + duration_work(7, pool_ids) + duration_work(14, pool_ids)
}

/// Appends the work of one lock duration.
fn push_duration_work(duration: u8, pool_ids: &Vec<u64>, plan: &mut Vec<EpochWork>)
    ensures
        final(plan)@ == old(plan)@ + duration_work(duration, pool_ids@),
{
    let ghost start = plan@;
    let mut i: usize = 0;
    while i < pool_ids.len()
        invariant
            i <= pool_ids@.len(),
            plan@ == start + duration_work(duration, pool_ids@.take(i as int)),
        decreases pool_ids@.len() - i,
    {
        plan.push(EpochWork { duration, pool_id: pool_ids[i] });
        assert(duration_work(duration, pool_ids@.take((i + 1) as int)) =~= duration_work(
            duration,
            pool_ids@.take(i as int),
        ).push(EpochWork { duration, pool_id: pool_ids@[i as int] }));
        i = i + 1;
    }
    assert(pool_ids@.take(pool_ids@.len() as int) =~= pool_ids@);
}

/// Brings the books up to `current_epoch_id`: refused with "already updated" when the
/// books were last brought up to that very epoch; else the epoch and the work to
/// do, lock duration by lock duration over the served pools `pool_ids`.
pub fn execute_update_epoch(
    current_epoch_id: u64,
    last_updated_epoch: u64,
    pool_ids: &Vec<u64>,
) -> (res: Result<(u64, Vec<EpochWork>), String>)
    ensures
        res is Err <==> current_epoch_id == last_updated_epoch,
        res matches Err(e) ==> e@ == "already updated"@,
        res matches Ok(r) ==> r.0 == current_epoch_id && r.1@ == epoch_plan(pool_ids@),
{
    let epoch = match check_epoch_update(current_epoch_id, last_updated_epoch) {
        Ok(epoch) => epoch,
        Err(e) => {
            return Err(e);
        },
    };
    let mut plan: Vec<EpochWork> = Vec::new();
    let mut k: usize = 0;
    while k < 3
        invariant
            k <= 3,
            plan@ == (if k == 0 {
                Seq::<EpochWork>::empty()
            } else if k == 1 {
                duration_work(1, pool_ids@)
            } else if k == 2 {
                duration_work(1, pool_ids@) + duration_work(7, pool_ids@)
            } else {
                epoch_plan(pool_ids@)
            }),
        decreases 3 - k,
    {
        let duration = DURATION_IN_DAY[k];
        push_duration_work(duration, pool_ids, &mut plan);
        k = k + 1;
    }
    Ok((epoch, plan))
}

/// The marker denomination of a lock duration: the first for one day, the second
/// for seven days, the third for any other.
pub open spec fn marker_for(markers: (String, String, String), duration: u8) -> String {
    if duration == 1 {
        markers.0
    } else if duration == 7 {
        markers.1
    } else {
        markers.2
    }
}

/// The marker denomination of a lock duration.
pub fn marker_denom(markers: &(String, String, String), duration: u8) -> (d: String)
    ensures
        d == marker_for(*markers, duration),
{
    if duration == 1 {
        markers.0.clone()
    } else if duration == 7 {
        markers.1.clone()
    } else {
        markers.2.clone()
    }
}

/// The balance of `denom` in a list of balances read into a map entry by entry, so
/// that the last entry for the denomination wins.
pub open spec fn balance_of(balances: Seq<BankCoin>, denom: Seq<char>) -> Option<u128>
    decreases balances.len(),
{
    if balances.len() == 0 {
        None
    } else if balances.last().denom@ == denom {
        Some(balances.last().amount)
    } else {
        balance_of(balances.drop_last(), denom)
    }
}

/// The balance of `denom` in `balances`, the last entry for it winning.
pub fn find_balance(balances: &Vec<BankCoin>, denom: &str) -> (res: Option<u128>)
    ensures
        res == balance_of(balances@, denom@),
{
    let mut found: Option<u128> = None;
    let mut i: usize = 0;
    while i < balances.len()
        invariant
            i <= balances@.len(),
            found == balance_of(balances@.take(i as int), denom@),
        decreases balances@.len() - i,
    {
        assert(balances@.take((i + 1) as int).drop_last() =~= balances@.take(i as int));
        if crate::text::same_text(balances[i].denom.as_str(), denom) {
            found = Some(balances[i].amount);
        }
        i = i + 1;
    }
    assert(balances@.take(balances@.len() as int) =~= balances@);
    found
}

/// What the marker of a lock duration earned since the last epoch: its balance now,
/// in `current_balances`, less `last_balance`, its balance recorded then.
pub fn get_marker_earned_last_epoch(
    pool: &Pool,
    duration: u8,
    current_balances: &Vec<BankCoin>,
    last_balance: u128,
) -> (earned: u128)
    requires
        balance_of(current_balances@, marker_for(pool.unique_token_makers, duration)@) matches Some(
            b,
        ) && last_balance <= b,
    ensures
        earned == balance_of(current_balances@, marker_for(pool.unique_token_makers, duration)@).unwrap()
            - last_balance,
{
    let marker = marker_denom(&pool.unique_token_makers, duration);
    let current_balance = find_balance(current_balances, marker.as_str()).unwrap();
    current_balance - last_balance
}

/// The length in seconds of a lock duration given in days: one day for 1, seven days
/// for 7, fourteen days for any other.
pub fn lock_duration_seconds(duration_in_day: u8) -> (seconds: u64)
    ensures
        seconds == (if duration_in_day == 1 {
            86400u64
        } else if duration_in_day == 7 {
            604800u64
        } else {
            1209600u64
        }),
{
    if duration_in_day == 1 {
        86400
    } else if duration_in_day == 7 {
        604800
    } else {
        1209600
    }
}

/// Calls `bigdecimal::BigDecimal::new(num_bigint::BigInt::from_u128(amount), 0)`
/// and `ToPrimitive::to_u64` on it: a scale-0 decimal of `amount` converts to `u64`
/// exactly when it fits.
#[verifier::external_body]
fn reward_amount_to_u64(amount: u128) -> (res: Option<u64>)
    ensures
        res == (if amount <= u64::MAX {
            Some(amount as u64)
        } else {
            None::<u64>
        }),
{
    bigdecimal::BigDecimal::new(num_bigint::BigInt::from_u128(amount).unwrap(), 0).to_u64()
}

/// The reward of one denomination for an epoch.
#[derive(Clone, Debug, PartialEq, Eq)]
pub struct RewardShare {
    pub denom: String,
    pub total_reward: u64,
}

/// Whether an estimated reward coin counts for a pool: its denomination must equal
/// both asset denominations of the pool.
pub open spec fn counts_for(c: BankCoin, asset_denoms: (String, String)) -> bool {
    c.denom@ == asset_denoms.0@ && c.denom@ == asset_denoms.1@
}

/// The rewards of this epoch: for each estimated reward coin that counts for the
/// pool, in order, its denomination and its amount as a `u64`.
pub fn cal_total_reward_this_epoch(
    our_est_reward: &Vec<BankCoin>,
    pool_asset_denoms: &(String, String),
) -> (shares: Vec<RewardShare>)
    requires
        forall|i: int|
            0 <= i < our_est_reward@.len() && counts_for(
                #[trigger] our_est_reward@[i],
                *pool_asset_denoms,
            ) ==> our_est_reward@[i].amount <= u64::MAX,
    ensures
        shares@ == our_est_reward@.filter(|c: BankCoin| counts_for(c, *pool_asset_denoms)).map_values(
            |c: BankCoin| RewardShare { denom: c.denom, total_reward: c.amount as u64 },
        ),
{
    let ghost pred = |c: BankCoin| counts_for(c, *pool_asset_denoms);
    let ghost f = |c: BankCoin| RewardShare { denom: c.denom, total_reward: c.amount as u64 };
    let mut shares: Vec<RewardShare> = Vec::new();
    let mut i: usize = 0;
    while i < our_est_reward.len()
        invariant
            i <= our_est_reward@.len(),
            pred == (|c: BankCoin| counts_for(c, *pool_asset_denoms)),
            f == (|c: BankCoin| RewardShare { denom: c.denom, total_reward: c.amount as u64 }),
            shares@ == our_est_reward@.take(i as int).filter(pred).map_values(f),
            forall|j: int|
                0 <= j < our_est_reward@.len() && counts_for(
                    #[trigger] our_est_reward@[j],
                    *pool_asset_denoms,
                ) ==> our_est_reward@[j].amount <= u64::MAX,
        decreases our_est_reward@.len() - i,
    {
        let c = &our_est_reward[i];
        reveal_with_fuel(Seq::filter, 1);
        assert(our_est_reward@.take((i + 1) as int).drop_last() =~= our_est_reward@.take(i as int));
        if crate::text::same_text(c.denom.as_str(), pool_asset_denoms.0.as_str())
            && crate::text::same_text(c.denom.as_str(), pool_asset_denoms.1.as_str()) {
            assert(counts_for(our_est_reward@[i as int], *pool_asset_denoms));
            let total_reward = reward_amount_to_u64(c.amount).unwrap();
            shares.push(RewardShare { denom: c.denom.clone(), total_reward });
            assert(our_est_reward@.take((i + 1) as int).filter(pred) =~= our_est_reward@.take(
                i as int,
            ).filter(pred).push(our_est_reward@[i as int]));
            assert(shares@ =~= our_est_reward@.take((i + 1) as int).filter(pred).map_values(f));
        } else {
            assert(our_est_reward@.take((i + 1) as int).filter(pred) =~= our_est_reward@.take(
                i as int,
            ).filter(pred));
        }
        i = i + 1;
    }
    assert(our_est_reward@.take(our_est_reward@.len() as int) =~= our_est_reward@);
    shares
}

} // verus!

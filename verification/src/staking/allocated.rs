//! Reward tokens that are released on a schedule: a reward per cycle that may
//! grow by a fixed percentage each cycle, paid out linearly within a cycle and
//! accrued into the global reward index of the staking contract.
use vstd::prelude::*;
use crate::common::ContractError;
use crate::math::{Decimal, checked_ratio, fractional, spec_mul_dec, mul_dec};

verus! {

/// The fixed schedule of an allocated reward.
#[derive(Clone, Copy, Debug, PartialEq, Eq, Structural)]
pub struct AllocationConfig {
    /// When the distribution starts (seconds).
    pub init_timestamp: u64,
    /// When the distribution stops (seconds).
    pub till_timestamp: u64,
    /// The length of one cycle (seconds).
    pub cycle_duration: u64,
    /// Rewards of the first cycle.
    pub cycle_rewards: u128,
    /// Growth of the rewards from one cycle to the next.
    pub reward_increase: Option<Decimal>,
}

/// Progress of an allocated reward.
#[derive(Clone, Copy, Debug, PartialEq, Eq, Structural)]
pub struct AllocationState {
    pub current_cycle: u64,
    pub current_cycle_rewards: u128,
    pub last_distributed: u64,
}

#[derive(Clone, Copy, Debug, PartialEq, Eq, Structural)]
pub struct AllocationInfo {
    pub config: AllocationConfig,
    pub state: AllocationState,
}

pub open spec fn min_u64(a: u64, b: u64) -> u64 {
    if a <= b { a } else { b }
}

pub open spec fn max_u64(a: u64, b: u64) -> u64 {
    if a >= b { a } else { b }
}

/// Whole cycles between the start and `current_timestamp`, capped at the
/// number of whole cycles in the distribution period.
pub open spec fn spec_cycles_elapsed(current_timestamp: u64, init: u64, duration: u64, till: u64) -> u64 {
    if init >= current_timestamp {
        0
    } else {
        min_u64(((till - init) / duration as int) as u64, ((current_timestamp - init) / duration as int) as u64)
    }
}

/// The number of whole cycles that have elapsed at `current_timestamp`.
pub fn calculate_cycles_elapsed(
    current_timestamp: u64,
    config_init_timestamp: u64,
    cycle_duration: u64,
    config_till_timestamp: u64,
) -> (r: u64)
    requires
        config_init_timestamp < current_timestamp ==> cycle_duration > 0 && config_init_timestamp <= config_till_timestamp,
    ensures
        r == spec_cycles_elapsed(current_timestamp, config_init_timestamp, cycle_duration, config_till_timestamp),
{
    if config_init_timestamp >= current_timestamp {
        return 0u64;
    }
    let max_cycles: u64 = (config_till_timestamp - config_init_timestamp) / cycle_duration;
    let time_elapsed: u64 = current_timestamp - config_init_timestamp;
    let elapsed_cycles: u64 = time_elapsed / cycle_duration;
    if max_cycles <= elapsed_cycles { max_cycles } else { elapsed_cycles }
}

/// The time at which cycle `current_cycle` starts.
pub fn calculate_init_timestamp_for_cycle(config_init_timestamp: u64, current_cycle: u64, cycle_duration: u64) -> (r: u64)
    requires
        config_init_timestamp + current_cycle * cycle_duration <= u64::MAX,
    ensures
        r == config_init_timestamp + current_cycle * cycle_duration,
{
    proof {
        assert(0 <= current_cycle * cycle_duration) by (nonlinear_arith);
    }
    config_init_timestamp + current_cycle * cycle_duration
}

/// Rewards paid between `from` and `till` at `rate` per second; `None` on overflow.
pub open spec fn spec_rewards_for_period(rate: Decimal, from: u64, till: u64) -> Option<u128> {
    if till <= from {
        Some(0u128)
    } else {
        spec_mul_dec((till - from) as int, rate)
    }
}

/// Rewards paid at `rewards_per_sec` from `from_timestamp` until `till_timestamp`.
pub fn rewards_distributed_for_cycle(rewards_per_sec: Decimal, from_timestamp: u64, till_timestamp: u64) -> (r: Option<u128>)
    ensures
        r == spec_rewards_for_period(rewards_per_sec, from_timestamp, till_timestamp),
{
    if till_timestamp <= from_timestamp {
        return Some(0u128);
    }
    mul_dec((till_timestamp - from_timestamp) as u128, rewards_per_sec)
}

/// The rewards of the next cycle; unchanged within one cycle. `None` on overflow.
pub open spec fn spec_next_cycle_rewards(current: u128, increase: Decimal, same_cycle: bool) -> Option<u128> {
    if same_cycle {
        Some(current)
    } else {
        match spec_mul_dec(current as int, increase) {
            Some(extra) => if current + extra > u128::MAX { None } else { Some((current + extra) as u128) },
            None => None,
        }
    }
}

/// The rewards of the following cycle: `current * (1 + increase)` unless still in the same cycle.
pub fn calculate_cycle_rewards(current_cycle_rewards: u128, reward_increase_percent: Decimal, is_same_cycle: bool) -> (r: Option<u128>)
    ensures
        r == spec_next_cycle_rewards(current_cycle_rewards, reward_increase_percent, is_same_cycle),
{
    if is_same_cycle {
        return Some(current_cycle_rewards);
    }
    match mul_dec(current_cycle_rewards, reward_increase_percent) {
        Some(extra) => current_cycle_rewards.checked_add(extra),
        None => None,
    }
}

pub open spec fn increase_of(config: AllocationConfig) -> Decimal {
    match config.reward_increase {
        Some(d) => d,
        None => Decimal { atomics: 0 },
    }
}

/// One pass of the distribution loop over cycle `last_cycle`, from state
/// `(acc, cycle_rewards, last_distributed)`: the next values, or `None` on overflow.
pub open spec fn spec_step(
    config: AllocationConfig,
    cur: u64,
    current_cycle: u64,
    last_cycle: u64,
    acc: u128,
    cycle_rewards: u128,
    last_distributed: u64,
) -> Option<(u128, u128, u64)> {
    if last_cycle + 1 > u64::MAX
        || config.init_timestamp + (last_cycle + 1) * config.cycle_duration > u64::MAX {
        None
    } else {
        let next_ts = min_u64(config.till_timestamp,
            (config.init_timestamp + (last_cycle + 1) * config.cycle_duration) as u64);
        match checked_ratio(cycle_rewards as int, fractional(), config.cycle_duration as int) {
            None => None,
            Some(rate_atomics) => {
                let rate = Decimal { atomics: rate_atomics };
                match spec_rewards_for_period(rate, max_u64(last_distributed, config.init_timestamp), min_u64(cur, next_ts)) {
                    None => None,
                    Some(dist) => if acc + dist > u128::MAX {
                        None
                    } else {
                        match spec_next_cycle_rewards(cycle_rewards, increase_of(config), current_cycle == last_cycle) {
                            None => None,
                            Some(nr) => Some(((acc + dist) as u128, nr, min_u64(cur, next_ts))),
                        }
                    },
                }
            },
        }
    }
}

/// The distribution loop from cycle `last_cycle` through `current_cycle`:
/// the rewards to distribute, the next cycle rewards and the last distribution time.
pub open spec fn spec_distribute(
    config: AllocationConfig,
    cur: u64,
    current_cycle: u64,
    last_cycle: u64,
    acc: u128,
    cycle_rewards: u128,
    last_distributed: u64,
) -> Option<(u128, u128, u64)>
    decreases current_cycle - last_cycle + 1,
{
    if current_cycle < last_cycle {
        Some((acc, cycle_rewards, last_distributed))
    } else {
        match spec_step(config, cur, current_cycle, last_cycle, acc, cycle_rewards, last_distributed) {
            None => None,
            Some(next) => spec_distribute(config, cur, current_cycle, (last_cycle + 1) as u64, next.0, next.1, next.2),
        }
    }
}

/// What `compute_allocated_reward` does to the allocation and to the reward index.
pub open spec fn spec_compute_allocated_reward(
    total_share: u128,
    info: AllocationInfo,
    index: Decimal,
    cur: u64,
) -> Result<(AllocationInfo, Decimal), ContractError> {
    let config = info.config;
    let state = info.state;
    if state.last_distributed == config.till_timestamp {
        Ok((info, index))
    } else {
        let new_cycle = spec_cycles_elapsed(cur, config.init_timestamp, config.cycle_duration, config.till_timestamp);
        match spec_distribute(config, cur, new_cycle, state.current_cycle, 0, state.current_cycle_rewards, state.last_distributed) {
            None => Err(ContractError::Overflow),
            Some(res) => {
                let rewards = res.0;
                let last_distributed = res.2;
                let cycle_rewards = if last_distributed == config.till_timestamp { 0u128 } else { res.1 };
                let new_info = AllocationInfo {
                    config,
                    state: AllocationState { current_cycle: new_cycle, current_cycle_rewards: cycle_rewards, last_distributed },
                };
                if total_share == 0 || config.init_timestamp > cur {
                    Ok((new_info, index))
                } else {
                    match checked_ratio(rewards as int, fractional(), total_share as int) {
                        None => Err(ContractError::Overflow),
                        Some(inc) => if index.atomics + inc > u128::MAX {
                            Err(ContractError::Overflow)
                        } else {
                            Ok((new_info, Decimal { atomics: (index.atomics + inc) as u128 }))
                        },
                    }
                }
            },
        }
    }
}

/// Accruing allocated rewards never lowers the global reward index, and
/// leaves it as it was while nothing is staked or before the schedule starts;
/// once the distribution period is over, nothing changes at all.
pub proof fn allocated_index_never_falls(total_share: u128, info: AllocationInfo, index: Decimal, cur: u64)
    ensures
        spec_compute_allocated_reward(total_share, info, index, cur) matches Ok((_, i2)) ==> {
            &&& i2.atomics >= index.atomics
            &&& (total_share == 0 || info.config.init_timestamp > cur) ==> i2 == index
        },
        info.state.last_distributed == info.config.till_timestamp
            ==> spec_compute_allocated_reward(total_share, info, index, cur) == Ok::<(AllocationInfo, Decimal), ContractError>((info, index)),
{
}

/// The rewards of a cycle `k` cycles after one with rewards `r`: each new
/// cycle pays the previous cycle's rewards grown by `increase`, floored at
/// every step, i.e. `r * (1 + increase)^k`.
pub open spec fn grown_rewards(r: int, increase: Decimal, k: nat) -> int
    decreases k,
{
    if k == 0 {
        r
    } else {
        grown_rewards(r + r * increase.atomics / fractional(), increase, (k - 1) as nat)
    }
}

proof fn lemma_distribute_grows(config: AllocationConfig, cur: u64, n: u64, c: u64, acc: u128, r: u128, ld: u64)
    requires
        c <= n,
    ensures
        spec_distribute(config, cur, n, c, acc, r, ld) matches Some(res)
            ==> res.1 == grown_rewards(r as int, increase_of(config), (n - c) as nat),
    decreases n - c,
{
    match spec_step(config, cur, n, c, acc, r, ld) {
        None => {},
        Some(next) => {
            if c == n {
                assert(next.1 == r);
                assert(spec_distribute(config, cur, n, (c + 1) as u64, next.0, next.1, next.2) == Some((next.0, next.1, next.2)));
            } else {
                assert(next.1 == r + r * increase_of(config).atomics / fractional());
                lemma_distribute_grows(config, cur, n, (c + 1) as u64, next.0, next.1, next.2);
                assert(grown_rewards(r as int, increase_of(config), (n - c) as nat)
                    == grown_rewards(next.1 as int, increase_of(config), (n - (c + 1)) as nat));
            }
        },
    }
}

/// When the distribution moves on from cycle `c` to cycle `n`, every new
/// cycle's rewards are the previous cycle's grown by the reward increase
/// (floored): the stored cycle rewards become the old ones times
/// `(1 + increase)^(n - c)`, floored step by step (until the period ends,
/// when nothing is left to pay).
pub proof fn cycle_rewards_grow_by_the_increase(total_share: u128, info: AllocationInfo, index: Decimal, cur: u64)
    ensures
        spec_compute_allocated_reward(total_share, info, index, cur) matches Ok((info2, _)) ==> (
            info.state.last_distributed != info.config.till_timestamp
            && info.state.current_cycle <= info2.state.current_cycle
            && info2.state.last_distributed != info.config.till_timestamp
            ==> info2.state.current_cycle_rewards as int == grown_rewards(
                info.state.current_cycle_rewards as int,
                increase_of(info.config),
                (info2.state.current_cycle - info.state.current_cycle) as nat,
            )),
{
    let config = info.config;
    let state = info.state;
    if state.last_distributed != config.till_timestamp {
        let n = spec_cycles_elapsed(cur, config.init_timestamp, config.cycle_duration, config.till_timestamp);
        if state.current_cycle <= n {
            lemma_distribute_grows(config, cur, n, state.current_cycle, 0, state.current_cycle_rewards, state.last_distributed);
        }
    }
}

/// What a whole cycle with rewards `rewards` pays: the rewards spread over
/// the cycle at a rate per second floored to 18 decimals, for the cycle's
/// whole length.
pub open spec fn whole_cycle_payout(rewards: int, duration: int) -> int {
    duration * (rewards * fractional() / duration) / fractional()
}

/// Two whole cycles from the start of cycle `c` pay what cycle `c` pays and
/// what cycle `c + 1` pays, whose rewards are cycle `c`'s grown by the reward
/// increase (floored); the global index rises by that total over the staked
/// shares, and the schedule moves on to cycle `c + 2`.
pub proof fn two_whole_cycles_pay_grown_rewards(total_share: u128, info: AllocationInfo, index: Decimal)
    requires
        info.config.cycle_duration > 0,
        info.state.last_distributed == info.config.init_timestamp + info.state.current_cycle * info.config.cycle_duration,
        info.config.init_timestamp + (info.state.current_cycle + 2) * info.config.cycle_duration <= info.config.till_timestamp,
        total_share > 0,
    ensures
        ({
            let config = info.config;
            let d = config.cycle_duration as int;
            let c = info.state.current_cycle as int;
            let cur = config.init_timestamp + (c + 2) * d;
            let r0 = info.state.current_cycle_rewards as int;
            let r1 = grown_rewards(r0, increase_of(config), 1);
            let paid = whole_cycle_payout(r0, d) + whole_cycle_payout(r1, d);
            spec_compute_allocated_reward(total_share, info, index, cur as u64) matches Ok((info2, i2)) ==> {
                &&& i2.atomics == index.atomics + paid * fractional() / (total_share as int)
                &&& info2.state.current_cycle == c + 2
                &&& info2.state.last_distributed == cur
                &&& info2.state.current_cycle_rewards == (if cur == config.till_timestamp { 0 } else { grown_rewards(r0, increase_of(config), 2) })
            }
        }),
{
    let config = info.config;
    let state = info.state;
    let init = config.init_timestamp;
    let till = config.till_timestamp;
    let d = config.cycle_duration;
    let c = state.current_cycle;
    let p = increase_of(config);
    assert(c * d >= 0 && (c + 1) * d == c * d + d && (c + 2) * d == c * d + 2 * d && (c + 3) * d == c * d + 3 * d)
        by (nonlinear_arith) requires c >= 0, d > 0;
    let s0 = state.last_distributed;
    let cur = (init + (c + 2) * d) as u64;
    assert(cur == s0 + 2 * d);
    assert(s0 != till);
    assert((till - init) / (d as int) >= c + 2) by (nonlinear_arith)
        requires till - init >= (c + 2) * d, d > 0;
    assert((cur - init) / (d as int) == c + 2) by (nonlinear_arith)
        requires cur - init == (c + 2) * d, d > 0;
    let n = spec_cycles_elapsed(cur, init, d, till);
    assert(n == c + 2);
    let r0 = state.current_cycle_rewards;
    match spec_step(config, cur, n, c, 0, r0, s0) {
        None => {},
        Some(a) => {
            let rate0 = (r0 * fractional() / (d as int)) as u128;
            assert(a.2 == s0 + d);
            assert(a.0 == d * rate0 / fractional());
            assert(a.1 == r0 + r0 * p.atomics / fractional());
            let c1 = (c + 1) as u64;
            match spec_step(config, cur, n, c1, a.0, a.1, a.2) {
                None => {},
                Some(b) => {
                    let rate1 = (a.1 * fractional() / (d as int)) as u128;
                    assert(b.2 == cur);
                    assert(b.0 == a.0 + d * rate1 / fractional());
                    assert(b.1 == a.1 + a.1 * p.atomics / fractional());
                    let c2 = (c + 2) as u64;
                    match spec_step(config, cur, n, c2, b.0, b.1, b.2) {
                        None => {},
                        Some(e) => {
                            assert(e == (b.0, b.1, cur));
                            assert(spec_distribute(config, cur, n, (c2 + 1) as u64, e.0, e.1, e.2) == Some(e));
                            assert(spec_distribute(config, cur, n, c2, b.0, b.1, b.2) == Some(e));
                            assert(spec_distribute(config, cur, n, c1, a.0, a.1, a.2) == Some(e));
                            assert(spec_distribute(config, cur, n, c, 0, r0, s0) == Some(e));
                            reveal_with_fuel(grown_rewards, 3);
                            assert(grown_rewards(r0 as int, p, 1) == a.1);
                            assert(grown_rewards(a.1 as int, p, 1) == b.1);
                            assert(grown_rewards(r0 as int, p, 2) == grown_rewards(a.1 as int, p, 1));
                        },
                    }
                },
            }
        },
    }
}

/// Within a cycle, rewards are paid pro rata: from the start of cycle `c`, a
/// time `t` shorter than the cycle pays `t` seconds at the cycle's rate (its
/// rewards over its length, floored to 18 decimals); the schedule stays in
/// cycle `c` with its rewards unchanged.
pub proof fn part_of_a_cycle_pays_pro_rata(total_share: u128, info: AllocationInfo, index: Decimal, t: u64)
    requires
        info.config.cycle_duration > 0,
        0 < t < info.config.cycle_duration,
        info.state.last_distributed == info.config.init_timestamp + info.state.current_cycle * info.config.cycle_duration,
        info.config.init_timestamp + (info.state.current_cycle + 1) * info.config.cycle_duration <= info.config.till_timestamp,
        total_share > 0,
    ensures
        ({
            let config = info.config;
            let d = config.cycle_duration as int;
            let cur = info.state.last_distributed + t;
            let r0 = info.state.current_cycle_rewards as int;
            let paid = t * (r0 * fractional() / d) / fractional();
            spec_compute_allocated_reward(total_share, info, index, cur as u64) matches Ok((info2, i2)) ==> {
                &&& i2.atomics == index.atomics + paid * fractional() / (total_share as int)
                &&& info2.state.current_cycle == info.state.current_cycle
                &&& info2.state.last_distributed == cur
                &&& info2.state.current_cycle_rewards == r0
            }
        }),
{
    let config = info.config;
    let state = info.state;
    let init = config.init_timestamp;
    let till = config.till_timestamp;
    let d = config.cycle_duration;
    let c = state.current_cycle;
    assert(c * d >= 0 && (c + 1) * d == c * d + d) by (nonlinear_arith) requires c >= 0, d > 0;
    let s0 = state.last_distributed;
    let cur = (s0 + t) as u64;
    assert(s0 != till);
    assert((till - init) / (d as int) >= c + 1) by (nonlinear_arith)
        requires till - init >= (c + 1) * d, d > 0;
    assert((cur - init) / (d as int) == c) by (nonlinear_arith)
        requires cur - init == c * d + t, 0 < t < d;
    let n = spec_cycles_elapsed(cur, init, d, till);
    assert(n == c);
    let r0 = state.current_cycle_rewards;
    match spec_step(config, cur, n, c, 0, r0, s0) {
        None => {},
        Some(a) => {
            assert(a.2 == cur);
            assert(a.1 == r0);
            assert(spec_distribute(config, cur, n, (c + 1) as u64, a.0, a.1, a.2) == Some(a));
            assert(spec_distribute(config, cur, n, c, 0, r0, s0) == Some(a));
        },
    }
}

/// Whether the schedule can be run at all: its arithmetic divides by the
/// cycle duration and subtracts the start from the end of the period.
pub open spec fn schedule_is_valid(config: AllocationConfig) -> bool {
    config.cycle_duration > 0 && config.init_timestamp <= config.till_timestamp
}

/// Accrues the rewards of an allocated reward token up to `cur_timestamp`:
/// once the distribution period is over nothing changes; otherwise it
/// advances its schedule and, when something is staked and the schedule has
/// started, raises the global reward index by `rewards / total_share`.
/// Fails with `InvalidAsset`, naming the token by `reward_token` (its text
/// form), for a token without a schedule.
pub fn compute_allocated_reward(
    reward_token: &String,
    total_share: u128,
    allocation_info: Option<AllocationInfo>,
    index: Decimal,
    cur_timestamp: u64,
) -> (r: Result<(AllocationInfo, Decimal), ContractError>)
    requires
        allocation_info matches Some(i) ==> (i.state.last_distributed != i.config.till_timestamp ==> schedule_is_valid(i.config)),
    ensures
        allocation_info is None ==> r == Err::<(AllocationInfo, Decimal), ContractError>(ContractError::InvalidAsset { asset: *reward_token }),
        allocation_info is Some ==> r == spec_compute_allocated_reward(total_share, allocation_info->0, index, cur_timestamp),
{
    let info = match allocation_info {
        None => return Err(ContractError::InvalidAsset { asset: reward_token.clone() }),
        Some(i) => i,
    };
    let config = info.config;
    let state = info.state;
    if state.last_distributed == config.till_timestamp {
        return Ok((info, index));
    }
    let mut last_cycle: u64 = state.current_cycle;
    let new_cycle = calculate_cycles_elapsed(cur_timestamp, config.init_timestamp, config.cycle_duration, config.till_timestamp);
    let mut acc: u128 = 0;
    let mut cycle_rewards: u128 = state.current_cycle_rewards;
    let mut last_distributed: u64 = state.last_distributed;
    let increase = match config.reward_increase {
        Some(d) => d,
        None => Decimal::zero(),
    };
    let ghost expected = spec_distribute(config, cur_timestamp, new_cycle, state.current_cycle, 0, state.current_cycle_rewards, state.last_distributed);
    while new_cycle >= last_cycle
        invariant
            allocation_info == Some(info),
            config == info.config,
            state == info.state,
            state.last_distributed != config.till_timestamp,
            new_cycle == spec_cycles_elapsed(cur_timestamp, config.init_timestamp, config.cycle_duration, config.till_timestamp),
            expected == spec_distribute(config, cur_timestamp, new_cycle, state.current_cycle, 0, state.current_cycle_rewards, state.last_distributed),
            increase == increase_of(config),
            schedule_is_valid(config),
            expected == spec_distribute(config, cur_timestamp, new_cycle, last_cycle, acc, cycle_rewards, last_distributed),
        decreases new_cycle - last_cycle + 1,
    {
        if last_cycle == u64::MAX {
            return Err(ContractError::Overflow);
        }
        let next_cycle: u64 = last_cycle + 1;
        let offset = match next_cycle.checked_mul(config.cycle_duration) {
            Some(o) => o,
            None => {
                proof {
                    assert(next_cycle * config.cycle_duration >= next_cycle * 1) by (nonlinear_arith)
                        requires config.cycle_duration >= 1;
                }
                return Err(ContractError::Overflow);
            },
        };
        let start_next = match config.init_timestamp.checked_add(offset) {
            Some(s) => s,
            None => return Err(ContractError::Overflow),
        };
        let next_ts: u64 = if config.till_timestamp <= start_next { config.till_timestamp } else { start_next };
        let rate = match Decimal::checked_from_ratio(cycle_rewards, config.cycle_duration as u128) {
            Some(d) => d,
            None => return Err(ContractError::Overflow),
        };
        let from: u64 = if last_distributed >= config.init_timestamp { last_distributed } else { config.init_timestamp };
        let to: u64 = if cur_timestamp <= next_ts { cur_timestamp } else { next_ts };
        let dist = match rewards_distributed_for_cycle(rate, from, to) {
            Some(d) => d,
            None => return Err(ContractError::Overflow),
        };
        acc = match acc.checked_add(dist) {
            Some(a) => a,
            None => return Err(ContractError::Overflow),
        };
        cycle_rewards = match calculate_cycle_rewards(cycle_rewards, increase, new_cycle == last_cycle) {
            Some(c) => c,
            None => return Err(ContractError::Overflow),
        };
        last_distributed = to;
        last_cycle = next_cycle;
    }
    if last_distributed == config.till_timestamp {
        cycle_rewards = 0;
    }
    let new_info = AllocationInfo {
        config,
        state: AllocationState { current_cycle: new_cycle, current_cycle_rewards: cycle_rewards, last_distributed },
    };
    if total_share == 0 || config.init_timestamp > cur_timestamp {
        return Ok((new_info, index));
    }
    let inc = match Decimal::checked_from_ratio(acc, total_share) {
        Some(d) => d,
        None => return Err(ContractError::Overflow),
    };
    match index.checked_add(inc) {
        Some(new_index) => Ok((new_info, new_index)),
        None => Err(ContractError::Overflow),
    }
}

} // verus!

use vstd::prelude::*;
use crate::network::{get_or, sat_add, sat_sub};
use crate::types::MIN_LIQUIDITY;
use crate::math::spec_convert_to_shares;

verus! {

/// A share pool keyed by `K` with per-account entries keyed by `AK` went from
/// `(ts0, tb0, as0)` to `(ts1, tb1, as1)` by crediting `amount` of balance and
/// `shares` shares to pool `k` and account entry `ak` (all saturating).
pub open spec fn pool_credited<K, AK>(
    ts0: Map<K, u128>,
    tb0: Map<K, u128>,
    as0: Map<AK, u128>,
    ts1: Map<K, u128>,
    tb1: Map<K, u128>,
    as1: Map<AK, u128>,
    k: K,
    ak: AK,
    amount: u128,
    shares: u128,
) -> bool {
    &&& as1 == as0.insert(ak, sat_add(get_or(as0, ak, 0u128), shares))
    &&& tb1 == tb0.insert(k, sat_add(get_or(tb0, k, 0u128), amount))
    &&& ts1 == ts0.insert(k, sat_add(get_or(ts0, k, 0u128), shares))
}

/// The same pools went from `(ts0, tb0, as0)` to `(ts1, tb1, as1)` by debiting
/// `amount` of balance and `shares` shares (all floored at zero).
pub open spec fn pool_debited<K, AK>(
    ts0: Map<K, u128>,
    tb0: Map<K, u128>,
    as0: Map<AK, u128>,
    ts1: Map<K, u128>,
    tb1: Map<K, u128>,
    as1: Map<AK, u128>,
    k: K,
    ak: AK,
    amount: u128,
    shares: u128,
) -> bool {
    &&& as1 == as0.insert(ak, sat_sub(get_or(as0, ak, 0u128), shares))
    &&& tb1 == tb0.insert(k, sat_sub(get_or(tb0, k, 0u128), amount))
    &&& ts1 == ts0.insert(k, sat_sub(get_or(ts0, k, 0u128), shares))
}

/// Total shares of pool `k` after the first-deposit guard: an empty pool is
/// seeded with `MIN_LIQUIDITY` dead shares.
pub open spec fn seeded<K>(ts: Map<K, u128>, k: K) -> Map<K, u128> {
    if get_or(ts, k, 0u128) == 0 {
        ts.insert(k, sat_add(0, MIN_LIQUIDITY))
    } else {
        ts
    }
}

/// Shares a deposit of `amount` mints in pool `k` (computed before seeding).
pub open spec fn deposit_shares<K>(ts: Map<K, u128>, tb: Map<K, u128>, k: K, amount: u128) -> u128 {
    spec_convert_to_shares(amount, get_or(ts, k, 0u128), get_or(tb, k, 0u128))
}

} // verus!

use vstd::prelude::*;
use sp_core::U256;

verus! {

/// 2^256, one more than the largest 256-bit number.
pub open spec fn u256_bound() -> nat {
    0x1_0000_0000_0000_0000_0000_0000_0000_0000_0000_0000_0000_0000_0000_0000_0000_0000nat
}

/// The number that the four little-endian 64-bit words `l` of a 256-bit
/// integer stand for.
pub open spec fn limbs_value(l: [u64; 4]) -> nat {
    (l@[0] as nat)
        + (l@[1] as nat) * 0x1_0000_0000_0000_0000nat
        + (l@[2] as nat) * 0x1_0000_0000_0000_0000_0000_0000_0000_0000nat
        + (l@[3] as nat) * 0x1_0000_0000_0000_0000_0000_0000_0000_0000_0000_0000_0000_0000nat
}

/// `sp_core::U256::from(u128)`: the words of the 256-bit number `x`.
#[verifier::external_body]
fn u256_from_u128(x: u128) -> (r: [u64; 4])
    ensures
        limbs_value(r) == x,
{
    U256::from(x).0
}

/// `U256 + U256` of `sp_core`: the sum, which must stay below 2^256 (the
/// addition panics otherwise).
#[verifier::external_body]
fn u256_add(a: [u64; 4], b: [u64; 4]) -> (r: [u64; 4])
    requires
        limbs_value(a) + limbs_value(b) < u256_bound(),
    ensures
        limbs_value(r) == limbs_value(a) + limbs_value(b),
{
    (U256(a) + U256(b)).0
}

/// `U256::checked_mul` of `sp_core`: the product, or `None` when it does not
/// fit in 256 bits.
#[verifier::external_body]
fn u256_checked_mul(a: [u64; 4], b: [u64; 4]) -> (r: Option<[u64; 4]>)
    ensures
        match r {
            Some(p) => limbs_value(p) == limbs_value(a) * limbs_value(b),
            None => limbs_value(a) * limbs_value(b) >= u256_bound(),
        },
{
    match U256(a).checked_mul(U256(b)) {
        Some(p) => Some(p.0),
        None => None,
    }
}

/// `U256::checked_div` of `sp_core`: the floored quotient, or `None` when the
/// divisor is zero.
#[verifier::external_body]
fn u256_checked_div(a: [u64; 4], b: [u64; 4]) -> (r: Option<[u64; 4]>)
    ensures
        match r {
            Some(q) => limbs_value(b) != 0 && limbs_value(q) == limbs_value(a) / limbs_value(b),
            None => limbs_value(b) == 0,
        },
{
    match U256(a).checked_div(U256(b)) {
        Some(q) => Some(q.0),
        None => None,
    }
}

/// `TryFrom<U256> for u128` of `sp_core`: the number, or `None` when it
/// exceeds `u128::MAX`.
#[verifier::external_body]
fn u128_try_from_u256(a: [u64; 4]) -> (r: Option<u128>)
    ensures
        match r {
            Some(v) => v == limbs_value(a),
            None => limbs_value(a) > u128::MAX,
        },
{
    u128::try_from(U256(a)).ok()
}

/// `floor(x * (y + y_add) / (z + z_add))`, computed in 256 bits: `None` when
/// the product does not fit in 256 bits, the divisor is zero or the quotient
/// exceeds `u128::MAX`.
pub open spec fn spec_mul_div(x: u128, y: u128, y_add: u128, z: u128, z_add: u128) -> Option<u128> {
    let p = (x as nat) * (y as nat + y_add as nat);
    let d = z as nat + z_add as nat;
    if p >= u256_bound() || d == 0 || p / d > u128::MAX {
        None
    } else {
        Some((p / d) as u128)
    }
}

/// `x * (y + y_add) / (z + z_add)` in 256-bit arithmetic, narrowed to `u128`.
pub(crate) fn checked_mul_div(x: u128, y: u128, y_add: u128, z: u128, z_add: u128) -> (r: Option<u128>)
    ensures
        r == spec_mul_div(x, y, y_add, z, z_add),
{
    let factor = u256_add(u256_from_u128(y), u256_from_u128(y_add));
    let divisor = u256_add(u256_from_u128(z), u256_from_u128(z_add));
    let product = match u256_checked_mul(u256_from_u128(x), factor) {
        Some(p) => p,
        None => return None,
    };
    let quotient = match u256_checked_div(product, divisor) {
        Some(q) => q,
        None => return None,
    };
    u128_try_from_u256(quotient)
}

/// A product of at least 2^256 divided by at most 2^128 exceeds `u128::MAX`.
proof fn lemma_overflow_quotient_too_large(p: nat, d: nat)
    requires
        p >= u256_bound(),
        1 <= d <= 0x1_0000_0000_0000_0000_0000_0000_0000_0000nat,
    ensures
        p / d > u128::MAX,
{
    let t = 0x1_0000_0000_0000_0000_0000_0000_0000_0000nat;
    assert(d * t <= t * t) by (nonlinear_arith)
        requires d <= t, t > 0;
    assert(t * t == u256_bound());
    assert(p / d >= t) by (nonlinear_arith)
        requires p >= d * t, d >= 1;
}

/// A `u128` times at most 2^128 stays below 2^256.
proof fn lemma_product_fits(x: nat, f: nat)
    requires
        x <= u128::MAX,
        f <= 0x1_0000_0000_0000_0000_0000_0000_0000_0000nat,
    ensures
        x * f < u256_bound(),
{
    let t = 0x1_0000_0000_0000_0000_0000_0000_0000_0000nat;
    assert(t * t == u256_bound());
    assert(x * f <= x * t) by (nonlinear_arith)
        requires f <= t;
    assert(x * t < t * t) by (nonlinear_arith)
        requires x < t, t > 0;
}

/// Shares minted for `balance` in a vault with `total_shares` and `total_balance`.
pub open spec fn spec_convert_to_shares(balance: u128, total_shares: u128, total_balance: u128) -> u128 {
    if total_shares == 0 {
        balance
    } else {
        let q = (balance as int) * (total_shares as int + 10) / (total_balance as int + 1);
        if q <= u128::MAX { q as u128 } else { u128::MAX }
    }
}

/// Balance redeemed for `shares` in a vault with `total_shares` and `total_balance`.
pub open spec fn spec_convert_to_balance(shares: u128, total_shares: u128, total_balance: u128) -> u128 {
    if total_shares == 0 {
        shares
    } else {
        let q = (shares as int) * (total_balance as int + 1) / (total_shares as int + 10);
        if q <= u128::MAX { q as u128 } else { u128::MAX }
    }
}

/// Convert a balance to shares of a vault (virtual offsets of 10 shares and 1 unit of balance).
pub fn convert_to_shares(balance: u128, total_shares: u128, total_balance: u128) -> (r: u128)
    ensures
        r == spec_convert_to_shares(balance, total_shares, total_balance),
{
    if total_shares == 0 {
        return balance;
    }
    let r = match checked_mul_div(balance, total_shares, 10, total_balance, 1) {
        Some(q) => q,
        None => u128::MAX,
    };
    proof {
        let p = (balance as nat) * (total_shares as nat + 10);
        if p >= u256_bound() {
            lemma_overflow_quotient_too_large(p, total_balance as nat + 1);
        }
    }
    r
}

/// Convert shares of a vault to a balance.
pub fn convert_to_balance(shares: u128, total_shares: u128, total_balance: u128) -> (r: u128)
    ensures
        r == spec_convert_to_balance(shares, total_shares, total_balance),
{
    if total_shares == 0 {
        return shares;
    }
    proof {
        lemma_product_fits(shares as nat, total_balance as nat + 1);
    }
    match checked_mul_div(shares, total_balance, 1, total_shares, 10) {
        Some(q) => q,
        None => u128::MAX,
    }
}

} // verus!

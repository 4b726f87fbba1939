//! Fixed-point money arithmetic.
//!
//! Monetary quantities (amounts, prices, balances, fees) are integers counting
//! thousandths of a unit ("milli-units"). Products of two milli-unit values
//! are in millionths of a unit ("micro-units"). Reported aggregates are
//! rounded to whole units, half away from zero, as the platform's default
//! float rounding does.

use vstd::prelude::*;

verus! {

/// Largest admitted price or amount, in milli-units (a million units).
pub const MONEY_MAX: u64 = 1_000_000_000;

/// Largest admitted stored fee, in milli-units. The derived fees stay below
/// this bound whenever price and amount are below `MONEY_MAX`.
pub const FEE_MAX: u64 = 4_000_000_000_000;

/// The execution fee of a trade: 0.3 % of `execution_price * traded_amount`,
/// in milli-units, with the quotient taken by floor division.
pub open spec fn execution_fee_of(price: int, amount: int) -> int {
    (3 * price * amount) / 1_000_000
}

/// The transaction fee of a trade: 0.5 % of `execution_price`, in
/// milli-units, with the quotient taken by floor division.
pub open spec fn transaction_fee_of(price: int) -> int {
    (5 * price) / 1_000
}

/// Round a milli-unit quantity to whole units, half away from zero.
pub open spec fn round_milli(x: int) -> int {
    if x >= 0 {
        (x + 500) / 1_000
    } else {
        -((-x + 500) / 1_000)
    }
}

/// Round a micro-unit quantity to whole units, half away from zero.
pub open spec fn round_micro(x: int) -> int {
    if x >= 0 {
        (x + 500_000) / 1_000_000
    } else {
        -((-x + 500_000) / 1_000_000)
    }
}

pub fn compute_execution_fee(price: u64, amount: u64) -> (r: u64)
    requires
        price <= MONEY_MAX,
        amount <= MONEY_MAX,
    ensures
        r == execution_fee_of(price as int, amount as int),
        r <= FEE_MAX,
{
    proof {
        assert(3 * (price as int) * (amount as int) <= 3_000_000_000_000_000_000) by (nonlinear_arith)
            requires
                price <= 1_000_000_000,
                amount <= 1_000_000_000,
        ;
    }
    let wide: u128 = 3 * (price as u128) * (amount as u128) / 1_000_000;
    wide as u64
}

pub fn compute_transaction_fee(price: u64) -> (r: u64)
    requires
        price <= MONEY_MAX,
    ensures
        r == transaction_fee_of(price as int),
        r <= FEE_MAX,
{
    let wide: u128 = 5 * (price as u128) / 1_000;
    wide as u64
}

pub fn round_milli_to_units(x: i128) -> (r: i128)
    requires
        -170_000_000_000_000_000_000_000_000_000_000_000_000i128 <= x
            <= 170_000_000_000_000_000_000_000_000_000_000_000_000i128,
    ensures
        r == round_milli(x as int),
{
    if x >= 0 {
        (((x as u128) + 500) / 1_000) as i128
    } else {
        let q = ((((-x) as u128) + 500) / 1_000) as i128;
        -q
    }
}

pub fn round_micro_to_units(x: i128) -> (r: i128)
    requires
        -170_000_000_000_000_000_000_000_000_000_000_000_000i128 <= x
            <= 170_000_000_000_000_000_000_000_000_000_000_000_000i128,
    ensures
        r == round_micro(x as int),
{
    if x >= 0 {
        (((x as u128) + 500_000) / 1_000_000) as i128
    } else {
        let q = ((((-x) as u128) + 500_000) / 1_000_000) as i128;
        -q
    }
}

} // verus!

use vstd::prelude::*;

use crate::errors::AmmError;
use crate::math::lemma_div_bounds;

verus! {

/// The post-fee portion of a swap input, rounded down: the part that takes
/// part in pricing. The remainder is the fee; it is still credited to the
/// pool but buys no output.
pub open spec fn amount_effective(amount: int, fee_bps: int) -> int {
    amount * (10000 - fee_bps) / 10000
}

/// The input-side reserve once the effective input has joined it.
pub open spec fn new_reserve_in(reserve_in: int, amount: int, fee_bps: int) -> int {
    reserve_in + amount_effective(amount, fee_bps)
}

/// The output-side reserve that keeps the constant product, rounded down.
pub open spec fn new_reserve_out(reserve_in: int, reserve_out: int, amount: int, fee_bps: int) -> int {
    (reserve_in * reserve_out) / new_reserve_in(reserve_in, amount, fee_bps)
}

/// The amount a swap pays out of the output reserve.
pub open spec fn swap_output(reserve_in: int, reserve_out: int, amount: int, fee_bps: int) -> int {
    reserve_out - new_reserve_out(reserve_in, reserve_out, amount, fee_bps)
}

/// The decision record of a swap: both transfer legs for the caller to
/// execute atomically — the full input from trader to pool, the output from
/// pool to trader. `is_swap_a` names the input side.
#[derive(Clone, Copy, Debug, PartialEq, Eq, Structural)]
pub struct SwapDecision {
    pub is_swap_a: bool,
    pub input_amount: u64,
    pub output_amount: u64,
}

/// Swap pricer: applies the fee-adjusted constant-product formula to the
/// reserve pair selected by direction, and enforces the caller's slippage
/// floor. The defensive underflow guard of the formula is discharged
/// statically: the output never exceeds the output reserve.
pub fn swap(
    is_swap_a: bool,
    amount: u64,
    min_out_amount: u64,
    fee_bps: u16,
    reserve_in: u64,
    reserve_out: u64,
    trader_input_balance: u64,
) -> (r: Result<SwapDecision, AmmError>)
    requires
        fee_bps <= 10000,
    ensures
        amount == 0 ==> r == Err::<SwapDecision, AmmError>(AmmError::AmountIsZero),
        amount > 0 && trader_input_balance < amount ==> r == Err::<SwapDecision, AmmError>(
            AmmError::InsufficientBalance,
        ),
        amount > 0 && trader_input_balance >= amount && (reserve_in == 0 || reserve_out == 0)
            ==> r == Err::<SwapDecision, AmmError>(AmmError::EmptyPool),
        amount > 0 && trader_input_balance >= amount && reserve_in > 0 && reserve_out > 0 ==> ({
            let out = swap_output(reserve_in as int, reserve_out as int, amount as int, fee_bps as int);
            &&& 0 <= out <= reserve_out
            &&& out < min_out_amount ==> r == Err::<SwapDecision, AmmError>(
                AmmError::OutputAmountTooLow,
            )
            &&& out >= min_out_amount ==> (r matches Ok(d) && d.is_swap_a == is_swap_a
                && d.input_amount == amount && d.output_amount == out)
        }),
{
    if amount == 0 {
        return Err(AmmError::AmountIsZero);
    }
    if trader_input_balance < amount {
        return Err(AmmError::InsufficientBalance);
    }
    if !(reserve_in > 0 && reserve_out > 0) {
        return Err(AmmError::EmptyPool);
    }

    let percent: u128 = 10000 - (fee_bps as u128);
    assert((amount as int) * (10000 - fee_bps as int) <= u128::MAX) by (nonlinear_arith)
        requires
            amount <= u64::MAX,
            0 <= fee_bps <= 10000,
    ;
    let amount_eff: u128 = (amount as u128) * percent / 10000;
    proof {
        vstd::arithmetic::mul::lemma_mul_nonnegative(amount as int, 10000 - fee_bps as int);
        lemma_div_bounds((amount as int) * (10000 - fee_bps as int), 10000);
        assert((amount as int) * (10000 - fee_bps as int) <= 10000 * (amount as int))
            by (nonlinear_arith)
            requires
                0 <= fee_bps <= 10000,
                0 <= amount,
        ;
        vstd::arithmetic::div_mod::lemma_multiply_divide_le(
            (amount as int) * (10000 - fee_bps as int),
            10000,
            amount as int,
        );
    }

    assert((reserve_in as int) * (reserve_out as int) <= u128::MAX) by (nonlinear_arith)
        requires
            reserve_in <= u64::MAX,
            reserve_out <= u64::MAX,
    ;
    let k: u128 = (reserve_in as u128) * (reserve_out as u128);
    let new_input_reserve: u128 = (reserve_in as u128) + amount_eff;
    let new_output_reserve: u128 = k / new_input_reserve;
    proof {
        vstd::arithmetic::div_mod::lemma_div_multiples_vanish(
            reserve_out as int,
            reserve_in as int,
        );
        vstd::arithmetic::div_mod::lemma_div_is_ordered_by_denominator(
            (reserve_in as int) * (reserve_out as int),
            reserve_in as int,
            new_input_reserve as int,
        );
        vstd::arithmetic::div_mod::lemma_div_pos_is_pos(
            (reserve_in as int) * (reserve_out as int),
            new_input_reserve as int,
        );
    }
    let output_amount: u64 = ((reserve_out as u128) - new_output_reserve) as u64;

    if output_amount < min_out_amount {
        return Err(AmmError::OutputAmountTooLow);
    }
    Ok(SwapDecision { is_swap_a, input_amount: amount, output_amount })
}

/// Swap monotonicity: with the reserves and the fee fixed, the output amount
/// never decreases when the input amount grows.
pub proof fn lemma_swap_monotonic(
    reserve_in: int,
    reserve_out: int,
    fee_bps: int,
    amount1: int,
    amount2: int,
)
    requires
        0 < reserve_in,
        0 < reserve_out,
        0 <= fee_bps <= 10000,
        0 <= amount1 <= amount2,
    ensures
        swap_output(reserve_in, reserve_out, amount1, fee_bps) <= swap_output(
            reserve_in,
            reserve_out,
            amount2,
            fee_bps,
        ),
{
    let p = 10000 - fee_bps;
    assert(amount1 * p <= amount2 * p) by (nonlinear_arith)
        requires
            0 <= p,
            amount1 <= amount2,
    ;
    vstd::arithmetic::mul::lemma_mul_nonnegative(amount1, p);
    vstd::arithmetic::div_mod::lemma_div_is_ordered(amount1 * p, amount2 * p, 10000);
    vstd::arithmetic::div_mod::lemma_div_pos_is_pos(amount1 * p, 10000);
    vstd::arithmetic::mul::lemma_mul_nonnegative(reserve_in, reserve_out);
    vstd::arithmetic::div_mod::lemma_div_is_ordered_by_denominator(
        reserve_in * reserve_out,
        reserve_in + amount_effective(amount1, fee_bps),
        reserve_in + amount_effective(amount2, fee_bps),
    );
}

/// With no fee the pricer is the bare constant-product formula:
/// `output == reserve_out - floor(reserve_in * reserve_out / (reserve_in + amount))`.
pub proof fn lemma_swap_zero_fee(reserve_in: int, reserve_out: int, amount: int)
    requires
        0 <= amount,
    ensures
        swap_output(reserve_in, reserve_out, amount, 0) == reserve_out - (reserve_in * reserve_out)
            / (reserve_in + amount),
{
    vstd::arithmetic::div_mod::lemma_div_by_multiple(amount, 10000);
}

/// Fee accrual: the decision credits the full input to the input reserve,
/// while pricing uses only the effective input, strictly below the full
/// input whenever the fee is positive. The constant product evaluated with
/// the effective input is preserved up to the single floor rounding — it
/// never exceeds the old product and falls short of it by less than the new
/// input reserve — and crediting the full input adds the fee's share
/// `(amount - eff) * new_out` on top of that. Whenever that share covers
/// the rounding deficit, the product over the full post-swap reserves does
/// not shrink.
pub proof fn lemma_fee_accrual(reserve_in: int, reserve_out: int, fee_bps: int, amount: int)
    requires
        0 < reserve_in,
        0 < reserve_out,
        1 <= amount,
        0 <= fee_bps <= 10000,
    ensures
        ({
            let eff = amount_effective(amount, fee_bps);
            let ni = new_reserve_in(reserve_in, amount, fee_bps);
            let no = new_reserve_out(reserve_in, reserve_out, amount, fee_bps);
            &&& 0 <= eff <= amount
            &&& fee_bps > 0 ==> eff < amount
            &&& ni * no <= reserve_in * reserve_out
            &&& reserve_in * reserve_out < ni * no + ni
            &&& (reserve_in + amount) * no == ni * no + (amount - eff) * no
            &&& (amount - eff) * no >= 0
            &&& (amount - eff) * no >= ni ==> (reserve_in + amount) * no >= reserve_in
                * reserve_out
        }),
{
    let eff = amount_effective(amount, fee_bps);
    let ni = new_reserve_in(reserve_in, amount, fee_bps);
    let no = new_reserve_out(reserve_in, reserve_out, amount, fee_bps);

    vstd::arithmetic::mul::lemma_mul_nonnegative(amount, 10000 - fee_bps);
    lemma_div_bounds(amount * (10000 - fee_bps), 10000);
    assert(amount * (10000 - fee_bps) <= 10000 * amount) by (nonlinear_arith)
        requires
            0 <= fee_bps <= 10000,
            0 <= amount,
    ;
    vstd::arithmetic::div_mod::lemma_multiply_divide_le(
        amount * (10000 - fee_bps),
        10000,
        amount,
    );
    if fee_bps > 0 {
        assert(amount * (10000 - fee_bps) < 10000 * amount) by (nonlinear_arith)
            requires
                1 <= fee_bps <= 10000,
                1 <= amount,
        ;
        vstd::arithmetic::div_mod::lemma_multiply_divide_lt(
            amount * (10000 - fee_bps),
            10000,
            amount,
        );
    }

    vstd::arithmetic::mul::lemma_mul_nonnegative(reserve_in, reserve_out);
    lemma_div_bounds(reserve_in * reserve_out, ni);
    assert(no * ni == ni * no) by (nonlinear_arith);
    assert((reserve_in + amount) * no == ni * no + (amount - eff) * no) by (nonlinear_arith)
        requires
            ni == reserve_in + eff,
    ;
    vstd::arithmetic::mul::lemma_mul_nonnegative(amount - eff, no);
}

} // verus!

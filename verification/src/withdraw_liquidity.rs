use vstd::prelude::*;

use crate::add_liquidity::{lp_from_side, proportional_lp};
use crate::errors::AmmError;
use crate::math::lemma_div_bounds;

verus! {

/// The share of one reserve a burned amount redeems: proportional, rounded
/// down, so rounding favors the pool.
pub open spec fn withdraw_amount(lp_to_burn: int, total_lp: int, reserve: int) -> int {
    lp_to_burn * reserve / total_lp
}

/// Liquidity redeemer: converts a burned share amount into the proportional
/// withdrawal pair. Products are taken at double width; a quotient that does
/// not fit back into 64 bits is a checked overflow.
pub fn calculate_out_amounts(
    lp_to_burn: u64,
    total_lp: u64,
    reserve_a: u64,
    reserve_b: u64,
) -> (r: Result<(u64, u64), AmmError>)
    requires
        total_lp > 0,
    ensures
        ({
            let wa = withdraw_amount(lp_to_burn as int, total_lp as int, reserve_a as int);
            let wb = withdraw_amount(lp_to_burn as int, total_lp as int, reserve_b as int);
            &&& wa > u64::MAX || wb > u64::MAX ==> r == Err::<(u64, u64), AmmError>(
                AmmError::MathOverflow,
            )
            &&& wa <= u64::MAX && wb <= u64::MAX ==> r == Ok::<(u64, u64), AmmError>(
                ((wa as u64, wb as u64)),
            )
        }),
{
    assert((lp_to_burn as int) * (reserve_a as int) <= u128::MAX) by (nonlinear_arith)
        requires
            lp_to_burn <= u64::MAX,
            reserve_a <= u64::MAX,
    ;
    let amount_a_out: u128 = (lp_to_burn as u128) * (reserve_a as u128) / (total_lp as u128);
    if amount_a_out > u64::MAX as u128 {
        return Err(AmmError::MathOverflow);
    }

    assert((lp_to_burn as int) * (reserve_b as int) <= u128::MAX) by (nonlinear_arith)
        requires
            lp_to_burn <= u64::MAX,
            reserve_b <= u64::MAX,
    ;
    let amount_b_out: u128 = (lp_to_burn as u128) * (reserve_b as u128) / (total_lp as u128);
    if amount_b_out > u64::MAX as u128 {
        return Err(AmmError::MathOverflow);
    }

    Ok((amount_a_out as u64, amount_b_out as u64))
}

/// The decision record of a redemption: the shares to burn and the two
/// withdrawals, for the caller to execute atomically. No slippage floor
/// applies to withdrawal; zero outputs are legitimate for a small burn.
#[derive(Clone, Copy, Debug, PartialEq, Eq, Structural)]
pub struct WithdrawDecision {
    pub lp_to_burn: u64,
    pub amount_a_out: u64,
    pub amount_b_out: u64,
}

/// Redemption: checks the burn request against the live supply and the
/// depositor's share balance, then converts the burned shares into the
/// proportional withdrawal pair.
pub fn withdraw_liquidity(
    lp_amount_to_burn: u64,
    total_lp: u64,
    depositor_lp_balance: u64,
    reserve_a: u64,
    reserve_b: u64,
) -> (r: Result<WithdrawDecision, AmmError>)
    ensures
        lp_amount_to_burn == 0 ==> r == Err::<WithdrawDecision, AmmError>(AmmError::AmountIsZero),
        lp_amount_to_burn > 0 && total_lp == 0 ==> r == Err::<WithdrawDecision, AmmError>(
            AmmError::LpSupplyIsZero,
        ),
        lp_amount_to_burn > 0 && total_lp > 0 && depositor_lp_balance < lp_amount_to_burn ==> r
            == Err::<WithdrawDecision, AmmError>(AmmError::InsufficientLpBalance),
        lp_amount_to_burn > 0 && total_lp > 0 && depositor_lp_balance >= lp_amount_to_burn ==> ({
            let wa = withdraw_amount(lp_amount_to_burn as int, total_lp as int, reserve_a as int);
            let wb = withdraw_amount(lp_amount_to_burn as int, total_lp as int, reserve_b as int);
            &&& wa > u64::MAX || wb > u64::MAX ==> r == Err::<WithdrawDecision, AmmError>(
                AmmError::MathOverflow,
            )
            &&& wa <= u64::MAX && wb <= u64::MAX ==> (r matches Ok(d) && d.lp_to_burn
                == lp_amount_to_burn && d.amount_a_out == wa && d.amount_b_out == wb)
        }),
{
    if lp_amount_to_burn == 0 {
        return Err(AmmError::AmountIsZero);
    }
    if total_lp == 0 {
        return Err(AmmError::LpSupplyIsZero);
    }
    if depositor_lp_balance < lp_amount_to_burn {
        return Err(AmmError::InsufficientLpBalance);
    }
    let (amount_a_out, amount_b_out) = match calculate_out_amounts(
        lp_amount_to_burn,
        total_lp,
        reserve_a,
        reserve_b,
    ) {
        Ok(pair) => pair,
        Err(e) => {
            return Err(e);
        },
    };
    Ok(WithdrawDecision { lp_to_burn: lp_amount_to_burn, amount_a_out, amount_b_out })
}

/// Round-trip bound on a funded pool: depositing a matched pair and then
/// immediately burning every minted share returns at most the deposited
/// amounts on each side — floor rounding can only keep value in the pool.
pub proof fn lemma_round_trip(
    amount_a: int,
    amount_b: int,
    reserve_a: int,
    reserve_b: int,
    total_lp: int,
    lp: int,
)
    requires
        0 <= amount_a,
        0 <= amount_b,
        0 < reserve_a,
        0 < reserve_b,
        0 < total_lp,
        lp == proportional_lp(amount_a, amount_b, reserve_a, reserve_b, total_lp),
    ensures
        withdraw_amount(lp, total_lp + lp, reserve_a + amount_a) <= amount_a,
        withdraw_amount(lp, total_lp + lp, reserve_b + amount_b) <= amount_b,
{
    let qa = lp_from_side(amount_a, total_lp, reserve_a);
    let qb = lp_from_side(amount_b, total_lp, reserve_b);
    vstd::arithmetic::mul::lemma_mul_nonnegative(amount_a, total_lp);
    lemma_div_bounds(amount_a * total_lp, reserve_a);
    vstd::arithmetic::mul::lemma_mul_nonnegative(amount_b, total_lp);
    lemma_div_bounds(amount_b * total_lp, reserve_b);

    assert(lp * (reserve_a + amount_a) <= (total_lp + lp) * amount_a) by (nonlinear_arith)
        requires
            0 <= lp,
            lp <= qa,
            qa == (amount_a * total_lp) / reserve_a,
            qa * reserve_a <= amount_a * total_lp,
            0 < reserve_a,
            0 <= amount_a,
    ;
    vstd::arithmetic::div_mod::lemma_multiply_divide_le(
        lp * (reserve_a + amount_a),
        total_lp + lp,
        amount_a,
    );

    assert(lp * (reserve_b + amount_b) <= (total_lp + lp) * amount_b) by (nonlinear_arith)
        requires
            0 <= lp,
            lp <= qb,
            qb == (amount_b * total_lp) / reserve_b,
            qb * reserve_b <= amount_b * total_lp,
            0 < reserve_b,
            0 <= amount_b,
    ;
    vstd::arithmetic::div_mod::lemma_multiply_divide_le(
        lp * (reserve_b + amount_b),
        total_lp + lp,
        amount_b,
    );
}

/// Round trip at genesis: when the pool's whole state is the first deposit
/// and every minted share is burned, the deposit comes back exactly.
pub proof fn lemma_round_trip_genesis(amount_a: int, amount_b: int, lp: int)
    requires
        0 < lp,
    ensures
        withdraw_amount(lp, lp, amount_a) == amount_a,
        withdraw_amount(lp, lp, amount_b) == amount_b,
{
    vstd::arithmetic::div_mod::lemma_div_multiples_vanish(amount_a, lp);
    vstd::arithmetic::div_mod::lemma_div_multiples_vanish(amount_b, lp);
}

} // verus!

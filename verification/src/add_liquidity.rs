use vstd::prelude::*;

use crate::errors::AmmError;
use crate::math::{is_sqrt, lemma_div_bounds, sqrt_u128};

verus! {

/// The side-b amount that matches `amount_a` at the pool's price ratio,
/// rounded down.
pub open spec fn required_b(amount_a: int, reserve_a: int, reserve_b: int) -> int {
    amount_a * reserve_b / reserve_a
}

/// The side-a amount that matches `amount_b` at the pool's price ratio,
/// rounded down.
pub open spec fn required_a(amount_b: int, reserve_a: int, reserve_b: int) -> int {
    amount_b * reserve_a / reserve_b
}

/// Whether a desired pair can be matched against a funded pool: at least one
/// side covers what the other side requires at the current ratio.
pub open spec fn ratio_matchable(
    amount_a: int,
    amount_b: int,
    reserve_a: int,
    reserve_b: int,
) -> bool {
    ||| amount_b >= required_b(amount_a, reserve_a, reserve_b)
    ||| amount_a >= required_a(amount_b, reserve_a, reserve_b)
}

/// Side a of the matched pair: `amount_a` is used in full when side b covers
/// what it requires; otherwise side a is trimmed down to what `amount_b`
/// buys at the current ratio.
pub open spec fn matched_a(
    amount_a: int,
    amount_b: int,
    reserve_a: int,
    reserve_b: int,
) -> int {
    if amount_b >= required_b(amount_a, reserve_a, reserve_b) {
        amount_a
    } else {
        required_a(amount_b, reserve_a, reserve_b)
    }
}

/// Side b of the matched pair.
pub open spec fn matched_b(
    amount_a: int,
    amount_b: int,
    reserve_a: int,
    reserve_b: int,
) -> int {
    if amount_b >= required_b(amount_a, reserve_a, reserve_b) {
        required_b(amount_a, reserve_a, reserve_b)
    } else {
        amount_b
    }
}

/// The shares one side of a proportional deposit is worth, rounded down.
pub open spec fn lp_from_side(amount: int, total_lp: int, reserve: int) -> int {
    amount * total_lp / reserve
}

/// The proportional mint amount: the limiting side of the deposit, so the
/// minted shares round down, never up.
pub open spec fn proportional_lp(
    amount_a: int,
    amount_b: int,
    reserve_a: int,
    reserve_b: int,
    total_lp: int,
) -> int {
    let la = lp_from_side(amount_a, total_lp, reserve_a);
    let lb = lp_from_side(amount_b, total_lp, reserve_b);
    if la <= lb {
        la
    } else {
        lb
    }
}

/// Reserve ratio balancer: computes the maximal pair, componentwise at most
/// the desired pair, that sits on the pool's current price ratio. Products
/// are taken at double width, where two 64-bit factors can never overflow.
pub fn calculate_liquidity_amounts(
    reserve_a: u64,
    amount_a: u64,
    reserve_b: u64,
    amount_b: u64,
) -> (r: Result<(u64, u64), AmmError>)
    ensures
        reserve_a == 0 || reserve_b == 0 ==> r == Err::<(u64, u64), AmmError>(
            AmmError::InvalidPoolState,
        ),
        reserve_a > 0 && reserve_b > 0 && ratio_matchable(
            amount_a as int,
            amount_b as int,
            reserve_a as int,
            reserve_b as int,
        ) ==> (r matches Ok(p)
            && p.0 == matched_a(amount_a as int, amount_b as int, reserve_a as int, reserve_b as int)
            && p.1 == matched_b(amount_a as int, amount_b as int, reserve_a as int, reserve_b as int)),
        reserve_a > 0 && reserve_b > 0 && !ratio_matchable(
            amount_a as int,
            amount_b as int,
            reserve_a as int,
            reserve_b as int,
        ) ==> r == Err::<(u64, u64), AmmError>(AmmError::InsufficientBalance),
{
    if !(reserve_a > 0 && reserve_b > 0) {
        return Err(AmmError::InvalidPoolState);
    }

    assert((amount_a as int) * (reserve_b as int) <= u128::MAX) by (nonlinear_arith)
        requires
            amount_a <= u64::MAX,
            reserve_b <= u64::MAX,
    ;
    let required_b_wide: u128 = (amount_a as u128) * (reserve_b as u128) / (reserve_a as u128);
    if (amount_b as u128) >= required_b_wide {
        return Ok((amount_a, required_b_wide as u64));
    }

    assert((amount_b as int) * (reserve_a as int) <= u128::MAX) by (nonlinear_arith)
        requires
            amount_b <= u64::MAX,
            reserve_a <= u64::MAX,
    ;
    let required_a_wide: u128 = (amount_b as u128) * (reserve_a as u128) / (reserve_b as u128);
    if (amount_a as u128) >= required_a_wide {
        Ok((required_a_wide as u64, amount_b))
    } else {
        Err(AmmError::InsufficientBalance)
    }
}

/// Liquidity share issuer: at genesis (zero share supply) the mint is the
/// exact integer square root of the deposit product; on a funded pool it is
/// the limiting side's proportional share, rounded down. A computed mint of
/// zero fails in either case — at genesis it would lock the deposit in a
/// pool with no shares outstanding. A proportional result that cannot be
/// represented in 64 bits is a checked overflow.
pub fn calculate_lp(
    amount_a: u64,
    amount_b: u64,
    reserve_a: u64,
    reserve_b: u64,
    total_lp: u64,
) -> (r: Result<u64, AmmError>)
    requires
        total_lp > 0 ==> reserve_a > 0 && reserve_b > 0,
    ensures
        total_lp == 0 && (amount_a == 0 || amount_b == 0) ==> r == Err::<u64, AmmError>(
            AmmError::LpIsZero,
        ),
        total_lp == 0 && amount_a > 0 && amount_b > 0 ==> (r matches Ok(lp) && is_sqrt(
            (amount_a as int) * (amount_b as int),
            lp as int,
        )),
        total_lp > 0 ==> ({
            let m = proportional_lp(
                amount_a as int,
                amount_b as int,
                reserve_a as int,
                reserve_b as int,
                total_lp as int,
            );
            &&& m == 0 ==> r == Err::<u64, AmmError>(AmmError::LpIsZero)
            &&& m > u64::MAX ==> r == Err::<u64, AmmError>(AmmError::MathOverflow)
            &&& 0 < m <= u64::MAX ==> r == Ok::<u64, AmmError>(m as u64)
        }),
{
    if total_lp == 0 {
        assert((amount_a as int) * (amount_b as int) <= u128::MAX) by (nonlinear_arith)
            requires
                amount_a <= u64::MAX,
                amount_b <= u64::MAX,
        ;
        let product: u128 = (amount_a as u128) * (amount_b as u128);
        let root = sqrt_u128(product);
        proof {
            if amount_a == 0 || amount_b == 0 {
                assert((amount_a as int) * (amount_b as int) == 0) by (nonlinear_arith)
                    requires
                        amount_a == 0 || amount_b == 0,
                ;
                assert(root == 0) by (nonlinear_arith)
                    requires
                        0 <= root as int,
                        (root as int) * (root as int) <= 0,
                ;
            } else {
                assert(1 <= (amount_a as int) * (amount_b as int)) by (nonlinear_arith)
                    requires
                        1 <= amount_a,
                        1 <= amount_b,
                ;
            }
        }
        if root == 0 {
            return Err(AmmError::LpIsZero);
        }
        Ok(root as u64)
    } else {
        assert((amount_a as int) * (total_lp as int) <= u128::MAX) by (nonlinear_arith)
            requires
                amount_a <= u64::MAX,
                total_lp <= u64::MAX,
        ;
        let lp_from_a: u128 = (amount_a as u128) * (total_lp as u128) / (reserve_a as u128);

        assert((amount_b as int) * (total_lp as int) <= u128::MAX) by (nonlinear_arith)
            requires
                amount_b <= u64::MAX,
                total_lp <= u64::MAX,
        ;
        let lp_from_b: u128 = (amount_b as u128) * (total_lp as u128) / (reserve_b as u128);

        let lp_amount: u128 = if lp_from_a <= lp_from_b {
            lp_from_a
        } else {
            lp_from_b
        };
        if lp_amount == 0 {
            return Err(AmmError::LpIsZero);
        }
        if lp_amount > u64::MAX as u128 {
            return Err(AmmError::MathOverflow);
        }
        Ok(lp_amount as u64)
    }
}

/// The decision record of a deposit: the pair to move into the pool and the
/// shares to mint, for the caller to execute atomically.
#[derive(Clone, Copy, Debug, PartialEq, Eq, Structural)]
pub struct AddLiquidityDecision {
    pub amount_a: u64,
    pub amount_b: u64,
    pub lp_to_mint: u64,
}

/// Deposit: matches the desired pair to the pool's ratio (at genesis the
/// desired pair passes through unchanged and sets the initial price), checks
/// the depositor's balances, and converts the matched pair into shares. A
/// deposit too small — or too one-sided — to mint a whole share fails.
///
/// Reserves and supply are the live ledger snapshot; supply can be zero only
/// for an unfunded pool, which the ledger's mint/burn lockstep guarantees.
pub fn add_liquidity(
    amount_a: u64,
    amount_b: u64,
    reserve_a: u64,
    reserve_b: u64,
    total_lp: u64,
    depositor_balance_a: u64,
    depositor_balance_b: u64,
) -> (r: Result<AddLiquidityDecision, AmmError>)
    requires
        reserve_a == 0 && reserve_b == 0 ==> total_lp == 0,
    ensures
        amount_a == 0 && amount_b == 0 ==> r == Err::<AddLiquidityDecision, AmmError>(
            AmmError::AmountIsZero,
        ),
        (amount_a > 0 || amount_b > 0) && reserve_a == 0 && reserve_b == 0 ==> ({
            &&& (depositor_balance_a < amount_a || depositor_balance_b < amount_b) ==> r
                == Err::<AddLiquidityDecision, AmmError>(AmmError::InsufficientBalance)
            &&& (depositor_balance_a >= amount_a && depositor_balance_b >= amount_b) ==> {
                &&& (amount_a == 0 || amount_b == 0) ==> r == Err::<
                    AddLiquidityDecision,
                    AmmError,
                >(AmmError::LpIsZero)
                &&& amount_a > 0 && amount_b > 0 ==> (r matches Ok(d) && d.amount_a == amount_a
                    && d.amount_b == amount_b && is_sqrt(
                    (amount_a as int) * (amount_b as int),
                    d.lp_to_mint as int,
                ))
            }
        }),
        (amount_a > 0 || amount_b > 0) && (reserve_a == 0) != (reserve_b == 0) ==> r
            == Err::<AddLiquidityDecision, AmmError>(AmmError::InvalidPoolState),
        (amount_a > 0 || amount_b > 0) && reserve_a > 0 && reserve_b > 0 ==> ({
            let ma = matched_a(amount_a as int, amount_b as int, reserve_a as int, reserve_b as int);
            let mb = matched_b(amount_a as int, amount_b as int, reserve_a as int, reserve_b as int);
            let m = proportional_lp(ma, mb, reserve_a as int, reserve_b as int, total_lp as int);
            &&& !ratio_matchable(amount_a as int, amount_b as int, reserve_a as int, reserve_b as int)
                ==> r == Err::<AddLiquidityDecision, AmmError>(AmmError::InsufficientBalance)
            &&& ratio_matchable(amount_a as int, amount_b as int, reserve_a as int, reserve_b as int)
                ==> {
                &&& (depositor_balance_a < ma || depositor_balance_b < mb) ==> r
                    == Err::<AddLiquidityDecision, AmmError>(AmmError::InsufficientBalance)
                &&& depositor_balance_a >= ma && depositor_balance_b >= mb ==> {
                    &&& total_lp == 0 && (ma == 0 || mb == 0) ==> r == Err::<
                        AddLiquidityDecision,
                        AmmError,
                    >(AmmError::LpIsZero)
                    &&& total_lp == 0 && ma > 0 && mb > 0 ==> (r matches Ok(d) && d.amount_a == ma
                        && d.amount_b == mb && is_sqrt(ma * mb, d.lp_to_mint as int))
                    &&& total_lp > 0 && m == 0 ==> r == Err::<AddLiquidityDecision, AmmError>(
                        AmmError::LpIsZero,
                    )
                    &&& total_lp > 0 && m > u64::MAX ==> r == Err::<AddLiquidityDecision, AmmError>(
                        AmmError::MathOverflow,
                    )
                    &&& total_lp > 0 && 0 < m <= u64::MAX ==> (r matches Ok(d) && d.amount_a == ma
                        && d.amount_b == mb && d.lp_to_mint == m)
                }
            }
        }),
{
    if amount_a == 0 && amount_b == 0 {
        return Err(AmmError::AmountIsZero);
    }

    let is_new_pool = reserve_a == 0 && reserve_b == 0;
    let (deposit_a, deposit_b) = if is_new_pool {
        (amount_a, amount_b)
    } else {
        match calculate_liquidity_amounts(reserve_a, amount_a, reserve_b, amount_b) {
            Ok(pair) => pair,
            Err(e) => {
                return Err(e);
            },
        }
    };

    if depositor_balance_a < deposit_a {
        return Err(AmmError::InsufficientBalance);
    }
    if depositor_balance_b < deposit_b {
        return Err(AmmError::InsufficientBalance);
    }

    let lp_to_mint = match calculate_lp(deposit_a, deposit_b, reserve_a, reserve_b, total_lp) {
        Ok(lp) => lp,
        Err(e) => {
            return Err(e);
        },
    };
    Ok(AddLiquidityDecision { amount_a: deposit_a, amount_b: deposit_b, lp_to_mint })
}

/// Ratio preservation: a matchable deposit against a funded pool is trimmed,
/// never inflated — each matched side is at most the desired side — and the
/// matched pair sits on the pool's price ratio up to one unit of integer
/// truncation on the trimmed side.
pub proof fn lemma_ratio_preservation(
    amount_a: int,
    amount_b: int,
    reserve_a: int,
    reserve_b: int,
)
    requires
        0 <= amount_a,
        0 <= amount_b,
        0 < reserve_a,
        0 < reserve_b,
        ratio_matchable(amount_a, amount_b, reserve_a, reserve_b),
    ensures
        ({
            let ma = matched_a(amount_a, amount_b, reserve_a, reserve_b);
            let mb = matched_b(amount_a, amount_b, reserve_a, reserve_b);
            &&& 0 <= ma <= amount_a
            &&& 0 <= mb <= amount_b
            &&& (mb * reserve_a <= ma * reserve_b < mb * reserve_a + reserve_a) || (ma * reserve_b
                <= mb * reserve_a < ma * reserve_b + reserve_b)
        }),
{
    if amount_b >= required_b(amount_a, reserve_a, reserve_b) {
        vstd::arithmetic::mul::lemma_mul_nonnegative(amount_a, reserve_b);
        lemma_div_bounds(amount_a * reserve_b, reserve_a);
    } else {
        vstd::arithmetic::mul::lemma_mul_nonnegative(amount_b, reserve_a);
        lemma_div_bounds(amount_b * reserve_a, reserve_b);
    }
}

/// No dilution: a proportional deposit never mints more than the floor share
/// of either side, so rounding can only favor the existing holders. The mint
/// amount is a pure function of the snapshot, so repeating the same deposit
/// against an unchanged pool mints the same amount.
pub proof fn lemma_no_dilution(
    amount_a: int,
    amount_b: int,
    reserve_a: int,
    reserve_b: int,
    total_lp: int,
)
    ensures
        proportional_lp(amount_a, amount_b, reserve_a, reserve_b, total_lp) <= lp_from_side(
            amount_a,
            total_lp,
            reserve_a,
        ),
        proportional_lp(amount_a, amount_b, reserve_a, reserve_b, total_lp) <= lp_from_side(
            amount_b,
            total_lp,
            reserve_b,
        ),
{
}

/// Genesis symmetry: a positive first deposit mints exactly the integer
/// square root of the deposit product — the bracket has one root, and it is
/// positive — while the decision deposits the desired amounts unchanged, so
/// the post-deposit reserves are exactly the deposited pair.
pub proof fn lemma_genesis_symmetry(amount_a: int, amount_b: int, lp: int)
    requires
        0 < amount_a,
        0 < amount_b,
        is_sqrt(amount_a * amount_b, lp),
    ensures
        0 < lp,
        forall|other: int| #[trigger] is_sqrt(amount_a * amount_b, other) ==> other == lp,
{
    assert(1 <= amount_a * amount_b) by (nonlinear_arith)
        requires
            1 <= amount_a,
            1 <= amount_b,
    ;
    assert forall|other: int| #[trigger] is_sqrt(amount_a * amount_b, other) implies other
        == lp by {
        crate::math::lemma_sqrt_unique(amount_a * amount_b, lp, other);
    }
}

} // verus!

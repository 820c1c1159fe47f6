use amm::add_liquidity::add_liquidity;
use amm::errors::AmmError;
use amm::withdraw_liquidity::{calculate_out_amounts, withdraw_liquidity};

#[test]
fn withdraw_scenario() {
    // Burn 1000 of 2000 shares against reserves (1100, 3639):
    // floor(1000 * 1100 / 2000) = 550, floor(1000 * 3639 / 2000) = 1819.
    let d = withdraw_liquidity(1000, 2000, 2000, 1100, 3639).unwrap();
    assert_eq!(d.lp_to_burn, 1000);
    assert_eq!(d.amount_a_out, 550);
    assert_eq!(d.amount_b_out, 1819);
}

#[test]
fn withdraw_of_zero_shares_is_rejected() {
    assert_eq!(
        withdraw_liquidity(0, 2000, 2000, 1100, 3639),
        Err(AmmError::AmountIsZero)
    );
}

#[test]
fn withdraw_against_zero_supply_is_rejected() {
    assert_eq!(
        withdraw_liquidity(10, 0, 2000, 1100, 3639),
        Err(AmmError::LpSupplyIsZero)
    );
}

#[test]
fn withdraw_of_more_than_the_held_shares_is_rejected() {
    assert_eq!(
        withdraw_liquidity(1001, 2000, 1000, 1100, 3639),
        Err(AmmError::InsufficientLpBalance)
    );
}

#[test]
fn withdraw_result_that_overflows_64_bits_is_a_math_overflow() {
    // u64::MAX shares of a supply of 1: the proportional withdrawal
    // u64::MAX * u64::MAX / 1 cannot be represented.
    assert_eq!(
        withdraw_liquidity(u64::MAX, 1, u64::MAX, u64::MAX, 0),
        Err(AmmError::MathOverflow)
    );
}

#[test]
fn tiny_withdraw_legitimately_pays_nothing() {
    // 1 share of a large supply rounds both outputs down to zero; that is
    // a valid decision, not an error.
    assert_eq!(calculate_out_amounts(1, 1_000_000, 1000, 4000), Ok((0, 0)));
}

#[test]
fn deposit_then_withdraw_returns_at_most_the_deposit() {
    // Pool (7, 13) with 5 shares outstanding. Deposit (3, 6): matched to
    // (3, 5) and minted min(3*5/7, 5*5/13) = 1 share. Burning that share
    // against the grown pool returns (1, 3) — strictly less than the
    // deposit, the rounding loss staying with the pool.
    let d = add_liquidity(3, 6, 7, 13, 5, 100, 100).unwrap();
    assert_eq!((d.amount_a, d.amount_b, d.lp_to_mint), (3, 5, 1));
    let w = withdraw_liquidity(d.lp_to_mint, 5 + d.lp_to_mint, d.lp_to_mint, 7 + d.amount_a, 13 + d.amount_b)
        .unwrap();
    assert!(w.amount_a_out <= d.amount_a && w.amount_b_out <= d.amount_b);
    assert_eq!((w.amount_a_out, w.amount_b_out), (1, 3));
}

#[test]
fn genesis_deposit_then_full_withdraw_returns_the_deposit_exactly() {
    let d = add_liquidity(1000, 4000, 0, 0, 0, 10_000, 10_000).unwrap();
    let w = withdraw_liquidity(d.lp_to_mint, d.lp_to_mint, d.lp_to_mint, d.amount_a, d.amount_b)
        .unwrap();
    assert_eq!((w.amount_a_out, w.amount_b_out), (1000, 4000));
}

use amm::add_liquidity::{add_liquidity, calculate_liquidity_amounts, calculate_lp};
use amm::errors::AmmError;

#[test]
fn genesis_deposit_mints_sqrt_of_product() {
    // Empty pool: the desired amounts pass through and the mint is
    // floor(sqrt(1000 * 4000)) = floor(sqrt(4_000_000)) = 2000.
    let d = add_liquidity(1000, 4000, 0, 0, 0, 10_000, 10_000).unwrap();
    assert_eq!(d.amount_a, 1000);
    assert_eq!(d.amount_b, 4000);
    assert_eq!(d.lp_to_mint, 2000);
}

#[test]
fn genesis_sqrt_is_exact_at_the_top_of_the_range() {
    // (2^64 - 1)^2 has an exact 64-bit root; a lossy square root would
    // shortchange the first depositor here.
    let lp = calculate_lp(u64::MAX, u64::MAX, 0, 0, 0).unwrap();
    assert_eq!(lp, u64::MAX);
}

#[test]
fn genesis_sqrt_rounds_down() {
    // sqrt(2 * 1) = 1.41..., floor 1.
    assert_eq!(calculate_lp(2, 1, 0, 0, 0), Ok(1));
    // sqrt(999 * 998) = 998.49..., floor 998.
    assert_eq!(calculate_lp(999, 998, 0, 0, 0), Ok(998));
}

#[test]
fn genesis_deposit_with_one_zero_side_is_rejected() {
    // floor(sqrt(1000 * 0)) = 0 shares: a zero mint fails rather than
    // locking the deposit in a pool with no shares outstanding.
    assert_eq!(
        add_liquidity(1000, 0, 0, 0, 0, 10_000, 10_000),
        Err(AmmError::LpIsZero)
    );
    assert_eq!(calculate_lp(0, 4000, 0, 0, 0), Err(AmmError::LpIsZero));
}

#[test]
fn deposit_of_two_zero_amounts_is_rejected() {
    assert_eq!(
        add_liquidity(0, 0, 1000, 4000, 2000, 10_000, 10_000),
        Err(AmmError::AmountIsZero)
    );
}

#[test]
fn balancer_trims_the_overfunded_b_side() {
    // required_b = 100 * 4000 / 1000 = 400 <= 500: side b is trimmed.
    assert_eq!(calculate_liquidity_amounts(1000, 100, 4000, 500), Ok((100, 400)));
}

#[test]
fn balancer_trims_the_overfunded_a_side() {
    // required_b = 400 > 300, so side a is trimmed to 300 * 1000 / 4000 = 75.
    assert_eq!(calculate_liquidity_amounts(1000, 100, 4000, 300), Ok((75, 300)));
}

#[test]
fn balancer_rejects_a_pool_with_one_empty_side() {
    assert_eq!(
        calculate_liquidity_amounts(0, 100, 4000, 400),
        Err(AmmError::InvalidPoolState)
    );
    assert_eq!(
        calculate_liquidity_amounts(1000, 100, 0, 400),
        Err(AmmError::InvalidPoolState)
    );
}

#[test]
fn deposit_against_a_half_empty_pool_is_rejected() {
    // One reserve zero, the other funded: the pool state is inconsistent.
    assert_eq!(
        add_liquidity(10, 10, 0, 4000, 2000, 100, 100),
        Err(AmmError::InvalidPoolState)
    );
}

#[test]
fn balancer_keeps_the_ratio_up_to_truncation() {
    // 7 * 13 != 6 * 11: an off-ratio pair. The matched pair must satisfy
    // a' * Rb == b' * Ra up to one unit of truncation, with a' <= a, b' <= b.
    let (reserve_a, reserve_b) = (11u64, 13u64);
    let (a, b) = (7u64, 6u64);
    let (ma, mb) = calculate_liquidity_amounts(reserve_a, a, reserve_b, b).unwrap();
    assert!(ma <= a && mb <= b);
    let lhs = u128::from(ma) * u128::from(reserve_b);
    let rhs = u128::from(mb) * u128::from(reserve_a);
    // One side is used in full, the other rounds down: the products differ
    // by less than one reserve unit.
    assert!(
        (rhs <= lhs && lhs < rhs + u128::from(reserve_a))
            || (lhs <= rhs && rhs < lhs + u128::from(reserve_b))
    );
}

#[test]
fn proportional_mint_takes_the_limiting_side() {
    // lp_from_a = 100 * 2000 / 1000 = 200, lp_from_b = 300 * 2000 / 4000 = 150.
    assert_eq!(calculate_lp(100, 300, 1000, 4000, 2000), Ok(150));
}

#[test]
fn proportional_mint_is_deterministic() {
    // The same deposit against an unchanged pool mints the same amount.
    let first = calculate_lp(123, 457, 1000, 4000, 2000);
    let second = calculate_lp(123, 457, 1000, 4000, 2000);
    assert_eq!(first, second);
    assert_eq!(first, Ok(228));
}

#[test]
fn dust_deposit_mints_zero_and_is_rejected() {
    // 1 * 10 / u64::MAX rounds to zero shares.
    assert_eq!(
        calculate_lp(1, 1, u64::MAX, u64::MAX, 10),
        Err(AmmError::LpIsZero)
    );
}

#[test]
fn proportional_mint_overflowing_64_bits_is_a_math_overflow() {
    // u64::MAX * u64::MAX / 1 does not fit back into 64 bits.
    assert_eq!(
        calculate_lp(u64::MAX, u64::MAX, 1, 1, u64::MAX),
        Err(AmmError::MathOverflow)
    );
}

#[test]
fn deposit_rejected_when_a_balance_cannot_cover_the_matched_pair() {
    // Matched pair is (100, 400); the depositor holds only 50 of side a.
    assert_eq!(
        add_liquidity(100, 400, 1000, 4000, 2000, 50, 400),
        Err(AmmError::InsufficientBalance)
    );
    // Genesis deposits are checked against the balances too.
    assert_eq!(
        add_liquidity(1000, 4000, 0, 0, 0, 999, 4000),
        Err(AmmError::InsufficientBalance)
    );
}

#[test]
fn deposit_on_a_funded_pool_mints_proportionally() {
    let d = add_liquidity(100, 500, 1000, 4000, 2000, 10_000, 10_000).unwrap();
    // Side b trimmed to 400; mint = min(100*2000/1000, 400*2000/4000) = 200.
    assert_eq!((d.amount_a, d.amount_b, d.lp_to_mint), (100, 400, 200));
}

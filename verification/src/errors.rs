use vstd::prelude::*;

verus! {

/// Failure taxonomy of the pricing core. Every operation either returns a
/// decision record or exactly one of these; on failure the caller must not
/// commit any transfer, mint, or burn.
#[derive(Clone, Copy, Debug, PartialEq, Eq, Structural)]
pub enum AmmError {
    /// Pool creation was asked for two identical asset identifiers.
    MintAccountsAreEqual,
    /// A zero quantity was passed where a positive one is required.
    AmountIsZero,
    /// The requester's holdings are below what the operation needs, or a
    /// deposit pair cannot be matched to the pool's price ratio.
    InsufficientBalance,
    /// Ratio balancing was attempted against a pool with exactly one zero
    /// reserve.
    InvalidPoolState,
    /// A checked arithmetic step exceeded the representable range.
    MathOverflow,
    /// A computed share mint amount is zero.
    LpIsZero,
    /// Redemption was attempted against a zero share supply.
    LpSupplyIsZero,
    /// The redeemer holds fewer shares than the requested burn amount.
    InsufficientLpBalance,
    /// A requested minimum output exceeds the input amount.
    MinOutputIsBiggerThanInput,
    /// The computed swap output falls below the caller's slippage floor.
    OutputAmountTooLow,
    /// A swap was attempted while at least one reserve is zero.
    EmptyPool,
}

} // verus!

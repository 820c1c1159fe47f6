use vstd::prelude::*;

verus! {

/// A 256-bit ledger identity (an account or mint address), held as four
/// 64-bit words. The core only ever compares identities for equality; the
/// host converts to and from its own address representation.
#[derive(Clone, Copy, Debug, PartialEq, Eq, Structural)]
pub struct Pubkey {
    pub w0: u64,
    pub w1: u64,
    pub w2: u64,
    pub w3: u64,
}

/// One administrative domain: the fee rate, in basis points of the swap
/// input, charged by every pool created under this registry. Created once
/// and immutable thereafter.
#[derive(Clone, Copy, Debug, PartialEq, Eq, Structural)]
pub struct Amm {
    pub admin: Pubkey,
    pub index: u16,
    pub fee: u16,
}

impl Amm {
    /// The fee never exceeds the basis-point scale (10000 = 100%).
    pub open spec fn wf(self) -> bool {
        self.fee <= 10000
    }
}

/// One trading pair under a registry. Reserve quantities and the share
/// supply are not stored here: the caller reads them live from the ledger
/// immediately before every computation.
#[derive(Clone, Copy, Debug, PartialEq, Eq, Structural)]
pub struct AmmPool {
    pub amm: Pubkey,
    pub mint_a: Pubkey,
    pub mint_b: Pubkey,
}

impl AmmPool {
    /// The two sides of the pair are distinct assets.
    pub open spec fn wf(self) -> bool {
        self.mint_a != self.mint_b
    }
}

} // verus!

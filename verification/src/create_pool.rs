use vstd::prelude::*;

use crate::errors::AmmError;
use crate::states::{AmmPool, Pubkey};

verus! {

/// Creates a pool record for one trading pair under a registry. The two
/// asset identifiers must differ; a pool starts empty, with both reserves
/// and the share supply at zero in the ledger.
pub fn create_pool(amm: Pubkey, mint_a: Pubkey, mint_b: Pubkey) -> (r: Result<
    AmmPool,
    AmmError,
>)
    ensures
        mint_a == mint_b ==> r == Err::<AmmPool, AmmError>(AmmError::MintAccountsAreEqual),
        mint_a != mint_b ==> r == Ok::<AmmPool, AmmError>(AmmPool { amm, mint_a, mint_b }),
        r matches Ok(p) ==> p.wf(),
{
    if mint_a == mint_b {
        return Err(AmmError::MintAccountsAreEqual);
    }
    Ok(AmmPool { amm, mint_a, mint_b })
}

} // verus!

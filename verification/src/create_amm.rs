use vstd::prelude::*;

use crate::states::{Amm, Pubkey};

verus! {

/// Creates a registry record: one administrative domain with a fixed swap
/// fee. The fee is in basis points and may not exceed the full scale; the
/// record is immutable thereafter.
pub fn create_amm(admin: Pubkey, index: u16, fee: u16) -> (r: Amm)
    requires
        fee <= 10000,
    ensures
        r == (Amm { admin, index, fee }),
        r.wf(),
{
    Amm { admin, index, fee }
}

} // verus!

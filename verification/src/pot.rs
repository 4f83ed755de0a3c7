//! The fee pot's sovereign account.
//!
//! Transaction fees accrue to an account that no private key controls; an
//! external runtime periodically burns what that account holds. Only the
//! account's identity belongs to this library: it is derived from a fixed
//! module tag, so every node computes the same address. The pot's funds
//! live in the chain's native single-asset currency, an external
//! collaborator, not in this multi-asset ledger.

use vstd::prelude::*;

use crate::types::AccountId;

verus! {

/// The low word of the pot account: the ASCII bytes `b"modlpy/burns"`
/// (the module tag) read as a little-endian integer; the high word is
/// zero.
pub const POT_ACCOUNT_LO: u128 = 0x736e7275622f79706c646f6d;

/// The fee pot's account id as a value.
pub open spec fn pot_account() -> AccountId {
    AccountId { lo: POT_ACCOUNT_LO, hi: 0 }
}

/// The fee-pot module singleton: what the hosting runtime addresses when
/// it pays fees in or burns the pot.
pub struct Module;

impl Module {
    /// The account id of the fee pot: the module tag bytes, zero-padded
    /// to a full 32-byte account id. It has no corresponding private key,
    /// so no signed order can ever spend from it.
    pub fn account_id() -> (r: AccountId)
        ensures
            r == pot_account(),
    {
        AccountId { lo: POT_ACCOUNT_LO, hi: 0 }
    }
}

} // verus!

//! The calls this protocol delegates to the token module.

use vstd::prelude::*;
use crate::address::Address;

verus! {

/// The reward credited for each release, in the reward token's smallest unit.
pub const REWARD_AMOUNT: u64 = 10;

/// The number of decimals of the reward token.
pub const REWARD_DECIMALS: u8 = 9;

/// Which of a mint's two authorities a call hands over.
#[derive(Clone, Copy, Debug, PartialEq, Eq, Structural)]
pub enum AuthorityKind {
    MintTokens,
    FreezeAccount,
}

/// Who vouches for the authority that a call names.
#[derive(Clone, Copy, Debug, PartialEq, Eq, Structural)]
pub enum Signing {
    /// The caller of the operation signs.
    Caller,
    /// The protocol authority signs by its derivation seed and this bump.
    Program { bump: u8 },
}

/// One call to the token module.
#[derive(Clone, Copy, Debug, PartialEq, Eq)]
pub enum TokenCall {
    /// Create an asset type with no supply.
    CreateMint {
        mint: Address,
        decimals: u8,
        mint_authority: Address,
        freeze_authority: Option<Address>,
    },
    /// Create an empty holding account of `mint` for `owner`.
    CreateHolding { account: Address, mint: Address, owner: Address },
    /// Issue `amount` units of `mint` to the holding account `to`.
    MintTo { mint: Address, to: Address, authority: Address, amount: u64, signing: Signing },
    /// Hand one authority of `mint` from `current` to `new_authority`, or retire it.
    SetAuthority {
        mint: Address,
        kind: AuthorityKind,
        current: Address,
        new_authority: Option<Address>,
        signing: Signing,
    },
    /// Make a holding account non-transferable.
    FreezeAccount { account: Address, mint: Address, authority: Address, signing: Signing },
    /// Make a frozen holding account transferable again.
    ThawAccount { account: Address, mint: Address, authority: Address, signing: Signing },
}

} // verus!

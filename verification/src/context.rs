//! What each operation is handed: the addresses a request names and the
//! contents of the accounts it reads.

use vstd::prelude::*;
use crate::address::Address;
use crate::state::{Account, HoldingAccount, LockedAccount, MintState, SignerAccount, Slot};

verus! {

/// The accounts of a request to release an asset.
#[derive(Clone, Copy, Debug, PartialEq, Eq)]
pub struct UnstakeAccount {
    /// The caller.
    pub authority: Address,
    pub program_signer: Account<SignerAccount>,
    pub locked_account: Account<LockedAccount>,
    /// The holding account of the asset.
    pub nft_owner: Address,
    /// The holding account that receives the reward.
    pub user_associated_token_account: Account<HoldingAccount>,
    /// The reward token.
    pub token_mint: Address,
    /// The asset.
    pub nft_mint: Address,
}

/// The accounts of a request to lock an asset.
#[derive(Clone, Copy, Debug, PartialEq, Eq)]
pub struct StakeAccount {
    /// The caller.
    pub authority: Address,
    pub program_signer: Account<SignerAccount>,
    pub locked_account: Account<LockedAccount>,
    /// The holding account of the asset.
    pub nft_owner: Address,
    /// The asset.
    pub nft_mint: Address,
}

/// The accounts of a request to mint a unique asset.
#[derive(Clone, Copy, Debug, PartialEq, Eq)]
pub struct MintNFT {
    /// The caller, who is to own the asset.
    pub user: Address,
    /// The address of the new asset.
    pub nft_mint: Address,
    /// The address of the caller's new holding account of it.
    pub nft_account: Address,
}

/// The accounts of a request to create the protocol authority.
#[derive(Clone, Copy, Debug, PartialEq, Eq)]
pub struct Initialize {
    /// The program whose authority is created.
    pub program_id: Address,
    /// Where the authority record is to stand.
    pub new_signer: Slot<SignerAccount>,
    /// The address of the new reward token.
    pub token_mint: Address,
    /// The address of the authority's new holding account of it.
    pub token_account: Address,
}

/// The accounts of a request to create a lock record.
#[derive(Clone, Copy, Debug, PartialEq, Eq)]
pub struct InitializeLockedAccount {
    /// The caller, who is to own the record.
    pub authority: Address,
    pub program_id: Address,
    pub program_signer: Account<SignerAccount>,
    /// Where the lock record is to stand.
    pub locked_account: Slot<LockedAccount>,
    /// The holding account of the asset.
    pub nft_owner: Account<HoldingAccount>,
    /// The asset.
    pub nft_mint: Account<MintState>,
}

/// The accounts of a request to inspect the reward channel.
#[derive(Clone, Copy, Debug, PartialEq, Eq)]
pub struct MintTokens {
    /// The caller.
    pub authority: Address,
    pub program_signer: Account<SignerAccount>,
    pub locked_account: Account<LockedAccount>,
    /// The caller's holding account of the reward token.
    pub user_associated_token_account: Account<HoldingAccount>,
    /// The reward token.
    pub token_account: Account<MintState>,
}

/// The accounts of a request to reclaim a lock record.
#[derive(Clone, Copy, Debug, PartialEq, Eq)]
pub struct CloseLockedAccount {
    pub locked_account: Account<LockedAccount>,
    pub program_signer: Account<SignerAccount>,
}

} // verus!

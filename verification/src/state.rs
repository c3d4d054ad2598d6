//! The records this protocol keeps and the snapshots it reads of the token
//! module's accounts.

use vstd::prelude::*;
use crate::address::Address;

verus! {

/// The singleton authority record. It is written once and read ever after.
#[derive(Clone, Copy, Debug, PartialEq, Eq)]
pub struct SignerAccount {
    pub is_initialized: bool,
    pub is_signer: bool,
    /// The program whose identity the authority's address is derived under.
    pub program_id: Address,
    /// The reward token.
    pub token_mint: Address,
    /// The authority's own holding account of the reward token.
    pub token_account: Address,
    /// The bump seed the authority signs with.
    pub bump: u8,
}

/// The lock record of one asset.
#[derive(Clone, Copy, Debug, PartialEq, Eq)]
pub struct LockedAccount {
    /// The owner who created the record.
    pub authority: Address,
    /// The unique asset.
    pub nft_mint: Address,
    /// The owner's holding account of the asset.
    pub nft_account: Address,
    /// The custody phase: `true` while the asset is locked.
    pub is_locked: bool,
    /// The time of the latest phase change.
    pub locked_date: i64,
    pub bump: u8,
}

/// What the token module records of an asset type.
#[derive(Clone, Copy, Debug, PartialEq, Eq)]
pub struct MintState {
    pub mint_authority: Option<Address>,
    pub supply: u64,
    pub decimals: u8,
    pub freeze_authority: Option<Address>,
}

/// What the token module records of a holding account.
#[derive(Clone, Copy, Debug, PartialEq, Eq)]
pub struct HoldingAccount {
    pub mint: Address,
    pub owner: Address,
    pub amount: u64,
    pub is_frozen: bool,
}

/// An account as an operation sees it: its address and what it holds.
#[derive(Clone, Copy, Debug, PartialEq, Eq)]
pub struct Account<T> {
    pub key: Address,
    pub data: T,
}

/// An address at which an operation is to create a record, with what the
/// ledger holds there already.
#[derive(Clone, Copy, Debug, PartialEq, Eq)]
pub struct Slot<T> {
    pub key: Address,
    pub existing: Option<T>,
}

} // verus!

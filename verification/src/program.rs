//! The operations of the protocol, as decisions: each reads the accounts of a
//! request and either refuses it or says which record results and which calls
//! the token module must accept, in order, for that record to stand.

use vstd::prelude::*;
use crate::address::{
    bump_to, check_derivation, derived_address, lock_seeds, locked_account_address, same_address, signer_address,
    signer_seed, Address,
};
use crate::context::{
    CloseLockedAccount, Initialize, InitializeLockedAccount, MintNFT, MintTokens, StakeAccount, UnstakeAccount,
};
use crate::error::StakeError;
use crate::state::{Account, HoldingAccount, LockedAccount, MintState, SignerAccount};
use crate::calls::{AuthorityKind, Signing, TokenCall, REWARD_AMOUNT, REWARD_DECIMALS};

verus! {

/// A change of custody phase that has been decided and not yet carried out.
/// The record stands only once the token module has accepted every call, in
/// order; if it rejects one, nothing has changed.
#[derive(Clone, Debug, PartialEq, Eq)]
pub struct Transition {
    pub calls: Vec<TokenCall>,
    pub record: LockedAccount,
}

/// Whether a request names the asset and the holding account of its lock record.
pub open spec fn names_locked_asset(record: LockedAccount, nft_owner: Address, nft_mint: Address) -> bool {
    record.nft_account == nft_owner && record.nft_mint == nft_mint
}

/// The record after a change of phase at time `now`.
pub open spec fn with_phase(record: LockedAccount, is_locked: bool, now: i64) -> LockedAccount {
    LockedAccount { is_locked, locked_date: now, ..record }
}

/// The calls that release an asset: thaw the holding account, retire the
/// freeze authority, credit the reward. The protocol authority signs all three.
pub open spec fn unstake_calls(ctx: UnstakeAccount) -> Seq<TokenCall> {
    let signer = ctx.program_signer.key;
    let signing = Signing::Program { bump: ctx.program_signer.data.bump };
    seq![
        TokenCall::ThawAccount { account: ctx.nft_owner, mint: ctx.nft_mint, authority: signer, signing },
        TokenCall::SetAuthority {
            mint: ctx.nft_mint,
            kind: AuthorityKind::FreezeAccount,
            current: signer,
            new_authority: None,
            signing,
        },
        TokenCall::MintTo {
            mint: ctx.token_mint,
            to: ctx.user_associated_token_account.key,
            authority: signer,
            amount: REWARD_AMOUNT,
            signing,
        },
    ]
}

/// Whether a request to release names what the record and the authority
/// hold: the record's asset and holding account, the authority's reward
/// token, and a reward account that is the caller's.
pub open spec fn names_release(ctx: UnstakeAccount) -> bool {
    &&& names_locked_asset(ctx.locked_account.data, ctx.nft_owner, ctx.nft_mint)
    &&& ctx.token_mint == ctx.program_signer.data.token_mint
    &&& ctx.user_associated_token_account.data.owner == ctx.authority
}

/// Why a release is refused, if it is: the caller is not the record's owner;
/// else the record is not locked; else the request names another asset,
/// another reward token, or a reward account that is not the caller's.
pub open spec fn unstake_refusal(ctx: UnstakeAccount) -> Option<StakeError> {
    let record = ctx.locked_account.data;
    if record.authority != ctx.authority {
        Some(StakeError::Unauthorized)
    } else if !record.is_locked {
        Some(StakeError::InvalidState)
    } else if !names_release(ctx) {
        Some(StakeError::ValidationFailed)
    } else {
        None
    }
}

/// Decides a request to release an asset at time `now`. Any caller but the
/// record's owner is refused as unauthorized, whatever else the request names.
pub fn unstake_account(ctx: &UnstakeAccount, now: i64) -> (result: Result<Transition, StakeError>)
    ensures
        match result {
            Ok(transition) => {
                &&& unstake_refusal(*ctx) is None
                &&& transition.calls@ == unstake_calls(*ctx)
                &&& transition.record == with_phase(ctx.locked_account.data, false, now)
            },
            Err(error) => unstake_refusal(*ctx) == Some(error),
        },
        ctx.locked_account.data.authority != ctx.authority ==> result == Err::<Transition, StakeError>(
            StakeError::Unauthorized,
        ),
        ctx.locked_account.data.authority == ctx.authority && !ctx.locked_account.data.is_locked ==> result == Err::<
            Transition,
            StakeError,
        >(StakeError::InvalidState),
{
    let record = ctx.locked_account.data;
    if !same_address(&record.authority, &ctx.authority) {
        return Err(StakeError::Unauthorized);
    }
    if !record.is_locked {
        return Err(StakeError::InvalidState);
    }
    if !same_address(&record.nft_account, &ctx.nft_owner) || !same_address(&record.nft_mint, &ctx.nft_mint) {
        return Err(StakeError::ValidationFailed);
    }
    if !same_address(&ctx.token_mint, &ctx.program_signer.data.token_mint) || !same_address(
        &ctx.user_associated_token_account.data.owner,
        &ctx.authority,
    ) {
        return Err(StakeError::ValidationFailed);
    }
    let signer = ctx.program_signer.key;
    let signing = Signing::Program { bump: ctx.program_signer.data.bump };
    let mut calls: Vec<TokenCall> = Vec::new();
    calls.push(TokenCall::ThawAccount { account: ctx.nft_owner, mint: ctx.nft_mint, authority: signer, signing });
    calls.push(
        TokenCall::SetAuthority {
            mint: ctx.nft_mint,
            kind: AuthorityKind::FreezeAccount,
            current: signer,
            new_authority: None,
            signing,
        },
    );
    calls.push(
        TokenCall::MintTo {
            mint: ctx.token_mint,
            to: ctx.user_associated_token_account.key,
            authority: signer,
            amount: REWARD_AMOUNT,
            signing,
        },
    );
    proof {
        assert(calls@ =~= unstake_calls(*ctx));
    }
    Ok(Transition { calls, record: LockedAccount { is_locked: false, locked_date: now, ..record } })
}

/// The calls that lock an asset: the caller hands the freeze authority to the
/// protocol authority, which then freezes the holding account.
pub open spec fn stake_calls(ctx: StakeAccount) -> Seq<TokenCall> {
    let signer = ctx.program_signer.key;
    seq![
        TokenCall::SetAuthority {
            mint: ctx.nft_mint,
            kind: AuthorityKind::FreezeAccount,
            current: ctx.authority,
            new_authority: Some(signer),
            signing: Signing::Caller,
        },
        TokenCall::FreezeAccount {
            account: ctx.nft_owner,
            mint: ctx.nft_mint,
            authority: signer,
            signing: Signing::Program { bump: ctx.program_signer.data.bump },
        },
    ]
}

/// Why a request to lock is refused, if it is: the caller is not the record's
/// owner; else the request names another asset than the record's.
pub open spec fn stake_refusal(ctx: StakeAccount) -> Option<StakeError> {
    let record = ctx.locked_account.data;
    if record.authority != ctx.authority {
        Some(StakeError::Unauthorized)
    } else if !names_locked_asset(record, ctx.nft_owner, ctx.nft_mint) {
        Some(StakeError::ValidationFailed)
    } else {
        None
    }
}

/// Decides a request to lock an asset at time `now`. Any caller but the
/// record's owner is refused as unauthorized.
pub fn stake_account(ctx: &StakeAccount, now: i64) -> (result: Result<Transition, StakeError>)
    ensures
        match result {
            Ok(transition) => {
                &&& stake_refusal(*ctx) is None
                &&& transition.calls@ == stake_calls(*ctx)
                &&& transition.record == with_phase(ctx.locked_account.data, true, now)
            },
            Err(error) => stake_refusal(*ctx) == Some(error),
        },
        ctx.locked_account.data.authority != ctx.authority ==> result == Err::<Transition, StakeError>(
            StakeError::Unauthorized,
        ),
{
    let record = ctx.locked_account.data;
    if !same_address(&record.authority, &ctx.authority) {
        return Err(StakeError::Unauthorized);
    }
    if !same_address(&record.nft_account, &ctx.nft_owner) || !same_address(&record.nft_mint, &ctx.nft_mint) {
        return Err(StakeError::ValidationFailed);
    }
    let signer = ctx.program_signer.key;
    let mut calls: Vec<TokenCall> = Vec::new();
    calls.push(
        TokenCall::SetAuthority {
            mint: ctx.nft_mint,
            kind: AuthorityKind::FreezeAccount,
            current: ctx.authority,
            new_authority: Some(signer),
            signing: Signing::Caller,
        },
    );
    calls.push(
        TokenCall::FreezeAccount {
            account: ctx.nft_owner,
            mint: ctx.nft_mint,
            authority: signer,
            signing: Signing::Program { bump: ctx.program_signer.data.bump },
        },
    );
    proof {
        assert(calls@ =~= stake_calls(*ctx));
    }
    Ok(Transition { calls, record: LockedAccount { is_locked: true, locked_date: now, ..record } })
}

/// The calls that mint a unique asset to `user`: create the asset with no
/// decimals and the caller's holding account of it, issue one unit, and retire
/// the mint authority, so that the supply stays at one. The freeze authority
/// stays with the caller.
pub open spec fn mint_nft_calls(ctx: MintNFT) -> Seq<TokenCall> {
    seq![
        TokenCall::CreateMint {
            mint: ctx.nft_mint,
            decimals: 0,
            mint_authority: ctx.user,
            freeze_authority: Some(ctx.user),
        },
        TokenCall::CreateHolding { account: ctx.nft_account, mint: ctx.nft_mint, owner: ctx.user },
        TokenCall::MintTo {
            mint: ctx.nft_mint,
            to: ctx.nft_account,
            authority: ctx.user,
            amount: 1,
            signing: Signing::Caller,
        },
        TokenCall::SetAuthority {
            mint: ctx.nft_mint,
            kind: AuthorityKind::MintTokens,
            current: ctx.user,
            new_authority: None,
            signing: Signing::Caller,
        },
    ]
}

/// Decides a request to mint a unique asset: the calls to make, in order.
pub fn mint_nft(ctx: &MintNFT) -> (calls: Vec<TokenCall>)
    ensures
        calls@ == mint_nft_calls(*ctx),
{
    let mut calls: Vec<TokenCall> = Vec::new();
    calls.push(
        TokenCall::CreateMint {
            mint: ctx.nft_mint,
            decimals: 0,
            mint_authority: ctx.user,
            freeze_authority: Some(ctx.user),
        },
    );
    calls.push(TokenCall::CreateHolding { account: ctx.nft_account, mint: ctx.nft_mint, owner: ctx.user });
    calls.push(
        TokenCall::MintTo {
            mint: ctx.nft_mint,
            to: ctx.nft_account,
            authority: ctx.user,
            amount: 1,
            signing: Signing::Caller,
        },
    );
    calls.push(
        TokenCall::SetAuthority {
            mint: ctx.nft_mint,
            kind: AuthorityKind::MintTokens,
            current: ctx.user,
            new_authority: None,
            signing: Signing::Caller,
        },
    );
    proof {
        assert(calls@ =~= mint_nft_calls(*ctx));
    }
    calls
}

/// The protocol authority that has been decided and not yet created. The
/// record stands only once the token module has accepted every call.
#[derive(Clone, Debug, PartialEq, Eq)]
pub struct Initialized {
    pub calls: Vec<TokenCall>,
    pub record: SignerAccount,
}

/// The calls that create the reward channel: the reward token, with the
/// authority at `ctx.new_signer` as its mint and freeze authority, and the
/// authority's own holding account of it.
pub open spec fn initialize_calls(ctx: Initialize) -> Seq<TokenCall> {
    let signer = ctx.new_signer.key;
    seq![
        TokenCall::CreateMint {
            mint: ctx.token_mint,
            decimals: REWARD_DECIMALS,
            mint_authority: signer,
            freeze_authority: Some(signer),
        },
        TokenCall::CreateHolding { account: ctx.token_account, mint: ctx.token_mint, owner: signer },
    ]
}

/// The authority record that `initialize` writes, where `bump` is the bump
/// seed that derives the authority's address: the authority signs with it.
pub open spec fn initialize_record(ctx: Initialize, bump: u8) -> SignerAccount {
    SignerAccount {
        is_initialized: true,
        is_signer: true,
        program_id: ctx.program_id,
        token_mint: ctx.token_mint,
        token_account: ctx.token_account,
        bump,
    }
}

/// Why the creation of the authority is refused, if it is, where `derived` is
/// the derivation of the authority's address: the request names another
/// address than the derived one; else a record stands there already.
pub open spec fn initialize_refusal(ctx: Initialize, derived: Option<(Address, u8)>) -> Option<StakeError> {
    if bump_to(derived, ctx.new_signer.key) is None {
        Some(StakeError::ValidationFailed)
    } else if ctx.new_signer.existing is Some {
        Some(StakeError::AlreadyInitialized)
    } else {
        None
    }
}

/// Decides a request to create the protocol authority, given the derivation
/// `derived` of the authority's address. A second creation is refused as
/// already initialized, whatever bump seed it proposes. The record holds the
/// bump seed of the derivation, whatever `bump` the caller proposes.
#[allow(unused_variables)]
pub fn initialize_at(ctx: &Initialize, bump: u8, derived: Option<(Address, u8)>) -> (result: Result<
    Initialized,
    StakeError,
>)
    ensures
        match result {
            Ok(initialized) => {
                &&& initialize_refusal(*ctx, derived) is None
                &&& initialized.calls@ == initialize_calls(*ctx)
                &&& initialized.record == initialize_record(*ctx, derived->Some_0.1)
            },
            Err(error) => initialize_refusal(*ctx, derived) == Some(error),
        },
        bump_to(derived, ctx.new_signer.key) is Some && ctx.new_signer.existing is Some ==> result == Err::<
            Initialized,
            StakeError,
        >(StakeError::AlreadyInitialized),
{
    let found = match check_derivation(&derived, &ctx.new_signer.key) {
        Some(found) => found,
        None => { return Err(StakeError::ValidationFailed); },
    };
    if ctx.new_signer.existing.is_some() {
        return Err(StakeError::AlreadyInitialized);
    }
    let signer = ctx.new_signer.key;
    let mut calls: Vec<TokenCall> = Vec::new();
    calls.push(
        TokenCall::CreateMint {
            mint: ctx.token_mint,
            decimals: REWARD_DECIMALS,
            mint_authority: signer,
            freeze_authority: Some(signer),
        },
    );
    calls.push(TokenCall::CreateHolding { account: ctx.token_account, mint: ctx.token_mint, owner: signer });
    proof {
        assert(calls@ =~= initialize_calls(*ctx));
    }
    Ok(
        Initialized {
            calls,
            record: SignerAccount {
                is_initialized: true,
                is_signer: true,
                program_id: ctx.program_id,
                token_mint: ctx.token_mint,
                token_account: ctx.token_account,
                bump: found,
            },
        },
    )
}

/// The derivation of the address of the authority that a request creates.
pub open spec fn signer_derivation(ctx: Initialize) -> Option<(Address, u8)> {
    derived_address(seq![signer_seed()], ctx.program_id@)
}

/// Decides a request to create the protocol authority: derives the
/// authority's address under `ctx.program_id` and decides as `initialize_at`.
pub fn initialize(ctx: &Initialize, bump: u8) -> (result: Result<Initialized, StakeError>)
    ensures
        match result {
            Ok(initialized) => {
                &&& initialize_refusal(*ctx, signer_derivation(*ctx)) is None
                &&& initialized.calls@ == initialize_calls(*ctx)
                &&& initialized.record == initialize_record(*ctx, signer_derivation(*ctx)->Some_0.1)
            },
            Err(error) => initialize_refusal(*ctx, signer_derivation(*ctx)) == Some(error),
        },
{
    let derived = signer_address(&ctx.program_id);
    initialize_at(ctx, bump, derived)
}

/// Whether `holding` holds, for `owner`, the one unit of a unique asset
/// `mint` whose freeze authority is still the owner's: the account is not
/// frozen, its balance is one, it is of this asset and registered to `owner`;
/// the asset's mint authority is retired, its supply one, its decimals none,
/// and its freeze authority `owner`.
pub open spec fn is_unique_asset_of(owner: Address, holding: Account<HoldingAccount>, mint: Account<MintState>) -> bool {
    &&& !holding.data.is_frozen
    &&& holding.data.amount == 1
    &&& holding.data.mint == mint.key
    &&& holding.data.owner == owner
    &&& mint.data.mint_authority is None
    &&& mint.data.supply == 1
    &&& mint.data.decimals == 0
    &&& mint.data.freeze_authority == Some(owner)
}

/// The lock record that `initialize_locked_account` writes, where `bump` is
/// the bump seed that derives its address: unlocked, and never yet locked.
pub open spec fn new_lock_record(ctx: InitializeLockedAccount, bump: u8) -> LockedAccount {
    LockedAccount {
        authority: ctx.authority,
        nft_mint: ctx.nft_mint.key,
        nft_account: ctx.nft_owner.key,
        is_locked: false,
        locked_date: 0,
        bump,
    }
}

/// Why the creation of a lock record is refused, if it is, where `derived` is
/// the derivation of the record's address: the asset is not a unique asset of
/// the caller, or the request names another address than the derived one;
/// else a record stands there already.
pub open spec fn lock_refusal(ctx: InitializeLockedAccount, derived: Option<(Address, u8)>) -> Option<StakeError> {
    if !is_unique_asset_of(ctx.authority, ctx.nft_owner, ctx.nft_mint) || bump_to(derived, ctx.locked_account.key)
        is None {
        Some(StakeError::ValidationFailed)
    } else if ctx.locked_account.existing is Some {
        Some(StakeError::AlreadyInitialized)
    } else {
        None
    }
}

/// Checks that `holding` and `mint` are a unique asset of `owner`.
fn check_unique_asset(owner: &Address, holding: &Account<HoldingAccount>, mint: &Account<MintState>) -> (ok: bool)
    ensures
        ok == is_unique_asset_of(*owner, *holding, *mint),
{
    if holding.data.is_frozen || holding.data.amount != 1 {
        return false;
    }
    if !same_address(&holding.data.mint, &mint.key) || !same_address(&holding.data.owner, owner) {
        return false;
    }
    if mint.data.mint_authority.is_some() || mint.data.supply != 1 || mint.data.decimals != 0 {
        return false;
    }
    match mint.data.freeze_authority {
        Some(freezer) => same_address(&freezer, owner),
        None => false,
    }
}

/// Decides a request to create a lock record, given the derivation `derived`
/// of the record's address. An asset that is not a unique asset of the
/// caller is refused before anything else is looked at. The record holds the
/// bump seed of the derivation, whatever `bump` the caller proposes: no
/// request is refused for the bump seed it proposes.
#[allow(unused_variables)]
pub fn initialize_locked_account_at(ctx: &InitializeLockedAccount, bump: u8, derived: Option<(Address, u8)>) -> (result:
    Result<LockedAccount, StakeError>)
    ensures
        match result {
            Ok(record) => {
                &&& lock_refusal(*ctx, derived) is None
                &&& record == new_lock_record(*ctx, derived->Some_0.1)
            },
            Err(error) => lock_refusal(*ctx, derived) == Some(error),
        },
        !is_unique_asset_of(ctx.authority, ctx.nft_owner, ctx.nft_mint) ==> result == Err::<LockedAccount, StakeError>(
            StakeError::ValidationFailed,
        ),
        result is Ok <==> is_unique_asset_of(ctx.authority, ctx.nft_owner, ctx.nft_mint) && bump_to(
            derived,
            ctx.locked_account.key,
        ) is Some && ctx.locked_account.existing is None,
{
    if !check_unique_asset(&ctx.authority, &ctx.nft_owner, &ctx.nft_mint) {
        return Err(StakeError::ValidationFailed);
    }
    let found = match check_derivation(&derived, &ctx.locked_account.key) {
        Some(found) => found,
        None => { return Err(StakeError::ValidationFailed); },
    };
    if ctx.locked_account.existing.is_some() {
        return Err(StakeError::AlreadyInitialized);
    }
    Ok(
        LockedAccount {
            authority: ctx.authority,
            nft_mint: ctx.nft_mint.key,
            nft_account: ctx.nft_owner.key,
            is_locked: false,
            locked_date: 0,
            bump: found,
        },
    )
}

/// The derivation of the address of the lock record that a request creates.
pub open spec fn lock_derivation(ctx: InitializeLockedAccount) -> Option<(Address, u8)> {
    derived_address(
        lock_seeds(ctx.authority, ctx.nft_owner.key, ctx.nft_mint.key, ctx.program_signer.key),
        ctx.program_id@,
    )
}

/// Decides a request to create a lock record: derives the record's address
/// from the caller, the holding account, the asset and the protocol
/// authority, and decides as `initialize_locked_account_at`.
pub fn initialize_locked_account(ctx: &InitializeLockedAccount, bump: u8) -> (result: Result<
    LockedAccount,
    StakeError,
>)
    ensures
        match result {
            Ok(record) => {
                &&& lock_refusal(*ctx, lock_derivation(*ctx)) is None
                &&& record == new_lock_record(*ctx, lock_derivation(*ctx)->Some_0.1)
            },
            Err(error) => lock_refusal(*ctx, lock_derivation(*ctx)) == Some(error),
        },
        !is_unique_asset_of(ctx.authority, ctx.nft_owner, ctx.nft_mint) ==> result == Err::<LockedAccount, StakeError>(
            StakeError::ValidationFailed,
        ),
{
    let derived = locked_account_address(
        &ctx.program_id,
        &ctx.authority,
        &ctx.nft_owner.key,
        &ctx.nft_mint.key,
        &ctx.program_signer.key,
    );
    initialize_locked_account_at(ctx, bump, derived)
}

/// Why a request to inspect the reward channel is refused, if it is: the
/// caller is not the record's owner; else the reward account is not the
/// caller's, or the protocol authority does not issue the reward token.
pub open spec fn mint_tokens_refusal(ctx: MintTokens) -> Option<StakeError> {
    if ctx.locked_account.data.authority != ctx.authority {
        Some(StakeError::Unauthorized)
    } else if ctx.user_associated_token_account.data.owner != ctx.authority
        || ctx.token_account.data.mint_authority != Some(ctx.program_signer.key) {
        Some(StakeError::ValidationFailed)
    } else {
        None
    }
}

/// Decides a request to inspect the reward channel. It delegates no call and
/// changes no record.
pub fn mint_tokens(ctx: &MintTokens) -> (result: Result<(), StakeError>)
    ensures
        match result {
            Ok(_) => mint_tokens_refusal(*ctx) is None,
            Err(error) => mint_tokens_refusal(*ctx) == Some(error),
        },
{
    if !same_address(&ctx.locked_account.data.authority, &ctx.authority) {
        return Err(StakeError::Unauthorized);
    }
    if !same_address(&ctx.user_associated_token_account.data.owner, &ctx.authority) {
        return Err(StakeError::ValidationFailed);
    }
    let issues = match ctx.token_account.data.mint_authority {
        Some(issuer) => same_address(&issuer, &ctx.program_signer.key),
        None => false,
    };
    if !issues {
        return Err(StakeError::ValidationFailed);
    }
    Ok(())
}

/// A lock record that is to be reclaimed: the record leaves the ledger and
/// its storage goes to `beneficiary`.
#[derive(Clone, Copy, Debug, PartialEq, Eq)]
pub struct Reclaimed {
    pub record: Address,
    pub beneficiary: Address,
}

/// Decides a request to reclaim a lock record. A locked record is never
/// reclaimed; the storage of an unlocked one goes to the protocol authority.
pub fn close_locked_account(ctx: &CloseLockedAccount) -> (result: Result<Reclaimed, StakeError>)
    ensures
        ctx.locked_account.data.is_locked ==> result == Err::<Reclaimed, StakeError>(StakeError::InvalidState),
        !ctx.locked_account.data.is_locked ==> result == Ok::<Reclaimed, StakeError>(
            Reclaimed { record: ctx.locked_account.key, beneficiary: ctx.program_signer.key },
        ),
{
    if ctx.locked_account.data.is_locked {
        return Err(StakeError::InvalidState);
    }
    Ok(Reclaimed { record: ctx.locked_account.key, beneficiary: ctx.program_signer.key })
}

} // verus!

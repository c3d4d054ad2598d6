use nft_stake::address::{locked_account_address, signer_address};
use nft_stake::calls::{AuthorityKind, Signing, TokenCall, REWARD_AMOUNT, REWARD_DECIMALS};
use nft_stake::context::{
    CloseLockedAccount, Initialize, InitializeLockedAccount, MintNFT, MintTokens, StakeAccount, UnstakeAccount,
};
use nft_stake::error::StakeError;
use nft_stake::program::{
    close_locked_account, initialize, initialize_at, initialize_locked_account, initialize_locked_account_at,
    mint_nft, mint_tokens, stake_account, unstake_account, Initialized, Reclaimed, Transition,
};
use nft_stake::state::{Account, HoldingAccount, LockedAccount, MintState, SignerAccount, Slot};

const PROGRAM: [u8; 32] = [1; 32];
const REWARD_MINT: [u8; 32] = [2; 32];
const VAULT: [u8; 32] = [3; 32];
const SIGNER: [u8; 32] = [9; 32];
const OWNER: [u8; 32] = [10; 32];
const ASSET: [u8; 32] = [11; 32];
const HOLDING: [u8; 32] = [12; 32];
const REWARD_ACCOUNT: [u8; 32] = [13; 32];
const LOCK: [u8; 32] = [20; 32];
const STRANGER: [u8; 32] = [30; 32];

fn signer() -> Account<SignerAccount> {
    Account {
        key: SIGNER,
        data: SignerAccount {
            is_initialized: true,
            is_signer: true,
            program_id: PROGRAM,
            token_mint: REWARD_MINT,
            token_account: VAULT,
            bump: 254,
        },
    }
}

fn record(is_locked: bool) -> Account<LockedAccount> {
    Account {
        key: LOCK,
        data: LockedAccount {
            authority: OWNER,
            nft_mint: ASSET,
            nft_account: HOLDING,
            is_locked,
            locked_date: 5,
            bump: 250,
        },
    }
}

fn reward_account(owner: [u8; 32]) -> Account<HoldingAccount> {
    Account { key: REWARD_ACCOUNT, data: HoldingAccount { mint: REWARD_MINT, owner, amount: 40, is_frozen: false } }
}

fn stake_request(caller: [u8; 32], is_locked: bool) -> StakeAccount {
    StakeAccount {
        authority: caller,
        program_signer: signer(),
        locked_account: record(is_locked),
        nft_owner: HOLDING,
        nft_mint: ASSET,
    }
}

fn unstake_request(caller: [u8; 32], is_locked: bool) -> UnstakeAccount {
    UnstakeAccount {
        authority: caller,
        program_signer: signer(),
        locked_account: record(is_locked),
        nft_owner: HOLDING,
        user_associated_token_account: reward_account(caller),
        token_mint: REWARD_MINT,
        nft_mint: ASSET,
    }
}

fn unique_holding() -> Account<HoldingAccount> {
    Account { key: HOLDING, data: HoldingAccount { mint: ASSET, owner: OWNER, amount: 1, is_frozen: false } }
}

fn unique_mint() -> Account<MintState> {
    Account {
        key: ASSET,
        data: MintState { mint_authority: None, supply: 1, decimals: 0, freeze_authority: Some(OWNER) },
    }
}

fn lock_request(holding: Account<HoldingAccount>, mint: Account<MintState>) -> InitializeLockedAccount {
    InitializeLockedAccount {
        authority: OWNER,
        program_id: PROGRAM,
        program_signer: signer(),
        locked_account: Slot { key: LOCK, existing: None },
        nft_owner: holding,
        nft_mint: mint,
    }
}

fn fresh_record(bump: u8) -> LockedAccount {
    LockedAccount { authority: OWNER, nft_mint: ASSET, nft_account: HOLDING, is_locked: false, locked_date: 0, bump }
}

#[test]
fn stake_hands_over_the_freeze_authority_then_freezes() {
    let decided = stake_account(&stake_request(OWNER, false), 1_700_000_000).unwrap();
    assert_eq!(
        decided,
        Transition {
            calls: vec![
                TokenCall::SetAuthority {
                    mint: ASSET,
                    kind: AuthorityKind::FreezeAccount,
                    current: OWNER,
                    new_authority: Some(SIGNER),
                    signing: Signing::Caller,
                },
                TokenCall::FreezeAccount {
                    account: HOLDING,
                    mint: ASSET,
                    authority: SIGNER,
                    signing: Signing::Program { bump: 254 },
                },
            ],
            record: LockedAccount {
                authority: OWNER,
                nft_mint: ASSET,
                nft_account: HOLDING,
                is_locked: true,
                locked_date: 1_700_000_000,
                bump: 250,
            },
        }
    );
}

#[test]
fn stake_by_a_stranger_is_unauthorized() {
    assert_eq!(stake_account(&stake_request(STRANGER, false), 6), Err(StakeError::Unauthorized));
}

#[test]
fn stake_of_another_asset_fails_validation() {
    let mut ctx = stake_request(OWNER, false);
    ctx.nft_mint = [99; 32];
    assert_eq!(stake_account(&ctx, 6), Err(StakeError::ValidationFailed));
    let mut ctx = stake_request(OWNER, false);
    ctx.nft_owner = [99; 32];
    assert_eq!(stake_account(&ctx, 6), Err(StakeError::ValidationFailed));
}

#[test]
fn stake_by_a_stranger_of_another_asset_is_unauthorized() {
    let mut ctx = stake_request(STRANGER, false);
    ctx.nft_mint = [99; 32];
    assert_eq!(stake_account(&ctx, 6), Err(StakeError::Unauthorized));
}

#[test]
fn stake_keeps_negative_time() {
    let decided = stake_account(&stake_request(OWNER, false), -3).unwrap();
    assert_eq!(decided.record.locked_date, -3);
    assert!(decided.record.is_locked);
}

#[test]
fn unstake_thaws_retires_the_freeze_authority_and_rewards() {
    let decided = unstake_account(&unstake_request(OWNER, true), 1_700_000_500).unwrap();
    let signing = Signing::Program { bump: 254 };
    assert_eq!(
        decided,
        Transition {
            calls: vec![
                TokenCall::ThawAccount { account: HOLDING, mint: ASSET, authority: SIGNER, signing },
                TokenCall::SetAuthority {
                    mint: ASSET,
                    kind: AuthorityKind::FreezeAccount,
                    current: SIGNER,
                    new_authority: None,
                    signing,
                },
                TokenCall::MintTo { mint: REWARD_MINT, to: REWARD_ACCOUNT, authority: SIGNER, amount: 10, signing },
            ],
            record: LockedAccount {
                authority: OWNER,
                nft_mint: ASSET,
                nft_account: HOLDING,
                is_locked: false,
                locked_date: 1_700_000_500,
                bump: 250,
            },
        }
    );
}

#[test]
fn reward_is_ten_units_of_a_token_with_nine_decimals() {
    assert_eq!(REWARD_AMOUNT, 10);
    assert_eq!(REWARD_DECIMALS, 9);
}

#[test]
fn unstake_by_a_stranger_is_unauthorized() {
    assert_eq!(unstake_account(&unstake_request(STRANGER, true), 6), Err(StakeError::Unauthorized));
}

#[test]
fn unstake_by_a_stranger_is_unauthorized_whatever_the_phase() {
    assert_eq!(unstake_account(&unstake_request(STRANGER, false), 6), Err(StakeError::Unauthorized));
}

#[test]
fn unstake_of_an_unlocked_record_is_invalid_state() {
    assert_eq!(unstake_account(&unstake_request(OWNER, false), 6), Err(StakeError::InvalidState));
}

#[test]
fn unstake_into_a_reward_account_of_another_fails_validation() {
    let mut ctx = unstake_request(OWNER, true);
    ctx.user_associated_token_account = reward_account(STRANGER);
    assert_eq!(unstake_account(&ctx, 6), Err(StakeError::ValidationFailed));
}

#[test]
fn unstake_of_another_asset_fails_validation() {
    let mut ctx = unstake_request(OWNER, true);
    ctx.nft_owner = [99; 32];
    assert_eq!(unstake_account(&ctx, 6), Err(StakeError::ValidationFailed));
    let mut ctx = unstake_request(OWNER, true);
    ctx.nft_mint = [99; 32];
    assert_eq!(unstake_account(&ctx, 6), Err(StakeError::ValidationFailed));
}

#[test]
fn unstake_of_another_reward_token_fails_validation() {
    let mut ctx = unstake_request(OWNER, true);
    ctx.token_mint = ASSET;
    assert_eq!(unstake_account(&ctx, 6), Err(StakeError::ValidationFailed));
}

#[test]
fn unstake_of_an_unlocked_record_is_invalid_state_before_validation() {
    let mut ctx = unstake_request(OWNER, false);
    ctx.user_associated_token_account = reward_account(STRANGER);
    assert_eq!(unstake_account(&ctx, 6), Err(StakeError::InvalidState));
}

#[test]
fn mint_nft_creates_issues_one_unit_and_retires_the_mint_authority() {
    let calls = mint_nft(&MintNFT { user: OWNER, nft_mint: ASSET, nft_account: HOLDING });
    assert_eq!(
        calls,
        vec![
            TokenCall::CreateMint { mint: ASSET, decimals: 0, mint_authority: OWNER, freeze_authority: Some(OWNER) },
            TokenCall::CreateHolding { account: HOLDING, mint: ASSET, owner: OWNER },
            TokenCall::MintTo { mint: ASSET, to: HOLDING, authority: OWNER, amount: 1, signing: Signing::Caller },
            TokenCall::SetAuthority {
                mint: ASSET,
                kind: AuthorityKind::MintTokens,
                current: OWNER,
                new_authority: None,
                signing: Signing::Caller,
            },
        ]
    );
}

fn initialize_request(key: [u8; 32], existing: Option<SignerAccount>) -> Initialize {
    Initialize {
        program_id: PROGRAM,
        new_signer: Slot { key, existing },
        token_mint: REWARD_MINT,
        token_account: VAULT,
    }
}

#[test]
fn initialize_at_writes_the_record_and_creates_the_reward_channel() {
    let decided = initialize_at(&initialize_request(SIGNER, None), 254, Some((SIGNER, 254))).unwrap();
    assert_eq!(
        decided,
        Initialized {
            calls: vec![
                TokenCall::CreateMint {
                    mint: REWARD_MINT,
                    decimals: 9,
                    mint_authority: SIGNER,
                    freeze_authority: Some(SIGNER),
                },
                TokenCall::CreateHolding { account: VAULT, mint: REWARD_MINT, owner: SIGNER },
            ],
            record: signer().data,
        }
    );
}

#[test]
fn initialize_at_refuses_a_second_authority() {
    let ctx = initialize_request(SIGNER, Some(signer().data));
    for proposed in [254u8, 251, 0] {
        assert_eq!(initialize_at(&ctx, proposed, Some((SIGNER, 254))), Err(StakeError::AlreadyInitialized));
    }
}

#[test]
fn initialize_at_refuses_another_address_than_the_derived_one() {
    let ctx = initialize_request(STRANGER, None);
    assert_eq!(initialize_at(&ctx, 254, Some((SIGNER, 254))), Err(StakeError::ValidationFailed));
    let ctx = initialize_request(STRANGER, Some(signer().data));
    assert_eq!(initialize_at(&ctx, 254, Some((SIGNER, 254))), Err(StakeError::ValidationFailed));
}

#[test]
fn initialize_at_stores_the_derived_bump_whatever_is_proposed() {
    let ctx = initialize_request(SIGNER, None);
    for proposed in [253u8, 254, 255, 0] {
        let decided = initialize_at(&ctx, proposed, Some((SIGNER, 254))).unwrap();
        assert_eq!(decided.record, signer().data);
        assert_eq!(decided.record.bump, 254);
    }
}

#[test]
fn initialize_stores_the_derived_bump_whatever_is_proposed() {
    let (derived, bump) = signer_address(&PROGRAM).unwrap();
    let ctx = initialize_request(derived, None);
    for proposed in [bump.wrapping_sub(1), bump, bump.wrapping_add(1)] {
        assert_eq!(initialize(&ctx, proposed).unwrap().record.bump, bump);
    }
}

#[test]
fn lock_record_holds_the_derived_bump_whatever_is_proposed() {
    let ctx = lock_request(unique_holding(), unique_mint());
    for proposed in [249u8, 250, 251, 0] {
        assert_eq!(initialize_locked_account_at(&ctx, proposed, Some((LOCK, 250))), Ok(fresh_record(250)));
    }
    let (derived, bump) = locked_account_address(&PROGRAM, &OWNER, &HOLDING, &ASSET, &SIGNER).unwrap();
    let mut ctx = lock_request(unique_holding(), unique_mint());
    ctx.locked_account.key = derived;
    assert_eq!(initialize_locked_account(&ctx, bump.wrapping_sub(1)), Ok(fresh_record(bump)));
    assert_eq!(initialize_locked_account(&ctx, bump), Ok(fresh_record(bump)));
}

#[test]
fn initialize_at_refuses_where_nothing_was_derived() {
    assert_eq!(initialize_at(&initialize_request(SIGNER, None), 254, None), Err(StakeError::ValidationFailed));
}

#[test]
fn initialize_accepts_the_derived_address_only() {
    let (derived, bump) = signer_address(&PROGRAM).unwrap();
    let decided = initialize(&initialize_request(derived, None), bump).unwrap();
    assert_eq!(decided.record.bump, bump);
    assert_eq!(decided.record.program_id, PROGRAM);
    assert_eq!(decided.calls[1], TokenCall::CreateHolding { account: VAULT, mint: REWARD_MINT, owner: derived });
    assert_eq!(initialize(&initialize_request(PROGRAM, None), bump), Err(StakeError::ValidationFailed));
    assert_eq!(initialize(&initialize_request(SIGNER, None), bump), Err(StakeError::ValidationFailed));
}

#[test]
fn initialize_refuses_a_second_authority() {
    let (derived, bump) = signer_address(&PROGRAM).unwrap();
    let ctx = initialize_request(derived, Some(signer().data));
    assert_eq!(initialize(&ctx, bump), Err(StakeError::AlreadyInitialized));
    assert_eq!(initialize(&ctx, bump.wrapping_add(1)), Err(StakeError::AlreadyInitialized));
}

#[test]
fn lock_record_starts_unlocked() {
    let ctx = lock_request(unique_holding(), unique_mint());
    assert_eq!(initialize_locked_account_at(&ctx, 250, Some((LOCK, 250))), Ok(fresh_record(250)));
}

#[test]
fn lock_record_is_refused_for_a_frozen_holding_account() {
    let mut holding = unique_holding();
    holding.data.is_frozen = true;
    let ctx = lock_request(holding, unique_mint());
    assert_eq!(initialize_locked_account_at(&ctx, 250, Some((LOCK, 250))), Err(StakeError::ValidationFailed));
}

#[test]
fn lock_record_is_refused_for_a_balance_other_than_one() {
    for amount in [0u64, 2, u64::MAX] {
        let mut holding = unique_holding();
        holding.data.amount = amount;
        let ctx = lock_request(holding, unique_mint());
        assert_eq!(initialize_locked_account_at(&ctx, 250, Some((LOCK, 250))), Err(StakeError::ValidationFailed));
    }
}

#[test]
fn lock_record_is_refused_for_a_holding_account_of_another_asset() {
    let mut holding = unique_holding();
    holding.data.mint = REWARD_MINT;
    let ctx = lock_request(holding, unique_mint());
    assert_eq!(initialize_locked_account_at(&ctx, 250, Some((LOCK, 250))), Err(StakeError::ValidationFailed));
}

#[test]
fn lock_record_is_refused_for_a_holding_account_of_another_owner() {
    let mut holding = unique_holding();
    holding.data.owner = STRANGER;
    let ctx = lock_request(holding, unique_mint());
    assert_eq!(initialize_locked_account_at(&ctx, 250, Some((LOCK, 250))), Err(StakeError::ValidationFailed));
}

#[test]
fn lock_record_is_refused_while_the_mint_authority_is_set() {
    let mut mint = unique_mint();
    mint.data.mint_authority = Some(OWNER);
    let ctx = lock_request(unique_holding(), mint);
    assert_eq!(initialize_locked_account_at(&ctx, 250, Some((LOCK, 250))), Err(StakeError::ValidationFailed));
}

#[test]
fn lock_record_is_refused_for_a_supply_other_than_one() {
    for supply in [0u64, 2, 1_000_000] {
        let mut mint = unique_mint();
        mint.data.supply = supply;
        let ctx = lock_request(unique_holding(), mint);
        assert_eq!(initialize_locked_account_at(&ctx, 250, Some((LOCK, 250))), Err(StakeError::ValidationFailed));
    }
}

#[test]
fn lock_record_is_refused_for_an_asset_with_decimals() {
    let mut mint = unique_mint();
    mint.data.decimals = 9;
    let ctx = lock_request(unique_holding(), mint);
    assert_eq!(initialize_locked_account_at(&ctx, 250, Some((LOCK, 250))), Err(StakeError::ValidationFailed));
}

#[test]
fn lock_record_is_refused_where_the_freeze_authority_is_not_the_owner() {
    let mut mint = unique_mint();
    mint.data.freeze_authority = None;
    let ctx = lock_request(unique_holding(), mint);
    assert_eq!(initialize_locked_account_at(&ctx, 250, Some((LOCK, 250))), Err(StakeError::ValidationFailed));
    let mut mint = unique_mint();
    mint.data.freeze_authority = Some(SIGNER);
    let ctx = lock_request(unique_holding(), mint);
    assert_eq!(initialize_locked_account_at(&ctx, 250, Some((LOCK, 250))), Err(StakeError::ValidationFailed));
}

#[test]
fn lock_record_is_refused_at_another_address_than_the_derived_one() {
    let ctx = lock_request(unique_holding(), unique_mint());
    assert_eq!(initialize_locked_account_at(&ctx, 250, Some((STRANGER, 250))), Err(StakeError::ValidationFailed));
    assert_eq!(initialize_locked_account_at(&ctx, 250, None), Err(StakeError::ValidationFailed));
}

#[test]
fn lock_record_is_refused_where_one_stands_already() {
    let mut ctx = lock_request(unique_holding(), unique_mint());
    ctx.locked_account.existing = Some(fresh_record(250));
    for proposed in [250u8, 251] {
        assert_eq!(
            initialize_locked_account_at(&ctx, proposed, Some((LOCK, 250))),
            Err(StakeError::AlreadyInitialized)
        );
    }
}

#[test]
fn lock_record_validation_comes_before_the_collision() {
    let mut mint = unique_mint();
    mint.data.supply = 2;
    let mut ctx = lock_request(unique_holding(), mint);
    ctx.locked_account.existing = Some(fresh_record(250));
    assert_eq!(initialize_locked_account_at(&ctx, 250, Some((LOCK, 250))), Err(StakeError::ValidationFailed));
}

#[test]
fn initialize_locked_account_accepts_the_derived_address_only() {
    let (derived, bump) = locked_account_address(&PROGRAM, &OWNER, &HOLDING, &ASSET, &SIGNER).unwrap();
    let mut ctx = lock_request(unique_holding(), unique_mint());
    assert_eq!(initialize_locked_account(&ctx, bump), Err(StakeError::ValidationFailed));
    ctx.locked_account.key = derived;
    assert_eq!(initialize_locked_account(&ctx, bump), Ok(fresh_record(bump)));
    ctx.authority = STRANGER;
    assert_eq!(initialize_locked_account(&ctx, bump), Err(StakeError::ValidationFailed));
}

#[test]
fn initialize_locked_account_derives_from_the_holding_account_and_the_asset() {
    let (derived, bump) = locked_account_address(&PROGRAM, &OWNER, &ASSET, &HOLDING, &SIGNER).unwrap();
    let mut ctx = lock_request(unique_holding(), unique_mint());
    ctx.locked_account.key = derived;
    assert_eq!(initialize_locked_account(&ctx, bump), Err(StakeError::ValidationFailed));
}

fn inspect_request(caller: [u8; 32]) -> MintTokens {
    MintTokens {
        authority: caller,
        program_signer: signer(),
        locked_account: record(true),
        user_associated_token_account: reward_account(caller),
        token_account: Account {
            key: REWARD_MINT,
            data: MintState { mint_authority: Some(SIGNER), supply: 40, decimals: 9, freeze_authority: Some(SIGNER) },
        },
    }
}

#[test]
fn mint_tokens_accepts_the_owner_and_the_reward_channel() {
    assert_eq!(mint_tokens(&inspect_request(OWNER)), Ok(()));
}

#[test]
fn mint_tokens_refuses_a_stranger() {
    assert_eq!(mint_tokens(&inspect_request(STRANGER)), Err(StakeError::Unauthorized));
}

#[test]
fn mint_tokens_refuses_a_reward_account_of_another() {
    let mut ctx = inspect_request(OWNER);
    ctx.user_associated_token_account = reward_account(STRANGER);
    assert_eq!(mint_tokens(&ctx), Err(StakeError::ValidationFailed));
}

#[test]
fn mint_tokens_refuses_a_token_the_authority_does_not_issue() {
    let mut ctx = inspect_request(OWNER);
    ctx.token_account.data.mint_authority = Some(OWNER);
    assert_eq!(mint_tokens(&ctx), Err(StakeError::ValidationFailed));
    ctx.token_account.data.mint_authority = None;
    assert_eq!(mint_tokens(&ctx), Err(StakeError::ValidationFailed));
}

#[test]
fn close_refuses_locked_record() {
    let ctx = CloseLockedAccount { locked_account: record(true), program_signer: signer() };
    assert_eq!(close_locked_account(&ctx), Err(StakeError::InvalidState));
}

#[test]
fn close_reclaims_unlocked_record() {
    let ctx = CloseLockedAccount { locked_account: record(false), program_signer: signer() };
    assert_eq!(close_locked_account(&ctx), Ok(Reclaimed { record: LOCK, beneficiary: SIGNER }));
}

#[test]
fn every_refusal_has_its_own_message() {
    let all = [
        StakeError::AlreadyInitialized,
        StakeError::ValidationFailed,
        StakeError::Unauthorized,
        StakeError::InvalidState,
        StakeError::DelegatedCallFailed,
    ];
    for (i, first) in all.iter().enumerate() {
        assert!(!first.message().is_empty());
        for second in all.iter().skip(i + 1) {
            assert_ne!(first.message(), second.message());
        }
    }
    assert_eq!(StakeError::InvalidState.message(), "the lock record is in the wrong custody phase");
}

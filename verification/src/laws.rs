//! What holds of the protocol on every ledger.

use vstd::prelude::*;
use crate::address::{derived_address, lock_seeds, signer_seed, Address};
use crate::calls::{Signing, REWARD_AMOUNT};
use crate::context::{InitializeLockedAccount, MintNFT, UnstakeAccount};
use crate::custody::sound;
use crate::error::StakeError;
use crate::ledger::{
    close_outcome, create_outcome, initialize_outcome, lock_request, mint_outcome, signers_of, stake_outcome, stake_request,
    stands_at_derived_addresses, transfer_outcome, unstake_outcome, unstake_request, LedgerView,
};
use crate::plans::{lemma_mint_calls_run, lemma_stake_calls_run, lemma_unstake_calls_run};
use crate::program::{is_unique_asset_of, lock_refusal, unstake_refusal, with_phase};
use crate::rewards::issues_rewards;
use crate::state::{Account, HoldingAccount, LockedAccount};
use crate::token_module::{is_fixed_unique, signature_holds};

verus! {

/// One lock record for each owner and asset: on a ledger whose records stand
/// at their derived addresses, two lock records of the same owner, holding
/// account and asset are one record.
pub proof fn lemma_one_record_per_asset(ledger: LedgerView, first: Address, second: Address)
    requires
        stands_at_derived_addresses(ledger),
        ledger.locks.dom().contains(first),
        ledger.locks.dom().contains(second),
        ledger.locks[first].authority == ledger.locks[second].authority,
        ledger.locks[first].nft_account == ledger.locks[second].nft_account,
        ledger.locks[first].nft_mint == ledger.locks[second].nft_mint,
    ensures
        first == second,
{
}

/// Once a lock record is created, a second creation for the same owner,
/// holding account and asset is refused: a record stands at the derived
/// address already.
pub proof fn lemma_second_record_refused(ledger: LedgerView, owner: Address, nft_account: Address, nft_mint: Address)
    requires
        create_outcome(ledger, owner, nft_account, nft_mint) is Ok,
    ensures
        create_outcome(create_outcome(ledger, owner, nft_account, nft_mint)->Ok_0.1, owner, nft_account, nft_mint)
            == Err::<(Address, LedgerView), StakeError>(StakeError::AlreadyInitialized),
{
    let (key, after) = create_outcome(ledger, owner, nft_account, nft_mint)->Ok_0;
    let authority = ledger.authority->Some_0;
    assert(after.locks.dom().contains(key));
    assert(is_unique_asset_of(
        owner,
        lock_request(after, authority, key, owner, nft_account, nft_mint).nft_owner,
        lock_request(after, authority, key, owner, nft_account, nft_mint).nft_mint,
    ));
}

/// Once the authority is created, a second creation is refused as already
/// initialized, and the authority stays as it is.
pub proof fn lemma_second_authority_refused(ledger: LedgerView, payer: Address, token_mint: Address, token_account: Address)
    requires
        stands_at_derived_addresses(ledger),
        ledger.authority is Some,
    ensures
        initialize_outcome(ledger, payer, token_mint, token_account) == Err::<LedgerView, StakeError>(
            StakeError::AlreadyInitialized,
        ),
{
}

/// A lock record is created exactly where the asset is a unique asset of the
/// caller, held unfrozen in the caller's holding account, and no record
/// stands at the derived address; the record is then unlocked and names the
/// caller, the asset and the holding account. Nothing is delegated: the
/// tokens stay as they are.
pub proof fn lemma_creation_when_unique(ledger: LedgerView, owner: Address, nft_account: Address, nft_mint: Address)
    requires
        ledger.authority is Some,
        ledger.tokens.holdings.dom().contains(nft_account),
        ledger.tokens.mints.dom().contains(nft_mint),
        derived_address(lock_seeds(owner, nft_account, nft_mint, ledger.authority->Some_0.address), ledger.program_id@)
            is Some,
    ensures
        ({
            let (key, bump) = derived_address(
                lock_seeds(owner, nft_account, nft_mint, ledger.authority->Some_0.address),
                ledger.program_id@,
            )->Some_0;
            let outcome = create_outcome(ledger, owner, nft_account, nft_mint);
            &&& outcome is Ok <==> is_unique_asset_of(
                owner,
                Account { key: nft_account, data: ledger.tokens.holdings[nft_account] },
                Account { key: nft_mint, data: ledger.tokens.mints[nft_mint] },
            ) && !ledger.locks.dom().contains(key)
            &&& outcome is Ok ==> outcome->Ok_0.0 == key && outcome->Ok_0.1 == (LedgerView {
                locks: ledger.locks.insert(
                    key,
                    LockedAccount {
                        authority: owner,
                        nft_mint,
                        nft_account,
                        is_locked: false,
                        locked_date: 0,
                        bump,
                    },
                ),
                ..ledger
            })
        }),
{
}

/// The authority can sign: on a ledger whose records stand at their derived
/// addresses, the bump seed in the authority record is the one that derives
/// the authority's address, and the token module takes the protocol's
/// signature with it.
pub proof fn lemma_authority_signs(ledger: LedgerView, caller: Address)
    requires
        stands_at_derived_addresses(ledger),
        ledger.authority is Some,
    ensures
        derived_address(seq![signer_seed()], ledger.program_id@) == Some(
            (ledger.authority->Some_0.address, ledger.authority->Some_0.record.bump),
        ),
        signature_holds(
            signers_of(ledger, caller, true),
            ledger.authority->Some_0.address,
            Signing::Program { bump: ledger.authority->Some_0.record.bump },
        ),
{
}

/// A request to create a lock record is refused where the asset's supply is
/// not one, its decimals are not zero, its mint authority is set, or its
/// freeze authority is not the owner.
pub proof fn lemma_rejects_non_unique_asset(ctx: InitializeLockedAccount, derived: Option<(Address, u8)>)
    requires
        ctx.nft_mint.data.supply != 1 || ctx.nft_mint.data.decimals != 0 || ctx.nft_mint.data.mint_authority is Some
            || ctx.nft_mint.data.freeze_authority != Some(ctx.authority),
    ensures
        lock_refusal(ctx, derived) == Some(StakeError::ValidationFailed),
{
}

/// On the ledger, no lock record is created for such an asset.
pub proof fn lemma_creation_rejects_non_unique_asset(
    ledger: LedgerView,
    owner: Address,
    nft_account: Address,
    nft_mint: Address,
)
    requires
        ledger.tokens.mints.dom().contains(nft_mint) ==> {
            let asset = ledger.tokens.mints[nft_mint];
            asset.supply != 1 || asset.decimals != 0 || asset.mint_authority is Some || asset.freeze_authority != Some(
                owner,
            )
        },
    ensures
        create_outcome(ledger, owner, nft_account, nft_mint) == Err::<(Address, LedgerView), StakeError>(
            StakeError::ValidationFailed,
        ),
{
}

/// A freshly minted asset is a unique asset of its owner: its supply is one,
/// it has no decimals, its mint authority is retired, its freeze authority is
/// the owner, and the owner's holding account holds the one unit, unfrozen.
pub proof fn lemma_minted_asset_is_unique(ledger: LedgerView, owner: Address, nft_mint: Address, nft_account: Address)
    requires
        mint_outcome(ledger, owner, nft_mint, nft_account) is Ok,
    ensures
        ({
            let after = mint_outcome(ledger, owner, nft_mint, nft_account)->Ok_0;
            &&& after.tokens.holdings.dom().contains(nft_account)
            &&& after.tokens.mints.dom().contains(nft_mint)
            &&& is_unique_asset_of(
                owner,
                Account { key: nft_account, data: after.tokens.holdings[nft_account] },
                Account { key: nft_mint, data: after.tokens.mints[nft_mint] },
            )
        }),
{
    lemma_mint_calls_run(ledger.tokens, signers_of(ledger, owner, true), MintNFT { user: owner, nft_mint, nft_account });
}

/// A freshly minted asset can be locked: once the authority exists, its
/// owner creates the lock record for it, unlocked, unless one stands at the
/// derived address already; and creating it delegates nothing.
pub proof fn lemma_minted_asset_gets_its_record(ledger: LedgerView, owner: Address, nft_mint: Address, nft_account: Address)
    requires
        ledger.authority is Some,
        mint_outcome(ledger, owner, nft_mint, nft_account) is Ok,
        derived_address(lock_seeds(owner, nft_account, nft_mint, ledger.authority->Some_0.address), ledger.program_id@)
            is Some,
        !ledger.locks.dom().contains(
            derived_address(
                lock_seeds(owner, nft_account, nft_mint, ledger.authority->Some_0.address),
                ledger.program_id@,
            )->Some_0.0,
        ),
    ensures
        ({
            let minted = mint_outcome(ledger, owner, nft_mint, nft_account)->Ok_0;
            let outcome = create_outcome(minted, owner, nft_account, nft_mint);
            &&& outcome is Ok
            &&& outcome->Ok_0.1.tokens == minted.tokens
            &&& !outcome->Ok_0.1.locks[outcome->Ok_0.0].is_locked
            &&& outcome->Ok_0.1.locks[outcome->Ok_0.0].authority == owner
            &&& !minted.tokens.holdings[nft_account].is_frozen
            &&& minted.tokens.mints[nft_mint].freeze_authority == Some(owner)
        }),
{
    lemma_minted_asset_is_unique(ledger, owner, nft_mint, nft_account);
    lemma_creation_when_unique(mint_outcome(ledger, owner, nft_mint, nft_account)->Ok_0, owner, nft_account, nft_mint);
}

/// A successful stake locks the record at the time given, freezes the holding
/// account, which holds what it held, and leaves the freeze authority with
/// the protocol authority.
pub proof fn lemma_stake_freezes(ledger: LedgerView, caller: Address, lock: Address, now: i64)
    requires
        stake_outcome(ledger, caller, lock, now) is Ok,
    ensures
        ({
            let staked = stake_outcome(ledger, caller, lock, now)->Ok_0;
            let record = ledger.locks[lock];
            &&& record.authority == caller
            &&& staked.locks[lock] == with_phase(record, true, now)
            &&& staked.tokens.holdings.dom().contains(record.nft_account)
            &&& staked.tokens.holdings[record.nft_account] == (HoldingAccount {
                is_frozen: true,
                ..ledger.tokens.holdings[record.nft_account]
            })
            &&& staked.tokens.mints[record.nft_mint].freeze_authority == Some(ledger.authority->Some_0.address)
        }),
{
    lemma_stake_calls_run(ledger.tokens, signers_of(ledger, caller, true), stake_request(ledger, caller, lock));
}

/// While a holding account is frozen, nothing moves out of it or into it.
pub proof fn lemma_frozen_asset_stays(ledger: LedgerView, caller: Address, from: Address, to: Address, amount: u64)
    requires
        (ledger.tokens.holdings.dom().contains(from) && ledger.tokens.holdings[from].is_frozen) || (
        ledger.tokens.holdings.dom().contains(to) && ledger.tokens.holdings[to].is_frozen),
    ensures
        transfer_outcome(ledger, caller, from, to, amount) == Err::<LedgerView, StakeError>(
            StakeError::DelegatedCallFailed,
        ),
{
}

/// A stake followed by an unstake leaves the record unlocked, with the time
/// of the unstake: later than the time of the stake where the clock has
/// moved on, and no earlier where it has not run backwards.
pub proof fn lemma_stake_then_unstake(
    ledger: LedgerView,
    owner: Address,
    lock: Address,
    reward_account: Address,
    staked_at: i64,
    released_at: i64,
)
    requires
        stake_outcome(ledger, owner, lock, staked_at) is Ok,
        unstake_outcome(stake_outcome(ledger, owner, lock, staked_at)->Ok_0, owner, lock, reward_account, released_at)
            is Ok,
    ensures
        ({
            let staked = stake_outcome(ledger, owner, lock, staked_at)->Ok_0;
            let released = unstake_outcome(staked, owner, lock, reward_account, released_at)->Ok_0;
            &&& staked.locks[lock].is_locked
            &&& staked.locks[lock].locked_date == staked_at
            &&& !released.locks[lock].is_locked
            &&& released.locks[lock].locked_date == released_at
            &&& released.locks[lock] == with_phase(ledger.locks[lock], false, released_at)
            &&& staked_at < released_at ==> staked.locks[lock].locked_date < released.locks[lock].locked_date
            &&& staked_at <= released_at ==> staked.locks[lock].locked_date <= released.locks[lock].locked_date
        }),
{
}

/// After an unstake, a second unstake by the owner is refused: the record is
/// not locked.
pub proof fn lemma_second_unstake_refused(
    ledger: LedgerView,
    owner: Address,
    lock: Address,
    reward_account: Address,
    now: i64,
    later: i64,
)
    requires
        unstake_outcome(ledger, owner, lock, reward_account, now) is Ok,
    ensures
        unstake_outcome(unstake_outcome(ledger, owner, lock, reward_account, now)->Ok_0, owner, lock, reward_account, later)
            == Err::<LedgerView, StakeError>(StakeError::InvalidState),
{
    lemma_unstake_calls_run(
        ledger.tokens,
        signers_of(ledger, owner, true),
        unstake_request(ledger, owner, lock, reward_account),
    );
}

/// A request to release that any other than the record's owner makes is
/// refused as unauthorized, whatever else it names.
pub proof fn lemma_unstake_needs_owner(ctx: UnstakeAccount)
    requires
        ctx.locked_account.data.authority != ctx.authority,
    ensures
        unstake_refusal(ctx) == Some(StakeError::Unauthorized),
{
}

/// On the ledger, an unstake by any other than the record's owner is refused
/// as unauthorized. A refused request changes nothing: the record stays as
/// it is, nothing is thawed and no reward is issued.
pub proof fn lemma_unstake_by_stranger_refused(
    ledger: LedgerView,
    caller: Address,
    lock: Address,
    reward_account: Address,
    now: i64,
)
    requires
        ledger.authority is Some,
        ledger.locks.dom().contains(lock),
        ledger.locks[lock].authority != caller,
    ensures
        unstake_outcome(ledger, caller, lock, reward_account, now) == Err::<LedgerView, StakeError>(
            StakeError::Unauthorized,
        ),
{
}

/// A successful unstake credits exactly the fixed reward to the reward
/// account and leaves the asset's holding account unfrozen, with the freeze
/// authority retired.
pub proof fn lemma_unstake_credits_reward(
    ledger: LedgerView,
    caller: Address,
    lock: Address,
    reward_account: Address,
    now: i64,
)
    requires
        unstake_outcome(ledger, caller, lock, reward_account, now) is Ok,
    ensures
        ({
            let released = unstake_outcome(ledger, caller, lock, reward_account, now)->Ok_0;
            let record = ledger.locks[lock];
            &&& released.tokens.holdings.dom().contains(reward_account)
            &&& released.tokens.holdings[reward_account].amount == ledger.tokens.holdings[reward_account].amount
                + REWARD_AMOUNT
            &&& released.tokens.holdings[reward_account].owner == caller
            &&& released.tokens.holdings.dom().contains(record.nft_account)
            &&& !released.tokens.holdings[record.nft_account].is_frozen
            &&& released.tokens.mints[record.nft_mint].freeze_authority is None
        }),
{
    lemma_unstake_calls_run(
        ledger.tokens,
        signers_of(ledger, caller, true),
        unstake_request(ledger, caller, lock, reward_account),
    );
}

/// A successful unstake leaves the asset where it was: the reward goes to
/// another account than the asset's holding account, whose balance and owner
/// stay as they were, and the asset stays unique; once released, the owner
/// may move the asset again.
pub proof fn lemma_unstake_leaves_the_asset(
    ledger: LedgerView,
    caller: Address,
    lock: Address,
    reward_account: Address,
    now: i64,
)
    requires
        sound(ledger),
        issues_rewards(ledger),
        unstake_outcome(ledger, caller, lock, reward_account, now) is Ok,
    ensures
        ({
            let released = unstake_outcome(ledger, caller, lock, reward_account, now)->Ok_0;
            let record = ledger.locks[lock];
            let before = ledger.tokens.holdings[record.nft_account];
            &&& reward_account != record.nft_account
            &&& released.tokens.holdings[record.nft_account] == (HoldingAccount { is_frozen: false, ..before })
            &&& before.is_frozen
            &&& is_fixed_unique(released.tokens, record.nft_mint)
            &&& forall|to: Address, amount: u64|
                #![trigger transfer_outcome(released, before.owner, record.nft_account, to, amount)]
                released.tokens.holdings.dom().contains(to) && to != record.nft_account
                    && released.tokens.holdings[to].mint == record.nft_mint && !released.tokens.holdings[to].is_frozen
                    && amount <= before.amount && released.tokens.holdings[to].amount + amount <= u64::MAX
                    ==> transfer_outcome(released, before.owner, record.nft_account, to, amount) is Ok
        }),
{
    let record = ledger.locks[lock];
    assert(is_fixed_unique(ledger.tokens, record.nft_mint));
    assert(record.nft_mint != ledger.authority->Some_0.record.token_mint);
    lemma_unstake_calls_run(
        ledger.tokens,
        signers_of(ledger, caller, true),
        unstake_request(ledger, caller, lock, reward_account),
    );
}

/// A locked record is never reclaimed, and an unlocked one always is: it
/// leaves the ledger and nothing else changes.
pub proof fn lemma_close_only_unlocked(ledger: LedgerView, lock: Address)
    requires
        ledger.authority is Some,
        ledger.locks.dom().contains(lock),
    ensures
        ledger.locks[lock].is_locked ==> close_outcome(ledger, lock) == Err::<LedgerView, StakeError>(
            StakeError::InvalidState,
        ),
        !ledger.locks[lock].is_locked ==> close_outcome(ledger, lock) is Ok && !close_outcome(
            ledger,
            lock,
        )->Ok_0.locks.dom().contains(lock) && close_outcome(ledger, lock)->Ok_0.tokens == ledger.tokens,
{
}

} // verus!

//! Custody: what the ledger keeps true of every locked asset, whatever is
//! asked of it and by whom.

use vstd::prelude::*;
use crate::address::Address;
use crate::calls::TokenCall;
use crate::context::MintNFT;
use crate::error::StakeError;
use crate::ledger::{
    close_outcome, create_outcome, direct_call_outcome, initialize_outcome, mint_outcome, signers_of,
    stake_outcome, stake_request, stands_at_derived_addresses, transfer_outcome, unstake_outcome, unstake_request,
    LedgerView,
};
use crate::plans::{lemma_stake_calls_run, lemma_unstake_calls_run};
use crate::program::{mint_nft_calls, stake_calls, unstake_calls};
use crate::state::LockedAccount;
use crate::token_module::{
    apply_call, frozen_under, is_fixed_unique, lemma_call_keeps_frozen, lemma_run_keeps_frozen,
    lemma_run_keeps_unique, lemma_stranger_lets_go_of_nothing, none_lets_go, run_calls, TokenView,
};

verus! {

/// One request to the ledger.
#[derive(Clone, Copy, Debug, PartialEq, Eq)]
pub enum Request {
    InitializeAuthority { payer: Address, token_mint: Address, token_account: Address },
    MintUniqueAsset { owner: Address, nft_mint: Address, nft_account: Address },
    CreateLockRecord { owner: Address, nft_account: Address, nft_mint: Address },
    Stake { caller: Address, lock: Address, now: i64 },
    Unstake { caller: Address, lock: Address, reward_account: Address, now: i64 },
    CloseLockRecord { lock: Address },
    TokenCall { caller: Address, call: TokenCall },
    Transfer { caller: Address, from: Address, to: Address, amount: u64 },
}

/// The ledger after `request`, or why it is refused.
pub open spec fn outcome_of(ledger: LedgerView, request: Request) -> Result<LedgerView, StakeError> {
    match request {
        Request::InitializeAuthority { payer, token_mint, token_account } => initialize_outcome(
            ledger,
            payer,
            token_mint,
            token_account,
        ),
        Request::MintUniqueAsset { owner, nft_mint, nft_account } => mint_outcome(ledger, owner, nft_mint, nft_account),
        Request::CreateLockRecord { owner, nft_account, nft_mint } => match create_outcome(
            ledger,
            owner,
            nft_account,
            nft_mint,
        ) {
            Ok((_, next)) => Ok(next),
            Err(error) => Err(error),
        },
        Request::Stake { caller, lock, now } => stake_outcome(ledger, caller, lock, now),
        Request::Unstake { caller, lock, reward_account, now } => unstake_outcome(
            ledger,
            caller,
            lock,
            reward_account,
            now,
        ),
        Request::CloseLockRecord { lock } => close_outcome(ledger, lock),
        Request::TokenCall { caller, call } => direct_call_outcome(ledger, caller, call),
        Request::Transfer { caller, from, to, amount } => transfer_outcome(ledger, caller, from, to, amount),
    }
}

/// The ledger after `request`: a refused request leaves it as it was.
pub open spec fn after(ledger: LedgerView, request: Request) -> LedgerView {
    match outcome_of(ledger, request) {
        Ok(next) => next,
        Err(_) => ledger,
    }
}

/// The ledger after `requests`, in order.
pub open spec fn after_all(ledger: LedgerView, requests: Seq<Request>) -> LedgerView
    decreases requests.len(),
{
    if requests.len() == 0 {
        ledger
    } else {
        after(after_all(ledger, requests.drop_last()), requests.last())
    }
}

/// The ledger of the program `program_id` before any request.
pub open spec fn empty_ledger(program_id: Address) -> LedgerView {
    LedgerView {
        program_id,
        authority: None,
        locks: Map::empty(),
        tokens: TokenView { mints: Map::empty(), holdings: Map::empty() },
    }
}

/// Whether the asset of `record` is in custody: frozen in the record's
/// holding account, under the freeze control of the protocol authority.
pub open spec fn in_custody(ledger: LedgerView, record: LockedAccount) -> bool {
    &&& ledger.authority is Some
    &&& frozen_under(ledger.tokens, ledger.authority->Some_0.address, record.nft_account, record.nft_mint)
}

/// The asset of every locked record is in custody, and no asset is locked
/// under two records.
pub open spec fn holds_custody(ledger: LedgerView) -> bool {
    &&& forall|key: Address| #[trigger]
        ledger.locks.dom().contains(key) && ledger.locks[key].is_locked ==> in_custody(ledger, ledger.locks[key])
    &&& forall|first: Address, second: Address|
        #![trigger ledger.locks[first], ledger.locks[second]]
        ledger.locks.dom().contains(first) && ledger.locks.dom().contains(second) && ledger.locks[first].is_locked
            && ledger.locks[second].is_locked && ledger.locks[first].nft_mint == ledger.locks[second].nft_mint
            ==> first == second
}

/// The asset of every lock record is a unique asset for good.
pub open spec fn assets_stay_unique(ledger: LedgerView) -> bool {
    forall|key: Address| #[trigger]
        ledger.locks.dom().contains(key) ==> is_fixed_unique(ledger.tokens, ledger.locks[key].nft_mint)
}

/// What every ledger keeps: its records stand at their derived addresses,
/// their assets stay unique, and it holds custody.
pub open spec fn sound(ledger: LedgerView) -> bool {
    stands_at_derived_addresses(ledger) && assets_stay_unique(ledger) && holds_custody(ledger)
}

/// Whether every record of `next` is a record of `ledger` with the same
/// owner, asset, holding account and bump seed, beside the same authority
/// and the same tokens.
pub open spec fn keeps_records(ledger: LedgerView, next: LedgerView) -> bool {
    &&& next.program_id == ledger.program_id
    &&& next.authority == ledger.authority
    &&& next.tokens == ledger.tokens
    &&& forall|key: Address| #[trigger]
        next.locks.dom().contains(key) ==> ledger.locks.dom().contains(key) && next.locks[key] == (LockedAccount {
            is_locked: next.locks[key].is_locked,
            locked_date: next.locks[key].locked_date,
            ..ledger.locks[key]
        })
}

/// Records that stay what they are, or go, stay at their derived addresses,
/// with assets that are unique.
proof fn lemma_kept_records_stand(ledger: LedgerView, next: LedgerView)
    requires
        stands_at_derived_addresses(ledger),
        assets_stay_unique(ledger),
        keeps_records(ledger, next),
    ensures
        stands_at_derived_addresses(next),
        assets_stay_unique(next),
{
    assert forall|key: Address| #[trigger] next.locks.dom().contains(key) implies ledger.locks.dom().contains(key)
        && next.locks[key].nft_mint == ledger.locks[key].nft_mint by {}
}

/// Where the tokens stay and every locked record is one that was locked,
/// unchanged, custody stays.
proof fn lemma_locked_stay_in_custody(ledger: LedgerView, next: LedgerView)
    requires
        holds_custody(ledger),
        next.authority == ledger.authority,
        next.tokens == ledger.tokens,
        forall|key: Address| #[trigger]
            next.locks.dom().contains(key) && next.locks[key].is_locked ==> ledger.locks.dom().contains(key)
                && ledger.locks[key] == next.locks[key],
    ensures
        holds_custody(next),
{
    assert forall|key: Address| #[trigger] next.locks.dom().contains(key) && next.locks[key].is_locked implies in_custody(
        next,
        next.locks[key],
    ) by {
        assert(ledger.locks.dom().contains(key) && ledger.locks[key].is_locked);
    }
    assert forall|first: Address, second: Address|
        #![trigger next.locks[first], next.locks[second]]
        next.locks.dom().contains(first) && next.locks.dom().contains(second) && next.locks[first].is_locked
            && next.locks[second].is_locked && next.locks[first].nft_mint
            == next.locks[second].nft_mint implies first == second by {
        assert(ledger.locks[first] == next.locks[first] && ledger.locks[second] == next.locks[second]);
    }
}

/// Calls that let go of no locked asset leave the ledger sound.
proof fn lemma_tokens_keep_soundness(ledger: LedgerView, caller: Address, program_signs: bool, calls: Seq<TokenCall>)
    requires
        sound(ledger),
        run_calls(ledger.tokens, signers_of(ledger, caller, program_signs), calls) is Some,
        forall|key: Address| #[trigger]
            ledger.locks.dom().contains(key) && ledger.locks[key].is_locked ==> none_lets_go(
                calls,
                ledger.locks[key].nft_account,
                ledger.locks[key].nft_mint,
            ),
    ensures
        sound(
            LedgerView {
                tokens: run_calls(ledger.tokens, signers_of(ledger, caller, program_signs), calls)->Some_0,
                ..ledger
            },
        ),
{
    let signers = signers_of(ledger, caller, program_signs);
    let next = LedgerView { tokens: run_calls(ledger.tokens, signers, calls)->Some_0, ..ledger };
    assert forall|key: Address| #[trigger] next.locks.dom().contains(key) implies is_fixed_unique(
        next.tokens,
        next.locks[key].nft_mint,
    ) by {
        assert(ledger.locks.dom().contains(key));
        lemma_run_keeps_unique(ledger.tokens, signers, calls, ledger.locks[key].nft_mint);
    }
    assert forall|key: Address| #[trigger] next.locks.dom().contains(key) && next.locks[key].is_locked implies in_custody(
        next,
        next.locks[key],
    ) by {
        assert(ledger.locks.dom().contains(key));
        let record = ledger.locks[key];
        lemma_run_keeps_frozen(ledger.tokens, signers, calls, record.nft_account, record.nft_mint);
    }
}

/// Creating the authority keeps the ledger sound.
pub proof fn lemma_initialize_keeps_soundness(ledger: LedgerView, payer: Address, token_mint: Address, token_account: Address)
    requires
        sound(ledger),
    ensures
        sound(after(ledger, Request::InitializeAuthority { payer, token_mint, token_account })),
{
    let request = Request::InitializeAuthority { payer, token_mint, token_account };
    if outcome_of(ledger, request) is Ok {
        let next = after(ledger, request);
        assert(ledger.authority is None);
        assert forall|key: Address| !#[trigger] next.locks.dom().contains(key) by {
            assert(!ledger.locks.dom().contains(key));
        }
    }
}

/// Minting a unique asset keeps the ledger sound.
pub proof fn lemma_mint_keeps_soundness(ledger: LedgerView, owner: Address, nft_mint: Address, nft_account: Address)
    requires
        sound(ledger),
    ensures
        sound(after(ledger, Request::MintUniqueAsset { owner, nft_mint, nft_account })),
{
    let request = Request::MintUniqueAsset { owner, nft_mint, nft_account };
    if outcome_of(ledger, request) is Ok {
        let calls = mint_nft_calls(MintNFT { user: owner, nft_mint, nft_account });
        assert forall|key: Address| #[trigger]
            ledger.locks.dom().contains(key) && ledger.locks[key].is_locked implies none_lets_go(
            calls,
            ledger.locks[key].nft_account,
            ledger.locks[key].nft_mint,
        ) by {}
        lemma_tokens_keep_soundness(ledger, owner, true, calls);
    }
}

/// Creating a lock record keeps the ledger sound: the record stands at its
/// derived address, unlocked, for an asset that is unique.
pub proof fn lemma_create_keeps_soundness(ledger: LedgerView, owner: Address, nft_account: Address, nft_mint: Address)
    requires
        sound(ledger),
    ensures
        sound(after(ledger, Request::CreateLockRecord { owner, nft_account, nft_mint })),
{
    let request = Request::CreateLockRecord { owner, nft_account, nft_mint };
    if outcome_of(ledger, request) is Ok {
        let (created, next) = create_outcome(ledger, owner, nft_account, nft_mint)->Ok_0;
        assert(!ledger.locks.dom().contains(created));
        assert(!next.locks[created].is_locked);
        assert forall|key: Address| #[trigger] next.locks.dom().contains(key) implies key == created
            || ledger.locks.dom().contains(key) by {}
    }
}

/// A stake keeps the ledger sound: the asset it locks comes into custody,
/// and it locks no asset that is locked already.
pub proof fn lemma_stake_keeps_soundness(ledger: LedgerView, caller: Address, lock: Address, now: i64)
    requires
        sound(ledger),
    ensures
        sound(after(ledger, Request::Stake { caller, lock, now })),
{
    let request = Request::Stake { caller, lock, now };
    if outcome_of(ledger, request) is Ok {
        let next = after(ledger, request);
        let calls = stake_calls(stake_request(ledger, caller, lock));
        let record = ledger.locks[lock];
        lemma_stake_calls_run(ledger.tokens, signers_of(ledger, caller, true), stake_request(ledger, caller, lock));
        // The caller held the freeze authority, so the protocol did not: the asset was locked under no record.
        assert(ledger.tokens.mints[record.nft_mint].freeze_authority == Some(caller));
        assert(caller != ledger.authority->Some_0.address);
        assert forall|key: Address| #[trigger]
            ledger.locks.dom().contains(key) && ledger.locks[key].is_locked implies ledger.locks[key].nft_mint
            != record.nft_mint && none_lets_go(calls, ledger.locks[key].nft_account, ledger.locks[key].nft_mint) by {
            assert(in_custody(ledger, ledger.locks[key]));
        }
        lemma_tokens_keep_soundness(ledger, caller, true, calls);
        let moved = LedgerView { tokens: next.tokens, ..ledger };
        lemma_kept_records_stand(moved, next);
        assert forall|key: Address| #[trigger]
            next.locks.dom().contains(key) && next.locks[key].is_locked implies in_custody(next, next.locks[key]) by {
            if key != lock {
                assert(moved.locks.dom().contains(key) && moved.locks[key].is_locked);
                assert(in_custody(moved, moved.locks[key]));
            }
        }
        assert forall|first: Address, second: Address|
            #![trigger next.locks[first], next.locks[second]]
            next.locks.dom().contains(first) && next.locks.dom().contains(second) && next.locks[first].is_locked
                && next.locks[second].is_locked && next.locks[first].nft_mint
                == next.locks[second].nft_mint implies first == second by {
            if first != lock && second != lock {
                assert(ledger.locks[first] == next.locks[first] && ledger.locks[second] == next.locks[second]);
            } else if first != lock {
                assert(ledger.locks.dom().contains(first) && ledger.locks[first].is_locked);
            } else if second != lock {
                assert(ledger.locks.dom().contains(second) && ledger.locks[second].is_locked);
            }
        }
    }
}

/// An unstake keeps the ledger sound: it lets go of the one asset whose
/// record it unlocks, and of no other.
pub proof fn lemma_unstake_keeps_soundness(
    ledger: LedgerView,
    caller: Address,
    lock: Address,
    reward_account: Address,
    now: i64,
)
    requires
        sound(ledger),
    ensures
        sound(after(ledger, Request::Unstake { caller, lock, reward_account, now })),
{
    let request = Request::Unstake { caller, lock, reward_account, now };
    if outcome_of(ledger, request) is Ok {
        let next = after(ledger, request);
        let calls = unstake_calls(unstake_request(ledger, caller, lock, reward_account));
        let signers = signers_of(ledger, caller, true);
        let record = ledger.locks[lock];
        assert(in_custody(ledger, record));
        lemma_unstake_calls_run(ledger.tokens, signers, unstake_request(ledger, caller, lock, reward_account));
        // Every other locked asset is another asset in another account.
        let others = LedgerView { locks: ledger.locks.remove(lock), ..ledger };
        lemma_kept_records_stand(ledger, others);
        lemma_locked_stay_in_custody(ledger, others);
        assert forall|key: Address| #[trigger]
            others.locks.dom().contains(key) && others.locks[key].is_locked implies none_lets_go(
            calls,
            others.locks[key].nft_account,
            others.locks[key].nft_mint,
        ) by {
            assert(ledger.locks.dom().contains(key) && ledger.locks[key].is_locked && key != lock);
            assert(in_custody(ledger, ledger.locks[key]));
            assert(ledger.locks[key].nft_mint != record.nft_mint);
            assert(ledger.locks[key].nft_account != record.nft_account);
        }
        lemma_tokens_keep_soundness(others, caller, true, calls);
        lemma_locked_stay_in_custody(LedgerView { tokens: next.tokens, ..others }, next);
        // The record that is unlocked stays at its address, and its asset stays unique.
        let whole = LedgerView { tokens: next.tokens, ..ledger };
        assert forall|key: Address| #[trigger] whole.locks.dom().contains(key) implies is_fixed_unique(
            whole.tokens,
            whole.locks[key].nft_mint,
        ) by {
            lemma_run_keeps_unique(ledger.tokens, signers, calls, ledger.locks[key].nft_mint);
        }
        lemma_kept_records_stand(whole, next);
    }
}

/// Reclaiming a record keeps the ledger sound.
pub proof fn lemma_close_keeps_soundness(ledger: LedgerView, lock: Address)
    requires
        sound(ledger),
    ensures
        sound(after(ledger, Request::CloseLockRecord { lock })),
{
    let request = Request::CloseLockRecord { lock };
    if outcome_of(ledger, request) is Ok {
        lemma_kept_records_stand(ledger, after(ledger, request));
        lemma_locked_stay_in_custody(ledger, after(ledger, request));
    }
}

/// A direct call to the token module keeps the ledger sound: whoever makes
/// it, it thaws no locked asset and takes no freeze authority from the
/// protocol.
pub proof fn lemma_token_call_keeps_soundness(ledger: LedgerView, caller: Address, call: TokenCall)
    requires
        sound(ledger),
    ensures
        sound(after(ledger, Request::TokenCall { caller, call })),
{
    let request = Request::TokenCall { caller, call };
    if outcome_of(ledger, request) is Ok {
        let signers = signers_of(ledger, caller, false);
        let calls = seq![call];
        assert(calls.skip(1) =~= Seq::<TokenCall>::empty());
        reveal_with_fuel(run_calls, 2);
        assert(run_calls(ledger.tokens, signers, calls) == apply_call(ledger.tokens, signers, call));
        assert forall|key: Address| #[trigger]
            ledger.locks.dom().contains(key) && ledger.locks[key].is_locked implies none_lets_go(
            calls,
            ledger.locks[key].nft_account,
            ledger.locks[key].nft_mint,
        ) by {
            lemma_stranger_lets_go_of_nothing(
                ledger.tokens,
                signers,
                call,
                ledger.locks[key].nft_account,
                ledger.locks[key].nft_mint,
            );
        }
        lemma_tokens_keep_soundness(ledger, caller, false, calls);
    }
}

/// A transfer keeps the ledger sound: it reaches no frozen account and no
/// asset's supply.
pub proof fn lemma_transfer_keeps_soundness(ledger: LedgerView, caller: Address, from: Address, to: Address, amount: u64)
    requires
        sound(ledger),
    ensures
        sound(after(ledger, Request::Transfer { caller, from, to, amount })),
{
    let request = Request::Transfer { caller, from, to, amount };
    if outcome_of(ledger, request) is Ok {
        let next = after(ledger, request);
        assert forall|key: Address| #[trigger] next.locks.dom().contains(key) implies is_fixed_unique(
            next.tokens,
            next.locks[key].nft_mint,
        ) by {
            assert(ledger.locks.dom().contains(key));
        }
        assert forall|key: Address| #[trigger]
            next.locks.dom().contains(key) && next.locks[key].is_locked implies in_custody(next, next.locks[key]) by {
            assert(in_custody(ledger, ledger.locks[key]));
        }
    }
}

/// Whatever is asked of a sound ledger, and by whom, it stays sound.
pub proof fn lemma_request_keeps_soundness(ledger: LedgerView, request: Request)
    requires
        sound(ledger),
    ensures
        sound(after(ledger, request)),
{
    match request {
        Request::InitializeAuthority { payer, token_mint, token_account } => {
            lemma_initialize_keeps_soundness(ledger, payer, token_mint, token_account);
        },
        Request::MintUniqueAsset { owner, nft_mint, nft_account } => {
            lemma_mint_keeps_soundness(ledger, owner, nft_mint, nft_account);
        },
        Request::CreateLockRecord { owner, nft_account, nft_mint } => {
            lemma_create_keeps_soundness(ledger, owner, nft_account, nft_mint);
        },
        Request::Stake { caller, lock, now } => {
            lemma_stake_keeps_soundness(ledger, caller, lock, now);
        },
        Request::Unstake { caller, lock, reward_account, now } => {
            lemma_unstake_keeps_soundness(ledger, caller, lock, reward_account, now);
        },
        Request::CloseLockRecord { lock } => {
            lemma_close_keeps_soundness(ledger, lock);
        },
        Request::TokenCall { caller, call } => {
            lemma_token_call_keeps_soundness(ledger, caller, call);
        },
        Request::Transfer { caller, from, to, amount } => {
            lemma_transfer_keeps_soundness(ledger, caller, from, to, amount);
        },
    }
}

/// Every ledger that requests have made of the empty one is sound.
pub proof fn lemma_always_sound(program_id: Address, requests: Seq<Request>)
    ensures
        sound(after_all(empty_ledger(program_id), requests)),
    decreases requests.len(),
{
    if requests.len() > 0 {
        lemma_always_sound(program_id, requests.drop_last());
        lemma_request_keeps_soundness(after_all(empty_ledger(program_id), requests.drop_last()), requests.last());
    }
}

/// An asset that is locked is not locked again: a stake of a locked record
/// is always refused.
pub proof fn lemma_locked_record_is_not_staked(ledger: LedgerView, caller: Address, lock: Address, now: i64)
    requires
        holds_custody(ledger),
        ledger.locks.dom().contains(lock),
        ledger.locks[lock].is_locked,
    ensures
        stake_outcome(ledger, caller, lock, now) is Err,
{
    assert(in_custody(ledger, ledger.locks[lock]));
    lemma_stake_calls_run(ledger.tokens, signers_of(ledger, caller, true), stake_request(ledger, caller, lock));
}

/// Whether `request` is the unstake of the record at `lock` by `owner`.
pub open spec fn is_release_by(request: Request, owner: Address, lock: Address) -> bool {
    request matches Request::Unstake { caller, lock: released, .. } && caller == owner && released == lock
}

/// Nobody but its owner releases a locked asset. Whatever else is asked of
/// the ledger, and by whom, the record stays as it is, locked, and the asset
/// stays frozen in its holding account under the protocol's control, the
/// account holding what it held.
pub proof fn lemma_only_the_owner_releases(ledger: LedgerView, lock: Address, request: Request)
    requires
        sound(ledger),
        ledger.locks.dom().contains(lock),
        ledger.locks[lock].is_locked,
        !is_release_by(request, ledger.locks[lock].authority, lock),
    ensures
        after(ledger, request).locks.dom().contains(lock),
        after(ledger, request).locks[lock] == ledger.locks[lock],
        in_custody(after(ledger, request), ledger.locks[lock]),
        after(ledger, request).tokens.holdings[ledger.locks[lock].nft_account]
            == ledger.tokens.holdings[ledger.locks[lock].nft_account],
{
    let next = after(ledger, request);
    let record = ledger.locks[lock];
    assert(in_custody(ledger, record));
    assert(next.locks.dom().contains(lock) && next.locks[lock] == record) by {
        match request {
            Request::Stake { caller, lock: staked, now } => {
                if staked == lock {
                    lemma_locked_record_is_not_staked(ledger, caller, lock, now);
                }
            },
            Request::CreateLockRecord { owner, nft_account, nft_mint } => {
                if create_outcome(ledger, owner, nft_account, nft_mint) is Ok {
                    assert(create_outcome(ledger, owner, nft_account, nft_mint)->Ok_0.0 != lock);
                }
            },
            _ => {},
        }
    }
    lemma_request_keeps_soundness(ledger, request);
    assert(next.locks.dom().contains(lock) && next.locks[lock].is_locked);
    assert(in_custody(next, next.locks[lock]));
    if outcome_of(ledger, request) is Ok {
        match request {
            Request::MintUniqueAsset { owner, nft_mint, nft_account } => {
                let calls = mint_nft_calls(MintNFT { user: owner, nft_mint, nft_account });
                assert(none_lets_go(calls, record.nft_account, record.nft_mint));
                lemma_run_keeps_frozen(
                    ledger.tokens,
                    signers_of(ledger, owner, true),
                    calls,
                    record.nft_account,
                    record.nft_mint,
                );
            },
            Request::Stake { caller, lock: staked, now } => {
                let calls = stake_calls(stake_request(ledger, caller, staked));
                assert(none_lets_go(calls, record.nft_account, record.nft_mint));
                lemma_run_keeps_frozen(
                    ledger.tokens,
                    signers_of(ledger, caller, true),
                    calls,
                    record.nft_account,
                    record.nft_mint,
                );
            },
            Request::Unstake { caller, lock: released, reward_account, now } => {
                let calls = unstake_calls(unstake_request(ledger, caller, released, reward_account));
                assert(released != lock);
                assert(in_custody(ledger, ledger.locks[released]));
                assert(ledger.locks[released].nft_mint != record.nft_mint);
                assert(ledger.locks[released].nft_account != record.nft_account);
                assert(none_lets_go(calls, record.nft_account, record.nft_mint));
                lemma_run_keeps_frozen(
                    ledger.tokens,
                    signers_of(ledger, caller, true),
                    calls,
                    record.nft_account,
                    record.nft_mint,
                );
            },
            Request::TokenCall { caller, call } => {
                let signers = signers_of(ledger, caller, false);
                lemma_stranger_lets_go_of_nothing(ledger.tokens, signers, call, record.nft_account, record.nft_mint);
                lemma_call_keeps_frozen(
                    ledger.tokens,
                    signers,
                    call,
                    record.nft_account,
                    record.nft_mint,
                );
            },
            _ => {},
        }
    }
}

/// The authority record is written once: whatever is asked of the ledger,
/// an authority that exists stays as it is.
pub proof fn lemma_authority_is_written_once(ledger: LedgerView, request: Request)
    requires
        ledger.authority is Some,
    ensures
        after(ledger, request).authority == ledger.authority,
{
}

/// A lock record keeps its owner, its asset and its holding account for as
/// long as it stands: a request changes its phase and the time of that
/// change, or nothing of it.
pub proof fn lemma_record_keeps_its_asset(ledger: LedgerView, lock: Address, request: Request)
    requires
        ledger.locks.dom().contains(lock),
        after(ledger, request).locks.dom().contains(lock),
    ensures
        after(ledger, request).locks[lock] == (LockedAccount {
            is_locked: after(ledger, request).locks[lock].is_locked,
            locked_date: after(ledger, request).locks[lock].locked_date,
            ..ledger.locks[lock]
        }),
{
}

} // verus!

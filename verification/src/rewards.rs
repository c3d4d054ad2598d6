//! Rewards: the reward token is the protocol's to issue, and it issues the
//! fixed reward for each release and nothing else.

use vstd::prelude::*;
use crate::address::{derived_address, signer_seed, Address};
use crate::calls::REWARD_AMOUNT;
use crate::context::{Initialize, MintNFT};
use crate::custody::{after, after_all, empty_ledger, outcome_of, Request};
use crate::ledger::{signers_of, stake_request, unstake_request, LedgerView};
use crate::plans::{
    lemma_initialize_calls_run, lemma_mint_calls_run, lemma_stake_calls_run, lemma_unstake_calls_run,
};
use crate::program::{mint_nft_calls, stake_calls, unstake_calls};
use crate::state::Slot;
use crate::token_module::{effect, issued_by, lemma_call_keeps_issuer};

verus! {

/// Once the authority exists, the reward token exists and the authority is
/// the one that issues it.
pub open spec fn issues_rewards(ledger: LedgerView) -> bool {
    ledger.authority matches Some(authority) ==> issued_by(ledger.tokens, authority.address, authority.record.token_mint)
}

/// The supply of the reward token, once the authority exists.
pub open spec fn reward_supply(ledger: LedgerView) -> int {
    ledger.tokens.mints[ledger.authority->Some_0.record.token_mint].supply as int
}

/// What `request` adds to the supply of the reward token: the fixed reward
/// where it is an unstake that is carried out, and nothing otherwise.
pub open spec fn reward_for(ledger: LedgerView, request: Request) -> int {
    if request is Unstake && outcome_of(ledger, request) is Ok {
        REWARD_AMOUNT as int
    } else {
        0
    }
}

/// Whatever is asked of the ledger, and by whom, the protocol stays the
/// issuer of the reward token; and once the authority exists, the supply of
/// the reward token grows by the fixed reward with each unstake that is
/// carried out, and by nothing else.
pub proof fn lemma_request_keeps_rewards(ledger: LedgerView, request: Request)
    requires
        issues_rewards(ledger),
    ensures
        issues_rewards(after(ledger, request)),
        ledger.authority is Some ==> after(ledger, request).authority == ledger.authority && reward_supply(
            after(ledger, request),
        ) == reward_supply(ledger) + reward_for(ledger, request),
{
    if outcome_of(ledger, request) is Ok {
        match request {
            Request::InitializeAuthority { payer, token_mint, token_account } => {
                let derived = derived_address(seq![signer_seed()], ledger.program_id@);
                let ctx = Initialize {
                    program_id: ledger.program_id,
                    new_signer: Slot { key: derived->Some_0.0, existing: None },
                    token_mint,
                    token_account,
                };
                lemma_initialize_calls_run(ledger.tokens, signers_of(ledger, payer, true), ctx);
            },
            Request::MintUniqueAsset { owner, nft_mint, nft_account } => {
                if ledger.authority is Some {
                    let reward = ledger.authority->Some_0.record.token_mint;
                    let signers = signers_of(ledger, owner, true);
                    let calls = mint_nft_calls(MintNFT { user: owner, nft_mint, nft_account });
                    lemma_mint_calls_run(ledger.tokens, signers, MintNFT { user: owner, nft_mint, nft_account });
                    let first = effect(ledger.tokens, calls[0]);
                    let second = effect(first, calls[1]);
                    let third = effect(second, calls[2]);
                    assert(nft_mint != reward);
                    lemma_call_keeps_issuer(ledger.tokens, signers, calls[0], reward);
                    lemma_call_keeps_issuer(first, signers, calls[1], reward);
                    lemma_call_keeps_issuer(second, signers, calls[2], reward);
                    lemma_call_keeps_issuer(third, signers, calls[3], reward);
                }
            },
            Request::Stake { caller, lock, now } => {
                let reward = ledger.authority->Some_0.record.token_mint;
                let signers = signers_of(ledger, caller, true);
                let calls = stake_calls(stake_request(ledger, caller, lock));
                lemma_stake_calls_run(ledger.tokens, signers, stake_request(ledger, caller, lock));
                let first = effect(ledger.tokens, calls[0]);
                lemma_call_keeps_issuer(ledger.tokens, signers, calls[0], reward);
                lemma_call_keeps_issuer(first, signers, calls[1], reward);
            },
            Request::Unstake { caller, lock, reward_account, now } => {
                let reward = ledger.authority->Some_0.record.token_mint;
                let signers = signers_of(ledger, caller, true);
                let calls = unstake_calls(unstake_request(ledger, caller, lock, reward_account));
                lemma_unstake_calls_run(ledger.tokens, signers, unstake_request(ledger, caller, lock, reward_account));
                let first = effect(ledger.tokens, calls[0]);
                let second = effect(first, calls[1]);
                lemma_call_keeps_issuer(ledger.tokens, signers, calls[0], reward);
                lemma_call_keeps_issuer(first, signers, calls[1], reward);
                lemma_call_keeps_issuer(second, signers, calls[2], reward);
            },
            Request::TokenCall { caller, call } => {
                if ledger.authority is Some {
                    let reward = ledger.authority->Some_0.record.token_mint;
                    lemma_call_keeps_issuer(ledger.tokens, signers_of(ledger, caller, false), call, reward);
                }
            },
            _ => {},
        }
    }
}

/// On every ledger that requests have made of the empty one, the protocol is
/// the issuer of the reward token.
pub proof fn lemma_always_issues_rewards(program_id: Address, requests: Seq<Request>)
    ensures
        issues_rewards(after_all(empty_ledger(program_id), requests)),
    decreases requests.len(),
{
    if requests.len() > 0 {
        lemma_always_issues_rewards(program_id, requests.drop_last());
        lemma_request_keeps_rewards(after_all(empty_ledger(program_id), requests.drop_last()), requests.last());
    }
}

} // verus!

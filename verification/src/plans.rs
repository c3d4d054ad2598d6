//! How the calls that each operation plans run on the token module: one
//! after the other, each on what the one before has left.

use vstd::prelude::*;
use crate::calls::TokenCall;
use crate::context::{Initialize, MintNFT, StakeAccount, UnstakeAccount};
use crate::program::{initialize_calls, mint_nft_calls, stake_calls, unstake_calls};
use crate::token_module::{apply_call, run_calls, then_call, Signers, TokenView};

verus! {

/// A list of calls runs as its first call, then the rest.
proof fn lemma_run_unfolds(state: TokenView, signers: Signers, calls: Seq<TokenCall>, rest: Seq<TokenCall>)
    requires
        calls.len() > 0,
        rest == calls.skip(1),
    ensures
        run_calls(state, signers, calls) == (match apply_call(state, signers, calls[0]) {
            Some(next) => run_calls(next, signers, rest),
            None => None,
        }),
{
}

/// Two calls run as the first, then the second.
proof fn lemma_two_run(state: TokenView, signers: Signers, first: TokenCall, second: TokenCall)
    ensures
        run_calls(state, signers, seq![first, second]) == then_call(apply_call(state, signers, first), signers, second),
{
    assert(seq![first, second].skip(1) =~= seq![second]);
    assert(seq![second].skip(1) =~= Seq::<TokenCall>::empty());
    reveal_with_fuel(run_calls, 3);
}

/// The calls of a stake: the handing over of the freeze authority, then the
/// freeze.
pub proof fn lemma_stake_calls_run(state: TokenView, signers: Signers, ctx: StakeAccount)
    ensures
        stake_calls(ctx).len() == 2,
        run_calls(state, signers, stake_calls(ctx)) == then_call(
            apply_call(state, signers, stake_calls(ctx)[0]),
            signers,
            stake_calls(ctx)[1],
        ),
{
    let calls = stake_calls(ctx);
    assert(calls =~= seq![calls[0], calls[1]]);
    lemma_two_run(state, signers, calls[0], calls[1]);
}

/// The calls that create the reward channel: the reward token, then the
/// authority's holding account of it.
pub proof fn lemma_initialize_calls_run(state: TokenView, signers: Signers, ctx: Initialize)
    ensures
        initialize_calls(ctx).len() == 2,
        run_calls(state, signers, initialize_calls(ctx)) == then_call(
            apply_call(state, signers, initialize_calls(ctx)[0]),
            signers,
            initialize_calls(ctx)[1],
        ),
{
    let calls = initialize_calls(ctx);
    assert(calls =~= seq![calls[0], calls[1]]);
    lemma_two_run(state, signers, calls[0], calls[1]);
}

/// The calls of an unstake: the thaw, then the retiring of the freeze
/// authority, then the reward.
pub proof fn lemma_unstake_calls_run(state: TokenView, signers: Signers, ctx: UnstakeAccount)
    ensures
        unstake_calls(ctx).len() == 3,
        run_calls(state, signers, unstake_calls(ctx)) == then_call(
            then_call(apply_call(state, signers, unstake_calls(ctx)[0]), signers, unstake_calls(ctx)[1]),
            signers,
            unstake_calls(ctx)[2],
        ),
{
    let calls = unstake_calls(ctx);
    assert(calls.skip(1) =~= seq![calls[1], calls[2]]);
    lemma_run_unfolds(state, signers, calls, seq![calls[1], calls[2]]);
    if apply_call(state, signers, calls[0]) is Some {
        lemma_two_run(apply_call(state, signers, calls[0])->Some_0, signers, calls[1], calls[2]);
    }
}

/// The calls that mint a unique asset: the asset, the holding account, the
/// one unit, then the retiring of the mint authority.
pub proof fn lemma_mint_calls_run(state: TokenView, signers: Signers, ctx: MintNFT)
    ensures
        mint_nft_calls(ctx).len() == 4,
        run_calls(state, signers, mint_nft_calls(ctx)) == then_call(
            then_call(
                then_call(apply_call(state, signers, mint_nft_calls(ctx)[0]), signers, mint_nft_calls(ctx)[1]),
                signers,
                mint_nft_calls(ctx)[2],
            ),
            signers,
            mint_nft_calls(ctx)[3],
        ),
{
    let calls = mint_nft_calls(ctx);
    assert(calls.skip(1) =~= seq![calls[1], calls[2], calls[3]]);
    lemma_run_unfolds(state, signers, calls, seq![calls[1], calls[2], calls[3]]);
    if apply_call(state, signers, calls[0]) is Some {
        let first = apply_call(state, signers, calls[0])->Some_0;
        let rest = seq![calls[1], calls[2], calls[3]];
        assert(rest.skip(1) =~= seq![calls[2], calls[3]]);
        lemma_run_unfolds(first, signers, rest, seq![calls[2], calls[3]]);
        if apply_call(first, signers, calls[1]) is Some {
            lemma_two_run(apply_call(first, signers, calls[1])->Some_0, signers, calls[2], calls[3]);
        }
    }
}

} // verus!

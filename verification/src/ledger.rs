//! The ledger in memory: the protocol's records beside the token module, and
//! each operation carried out in one step, all or nothing.

use vstd::prelude::*;
use crate::address::{
    derived_address, derives_to, lock_seeds, locked_account_address, same_address, signer_address, signer_seed,
    Address,
};
use crate::context::{
    CloseLockedAccount, Initialize, InitializeLockedAccount, MintNFT, StakeAccount, UnstakeAccount,
};
use crate::custody::{after, lemma_request_keeps_soundness, sound, Request};
use crate::error::StakeError;
use crate::program::{
    close_locked_account, initialize_at, initialize_calls, initialize_locked_account_at, initialize_record,
    initialize_refusal, lock_refusal, mint_nft, mint_nft_calls, new_lock_record, stake_account, stake_calls,
    stake_refusal, unstake_account, unstake_calls, unstake_refusal, with_phase,
};
use crate::rewards::{issues_rewards, lemma_request_keeps_rewards};
use crate::state::{Account, HoldingAccount, LockedAccount, MintState, SignerAccount, Slot};
use crate::table::Table;
use crate::calls::TokenCall;
use crate::token_module::{
    accepts_transfer, apply_call, run_calls, transfer_effect, Signers, TokenLedger, TokenView,
};

verus! {

/// The protocol authority as the ledger holds it: its derived address and
/// its record.
#[derive(Clone, Copy, Debug, PartialEq, Eq)]
pub struct Authority {
    pub address: Address,
    pub record: SignerAccount,
}

/// What the ledger holds.
pub struct LedgerView {
    pub program_id: Address,
    pub authority: Option<Authority>,
    pub locks: Map<Address, LockedAccount>,
    pub tokens: TokenView,
}

/// Who stands behind a request of `caller`: the caller and, where
/// `program_signs`, the protocol authority.
pub open spec fn signers_of(ledger: LedgerView, caller: Address, program_signs: bool) -> Signers {
    Signers {
        caller,
        program: match ledger.authority {
            Some(authority) => Some((authority.address, authority.record.bump)),
            None => None,
        },
        program_signs,
    }
}

/// The derivation of the address of the lock record of `record`'s owner and
/// asset, under the authority at `signer`.
pub open spec fn lock_derivation_of(program_id: Address, signer: Address, record: LockedAccount) -> Option<
    (Address, u8),
> {
    derived_address(lock_seeds(record.authority, record.nft_account, record.nft_mint, signer), program_id@)
}

/// Every record stands at its derived address and holds the bump seed of
/// that derivation: the authority at the address derived from the program's
/// identity, and each lock record at the address derived from its owner, its
/// holding account, its asset and the authority.
pub open spec fn stands_at_derived_addresses(ledger: LedgerView) -> bool {
    &&& ledger.authority matches Some(authority) ==> derives_to(
        derived_address(seq![signer_seed()], ledger.program_id@),
        authority.address,
        authority.record.bump,
    )
    &&& forall|key: Address| #[trigger]
        ledger.locks.dom().contains(key) ==> ledger.authority is Some && derives_to(
            lock_derivation_of(ledger.program_id, ledger.authority->Some_0.address, ledger.locks[key]),
            key,
            ledger.locks[key].bump,
        )
}

/// The ledger after the authority is created with the reward token at
/// `token_mint` and its vault at `token_account`, or why the request is
/// refused: no address can be derived for the authority; a record stands at
/// the derived address; the token module rejects the reward channel. The
/// record holds the bump seed of the derivation.
pub open spec fn initialize_outcome(ledger: LedgerView, payer: Address, token_mint: Address, token_account: Address) -> Result<
    LedgerView,
    StakeError,
> {
    let derived = derived_address(seq![signer_seed()], ledger.program_id@);
    match derived {
        None => Err(StakeError::ValidationFailed),
        Some((address, bump)) => {
            let ctx = Initialize {
                program_id: ledger.program_id,
                new_signer: Slot {
                    key: address,
                    existing: match ledger.authority {
                        Some(authority) => Some(authority.record),
                        None => None,
                    },
                },
                token_mint,
                token_account,
            };
            match initialize_refusal(ctx, derived) {
                Some(error) => Err(error),
                None => match run_calls(ledger.tokens, signers_of(ledger, payer, true), initialize_calls(ctx)) {
                    None => Err(StakeError::DelegatedCallFailed),
                    Some(tokens) => Ok(
                        LedgerView {
                            authority: Some(Authority { address, record: initialize_record(ctx, bump) }),
                            tokens,
                            ..ledger
                        },
                    ),
                },
            }
        },
    }
}

/// The ledger, in memory.
#[derive(Debug)]
pub struct Ledger {
    program_id: Address,
    authority: Option<Authority>,
    locks: Table<LockedAccount>,
    tokens: TokenLedger,
}

impl View for Ledger {
    type V = LedgerView;

    closed spec fn view(&self) -> LedgerView {
        LedgerView {
            program_id: self.program_id,
            authority: self.authority,
            locks: self.locks@,
            tokens: self.tokens@,
        }
    }
}

impl Ledger {
    /// The tables are well formed, every record stands at its derived
    /// address, every locked asset is in custody, and the reward token is the
    /// protocol's to issue.
    pub closed spec fn wf(&self) -> bool {
        &&& self.locks.wf()
        &&& self.tokens.wf()
        &&& sound(self@)
        &&& issues_rewards(self@)
    }

    /// What a well-formed ledger holds to.
    pub proof fn lemma_wf(&self)
        requires
            self.wf(),
        ensures
            sound(self@),
            issues_rewards(self@),
    {
    }

    /// A request that is carried out leaves the ledger holding to the same.
    proof fn lemma_carried_out(before: LedgerView, request: Request, now: LedgerView)
        requires
            sound(before),
            issues_rewards(before),
            after(before, request) == now,
        ensures
            sound(now),
            issues_rewards(now),
    {
        lemma_request_keeps_soundness(before, request);
        lemma_request_keeps_rewards(before, request);
    }

    /// The ledger of the program `program_id`, with no record and no token.
    pub fn new(program_id: Address) -> (ledger: Self)
        ensures
            ledger.wf(),
            ledger@.program_id == program_id,
            ledger@.authority is None,
            ledger@.locks == Map::<Address, LockedAccount>::empty(),
            ledger@.tokens.mints == Map::<Address, MintState>::empty(),
            ledger@.tokens.holdings == Map::<Address, HoldingAccount>::empty(),
    {
        Ledger { program_id, authority: None, locks: Table::new(), tokens: TokenLedger::new() }
    }

    /// The protocol authority, once it exists.
    pub fn authority(&self) -> (found: Option<Authority>)
        ensures
            found == self@.authority,
    {
        self.authority
    }

    /// The lock record at `key`, if one stands there.
    pub fn lock_record(&self, key: &Address) -> (found: Option<LockedAccount>)
        requires
            self.wf(),
        ensures
            found == (if self@.locks.dom().contains(*key) {
                Some(self@.locks[*key])
            } else {
                None
            }),
    {
        self.locks.get(key)
    }

    /// The asset type at `key`, if there is one.
    pub fn mint(&self, key: &Address) -> (found: Option<MintState>)
        requires
            self.wf(),
        ensures
            found == (if self@.tokens.mints.dom().contains(*key) {
                Some(self@.tokens.mints[*key])
            } else {
                None
            }),
    {
        self.tokens.mint(key)
    }

    /// The holding account at `key`, if there is one.
    pub fn holding(&self, key: &Address) -> (found: Option<HoldingAccount>)
        requires
            self.wf(),
        ensures
            found == (if self@.tokens.holdings.dom().contains(*key) {
                Some(self@.tokens.holdings[*key])
            } else {
                None
            }),
    {
        self.tokens.holding(key)
    }

    /// Who stands behind a request of `caller`.
    fn signers(&self, caller: &Address, program_signs: bool) -> (signers: Signers)
        ensures
            signers == signers_of(self@, *caller, program_signs),
    {
        Signers {
            caller: *caller,
            program: match self.authority {
                Some(authority) => Some((authority.address, authority.record.bump)),
                None => None,
            },
            program_signs,
        }
    }

    /// Creates the protocol authority with its reward channel. This happens
    /// once: a second request is refused.
    pub fn initialize_authority(
        &mut self,
        payer: &Address,
        token_mint: &Address,
        token_account: &Address,
    ) -> (result: Result<(), StakeError>)
        requires
            old(self).wf(),
        ensures
            final(self).wf(),
            match result {
                Ok(_) => initialize_outcome(old(self)@, *payer, *token_mint, *token_account) == Ok::<
                    LedgerView,
                    StakeError,
                >(final(self)@),
                Err(error) => final(self)@ == old(self)@ && initialize_outcome(
                    old(self)@,
                    *payer,
                    *token_mint,
                    *token_account,
                ) == Err::<LedgerView, StakeError>(error),
            },
    {
        let derived = signer_address(&self.program_id);
        let (address, bump) = match derived {
            Some(found) => found,
            None => { return Err(StakeError::ValidationFailed); },
        };
        let ctx = Initialize {
            program_id: self.program_id,
            new_signer: Slot {
                key: address,
                existing: match self.authority {
                    Some(authority) => Some(authority.record),
                    None => None,
                },
            },
            token_mint: *token_mint,
            token_account: *token_account,
        };
        let decided = match initialize_at(&ctx, bump, derived) {
            Ok(decided) => decided,
            Err(error) => { return Err(error); },
        };
        let signers = self.signers(payer, true);
        if !self.tokens.run(&signers, &decided.calls) {
            return Err(StakeError::DelegatedCallFailed);
        }
        self.authority = Some(Authority { address, record: decided.record });
        proof {
            let request = Request::InitializeAuthority {
                payer: *payer,
                token_mint: *token_mint,
                token_account: *token_account,
            };
            Self::lemma_carried_out(old(self)@, request, self@);
        }
        Ok(())
    }
}

/// The ledger after `owner` mints the unique asset `nft_mint` into the new
/// holding account `nft_account`, or the refusal where the token module
/// rejects a step.
pub open spec fn mint_outcome(ledger: LedgerView, owner: Address, nft_mint: Address, nft_account: Address) -> Result<
    LedgerView,
    StakeError,
> {
    let ctx = MintNFT { user: owner, nft_mint, nft_account };
    match run_calls(ledger.tokens, signers_of(ledger, owner, true), mint_nft_calls(ctx)) {
        None => Err(StakeError::DelegatedCallFailed),
        Some(tokens) => Ok(LedgerView { tokens, ..ledger }),
    }
}

/// What a request of `owner` to create a lock record reads, where the
/// authority is `authority`, the record is to stand at `key`, and the ledger
/// holds the two token accounts.
pub open spec fn lock_request(
    ledger: LedgerView,
    authority: Authority,
    key: Address,
    owner: Address,
    nft_account: Address,
    nft_mint: Address,
) -> InitializeLockedAccount {
    InitializeLockedAccount {
        authority: owner,
        program_id: ledger.program_id,
        program_signer: Account { key: authority.address, data: authority.record },
        locked_account: Slot {
            key,
            existing: if ledger.locks.dom().contains(key) {
                Some(ledger.locks[key])
            } else {
                None
            },
        },
        nft_owner: Account { key: nft_account, data: ledger.tokens.holdings[nft_account] },
        nft_mint: Account { key: nft_mint, data: ledger.tokens.mints[nft_mint] },
    }
}

/// The address of the new lock record and the ledger after `owner` creates
/// it for the asset `nft_mint` held in `nft_account`, or why the request is
/// refused: there is no authority, no such holding account or asset, or no
/// derived address; the asset is not a unique asset of `owner`; a record
/// stands at the derived address already. The record holds the bump seed of
/// the derivation.
pub open spec fn create_outcome(ledger: LedgerView, owner: Address, nft_account: Address, nft_mint: Address) -> Result<
    (Address, LedgerView),
    StakeError,
> {
    if ledger.authority is None || !ledger.tokens.holdings.dom().contains(nft_account)
        || !ledger.tokens.mints.dom().contains(nft_mint) {
        Err(StakeError::ValidationFailed)
    } else {
        let authority = ledger.authority->Some_0;
        let derived = derived_address(lock_seeds(owner, nft_account, nft_mint, authority.address), ledger.program_id@);
        match derived {
            None => Err(StakeError::ValidationFailed),
            Some((key, bump)) => {
                let ctx = lock_request(ledger, authority, key, owner, nft_account, nft_mint);
                match lock_refusal(ctx, derived) {
                    Some(error) => Err(error),
                    None => Ok((key, LedgerView { locks: ledger.locks.insert(key, new_lock_record(ctx, bump)), ..ledger })),
                }
            },
        }
    }
}

/// What a request of `caller` to lock the asset of the record at `lock` reads.
pub open spec fn stake_request(ledger: LedgerView, caller: Address, lock: Address) -> StakeAccount {
    let authority = ledger.authority->Some_0;
    let record = ledger.locks[lock];
    StakeAccount {
        authority: caller,
        program_signer: Account { key: authority.address, data: authority.record },
        locked_account: Account { key: lock, data: record },
        nft_owner: record.nft_account,
        nft_mint: record.nft_mint,
    }
}

/// The ledger after `caller` locks the asset of the record at `lock` at time
/// `now`, or why the request is refused: there is no authority or no such
/// record; the caller is not the record's owner; the token module rejects the
/// handing over of the freeze authority or the freeze.
pub open spec fn stake_outcome(ledger: LedgerView, caller: Address, lock: Address, now: i64) -> Result<
    LedgerView,
    StakeError,
> {
    if ledger.authority is None || !ledger.locks.dom().contains(lock) {
        Err(StakeError::ValidationFailed)
    } else {
        let ctx = stake_request(ledger, caller, lock);
        match stake_refusal(ctx) {
            Some(error) => Err(error),
            None => match run_calls(ledger.tokens, signers_of(ledger, caller, true), stake_calls(ctx)) {
                None => Err(StakeError::DelegatedCallFailed),
                Some(tokens) => Ok(
                    LedgerView { locks: ledger.locks.insert(lock, with_phase(ledger.locks[lock], true, now)), tokens, ..ledger },
                ),
            },
        }
    }
}

/// What a request of `caller` to release the asset of the record at `lock`
/// reads, where the reward goes to the holding account `reward_account`.
pub open spec fn unstake_request(ledger: LedgerView, caller: Address, lock: Address, reward_account: Address) -> UnstakeAccount {
    let authority = ledger.authority->Some_0;
    let record = ledger.locks[lock];
    UnstakeAccount {
        authority: caller,
        program_signer: Account { key: authority.address, data: authority.record },
        locked_account: Account { key: lock, data: record },
        nft_owner: record.nft_account,
        user_associated_token_account: Account { key: reward_account, data: ledger.tokens.holdings[reward_account] },
        token_mint: authority.record.token_mint,
        nft_mint: record.nft_mint,
    }
}

/// The ledger after `caller` releases the asset of the record at `lock` at
/// time `now`, or why the request is refused: there is no authority or no
/// such record; the caller is not the record's owner; the record is not
/// locked; there is no such reward account, or it is not the caller's; the
/// token module rejects the thaw, the retiring of the freeze authority or
/// the reward.
pub open spec fn unstake_outcome(
    ledger: LedgerView,
    caller: Address,
    lock: Address,
    reward_account: Address,
    now: i64,
) -> Result<LedgerView, StakeError> {
    if ledger.authority is None || !ledger.locks.dom().contains(lock) {
        Err(StakeError::ValidationFailed)
    } else if ledger.locks[lock].authority != caller {
        Err(StakeError::Unauthorized)
    } else if !ledger.locks[lock].is_locked {
        Err(StakeError::InvalidState)
    } else if !ledger.tokens.holdings.dom().contains(reward_account) {
        Err(StakeError::ValidationFailed)
    } else {
        let ctx = unstake_request(ledger, caller, lock, reward_account);
        match unstake_refusal(ctx) {
            Some(error) => Err(error),
            None => match run_calls(ledger.tokens, signers_of(ledger, caller, true), unstake_calls(ctx)) {
                None => Err(StakeError::DelegatedCallFailed),
                Some(tokens) => Ok(
                    LedgerView { locks: ledger.locks.insert(lock, with_phase(ledger.locks[lock], false, now)), tokens, ..ledger },
                ),
            },
        }
    }
}

/// The ledger after the record at `lock` is reclaimed, or why the request is
/// refused: there is no authority or no such record; the record is locked.
pub open spec fn close_outcome(ledger: LedgerView, lock: Address) -> Result<LedgerView, StakeError> {
    if ledger.authority is None || !ledger.locks.dom().contains(lock) {
        Err(StakeError::ValidationFailed)
    } else if ledger.locks[lock].is_locked {
        Err(StakeError::InvalidState)
    } else {
        Ok(LedgerView { locks: ledger.locks.remove(lock), ..ledger })
    }
}

/// The ledger after `caller` moves `amount` units from `from` to `to`, or the
/// refusal where the token module rejects the transfer.
pub open spec fn transfer_outcome(ledger: LedgerView, caller: Address, from: Address, to: Address, amount: u64) -> Result<
    LedgerView,
    StakeError,
> {
    if accepts_transfer(ledger.tokens, signers_of(ledger, caller, false), from, to, amount) {
        Ok(LedgerView { tokens: transfer_effect(ledger.tokens, from, to, amount), ..ledger })
    } else {
        Err(StakeError::DelegatedCallFailed)
    }
}

/// The ledger after `caller` makes `call` to the token module directly, or
/// the refusal where the module rejects it. Such a call carries the caller's
/// signature only: nobody but the protocol signs for its authority.
pub open spec fn direct_call_outcome(ledger: LedgerView, caller: Address, call: TokenCall) -> Result<
    LedgerView,
    StakeError,
> {
    match apply_call(ledger.tokens, signers_of(ledger, caller, false), call) {
        Some(tokens) => Ok(LedgerView { tokens, ..ledger }),
        None => Err(StakeError::DelegatedCallFailed),
    }
}

impl Ledger {
    /// Makes one call to the token module on the word of `caller` alone, as
    /// any holder of an asset may.
    pub fn token_call(&mut self, caller: &Address, call: &TokenCall) -> (result: Result<(), StakeError>)
        requires
            old(self).wf(),
        ensures
            final(self).wf(),
            match result {
                Ok(_) => direct_call_outcome(old(self)@, *caller, *call) == Ok::<LedgerView, StakeError>(final(self)@),
                Err(error) => final(self)@ == old(self)@ && direct_call_outcome(old(self)@, *caller, *call) == Err::<
                    LedgerView,
                    StakeError,
                >(error),
            },
    {
        let signers = self.signers(caller, false);
        if !self.tokens.apply(&signers, call) {
            return Err(StakeError::DelegatedCallFailed);
        }
        proof {
            Self::lemma_carried_out(old(self)@, Request::TokenCall { caller: *caller, call: *call }, self@);
        }
        Ok(())
    }

    /// Mints a unique asset to `owner`: one unit of a new asset without
    /// decimals, whose supply can never grow.
    pub fn mint_unique_asset(&mut self, owner: &Address, nft_mint: &Address, nft_account: &Address) -> (result: Result<
        (),
        StakeError,
    >)
        requires
            old(self).wf(),
        ensures
            final(self).wf(),
            match result {
                Ok(_) => mint_outcome(old(self)@, *owner, *nft_mint, *nft_account) == Ok::<LedgerView, StakeError>(
                    final(self)@,
                ),
                Err(error) => final(self)@ == old(self)@ && mint_outcome(old(self)@, *owner, *nft_mint, *nft_account)
                    == Err::<LedgerView, StakeError>(error),
            },
    {
        let ctx = MintNFT { user: *owner, nft_mint: *nft_mint, nft_account: *nft_account };
        let calls = mint_nft(&ctx);
        let signers = self.signers(owner, true);
        if !self.tokens.run(&signers, &calls) {
            return Err(StakeError::DelegatedCallFailed);
        }
        proof {
            let request = Request::MintUniqueAsset { owner: *owner, nft_mint: *nft_mint, nft_account: *nft_account };
            Self::lemma_carried_out(old(self)@, request, self@);
        }
        Ok(())
    }

    /// Creates the lock record of `owner` for the asset `nft_mint` held in
    /// `nft_account`, unlocked, and gives the address it stands at.
    pub fn create_lock_record(&mut self, owner: &Address, nft_account: &Address, nft_mint: &Address) -> (result:
        Result<Address, StakeError>)
        requires
            old(self).wf(),
        ensures
            final(self).wf(),
            match result {
                Ok(key) => create_outcome(old(self)@, *owner, *nft_account, *nft_mint) == Ok::<
                    (Address, LedgerView),
                    StakeError,
                >((key, final(self)@)),
                Err(error) => final(self)@ == old(self)@ && create_outcome(
                    old(self)@,
                    *owner,
                    *nft_account,
                    *nft_mint,
                ) == Err::<(Address, LedgerView), StakeError>(error),
            },
    {
        let authority = match self.authority {
            Some(authority) => authority,
            None => { return Err(StakeError::ValidationFailed); },
        };
        let (holding, asset) = match (self.tokens.holding(nft_account), self.tokens.mint(nft_mint)) {
            (Some(holding), Some(asset)) => (holding, asset),
            _ => { return Err(StakeError::ValidationFailed); },
        };
        let derived = locked_account_address(&self.program_id, owner, nft_account, nft_mint, &authority.address);
        let (key, bump) = match derived {
            Some(found) => found,
            None => { return Err(StakeError::ValidationFailed); },
        };
        let ctx = InitializeLockedAccount {
            authority: *owner,
            program_id: self.program_id,
            program_signer: Account { key: authority.address, data: authority.record },
            locked_account: Slot { key, existing: self.locks.get(&key) },
            nft_owner: Account { key: *nft_account, data: holding },
            nft_mint: Account { key: *nft_mint, data: asset },
        };
        assert(ctx == lock_request(self@, authority, key, *owner, *nft_account, *nft_mint));
        let record = match initialize_locked_account_at(&ctx, bump, derived) {
            Ok(record) => record,
            Err(error) => { return Err(error); },
        };
        self.locks.insert(key, record);
        proof {
            let request = Request::CreateLockRecord { owner: *owner, nft_account: *nft_account, nft_mint: *nft_mint };
            Self::lemma_carried_out(old(self)@, request, self@);
        }
        Ok(key)
    }

    /// Locks the asset of the record at `lock` for its owner `caller`: the
    /// freeze authority passes to the protocol authority, which freezes the
    /// holding account.
    pub fn stake(&mut self, caller: &Address, lock: &Address, now: i64) -> (result: Result<(), StakeError>)
        requires
            old(self).wf(),
        ensures
            final(self).wf(),
            match result {
                Ok(_) => stake_outcome(old(self)@, *caller, *lock, now) == Ok::<LedgerView, StakeError>(final(self)@),
                Err(error) => final(self)@ == old(self)@ && stake_outcome(old(self)@, *caller, *lock, now) == Err::<
                    LedgerView,
                    StakeError,
                >(error),
            },
    {
        let (authority, record) = match (self.authority, self.locks.get(lock)) {
            (Some(authority), Some(record)) => (authority, record),
            _ => { return Err(StakeError::ValidationFailed); },
        };
        let ctx = StakeAccount {
            authority: *caller,
            program_signer: Account { key: authority.address, data: authority.record },
            locked_account: Account { key: *lock, data: record },
            nft_owner: record.nft_account,
            nft_mint: record.nft_mint,
        };
        assert(ctx == stake_request(self@, *caller, *lock));
        let decided = match stake_account(&ctx, now) {
            Ok(decided) => decided,
            Err(error) => { return Err(error); },
        };
        let signers = self.signers(caller, true);
        if !self.tokens.run(&signers, &decided.calls) {
            return Err(StakeError::DelegatedCallFailed);
        }
        self.locks.insert(*lock, decided.record);
        proof {
            Self::lemma_carried_out(old(self)@, Request::Stake { caller: *caller, lock: *lock, now }, self@);
        }
        Ok(())
    }

    /// Releases the asset of the record at `lock` for its owner `caller`: the
    /// protocol authority thaws the holding account, retires the freeze
    /// authority and credits the reward to `reward_account`.
    pub fn unstake(&mut self, caller: &Address, lock: &Address, reward_account: &Address, now: i64) -> (result: Result<
        (),
        StakeError,
    >)
        requires
            old(self).wf(),
        ensures
            final(self).wf(),
            match result {
                Ok(_) => unstake_outcome(old(self)@, *caller, *lock, *reward_account, now) == Ok::<
                    LedgerView,
                    StakeError,
                >(final(self)@),
                Err(error) => final(self)@ == old(self)@ && unstake_outcome(
                    old(self)@,
                    *caller,
                    *lock,
                    *reward_account,
                    now,
                ) == Err::<LedgerView, StakeError>(error),
            },
    {
        let (authority, record) = match (self.authority, self.locks.get(lock)) {
            (Some(authority), Some(record)) => (authority, record),
            _ => { return Err(StakeError::ValidationFailed); },
        };
        if !same_address(&record.authority, caller) {
            return Err(StakeError::Unauthorized);
        }
        if !record.is_locked {
            return Err(StakeError::InvalidState);
        }
        let reward = match self.tokens.holding(reward_account) {
            Some(reward) => reward,
            None => { return Err(StakeError::ValidationFailed); },
        };
        let ctx = UnstakeAccount {
            authority: *caller,
            program_signer: Account { key: authority.address, data: authority.record },
            locked_account: Account { key: *lock, data: record },
            nft_owner: record.nft_account,
            user_associated_token_account: Account { key: *reward_account, data: reward },
            token_mint: authority.record.token_mint,
            nft_mint: record.nft_mint,
        };
        assert(ctx == unstake_request(self@, *caller, *lock, *reward_account));
        let decided = match unstake_account(&ctx, now) {
            Ok(decided) => decided,
            Err(error) => { return Err(error); },
        };
        let signers = self.signers(caller, true);
        if !self.tokens.run(&signers, &decided.calls) {
            return Err(StakeError::DelegatedCallFailed);
        }
        self.locks.insert(*lock, decided.record);
        proof {
            let request = Request::Unstake { caller: *caller, lock: *lock, reward_account: *reward_account, now };
            Self::lemma_carried_out(old(self)@, request, self@);
        }
        Ok(())
    }

    /// Reclaims the record at `lock`. A locked record stays.
    pub fn close_lock_record(&mut self, lock: &Address) -> (result: Result<(), StakeError>)
        requires
            old(self).wf(),
        ensures
            final(self).wf(),
            match result {
                Ok(_) => close_outcome(old(self)@, *lock) == Ok::<LedgerView, StakeError>(final(self)@),
                Err(error) => final(self)@ == old(self)@ && close_outcome(old(self)@, *lock) == Err::<
                    LedgerView,
                    StakeError,
                >(error),
            },
    {
        let (authority, record) = match (self.authority, self.locks.get(lock)) {
            (Some(authority), Some(record)) => (authority, record),
            _ => { return Err(StakeError::ValidationFailed); },
        };
        let ctx = CloseLockedAccount {
            locked_account: Account { key: *lock, data: record },
            program_signer: Account { key: authority.address, data: authority.record },
        };
        match close_locked_account(&ctx) {
            Ok(_) => {
                self.locks.remove(lock);
                proof {
                    Self::lemma_carried_out(old(self)@, Request::CloseLockRecord { lock: *lock }, self@);
                }
                Ok(())
            },
            Err(error) => Err(error),
        }
    }

    /// Moves `amount` units from `from` to `to` on the word of `caller`.
    pub fn transfer(&mut self, caller: &Address, from: &Address, to: &Address, amount: u64) -> (result: Result<
        (),
        StakeError,
    >)
        requires
            old(self).wf(),
        ensures
            final(self).wf(),
            match result {
                Ok(_) => transfer_outcome(old(self)@, *caller, *from, *to, amount) == Ok::<LedgerView, StakeError>(
                    final(self)@,
                ),
                Err(error) => final(self)@ == old(self)@ && transfer_outcome(old(self)@, *caller, *from, *to, amount)
                    == Err::<LedgerView, StakeError>(error),
            },
    {
        let signers = self.signers(caller, false);
        if !self.tokens.transfer(&signers, from, to, amount) {
            return Err(StakeError::DelegatedCallFailed);
        }
        proof {
            let request = Request::Transfer { caller: *caller, from: *from, to: *to, amount };
            Self::lemma_carried_out(old(self)@, request, self@);
        }
        Ok(())
    }
}

} // verus!

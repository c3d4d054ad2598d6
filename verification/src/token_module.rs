//! A model of the token module: which delegated calls it accepts and what
//! each changes. The in-memory ledger runs the protocol against it, and what
//! is proved of that ledger holds of a ledger whose token module accepts and
//! changes what this one does.

use vstd::prelude::*;
use crate::address::{same_address, Address};
use crate::state::{HoldingAccount, MintState};
use crate::table::Table;
use crate::calls::{AuthorityKind, Signing, TokenCall};

verus! {

/// Who stands behind a request: the caller; the protocol authority with the
/// bump seed of its derivation, once it exists; and whether the request is
/// the protocol's own, which alone carries the authority's signature.
#[derive(Clone, Copy, Debug, PartialEq, Eq)]
pub struct Signers {
    pub caller: Address,
    pub program: Option<(Address, u8)>,
    pub program_signs: bool,
}

/// Whether `address` is the protocol authority's.
pub open spec fn is_program(signers: Signers, address: Address) -> bool {
    signers.program matches Some((program, _)) && program == address
}

/// What the token module holds: asset types and holding accounts, by address.
pub struct TokenView {
    pub mints: Map<Address, MintState>,
    pub holdings: Map<Address, HoldingAccount>,
}

/// Whether `signing` vouches for `authority`. The caller signs for itself
/// alone, and never for the protocol authority, whose address has no key.
/// The protocol signs for its authority, by that authority's bump, in its
/// own requests only.
pub open spec fn signature_holds(signers: Signers, authority: Address, signing: Signing) -> bool {
    match signing {
        Signing::Caller => authority == signers.caller && !is_program(signers, authority),
        Signing::Program { bump } => signers.program_signs && signers.program == Some((authority, bump)),
    }
}

/// Whether an address is taken, by an asset type or by a holding account.
pub open spec fn in_use(state: TokenView, address: Address) -> bool {
    state.mints.dom().contains(address) || state.holdings.dom().contains(address)
}

/// Whether `account` is a holding account of the asset `mint`.
pub open spec fn holds_asset(state: TokenView, account: Address, mint: Address) -> bool {
    &&& state.mints.dom().contains(mint)
    &&& state.holdings.dom().contains(account)
    &&& state.holdings[account].mint == mint
}

/// Whether the module accepts `call`.
pub open spec fn accepts(state: TokenView, signers: Signers, call: TokenCall) -> bool {
    match call {
        TokenCall::CreateMint { mint, .. } => !in_use(state, mint),
        TokenCall::CreateHolding { account, mint, .. } => !in_use(state, account) && state.mints.dom().contains(mint),
        TokenCall::MintTo { mint, to, authority, amount, signing } => {
            &&& holds_asset(state, to, mint)
            &&& !state.holdings[to].is_frozen
            &&& state.mints[mint].mint_authority == Some(authority)
            &&& signature_holds(signers, authority, signing)
            &&& state.holdings[to].amount + amount <= u64::MAX
            &&& state.mints[mint].supply + amount <= u64::MAX
        },
        TokenCall::SetAuthority { mint, kind, current, signing, .. } => {
            &&& state.mints.dom().contains(mint)
            &&& signature_holds(signers, current, signing)
            &&& match kind {
                AuthorityKind::MintTokens => state.mints[mint].mint_authority == Some(current),
                AuthorityKind::FreezeAccount => state.mints[mint].freeze_authority == Some(current),
            }
        },
        TokenCall::FreezeAccount { account, mint, authority, signing } => {
            &&& holds_asset(state, account, mint)
            &&& !state.holdings[account].is_frozen
            &&& state.mints[mint].freeze_authority == Some(authority)
            &&& signature_holds(signers, authority, signing)
        },
        TokenCall::ThawAccount { account, mint, authority, signing } => {
            &&& holds_asset(state, account, mint)
            &&& state.holdings[account].is_frozen
            &&& state.mints[mint].freeze_authority == Some(authority)
            &&& signature_holds(signers, authority, signing)
        },
    }
}

/// What the module holds after an accepted `call`.
pub open spec fn effect(state: TokenView, call: TokenCall) -> TokenView {
    match call {
        TokenCall::CreateMint { mint, decimals, mint_authority, freeze_authority } => TokenView {
            mints: state.mints.insert(
                mint,
                MintState { mint_authority: Some(mint_authority), supply: 0, decimals, freeze_authority },
            ),
            ..state
        },
        TokenCall::CreateHolding { account, mint, owner } => TokenView {
            holdings: state.holdings.insert(account, HoldingAccount { mint, owner, amount: 0, is_frozen: false }),
            ..state
        },
        TokenCall::MintTo { mint, to, amount, .. } => TokenView {
            mints: state.mints.insert(
                mint,
                MintState { supply: (state.mints[mint].supply + amount) as u64, ..state.mints[mint] },
            ),
            holdings: state.holdings.insert(
                to,
                HoldingAccount { amount: (state.holdings[to].amount + amount) as u64, ..state.holdings[to] },
            ),
        },
        TokenCall::SetAuthority { mint, kind, new_authority, .. } => TokenView {
            mints: state.mints.insert(
                mint,
                match kind {
                    AuthorityKind::MintTokens => MintState { mint_authority: new_authority, ..state.mints[mint] },
                    AuthorityKind::FreezeAccount => MintState { freeze_authority: new_authority, ..state.mints[mint] },
                },
            ),
            ..state
        },
        TokenCall::FreezeAccount { account, .. } => TokenView {
            holdings: state.holdings.insert(account, HoldingAccount { is_frozen: true, ..state.holdings[account] }),
            ..state
        },
        TokenCall::ThawAccount { account, .. } => TokenView {
            holdings: state.holdings.insert(account, HoldingAccount { is_frozen: false, ..state.holdings[account] }),
            ..state
        },
    }
}

/// The module after `call`, or `None` where it rejects the call.
pub open spec fn apply_call(state: TokenView, signers: Signers, call: TokenCall) -> Option<TokenView> {
    if accepts(state, signers, call) {
        Some(effect(state, call))
    } else {
        None
    }
}

/// The module after all of `calls`, in order, or `None` where it rejects one.
pub open spec fn run_calls(state: TokenView, signers: Signers, calls: Seq<TokenCall>) -> Option<TokenView>
    decreases calls.len(),
{
    if calls.len() == 0 {
        Some(state)
    } else {
        match apply_call(state, signers, calls[0]) {
            Some(next) => run_calls(next, signers, calls.skip(1)),
            None => None,
        }
    }
}

/// Whether the asset `mint` is held frozen in `account` under the freeze
/// control of `program`.
pub open spec fn frozen_under(state: TokenView, program: Address, account: Address, mint: Address) -> bool {
    &&& holds_asset(state, account, mint)
    &&& state.holdings[account].is_frozen
    &&& state.mints[mint].freeze_authority == Some(program)
}

/// Whether `call` is one of the two by which the protocol lets go of the
/// asset `mint` held in `account`: its own thaw of the account, or its own
/// handing on of the asset's freeze authority.
pub open spec fn lets_go(call: TokenCall, account: Address, mint: Address) -> bool {
    match call {
        TokenCall::ThawAccount { account: thawed, signing: Signing::Program { .. }, .. } => thawed == account,
        TokenCall::SetAuthority { mint: target, kind: AuthorityKind::FreezeAccount, signing: Signing::Program { .. }, .. } =>
            target == mint,
        _ => false,
    }
}

/// An asset frozen under the protocol's control stays so through every
/// accepted call but the protocol's own letting go: nobody else thaws the
/// account or takes the freeze authority, and nothing reaches a frozen
/// account, which holds what it held.
pub proof fn lemma_call_keeps_frozen(state: TokenView, signers: Signers, call: TokenCall, account: Address, mint: Address)
    requires
        signers.program is Some,
        frozen_under(state, signers.program->Some_0.0, account, mint),
        accepts(state, signers, call),
        !lets_go(call, account, mint),
    ensures
        frozen_under(effect(state, call), signers.program->Some_0.0, account, mint),
        effect(state, call).holdings[account] == state.holdings[account],
{
}

/// Whether none of `calls` lets go of the asset `mint` held in `account`.
pub open spec fn none_lets_go(calls: Seq<TokenCall>, account: Address, mint: Address) -> bool {
    forall|i: int| 0 <= i < calls.len() ==> !lets_go(#[trigger] calls[i], account, mint)
}

/// The same through calls made in order.
pub proof fn lemma_run_keeps_frozen(state: TokenView, signers: Signers, calls: Seq<TokenCall>, account: Address, mint: Address)
    requires
        signers.program is Some,
        frozen_under(state, signers.program->Some_0.0, account, mint),
        run_calls(state, signers, calls) is Some,
        none_lets_go(calls, account, mint),
    ensures
        frozen_under(run_calls(state, signers, calls)->Some_0, signers.program->Some_0.0, account, mint),
        run_calls(state, signers, calls)->Some_0.holdings[account] == state.holdings[account],
    decreases calls.len(),
{
    if calls.len() > 0 {
        assert(!lets_go(calls[0], account, mint));
        lemma_call_keeps_frozen(state, signers, calls[0], account, mint);
        let rest = calls.skip(1);
        assert forall|i: int| 0 <= i < rest.len() implies !lets_go(#[trigger] rest[i], account, mint) by {
            assert(rest[i] == calls[i + 1]);
        }
        lemma_run_keeps_frozen(effect(state, calls[0]), signers, rest, account, mint);
    }
}

/// A request that is not the protocol's own lets go of nothing: the module
/// accepts none of the protocol's calls from anyone else.
pub proof fn lemma_stranger_lets_go_of_nothing(state: TokenView, signers: Signers, call: TokenCall, account: Address, mint: Address)
    requires
        !signers.program_signs,
        accepts(state, signers, call),
    ensures
        !lets_go(call, account, mint),
{
}

/// Whether `mint` is a unique asset for good: its supply is one, it has no
/// decimals, and no mint authority is left to issue more.
pub open spec fn is_fixed_unique(state: TokenView, mint: Address) -> bool {
    &&& state.mints.dom().contains(mint)
    &&& state.mints[mint].mint_authority is None
    &&& state.mints[mint].supply == 1
    &&& state.mints[mint].decimals == 0
}

/// A unique asset stays one through every accepted call: nothing is issued
/// without a mint authority, and a retired authority is not set again.
pub proof fn lemma_call_keeps_unique(state: TokenView, signers: Signers, call: TokenCall, mint: Address)
    requires
        is_fixed_unique(state, mint),
        accepts(state, signers, call),
    ensures
        is_fixed_unique(effect(state, call), mint),
{
}

/// The same through calls made in order.
pub proof fn lemma_run_keeps_unique(state: TokenView, signers: Signers, calls: Seq<TokenCall>, mint: Address)
    requires
        is_fixed_unique(state, mint),
        run_calls(state, signers, calls) is Some,
    ensures
        is_fixed_unique(run_calls(state, signers, calls)->Some_0, mint),
    decreases calls.len(),
{
    if calls.len() > 0 {
        lemma_call_keeps_unique(state, signers, calls[0], mint);
        lemma_run_keeps_unique(effect(state, calls[0]), signers, calls.skip(1), mint);
    }
}

/// The module after one more call, where it has rejected none so far.
pub open spec fn then_call(state: Option<TokenView>, signers: Signers, call: TokenCall) -> Option<TokenView> {
    match state {
        Some(state) => apply_call(state, signers, call),
        None => None,
    }
}

/// Whether `program` is the one that issues the asset `mint`.
pub open spec fn issued_by(state: TokenView, program: Address, mint: Address) -> bool {
    state.mints.dom().contains(mint) && state.mints[mint].mint_authority == Some(program)
}

/// How many units of `mint` the call issues.
pub open spec fn issue_of(call: TokenCall, mint: Address) -> int {
    match call {
        TokenCall::MintTo { mint: issued, amount, .. } => if issued == mint {
            amount as int
        } else {
            0
        },
        _ => 0,
    }
}

/// Whether `call` is the protocol's own handing on of the mint authority of
/// `mint`.
pub open spec fn hands_on_issuing(call: TokenCall, mint: Address) -> bool {
    call matches TokenCall::SetAuthority { mint: target, kind: AuthorityKind::MintTokens, signing: Signing::Program { .. }, .. }
        && target == mint
}

/// While the protocol issues an asset, every accepted call but the
/// protocol's own handing on leaves it the issuer, and the supply grows by
/// what the call issues; only the protocol's own request issues anything.
pub proof fn lemma_call_keeps_issuer(state: TokenView, signers: Signers, call: TokenCall, mint: Address)
    requires
        signers.program is Some,
        issued_by(state, signers.program->Some_0.0, mint),
        accepts(state, signers, call),
        !hands_on_issuing(call, mint),
    ensures
        issued_by(effect(state, call), signers.program->Some_0.0, mint),
        effect(state, call).mints[mint].supply == state.mints[mint].supply + issue_of(call, mint),
        !signers.program_signs ==> issue_of(call, mint) == 0,
{
}

/// Whether the module lets `owner` move `amount` units from `from` to `to`:
/// both are holding accounts of one asset, neither is frozen, `from` is
/// `owner`'s, who signs, and holds that much.
pub open spec fn accepts_transfer(state: TokenView, signers: Signers, from: Address, to: Address, amount: u64) -> bool {
    &&& state.holdings.dom().contains(from)
    &&& state.holdings.dom().contains(to)
    &&& from != to
    &&& state.holdings[from].mint == state.holdings[to].mint
    &&& !state.holdings[from].is_frozen
    &&& !state.holdings[to].is_frozen
    &&& state.holdings[from].owner == signers.caller
    &&& state.holdings[from].amount >= amount
    &&& state.holdings[to].amount + amount <= u64::MAX
}

/// What the module holds after an accepted transfer.
pub open spec fn transfer_effect(state: TokenView, from: Address, to: Address, amount: u64) -> TokenView {
    TokenView {
        holdings: state.holdings.insert(
            from,
            HoldingAccount { amount: (state.holdings[from].amount - amount) as u64, ..state.holdings[from] },
        ).insert(to, HoldingAccount { amount: (state.holdings[to].amount + amount) as u64, ..state.holdings[to] }),
        ..state
    }
}

/// The token module, in memory.
#[derive(Debug)]
pub struct TokenLedger {
    mints: Table<MintState>,
    holdings: Table<HoldingAccount>,
}

impl View for TokenLedger {
    type V = TokenView;

    closed spec fn view(&self) -> TokenView {
        TokenView { mints: self.mints@, holdings: self.holdings@ }
    }
}

/// Whether `slot` holds exactly `authority`.
fn is_authority(slot: &Option<Address>, authority: &Address) -> (same: bool)
    ensures
        same == (*slot == Some(*authority)),
{
    match slot {
        Some(holder) => same_address(holder, authority),
        None => false,
    }
}

/// Checks a signature as `signature_holds` states it.
fn check_signature(signers: &Signers, authority: &Address, signing: Signing) -> (holds: bool)
    ensures
        holds == signature_holds(*signers, *authority, signing),
{
    match signing {
        Signing::Caller => {
            let of_program = match signers.program {
                Some((program, _)) => same_address(&program, authority),
                None => false,
            };
            same_address(authority, &signers.caller) && !of_program
        },
        Signing::Program { bump } => match signers.program {
            Some((program, canonical)) => signers.program_signs && same_address(&program, authority) && canonical
                == bump,
            None => false,
        },
    }
}

impl TokenLedger {
    /// Both tables are well formed.
    pub closed spec fn wf(&self) -> bool {
        self.mints.wf() && self.holdings.wf()
    }

    /// A token module that holds nothing.
    pub fn new() -> (ledger: Self)
        ensures
            ledger.wf(),
            ledger@.mints == Map::<Address, MintState>::empty(),
            ledger@.holdings == Map::<Address, HoldingAccount>::empty(),
    {
        TokenLedger { mints: Table::new(), holdings: Table::new() }
    }

    /// The asset type at `address`, if there is one.
    pub fn mint(&self, address: &Address) -> (found: Option<MintState>)
        requires
            self.wf(),
        ensures
            found == (if self@.mints.dom().contains(*address) {
                Some(self@.mints[*address])
            } else {
                None
            }),
    {
        self.mints.get(address)
    }

    /// The holding account at `address`, if there is one.
    pub fn holding(&self, address: &Address) -> (found: Option<HoldingAccount>)
        requires
            self.wf(),
        ensures
            found == (if self@.holdings.dom().contains(*address) {
                Some(self@.holdings[*address])
            } else {
                None
            }),
    {
        self.holdings.get(address)
    }

    /// A token module that holds the same.
    pub fn duplicate(&self) -> (copy: Self)
        requires
            self.wf(),
        ensures
            copy.wf(),
            copy@ == self@,
    {
        TokenLedger { mints: self.mints.duplicate(), holdings: self.holdings.duplicate() }
    }

    /// Makes one call: carries it out where the module accepts it, and
    /// changes nothing where it does not.
    pub fn apply(&mut self, signers: &Signers, call: &TokenCall) -> (accepted: bool)
        requires
            old(self).wf(),
        ensures
            final(self).wf(),
            accepted == accepts(old(self)@, *signers, *call),
            accepted ==> final(self)@ == effect(old(self)@, *call),
            !accepted ==> final(self)@ == old(self)@,
    {
        match *call {
            TokenCall::CreateMint { mint, decimals, mint_authority, freeze_authority } => {
                if self.mints.get(&mint).is_some() || self.holdings.get(&mint).is_some() {
                    return false;
                }
                self.mints.insert(
                    mint,
                    MintState { mint_authority: Some(mint_authority), supply: 0, decimals, freeze_authority },
                );
                true
            },
            TokenCall::CreateHolding { account, mint, owner } => {
                if self.mints.get(&account).is_some() || self.holdings.get(&account).is_some() {
                    return false;
                }
                if self.mints.get(&mint).is_none() {
                    return false;
                }
                self.holdings.insert(account, HoldingAccount { mint, owner, amount: 0, is_frozen: false });
                true
            },
            TokenCall::MintTo { mint, to, authority, amount, signing } => {
                let (asset, holding) = match (self.mints.get(&mint), self.holdings.get(&to)) {
                    (Some(asset), Some(holding)) => (asset, holding),
                    _ => { return false; },
                };
                if !same_address(&holding.mint, &mint) || holding.is_frozen {
                    return false;
                }
                if !is_authority(&asset.mint_authority, &authority) || !check_signature(signers, &authority, signing) {
                    return false;
                }
                if amount > u64::MAX - holding.amount || amount > u64::MAX - asset.supply {
                    return false;
                }
                self.mints.insert(mint, MintState { supply: asset.supply + amount, ..asset });
                self.holdings.insert(to, HoldingAccount { amount: holding.amount + amount, ..holding });
                true
            },
            TokenCall::SetAuthority { mint, kind, current, new_authority, signing } => {
                let asset = match self.mints.get(&mint) {
                    Some(asset) => asset,
                    None => { return false; },
                };
                if !check_signature(signers, &current, signing) {
                    return false;
                }
                match kind {
                    AuthorityKind::MintTokens => {
                        if !is_authority(&asset.mint_authority, &current) {
                            return false;
                        }
                        self.mints.insert(mint, MintState { mint_authority: new_authority, ..asset });
                    },
                    AuthorityKind::FreezeAccount => {
                        if !is_authority(&asset.freeze_authority, &current) {
                            return false;
                        }
                        self.mints.insert(mint, MintState { freeze_authority: new_authority, ..asset });
                    },
                }
                true
            },
            TokenCall::FreezeAccount { account, mint, authority, signing } => {
                let (asset, holding) = match (self.mints.get(&mint), self.holdings.get(&account)) {
                    (Some(asset), Some(holding)) => (asset, holding),
                    _ => { return false; },
                };
                if !same_address(&holding.mint, &mint) || holding.is_frozen {
                    return false;
                }
                if !is_authority(&asset.freeze_authority, &authority) || !check_signature(signers, &authority, signing) {
                    return false;
                }
                self.holdings.insert(account, HoldingAccount { is_frozen: true, ..holding });
                true
            },
            TokenCall::ThawAccount { account, mint, authority, signing } => {
                let (asset, holding) = match (self.mints.get(&mint), self.holdings.get(&account)) {
                    (Some(asset), Some(holding)) => (asset, holding),
                    _ => { return false; },
                };
                if !same_address(&holding.mint, &mint) || !holding.is_frozen {
                    return false;
                }
                if !is_authority(&asset.freeze_authority, &authority) || !check_signature(signers, &authority, signing) {
                    return false;
                }
                self.holdings.insert(account, HoldingAccount { is_frozen: false, ..holding });
                true
            },
        }
    }

    /// Makes `calls` in order, all or none: where the module rejects one,
    /// nothing has changed.
    pub fn run(&mut self, signers: &Signers, calls: &Vec<TokenCall>) -> (accepted: bool)
        requires
            old(self).wf(),
        ensures
            final(self).wf(),
            match run_calls(old(self)@, *signers, calls@) {
                Some(after) => accepted && final(self)@ == after,
                None => !accepted && final(self)@ == old(self)@,
            },
    {
        let mut scratch = self.duplicate();
        let mut i: usize = 0;
        assert(calls@.skip(0) =~= calls@);
        while i < calls.len()
            invariant
                self.wf(),
                scratch.wf(),
                i <= calls@.len(),
                run_calls(self@, *signers, calls@) == run_calls(scratch@, *signers, calls@.skip(i as int)),
            decreases calls@.len() - i,
        {
            let ghost rest = calls@.skip(i as int);
            assert(rest[0] == calls@[i as int]);
            assert(rest.skip(1) =~= calls@.skip(i + 1));
            if !scratch.apply(signers, &calls[i]) {
                return false;
            }
            i += 1;
        }
        assert(calls@.skip(i as int).len() == 0);
        *self = scratch;
        true
    }

    /// Moves `amount` units from `from` to `to` on the caller's word, where
    /// the module lets it, and changes nothing where it does not. A frozen
    /// account neither gives nor takes.
    pub fn transfer(&mut self, signers: &Signers, from: &Address, to: &Address, amount: u64) -> (accepted: bool)
        requires
            old(self).wf(),
        ensures
            final(self).wf(),
            accepted == accepts_transfer(old(self)@, *signers, *from, *to, amount),
            accepted ==> final(self)@ == transfer_effect(old(self)@, *from, *to, amount),
            !accepted ==> final(self)@ == old(self)@,
    {
        let (source, target) = match (self.holdings.get(from), self.holdings.get(to)) {
            (Some(source), Some(target)) => (source, target),
            _ => { return false; },
        };
        if same_address(from, to) || !same_address(&source.mint, &target.mint) {
            return false;
        }
        if source.is_frozen || target.is_frozen || !same_address(&source.owner, &signers.caller) {
            return false;
        }
        if source.amount < amount || amount > u64::MAX - target.amount {
            return false;
        }
        self.holdings.insert(*from, HoldingAccount { amount: source.amount - amount, ..source });
        self.holdings.insert(*to, HoldingAccount { amount: target.amount + amount, ..target });
        true
    }
}

} // verus!

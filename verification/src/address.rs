//! Ledger addresses and the deterministic derivation of program-owned ones.

use vstd::prelude::*;

verus! {

/// A ledger address: 32 bytes.
pub type Address = [u8; 32];

/// The address and bump seed that the ledger derives for `seeds` under
/// `program_id`, or `None` where the seeds have no derived address.
pub uninterp spec fn derived_address(seeds: Seq<Seq<u8>>, program_id: Seq<u8>) -> Option<([u8; 32], u8)>;

/// The seeds as sequences of bytes.
pub open spec fn seeds_view(seeds: Seq<Vec<u8>>) -> Seq<Seq<u8>> {
    Seq::new(seeds.len(), |i: int| seeds[i]@)
}

/// Whether a derivation gave the address `key`, with the bump seed `bump`.
pub open spec fn derives_to(derived: Option<(Address, u8)>, key: Address, bump: u8) -> bool {
    derived == Some((key, bump))
}

/// The bump seed of a derivation that gave the address `key`, or `None`
/// where the derivation gave another address or none.
pub open spec fn bump_to(derived: Option<(Address, u8)>, key: Address) -> Option<u8> {
    match derived {
        Some((address, bump)) => if address == key {
            Some(bump)
        } else {
            None
        },
        None => None,
    }
}

/// Finds the bump seed of a derivation that gave the address `key`.
pub fn check_derivation(derived: &Option<(Address, u8)>, key: &Address) -> (bump: Option<u8>)
    ensures
        bump == bump_to(*derived, *key),
        bump matches Some(found) ==> derives_to(*derived, *key, found),
{
    match derived {
        Some((address, bump)) => if same_address(address, key) {
            Some(*bump)
        } else {
            None
        },
        None => None,
    }
}

/// Calls `Pubkey::try_find_program_address` of anchor_lang. The search it makes
/// (hashing the seeds with a bump seed and the program's address until the
/// digest is no curve point) is not restated here: the contract only names its
/// result, which depends on the seeds and the program's address alone.
#[verifier::external_body]
pub(crate) fn find_derived_address(seeds: &Vec<Vec<u8>>, program_id: &Address) -> (found: Option<(Address, u8)>)
    ensures
        found == derived_address(seeds_view(seeds@), program_id@),
{
    let parts: Vec<&[u8]> = seeds.iter().map(|seed| seed.as_slice()).collect();
    let program = anchor_lang::prelude::Pubkey::new_from_array(*program_id);
    anchor_lang::prelude::Pubkey::try_find_program_address(&parts, &program)
        .map(|(address, bump)| (address.to_bytes(), bump))
}

/// Whether two addresses hold the same bytes.
pub fn same_address(a: &Address, b: &Address) -> (same: bool)
    ensures
        same == (*a == *b),
{
    let mut i: usize = 0;
    while i < 32
        invariant
            i <= 32,
            forall|j: int| 0 <= j < i ==> a@[j] == b@[j],
        decreases 32 - i,
    {
        if a[i] != b[i] {
            return false;
        }
        i += 1;
    }
    assert(*a =~= *b);
    true
}

/// The bytes of an address, as a seed.
fn address_seed(address: &Address) -> (seed: Vec<u8>)
    ensures
        seed@ == address@,
{
    let mut seed: Vec<u8> = Vec::new();
    let mut i: usize = 0;
    while i < 32
        invariant
            i <= 32,
            seed@.len() == i,
            forall|j: int| 0 <= j < i ==> seed@[j] == address@[j],
        decreases 32 - i,
    {
        seed.push(address[i]);
        i += 1;
    }
    assert(seed@ =~= address@);
    seed
}

/// The seed of the protocol authority: the bytes of the word "signer".
pub open spec fn signer_seed() -> Seq<u8> {
    seq![115u8, 105u8, 103u8, 110u8, 101u8, 114u8]
}

/// The seed of the protocol authority, as bytes to derive and to sign with.
pub fn signer_seed_bytes() -> (seed: Vec<u8>)
    ensures
        seed@ == signer_seed(),
{
    let mut seed: Vec<u8> = Vec::new();
    seed.push(115u8);
    seed.push(105u8);
    seed.push(103u8);
    seed.push(110u8);
    seed.push(101u8);
    seed.push(114u8);
    assert(seed@ =~= signer_seed());
    seed
}

/// The seeds of a lock record: its owner, the holding account, the asset and
/// the protocol authority, in this order.
pub open spec fn lock_seeds(owner: Address, nft_account: Address, nft_mint: Address, signer: Address) -> Seq<Seq<u8>> {
    seq![owner@, nft_account@, nft_mint@, signer@]
}

/// The seeds of a lock record, as bytes to derive and to sign with.
pub fn lock_seed_bytes(owner: &Address, nft_account: &Address, nft_mint: &Address, signer: &Address) -> (seeds: Vec<
    Vec<u8>,
>)
    ensures
        seeds_view(seeds@) == lock_seeds(*owner, *nft_account, *nft_mint, *signer),
{
    let mut seeds: Vec<Vec<u8>> = Vec::new();
    seeds.push(address_seed(owner));
    seeds.push(address_seed(nft_account));
    seeds.push(address_seed(nft_mint));
    seeds.push(address_seed(signer));
    assert(seeds_view(seeds@) =~= lock_seeds(*owner, *nft_account, *nft_mint, *signer));
    seeds
}

/// Derives the address of the protocol authority of the program `program_id`.
pub fn signer_address(program_id: &Address) -> (found: Option<(Address, u8)>)
    ensures
        found == derived_address(seq![signer_seed()], program_id@),
{
    let mut seeds: Vec<Vec<u8>> = Vec::new();
    seeds.push(signer_seed_bytes());
    proof {
        assert(seeds_view(seeds@) =~= seq![signer_seed()]);
    }
    find_derived_address(&seeds, program_id)
}

/// Derives the address of the lock record that `owner` may create for the
/// asset `nft_mint` held in `nft_account`, under the authority `signer`.
pub fn locked_account_address(
    program_id: &Address,
    owner: &Address,
    nft_account: &Address,
    nft_mint: &Address,
    signer: &Address,
) -> (found: Option<(Address, u8)>)
    ensures
        found == derived_address(lock_seeds(*owner, *nft_account, *nft_mint, *signer), program_id@),
{
    let seeds = lock_seed_bytes(owner, nft_account, nft_mint, signer);
    find_derived_address(&seeds, program_id)
}

} // verus!

use anchor_lang::prelude::Pubkey;
use nft_stake::address::{
    check_derivation, lock_seed_bytes, locked_account_address, same_address, signer_address, signer_seed_bytes,
};

fn address(tag: u8) -> [u8; 32] {
    [tag; 32]
}

#[test]
fn same_address_compares_every_byte() {
    let a = address(7);
    let mut b = address(7);
    assert!(same_address(&a, &b));
    b[31] = 8;
    assert!(!same_address(&a, &b));
    b[31] = 7;
    b[0] = 0;
    assert!(!same_address(&a, &b));
}

#[test]
fn signer_address_is_the_program_address_of_the_signer_seed() {
    let program_id = address(1);
    let (expected, bump) = Pubkey::find_program_address(&[b"signer"], &Pubkey::new_from_array(program_id));
    assert_eq!(signer_address(&program_id), Some((expected.to_bytes(), bump)));
}

#[test]
fn signer_address_is_not_the_program_id() {
    let program_id = address(1);
    let (derived, _) = signer_address(&program_id).unwrap();
    assert_ne!(derived, program_id);
}

#[test]
fn signer_address_depends_on_the_program() {
    let first = signer_address(&address(1)).unwrap();
    let second = signer_address(&address(2)).unwrap();
    assert_ne!(first.0, second.0);
}

#[test]
fn derivation_is_repeatable() {
    let program_id = address(3);
    assert_eq!(signer_address(&program_id), signer_address(&program_id));
    let first = locked_account_address(&program_id, &address(10), &address(11), &address(12), &address(13));
    let second = locked_account_address(&program_id, &address(10), &address(11), &address(12), &address(13));
    assert_eq!(first, second);
}

#[test]
fn locked_account_address_is_the_program_address_of_the_four_keys() {
    let program_id = address(1);
    let owner = address(10);
    let holding = address(11);
    let mint = address(12);
    let signer = address(13);
    let (expected, bump) = Pubkey::find_program_address(
        &[&owner[..], &holding[..], &mint[..], &signer[..]],
        &Pubkey::new_from_array(program_id),
    );
    assert_eq!(
        locked_account_address(&program_id, &owner, &holding, &mint, &signer),
        Some((expected.to_bytes(), bump))
    );
}

#[test]
fn locked_account_address_tells_owners_apart() {
    let program_id = address(1);
    let first = locked_account_address(&program_id, &address(10), &address(11), &address(12), &address(13)).unwrap();
    let second = locked_account_address(&program_id, &address(20), &address(11), &address(12), &address(13)).unwrap();
    assert_ne!(first.0, second.0);
}

#[test]
fn locked_account_address_keeps_the_order_of_its_seeds() {
    let program_id = address(1);
    let first = locked_account_address(&program_id, &address(10), &address(11), &address(12), &address(13)).unwrap();
    let second = locked_account_address(&program_id, &address(10), &address(12), &address(11), &address(13)).unwrap();
    assert_ne!(first.0, second.0);
}

#[test]
fn signer_seed_is_the_word_signer() {
    assert_eq!(signer_seed_bytes(), b"signer".to_vec());
}

#[test]
fn derivation_gives_its_bump_for_its_address_only() {
    let derived = Some((address(5), 250));
    assert_eq!(check_derivation(&derived, &address(5)), Some(250));
    assert_eq!(check_derivation(&derived, &address(6)), None);
    assert_eq!(check_derivation(&None, &address(5)), None);
}

#[test]
fn lock_seeds_are_the_four_addresses_in_order() {
    assert_eq!(
        lock_seed_bytes(&address(1), &address(2), &address(3), &address(4)),
        vec![vec![1u8; 32], vec![2u8; 32], vec![3u8; 32], vec![4u8; 32]]
    );
}

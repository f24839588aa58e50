use anchor_lang::prelude::Pubkey;
use std::str::FromStr;
use token_minter::address::{derive_account_address, derive_mint_address};
use token_minter::{Address, Deployment};

fn program_id() -> Pubkey {
    Pubkey::from_str("CqBx2Ce1MijhXcASX7rsb9knaPhmPe2N5HWYVaQVR8zt").unwrap()
}

fn deployment() -> Deployment {
    Deployment {
        program_id: Address::new(program_id().to_bytes()),
        token_program: Address::new(anchor_spl::token::ID.to_bytes()),
        associated_token_program: Address::new(anchor_spl::associated_token::ID.to_bytes()),
    }
}

#[test]
fn mint_address_is_the_program_address_of_the_mint_seed() {
    let (expected, bump) = Pubkey::find_program_address(&[b"mint"], &program_id());
    let derived = derive_mint_address(&deployment().program_id);
    assert_eq!(derived, Some((Address::new(expected.to_bytes()), bump)));
}

#[test]
fn mint_address_differs_from_the_program_and_between_programs() {
    let first = derive_mint_address(&deployment().program_id).unwrap();
    assert_ne!(first.0, deployment().program_id);
    let second = derive_mint_address(&Address::new([9; 32])).unwrap();
    assert_ne!(first.0, second.0);
    let expected = Pubkey::find_program_address(&[b"mint"], &Pubkey::new_from_array([9; 32]));
    assert_eq!(second, (Address::new(expected.0.to_bytes()), expected.1));
}

#[test]
fn mint_address_is_the_same_every_time() {
    let first = derive_mint_address(&deployment().program_id);
    let second = derive_mint_address(&deployment().program_id);
    assert_eq!(first, second);
}

#[test]
fn account_address_is_the_associated_token_address() {
    let owner = Pubkey::new_from_array([3; 32]);
    let mint = Pubkey::find_program_address(&[b"mint"], &program_id()).0;
    let expected = anchor_spl::associated_token::get_associated_token_address(&owner, &mint);
    let derived = derive_account_address(
        &deployment(),
        &Address::new(mint.to_bytes()),
        &Address::new(owner.to_bytes()),
    );
    assert_eq!(derived, Some(Address::new(expected.to_bytes())));
}

#[test]
fn account_address_depends_on_owner_and_mint() {
    let d = deployment();
    let mint = Address::new([1; 32]);
    let other_mint = Address::new([2; 32]);
    let owner = Address::new([3; 32]);
    let other_owner = Address::new([4; 32]);
    let base = derive_account_address(&d, &mint, &owner).unwrap();
    assert_ne!(base, owner);
    assert_ne!(base, mint);
    assert_ne!(base, derive_account_address(&d, &mint, &other_owner).unwrap());
    assert_ne!(base, derive_account_address(&d, &other_mint, &owner).unwrap());
    assert_ne!(base, derive_account_address(&d, &owner, &mint).unwrap());
    assert_eq!(base, derive_account_address(&d, &mint, &owner).unwrap());
}

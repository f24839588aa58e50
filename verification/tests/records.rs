use token_minter::auth::{authorize_mint, authorize_owner};
use token_minter::{Address, CustomError, Mint, TokenAccount};

fn key(n: u8) -> Address {
    Address::new([n; 32])
}

#[test]
fn addresses_compare_by_bytes() {
    let mut bytes = [7u8; 32];
    assert_eq!(Address::new(bytes), key(7));
    bytes[31] = 8;
    assert_ne!(Address::new(bytes), key(7));
    bytes[31] = 7;
    bytes[0] = 0;
    assert_ne!(Address::new(bytes), key(7));
}

#[test]
fn address_to_vec_keeps_the_bytes() {
    let mut bytes = [0u8; 32];
    for (i, b) in bytes.iter_mut().enumerate() {
        *b = i as u8;
    }
    let seed = Address::new(bytes).to_vec();
    assert_eq!(seed.len(), 32);
    assert_eq!(seed, bytes.to_vec());
}

#[test]
fn new_mint_has_no_supply_and_is_its_own_authority() {
    let mint = Mint::new(key(1), 9, key(2));
    assert_eq!(mint.address, key(1));
    assert_eq!(mint.mint_authority, key(1));
    assert_eq!(mint.decimals, 9);
    assert_eq!(mint.supply, 0);
    assert_eq!(mint.metadata_ref, key(2));
}

#[test]
fn record_mint_adds_to_the_supply() {
    let mut mint = Mint::new(key(1), 6, key(2));
    assert_eq!(mint.record_mint(250), Ok(()));
    assert_eq!(mint.supply, 250);
    assert_eq!(mint.record_mint(u64::MAX - 250), Ok(()));
    assert_eq!(mint.supply, u64::MAX);
}

#[test]
fn record_mint_refuses_overflow() {
    let mut mint = Mint::new(key(1), 6, key(2));
    assert_eq!(mint.record_mint(1), Ok(()));
    let before = mint;
    assert_eq!(mint.record_mint(u64::MAX), Err(CustomError::Overflow));
    assert_eq!(mint, before);
}

#[test]
fn record_burn_takes_from_the_supply() {
    let mut mint = Mint::new(key(1), 6, key(2));
    assert_eq!(mint.record_mint(100), Ok(()));
    assert_eq!(mint.record_burn(40), Ok(()));
    assert_eq!(mint.supply, 60);
    assert_eq!(mint.record_burn(60), Ok(()));
    assert_eq!(mint.supply, 0);
}

#[test]
fn record_burn_refuses_underflow() {
    let mut mint = Mint::new(key(1), 6, key(2));
    assert_eq!(mint.record_mint(10), Ok(()));
    let before = mint;
    assert_eq!(mint.record_burn(11), Err(CustomError::Underflow));
    assert_eq!(mint, before);
}

#[test]
fn new_account_is_empty_and_undelegated() {
    let account = TokenAccount::new(key(3), key(1), key(4));
    assert_eq!(account.address, key(3));
    assert_eq!(account.mint, key(1));
    assert_eq!(account.owner, key(4));
    assert_eq!(account.amount, 0);
    assert_eq!(account.delegate, None);
    assert_eq!(account.delegated_amount, 0);
}

#[test]
fn credit_adds_to_the_balance() {
    let mut account = TokenAccount::new(key(3), key(1), key(4));
    assert_eq!(account.credit(5), Ok(()));
    assert_eq!(account.credit(7), Ok(()));
    assert_eq!(account.amount, 12);
}

#[test]
fn credit_refuses_overflow() {
    let mut account = TokenAccount::new(key(3), key(1), key(4));
    assert_eq!(account.credit(u64::MAX), Ok(()));
    let before = account;
    assert_eq!(account.credit(1), Err(CustomError::Overflow));
    assert_eq!(account, before);
}

#[test]
fn debit_takes_from_the_balance() {
    let mut account = TokenAccount::new(key(3), key(1), key(4));
    assert_eq!(account.credit(100), Ok(()));
    assert_eq!(account.debit(30), Ok(()));
    assert_eq!(account.amount, 70);
    assert_eq!(account.debit(70), Ok(()));
    assert_eq!(account.amount, 0);
}

#[test]
fn debit_refuses_more_than_the_balance() {
    let mut account = TokenAccount::new(key(3), key(1), key(4));
    assert_eq!(account.credit(100), Ok(()));
    let before = account;
    assert_eq!(account.debit(101), Err(CustomError::InsufficientFunds));
    assert_eq!(account, before);
}

#[test]
fn set_delegate_overwrites_and_ignores_the_balance() {
    let mut account = TokenAccount::new(key(3), key(1), key(4));
    assert_eq!(account.credit(10), Ok(()));
    account.set_delegate(key(5), 1_000);
    assert_eq!(account.delegate, Some(key(5)));
    assert_eq!(account.delegated_amount, 1_000);
    assert_eq!(account.amount, 10);
    account.set_delegate(key(6), 0);
    assert_eq!(account.delegate, Some(key(6)));
    assert_eq!(account.delegated_amount, 0);
    assert_eq!(account.owner, key(4));
}

#[test]
fn only_the_mint_itself_may_mint() {
    let mint = Mint::new(key(1), 6, key(2));
    assert_eq!(authorize_mint(&mint, &key(1)), Ok(()));
    assert_eq!(authorize_mint(&mint, &key(2)), Err(CustomError::Unauthorized));
}

#[test]
fn only_the_owner_may_spend() {
    let account = TokenAccount::new(key(3), key(1), key(4));
    assert_eq!(authorize_owner(&account, &key(4)), Ok(()));
    assert_eq!(authorize_owner(&account, &key(3)), Err(CustomError::Unauthorized));
}

#[test]
fn every_error_has_its_message() {
    assert_eq!(CustomError::InsufficientFunds.message(), "Insufficient funds");
    assert_eq!(CustomError::AlreadyExists.message(), "Already exists");
    assert_eq!(CustomError::Overflow.message(), "Overflow");
    assert_eq!(CustomError::Underflow.message(), "Underflow");
    assert_eq!(CustomError::Unauthorized.message(), "Unauthorized");
    assert_eq!(CustomError::NotFound.message(), "Not found");
}

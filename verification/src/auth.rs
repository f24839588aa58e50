use crate::account::{AccountView, TokenAccount};
use crate::address::Address;
use crate::error::CustomError;
use crate::mint::{Mint, MintView};
use vstd::prelude::*;

verus! {

/// Whether `signer` may mint tokens of `mint`.
pub open spec fn may_mint(mint: MintView, signer: Seq<u8>) -> bool {
    signer == mint.mint_authority
}

/// Whether `signer` may transfer from, burn from or delegate `account`.
pub open spec fn may_spend(account: AccountView, signer: Seq<u8>) -> bool {
    signer == account.owner
}

/// Approves minting only for the token type's own authority.
pub fn authorize_mint(mint: &Mint, signer: &Address) -> (approved: Result<(), CustomError>)
    ensures
        may_mint(mint@, signer@) ==> approved == Ok::<(), CustomError>(()),
        !may_mint(mint@, signer@) ==> approved == Err::<(), CustomError>(
            CustomError::Unauthorized,
        ),
{
    if *signer == mint.mint_authority {
        Ok(())
    } else {
        Err(CustomError::Unauthorized)
    }
}

/// Approves a transfer, a burn or a delegation only for the account's owner.
pub fn authorize_owner(account: &TokenAccount, signer: &Address) -> (approved: Result<
    (),
    CustomError,
>)
    ensures
        may_spend(account@, signer@) ==> approved == Ok::<(), CustomError>(()),
        !may_spend(account@, signer@) ==> approved == Err::<(), CustomError>(
            CustomError::Unauthorized,
        ),
{
    if *signer == account.owner {
        Ok(())
    } else {
        Err(CustomError::Unauthorized)
    }
}

} // verus!

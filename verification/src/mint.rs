use crate::address::Address;
use crate::error::CustomError;
use vstd::prelude::*;

verus! {

/// One token type and its global supply.
#[derive(Clone, Copy, Debug, PartialEq, Eq)]
pub struct Mint {
    /// Where the record lives; derived from the deployment, so there is one.
    pub address: Address,
    /// Number of decimal places; fixed at creation.
    pub decimals: u8,
    /// The identity that may mint: the record's own address.
    pub mint_authority: Address,
    /// Tokens in existence.
    pub supply: u64,
    /// Where the descriptive record (name, symbol, uri) is kept.
    pub metadata_ref: Address,
}

/// Mathematical value of a `Mint`.
pub struct MintView {
    pub address: Seq<u8>,
    pub decimals: u8,
    pub mint_authority: Seq<u8>,
    pub supply: u64,
    pub metadata_ref: Seq<u8>,
}

impl View for Mint {
    type V = MintView;

    open spec fn view(&self) -> MintView {
        MintView {
            address: self.address@,
            decimals: self.decimals,
            mint_authority: self.mint_authority@,
            supply: self.supply,
            metadata_ref: self.metadata_ref@,
        }
    }
}

impl MintView {
    /// The record as it is created: nothing minted yet, and the record's own
    /// address as its minting authority.
    pub open spec fn created(address: Seq<u8>, decimals: u8, metadata_ref: Seq<u8>) -> MintView {
        MintView { address, decimals, mint_authority: address, supply: 0, metadata_ref }
    }

    /// A token type is its own minting authority.
    pub open spec fn wf(self) -> bool {
        self.mint_authority == self.address
    }

    /// The record with another supply and all else as before.
    pub open spec fn with_supply(self, supply: u64) -> MintView {
        MintView { supply, ..self }
    }
}

impl Mint {
    /// A new token type at `address` with no supply.
    pub fn new(address: Address, decimals: u8, metadata_ref: Address) -> (mint: Mint)
        ensures
            mint@ == MintView::created(address@, decimals, metadata_ref@),
            mint@.wf(),
    {
        Mint { address, decimals, mint_authority: address, supply: 0, metadata_ref }
    }

    /// Adds `amount` to the supply, unless the sum leaves the 64-bit range.
    pub fn record_mint(&mut self, amount: u64) -> (done: Result<(), CustomError>)
        ensures
            old(self).supply + amount <= u64::MAX ==> done == Ok::<(), CustomError>(())
                && final(self)@ == old(self)@.with_supply((old(self).supply + amount) as u64),
            old(self).supply + amount > u64::MAX ==> done == Err::<(), CustomError>(
                CustomError::Overflow,
            ) && *final(self) == *old(self),
    {
        match self.supply.checked_add(amount) {
            Some(supply) => {
                self.supply = supply;
                Ok(())
            },
            None => Err(CustomError::Overflow),
        }
    }

    /// Takes `amount` from the supply, unless the supply is smaller.
    pub fn record_burn(&mut self, amount: u64) -> (done: Result<(), CustomError>)
        ensures
            amount <= old(self).supply ==> done == Ok::<(), CustomError>(()) && final(self)@
                == old(self)@.with_supply((old(self).supply - amount) as u64),
            amount > old(self).supply ==> done == Err::<(), CustomError>(CustomError::Underflow)
                && *final(self) == *old(self),
    {
        if amount > self.supply {
            return Err(CustomError::Underflow);
        }
        self.supply = self.supply - amount;
        Ok(())
    }
}

} // verus!

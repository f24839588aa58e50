use crate::address::{address_view, Address};
use crate::error::CustomError;
use vstd::prelude::*;

verus! {

/// One holder's balance of one token type.
#[derive(Clone, Copy, Debug, PartialEq, Eq)]
pub struct TokenAccount {
    /// Where the record lives; derived from `mint` and `owner`.
    pub address: Address,
    /// The token type that the balance is denominated in.
    pub mint: Address,
    /// The identity that may transfer and burn from the account.
    pub owner: Address,
    /// The balance.
    pub amount: u64,
    /// An identity allowed to spend part of the balance, if any.
    pub delegate: Option<Address>,
    /// How much the delegate may spend; zero when there is no delegate.
    pub delegated_amount: u64,
}

/// Mathematical value of a `TokenAccount`.
pub struct AccountView {
    pub address: Seq<u8>,
    pub mint: Seq<u8>,
    pub owner: Seq<u8>,
    pub amount: u64,
    pub delegate: Option<Seq<u8>>,
    pub delegated_amount: u64,
}

impl View for TokenAccount {
    type V = AccountView;

    open spec fn view(&self) -> AccountView {
        AccountView {
            address: self.address@,
            mint: self.mint@,
            owner: self.owner@,
            amount: self.amount,
            delegate: address_view(self.delegate),
            delegated_amount: self.delegated_amount,
        }
    }
}

impl AccountView {
    /// The account as it is created: empty, with no delegate.
    pub open spec fn opened(address: Seq<u8>, mint: Seq<u8>, owner: Seq<u8>) -> AccountView {
        AccountView { address, mint, owner, amount: 0, delegate: None, delegated_amount: 0 }
    }

    /// Without a delegate nothing is delegated.
    pub open spec fn wf(self) -> bool {
        self.delegate is None ==> self.delegated_amount == 0
    }

    /// The account with another balance and all else as before.
    pub open spec fn with_amount(self, amount: u64) -> AccountView {
        AccountView { amount, ..self }
    }

    /// The account after `amount` has been paid in.
    pub open spec fn credited(self, amount: u64) -> AccountView
        recommends
            self.amount + amount <= u64::MAX,
    {
        self.with_amount((self.amount + amount) as u64)
    }

    /// The account after `amount` has been paid out.
    pub open spec fn debited(self, amount: u64) -> AccountView
        recommends
            amount <= self.amount,
    {
        self.with_amount((self.amount - amount) as u64)
    }

    /// The account after `delegate` has been allowed to spend `amount`.
    pub open spec fn delegated(self, delegate: Seq<u8>, amount: u64) -> AccountView {
        AccountView { delegate: Some(delegate), delegated_amount: amount, ..self }
    }
}

impl TokenAccount {
    /// A new, empty account of `owner` for the token type `mint`.
    pub fn new(address: Address, mint: Address, owner: Address) -> (account: TokenAccount)
        ensures
            account@ == AccountView::opened(address@, mint@, owner@),
            account@.wf(),
    {
        TokenAccount { address, mint, owner, amount: 0, delegate: None, delegated_amount: 0 }
    }

    /// Adds `amount` to the balance, unless the sum leaves the 64-bit range.
    pub fn credit(&mut self, amount: u64) -> (done: Result<(), CustomError>)
        ensures
            old(self).amount + amount <= u64::MAX ==> done == Ok::<(), CustomError>(())
                && final(self)@ == old(self)@.credited(amount),
            old(self).amount + amount > u64::MAX ==> done == Err::<(), CustomError>(
                CustomError::Overflow,
            ) && *final(self) == *old(self),
    {
        match self.amount.checked_add(amount) {
            Some(balance) => {
                self.amount = balance;
                Ok(())
            },
            None => Err(CustomError::Overflow),
        }
    }

    /// Takes `amount` from the balance, unless the balance is smaller.
    pub fn debit(&mut self, amount: u64) -> (done: Result<(), CustomError>)
        ensures
            amount <= old(self).amount ==> done == Ok::<(), CustomError>(()) && final(self)@
                == old(self)@.debited(amount),
            amount > old(self).amount ==> done == Err::<(), CustomError>(
                CustomError::InsufficientFunds,
            ) && *final(self) == *old(self),
    {
        if amount > self.amount {
            return Err(CustomError::InsufficientFunds);
        }
        self.amount = self.amount - amount;
        Ok(())
    }

    /// Lets `delegate` spend `amount` from the account, replacing any earlier
    /// delegate. The amount is not held against the balance.
    pub fn set_delegate(&mut self, delegate: Address, amount: u64)
        ensures
            final(self)@ == old(self)@.delegated(delegate@, amount),
            final(self)@.wf(),
    {
        self.delegate = Some(delegate);
        self.delegated_amount = amount;
    }
}

} // verus!

use crate::account::{AccountView, TokenAccount};
use crate::address::{Address, Deployment};
use crate::mint::{Mint, MintView};
use crate::model::{lemma_index_of, lemma_total_prefix, total_balance, LedgerView};
use vstd::prelude::*;

verus! {

/// The records of one deployment: its token type, once created, and the
/// holder accounts. Only the operations of this library change it, and each
/// leaves it well formed.
#[derive(Debug)]
pub struct Ledger {
    deployment: Deployment,
    mint: Option<Mint>,
    accounts: Vec<TokenAccount>,
}

/// Mathematical value of an optional token type.
pub open spec fn mint_view(mint: Option<Mint>) -> Option<MintView> {
    match mint {
        Some(m) => Some(m@),
        None => None,
    }
}

/// Mathematical value of an optional account.
pub open spec fn account_view(account: Option<TokenAccount>) -> Option<AccountView> {
    match account {
        Some(a) => Some(a@),
        None => None,
    }
}

/// Mathematical values of a run of accounts.
pub open spec fn accounts_view(accounts: Seq<TokenAccount>) -> Seq<AccountView> {
    Seq::new(accounts.len(), |i: int| accounts[i]@)
}

impl View for Ledger {
    type V = LedgerView;

    closed spec fn view(&self) -> LedgerView {
        LedgerView {
            deployment: self.deployment@,
            mint: mint_view(self.mint),
            accounts: accounts_view(self.accounts@),
        }
    }
}

impl Ledger {
    /// What holds of every ledger between operations: addresses are unique,
    /// every account is of the ledger's token type, and the balances add up
    /// to the supply.
    pub open spec fn wf(&self) -> bool {
        self@.wf()
    }

    /// The ledger of a fresh deployment.
    pub fn new(deployment: Deployment) -> (ledger: Ledger)
        ensures
            ledger@ == LedgerView::empty(deployment@),
            ledger.wf(),
    {
        let ledger = Ledger { deployment, mint: None, accounts: Vec::new() };
        assert(ledger@.accounts =~= Seq::empty());
        ledger
    }

    /// The programs that the ledger is bound to.
    pub fn deployment(&self) -> (deployment: Deployment)
        ensures
            deployment@ == self@.deployment,
    {
        self.deployment
    }

    /// The token type, if it has been created.
    pub fn mint(&self) -> (mint: Option<Mint>)
        ensures
            mint_view(mint) == self@.mint,
    {
        self.mint
    }

    /// How many holder accounts there are.
    pub fn account_count(&self) -> (count: usize)
        ensures
            count == self@.accounts.len(),
    {
        self.accounts.len()
    }

    /// The account at `address`, if there is one.
    pub fn account(&self, address: &Address) -> (found: Option<TokenAccount>)
        requires
            self.wf(),
        ensures
            found is Some == self@.holds(address@),
            found matches Some(account) ==> account@ == self@.account(address@),
    {
        match self.position(address) {
            Some(i) => {
                proof {
                    lemma_index_of(self@, address@, i as int);
                }
                Some(self.accounts[i])
            },
            None => None,
        }
    }

    /// The sum of all balances; by well-formedness, the supply.
    pub fn total_balance(&self) -> (total: u64)
        requires
            self.wf(),
        ensures
            total == total_balance(self@.accounts),
            self@.mint matches Some(mint) ==> total == mint.supply,
    {
        let mut total: u64 = 0;
        let mut i: usize = 0;
        assert(self@.accounts.take(0) =~= Seq::empty());
        while i < self.accounts.len()
            invariant
                i <= self.accounts@.len(),
                self@.accounts.len() == self.accounts@.len(),
                total == total_balance(self@.accounts.take(i as int)),
                total_balance(self@.accounts) <= u64::MAX,
            decreases self.accounts@.len() - i,
        {
            proof {
                lemma_total_prefix(self@.accounts, i + 1);
                assert(self@.accounts.take(i + 1).drop_last() =~= self@.accounts.take(i as int));
            }
            total = total + self.accounts[i].amount;
            i += 1;
        }
        assert(self@.accounts.take(i as int) =~= self@.accounts);
        total
    }

    /// Where the account at `address` stands, if there is one.
    pub(crate) fn position(&self, address: &Address) -> (found: Option<usize>)
        ensures
            found is Some == self@.holds(address@),
            found matches Some(i) ==> i < self@.accounts.len() && self@.accounts[i as int].address
                == address@,
    {
        let mut i: usize = 0;
        while i < self.accounts.len()
            invariant
                i <= self.accounts@.len(),
                forall|k: int| 0 <= k < i ==> (#[trigger] self@.accounts[k]).address != address@,
            decreases self.accounts@.len() - i,
        {
            if self.accounts[i].address == *address {
                assert(self@.accounts[i as int].address == address@);
                return Some(i);
            }
            i += 1;
        }
        None
    }

    /// The account at position `i`.
    pub(crate) fn record(&self, i: usize) -> (account: TokenAccount)
        requires
            i < self@.accounts.len(),
        ensures
            account@ == self@.accounts[i as int],
    {
        self.accounts[i]
    }

    /// Replaces the account at position `i`.
    pub(crate) fn put_record(&mut self, i: usize, account: TokenAccount)
        requires
            i < old(self)@.accounts.len(),
        ensures
            final(self)@ == old(self)@.with_accounts(
                old(self)@.accounts.update(i as int, account@),
            ),
    {
        self.accounts.set(i, account);
        assert(self@.accounts =~= old(self)@.accounts.update(i as int, account@));
    }

    /// Appends an account.
    pub(crate) fn add_record(&mut self, account: TokenAccount)
        ensures
            final(self)@ == old(self)@.with_accounts(old(self)@.accounts.push(account@)),
    {
        self.accounts.push(account);
        assert(self@.accounts =~= old(self)@.accounts.push(account@));
    }

    /// Sets the token type.
    pub(crate) fn put_mint(&mut self, mint: Mint)
        ensures
            final(self)@ == old(self)@.with_mint(mint@),
    {
        self.mint = Some(mint);
    }
}

} // verus!

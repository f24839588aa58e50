use crate::account::AccountView;
use crate::address::DeploymentView;
use crate::auth::{may_mint, may_spend};
use crate::error::CustomError;
use crate::mint::MintView;
use vstd::prelude::*;

verus! {

/// Mathematical value of a ledger: the deployment it belongs to, its token
/// type once created, and the holder accounts in the order of their creation.
pub struct LedgerView {
    pub deployment: DeploymentView,
    pub mint: Option<MintView>,
    pub accounts: Seq<AccountView>,
}

/// Sum of the balances of `accounts`.
pub open spec fn total_balance(accounts: Seq<AccountView>) -> nat
    decreases accounts.len(),
{
    if accounts.len() == 0 {
        0
    } else {
        total_balance(accounts.drop_last()) + accounts.last().amount as nat
    }
}

impl LedgerView {
    /// The ledger of a fresh deployment: no token type, no accounts.
    pub open spec fn empty(deployment: DeploymentView) -> LedgerView {
        LedgerView { deployment, mint: None, accounts: Seq::empty() }
    }

    /// Whether there is an account at `address`.
    pub open spec fn holds(self, address: Seq<u8>) -> bool {
        exists|i: int|
            0 <= i < self.accounts.len() && (#[trigger] self.accounts[i]).address == address
    }

    /// Where the account at `address` stands among the accounts.
    pub open spec fn index_of(self, address: Seq<u8>) -> int {
        choose|i: int|
            0 <= i < self.accounts.len() && (#[trigger] self.accounts[i]).address == address
    }

    /// The account at `address`.
    pub open spec fn account(self, address: Seq<u8>) -> AccountView {
        self.accounts[self.index_of(address)]
    }

    /// No two accounts share an address.
    pub open spec fn distinct(self) -> bool {
        forall|i: int, j: int|
            0 <= i < j < self.accounts.len() ==> (#[trigger] self.accounts[i]).address != (
            #[trigger] self.accounts[j]).address
    }

    /// The balances add up to the supply; without a token type there is
    /// nothing to hold.
    pub open spec fn balanced(self) -> bool {
        match self.mint {
            Some(mint) => total_balance(self.accounts) == mint.supply,
            None => self.accounts.len() == 0,
        }
    }

    /// What holds of every ledger between operations.
    pub open spec fn wf(self) -> bool {
        &&& self.distinct()
        &&& self.balanced()
        &&& forall|i: int| 0 <= i < self.accounts.len() ==> (#[trigger] self.accounts[i]).wf()
        &&& self.mint matches Some(mint) ==> mint.wf() && forall|i: int|
            0 <= i < self.accounts.len() ==> (#[trigger] self.accounts[i]).mint == mint.address
    }

    /// The ledger with `mint` as its token type.
    pub open spec fn with_mint(self, mint: MintView) -> LedgerView {
        LedgerView { mint: Some(mint), ..self }
    }

    /// The ledger with other accounts.
    pub open spec fn with_accounts(self, accounts: Seq<AccountView>) -> LedgerView {
        LedgerView { accounts, ..self }
    }
}

/// Appending an account adds its balance to the total.
pub proof fn lemma_total_push(accounts: Seq<AccountView>, account: AccountView)
    ensures
        total_balance(accounts.push(account)) == total_balance(accounts) + account.amount,
{
    assert(accounts.push(account).drop_last() =~= accounts);
}

/// Replacing an account changes the total by the difference of the balances.
pub proof fn lemma_total_update(accounts: Seq<AccountView>, i: int, account: AccountView)
    requires
        0 <= i < accounts.len(),
    ensures
        total_balance(accounts.update(i, account)) == total_balance(accounts) - accounts[i].amount
            + account.amount,
    decreases accounts.len(),
{
    let updated = accounts.update(i, account);
    if i == accounts.len() - 1 {
        assert(updated.drop_last() =~= accounts.drop_last());
    } else {
        lemma_total_update(accounts.drop_last(), i, account);
        assert(updated.drop_last() =~= accounts.drop_last().update(i, account));
    }
}

/// No balance exceeds the total.
pub proof fn lemma_total_covers(accounts: Seq<AccountView>, i: int)
    requires
        0 <= i < accounts.len(),
    ensures
        accounts[i].amount <= total_balance(accounts),
    decreases accounts.len(),
{
    if i < accounts.len() - 1 {
        lemma_total_covers(accounts.drop_last(), i);
    }
}

/// The first `n` balances do not exceed the total.
pub proof fn lemma_total_prefix(accounts: Seq<AccountView>, n: int)
    requires
        0 <= n <= accounts.len(),
    ensures
        total_balance(accounts.take(n)) <= total_balance(accounts),
    decreases accounts.len(),
{
    if n == accounts.len() {
        assert(accounts.take(n) =~= accounts);
    } else {
        lemma_total_prefix(accounts.drop_last(), n);
        assert(accounts.drop_last().take(n) =~= accounts.take(n));
    }
}

/// No two balances together exceed the total.
pub proof fn lemma_total_covers_two(accounts: Seq<AccountView>, i: int, j: int)
    requires
        0 <= i < accounts.len(),
        0 <= j < accounts.len(),
        i != j,
    ensures
        accounts[i].amount + accounts[j].amount <= total_balance(accounts),
{
    let emptied = accounts.update(i, accounts[i].with_amount(0));
    lemma_total_update(accounts, i, accounts[i].with_amount(0));
    lemma_total_covers(emptied, j);
}

/// Among distinct accounts an address names one position.
pub proof fn lemma_index_of(ledger: LedgerView, address: Seq<u8>, i: int)
    requires
        ledger.distinct(),
        0 <= i < ledger.accounts.len(),
        ledger.accounts[i].address == address,
    ensures
        ledger.holds(address),
        ledger.index_of(address) == i,
        ledger.account(address) == ledger.accounts[i],
{
    let k = ledger.index_of(address);
    assert(0 <= k < ledger.accounts.len() && ledger.accounts[k].address == address);
    if k < i {
        assert(ledger.accounts[k].address != ledger.accounts[i].address);
    } else if i < k {
        assert(ledger.accounts[i].address != ledger.accounts[k].address);
    }
}

/// An address that the ledger holds has a position, and the account there
/// bears the address.
pub proof fn lemma_holds(ledger: LedgerView, address: Seq<u8>)
    requires
        ledger.holds(address),
    ensures
        0 <= ledger.index_of(address) < ledger.accounts.len(),
        ledger.account(address).address == address,
{
}

/// Replacing an account by one with the same address keeps the addresses
/// distinct and every address where it was.
pub proof fn lemma_replace(ledger: LedgerView, i: int, account: AccountView)
    requires
        ledger.distinct(),
        0 <= i < ledger.accounts.len(),
        account.address == ledger.accounts[i].address,
    ensures
        ledger.with_accounts(ledger.accounts.update(i, account)).distinct(),
        forall|address: Seq<u8>|
            ledger.holds(address) ==> #[trigger] ledger.with_accounts(
                ledger.accounts.update(i, account),
            ).holds(address) && ledger.with_accounts(
                ledger.accounts.update(i, account),
            ).index_of(address) == ledger.index_of(address),
{
    let next = ledger.with_accounts(ledger.accounts.update(i, account));
    assert forall|j: int, k: int| 0 <= j < k < next.accounts.len() implies (
    #[trigger] next.accounts[j]).address != (#[trigger] next.accounts[k]).address by {
        assert(next.accounts[j].address == ledger.accounts[j].address);
        assert(next.accounts[k].address == ledger.accounts[k].address);
    }
    assert forall|address: Seq<u8>| ledger.holds(address) implies #[trigger] next.holds(address)
        && next.index_of(address) == ledger.index_of(address) by {
        let k = ledger.index_of(address);
        assert(next.accounts[k].address == ledger.accounts[k].address);
        lemma_index_of(next, address, k);
    }
}

/// What creating the token type reports: the address and bump seed under
/// which it is created, or why it is not. `derived` is the address derived
/// for the deployment, where there is one.
pub open spec fn init_outcome(ledger: LedgerView, derived: Option<(Seq<u8>, u8)>) -> Result<
    (Seq<u8>, u8),
    CustomError,
> {
    if ledger.mint is Some {
        Err(CustomError::AlreadyExists)
    } else {
        match derived {
            Some(found) => Ok(found),
            None => Err(CustomError::NotFound),
        }
    }
}

/// The ledger after an attempt to create the token type.
pub open spec fn init_next(
    ledger: LedgerView,
    derived: Option<(Seq<u8>, u8)>,
    decimals: u8,
    metadata: Seq<u8>,
) -> LedgerView {
    match init_outcome(ledger, derived) {
        Ok((address, _)) => ledger.with_mint(MintView::created(address, decimals, metadata)),
        Err(_) => ledger,
    }
}

/// What a transfer of `amount` from the account at `from` to the account at
/// `to`, signed by `signer`, reports. The balance is tested before the
/// signer is.
pub open spec fn transfer_outcome(
    ledger: LedgerView,
    from: Seq<u8>,
    to: Seq<u8>,
    signer: Seq<u8>,
    amount: u64,
) -> Result<(), CustomError> {
    if !ledger.holds(from) || !ledger.holds(to) {
        Err(CustomError::NotFound)
    } else if amount > ledger.account(from).amount {
        Err(CustomError::InsufficientFunds)
    } else if !may_spend(ledger.account(from), signer) {
        Err(CustomError::Unauthorized)
    } else {
        Ok(())
    }
}

/// The ledger after an attempt to transfer: `from` pays, then `to` receives.
pub open spec fn transfer_next(
    ledger: LedgerView,
    from: Seq<u8>,
    to: Seq<u8>,
    signer: Seq<u8>,
    amount: u64,
) -> LedgerView {
    if transfer_outcome(ledger, from, to, signer, amount) is Ok {
        let f = ledger.index_of(from);
        let t = ledger.index_of(to);
        let paid = ledger.accounts.update(f, ledger.accounts[f].debited(amount));
        ledger.with_accounts(paid.update(t, paid[t].credited(amount)))
    } else {
        ledger
    }
}

/// What burning `quantity` from the account at `from`, against the token
/// type at `mint` and signed by `signer`, reports.
pub open spec fn burn_outcome(
    ledger: LedgerView,
    from: Seq<u8>,
    mint: Seq<u8>,
    signer: Seq<u8>,
    quantity: u64,
) -> Result<(), CustomError> {
    if !ledger.holds(from) || !(ledger.mint matches Some(m) && m.address == mint) {
        Err(CustomError::NotFound)
    } else if quantity > ledger.account(from).amount {
        Err(CustomError::InsufficientFunds)
    } else if !may_spend(ledger.account(from), signer) {
        Err(CustomError::Unauthorized)
    } else {
        Ok(())
    }
}

/// The ledger after an attempt to burn: account and supply both shrink.
pub open spec fn burn_next(
    ledger: LedgerView,
    from: Seq<u8>,
    mint: Seq<u8>,
    signer: Seq<u8>,
    quantity: u64,
) -> LedgerView {
    if burn_outcome(ledger, from, mint, signer, quantity) is Ok {
        let f = ledger.index_of(from);
        let record = ledger.mint.unwrap();
        ledger.with_accounts(
            ledger.accounts.update(f, ledger.accounts[f].debited(quantity)),
        ).with_mint(record.with_supply((record.supply - quantity) as u64))
    } else {
        ledger
    }
}

/// What letting a delegate spend from the account at `to`, signed by
/// `signer`, reports.
pub open spec fn approve_outcome(ledger: LedgerView, to: Seq<u8>, signer: Seq<u8>) -> Result<
    (),
    CustomError,
> {
    if !ledger.holds(to) {
        Err(CustomError::NotFound)
    } else if !may_spend(ledger.account(to), signer) {
        Err(CustomError::Unauthorized)
    } else {
        Ok(())
    }
}

/// The ledger after an attempt to delegate.
pub open spec fn approve_next(
    ledger: LedgerView,
    to: Seq<u8>,
    signer: Seq<u8>,
    delegate: Seq<u8>,
    quantity: u64,
) -> LedgerView {
    if approve_outcome(ledger, to, signer) is Ok {
        let t = ledger.index_of(to);
        ledger.with_accounts(ledger.accounts.update(t, ledger.accounts[t].delegated(delegate, quantity)))
    } else {
        ledger
    }
}

/// Creating the token type keeps the ledger well formed.
pub proof fn lemma_init_keeps_wf(
    ledger: LedgerView,
    derived: Option<(Seq<u8>, u8)>,
    decimals: u8,
    metadata: Seq<u8>,
)
    requires
        ledger.wf(),
    ensures
        init_next(ledger, derived, decimals, metadata).wf(),
{
}

/// A transfer keeps the ledger well formed; in particular the balances still
/// add up to the supply.
pub proof fn lemma_transfer_keeps_wf(
    ledger: LedgerView,
    from: Seq<u8>,
    to: Seq<u8>,
    signer: Seq<u8>,
    amount: u64,
)
    requires
        ledger.wf(),
    ensures
        transfer_next(ledger, from, to, signer, amount).wf(),
        total_balance(transfer_next(ledger, from, to, signer, amount).accounts) == total_balance(
            ledger.accounts,
        ),
        transfer_outcome(ledger, from, to, signer, amount) is Ok && from != to
            ==> ledger.account(to).amount + amount <= u64::MAX,
{
    if transfer_outcome(ledger, from, to, signer, amount) is Ok {
        let f = ledger.index_of(from);
        let t = ledger.index_of(to);
        let paid = ledger.with_accounts(
            ledger.accounts.update(f, ledger.accounts[f].debited(amount)),
        );
        let next = transfer_next(ledger, from, to, signer, amount);
        lemma_replace(ledger, f, ledger.accounts[f].debited(amount));
        lemma_total_update(ledger.accounts, f, ledger.accounts[f].debited(amount));
        if f != t {
            lemma_total_covers_two(ledger.accounts, f, t);
        }
        lemma_replace(paid, t, paid.accounts[t].credited(amount));
        lemma_total_update(paid.accounts, t, paid.accounts[t].credited(amount));
        assert(next.accounts =~= paid.accounts.update(t, paid.accounts[t].credited(amount)));
        assert forall|i: int| 0 <= i < next.accounts.len() implies (
        #[trigger] next.accounts[i]).wf() && next.accounts[i].mint
            == ledger.accounts[i].mint by {
            assert(ledger.accounts[i].wf());
        }
    }
}

/// A burn keeps the ledger well formed; in particular the balances still add
/// up to the supply.
pub proof fn lemma_burn_keeps_wf(
    ledger: LedgerView,
    from: Seq<u8>,
    mint: Seq<u8>,
    signer: Seq<u8>,
    quantity: u64,
)
    requires
        ledger.wf(),
    ensures
        burn_next(ledger, from, mint, signer, quantity).wf(),
        burn_outcome(ledger, from, mint, signer, quantity) is Ok ==> quantity
            <= ledger.mint.unwrap().supply,
{
    if burn_outcome(ledger, from, mint, signer, quantity) is Ok {
        let f = ledger.index_of(from);
        let next = burn_next(ledger, from, mint, signer, quantity);
        lemma_replace(ledger, f, ledger.accounts[f].debited(quantity));
        lemma_total_update(ledger.accounts, f, ledger.accounts[f].debited(quantity));
        lemma_total_covers(ledger.accounts, f);
        assert forall|i: int| 0 <= i < next.accounts.len() implies (
        #[trigger] next.accounts[i]).wf() && next.accounts[i].mint
            == ledger.accounts[i].mint by {
            assert(ledger.accounts[i].wf());
        }
    }
}

/// A delegation keeps the ledger well formed.
pub proof fn lemma_approve_keeps_wf(
    ledger: LedgerView,
    to: Seq<u8>,
    signer: Seq<u8>,
    delegate: Seq<u8>,
    quantity: u64,
)
    requires
        ledger.wf(),
    ensures
        approve_next(ledger, to, signer, delegate, quantity).wf(),
{
    if approve_outcome(ledger, to, signer) is Ok {
        let t = ledger.index_of(to);
        let next = approve_next(ledger, to, signer, delegate, quantity);
        lemma_replace(ledger, t, ledger.accounts[t].delegated(delegate, quantity));
        lemma_total_update(ledger.accounts, t, ledger.accounts[t].delegated(delegate, quantity));
        assert forall|i: int| 0 <= i < next.accounts.len() implies (
        #[trigger] next.accounts[i]).wf() && next.accounts[i].mint
            == ledger.accounts[i].mint by {
            assert(ledger.accounts[i].wf());
        }
    }
}

/// What looking up, or else creating, the account of `owner` for the token
/// type at `mint` reports: the account, or why there is none. `destination`
/// is the address derived for the pair, where there is one. The token type
/// must exist, and an account found at the address must belong to `owner`.
pub open spec fn open_outcome(
    ledger: LedgerView,
    destination: Option<Seq<u8>>,
    mint: Seq<u8>,
    owner: Seq<u8>,
) -> Result<AccountView, CustomError> {
    if !(ledger.mint matches Some(m) && m.address == mint) {
        Err(CustomError::NotFound)
    } else {
        match destination {
            None => Err(CustomError::NotFound),
            Some(address) => if !ledger.holds(address) {
                Ok(AccountView::opened(address, mint, owner))
            } else if ledger.account(address).owner != owner {
                Err(CustomError::Unauthorized)
            } else {
                Ok(ledger.account(address))
            },
        }
    }
}

/// The ledger after looking up, or else creating, an account: a new account
/// is appended, an existing one is left as it is.
pub open spec fn open_next(
    ledger: LedgerView,
    destination: Option<Seq<u8>>,
    mint: Seq<u8>,
    owner: Seq<u8>,
) -> LedgerView {
    match open_outcome(ledger, destination, mint, owner) {
        Ok(account) => if ledger.holds(destination.unwrap()) {
            ledger
        } else {
            ledger.with_accounts(ledger.accounts.push(account))
        },
        Err(_) => ledger,
    }
}

/// What minting `quantity` into the account of `owner` reports. `signer` is
/// the identity under which the deployment signs and `destination` the
/// address derived for the account, each where there is one. The token type
/// must exist (`NotFound`), the signer must be its authority
/// (`Unauthorized`), the account must be there or be creatable, and the
/// supply must stay in range (`Overflow`), tested in this order.
pub open spec fn mint_outcome(
    ledger: LedgerView,
    owner: Seq<u8>,
    quantity: u64,
    signer: Option<Seq<u8>>,
    destination: Option<Seq<u8>>,
) -> Result<(), CustomError> {
    match ledger.mint {
        None => Err(CustomError::NotFound),
        Some(mint) => if !(signer matches Some(s) && may_mint(mint, s)) {
            Err(CustomError::Unauthorized)
        } else {
            match open_outcome(ledger, destination, mint.address, owner) {
                Err(e) => Err(e),
                Ok(_) => if mint.supply + quantity > u64::MAX {
                    Err(CustomError::Overflow)
                } else {
                    Ok(())
                },
            }
        },
    }
}

/// The ledger after an attempt to mint: the account is created if need be,
/// then supply and balance both grow.
pub open spec fn mint_next(
    ledger: LedgerView,
    owner: Seq<u8>,
    quantity: u64,
    signer: Option<Seq<u8>>,
    destination: Option<Seq<u8>>,
) -> LedgerView {
    if mint_outcome(ledger, owner, quantity, signer, destination) is Ok {
        let mint = ledger.mint.unwrap();
        let address = destination.unwrap();
        let accounts = if ledger.holds(address) {
            ledger.accounts.update(
                ledger.index_of(address),
                ledger.account(address).credited(quantity),
            )
        } else {
            ledger.accounts.push(
                AccountView::opened(address, mint.address, owner).credited(quantity),
            )
        };
        ledger.with_accounts(accounts).with_mint(
            mint.with_supply((mint.supply + quantity) as u64),
        )
    } else {
        ledger
    }
}

/// Looking up or creating an account keeps the ledger well formed, changes
/// no balance, and leaves the account at the derived address.
pub proof fn lemma_open_keeps_wf(
    ledger: LedgerView,
    destination: Option<Seq<u8>>,
    mint: Seq<u8>,
    owner: Seq<u8>,
)
    requires
        ledger.wf(),
    ensures
        open_next(ledger, destination, mint, owner).wf(),
        open_next(ledger, destination, mint, owner).mint == ledger.mint,
        total_balance(open_next(ledger, destination, mint, owner).accounts) == total_balance(
            ledger.accounts,
        ),
        open_outcome(ledger, destination, mint, owner) matches Ok(account) ==> {
            let next = open_next(ledger, destination, mint, owner);
            &&& account.address == destination.unwrap()
            &&& account.mint == mint
            &&& account.owner == owner
            &&& next.holds(account.address)
            &&& next.account(account.address) == account
            &&& next.index_of(account.address) == if ledger.holds(account.address) {
                ledger.index_of(account.address)
            } else {
                ledger.accounts.len() as int
            }
        },
{
    if let Ok(account) = open_outcome(ledger, destination, mint, owner) {
        let address = destination.unwrap();
        let next = open_next(ledger, destination, mint, owner);
        if ledger.holds(address) {
            lemma_holds(ledger, address);
            lemma_index_of(ledger, address, ledger.index_of(address));
        } else {
            lemma_total_push(ledger.accounts, account);
            assert forall|i: int, j: int| 0 <= i < j < next.accounts.len() implies (
            #[trigger] next.accounts[i]).address != (#[trigger] next.accounts[j]).address by {
                if j < ledger.accounts.len() {
                    assert(ledger.accounts[i].address != ledger.accounts[j].address);
                } else {
                    assert(ledger.accounts[i].address != address);
                }
            }
            assert forall|i: int| 0 <= i < next.accounts.len() implies (
            #[trigger] next.accounts[i]).wf() && next.accounts[i].mint == mint by {
                if i < ledger.accounts.len() {
                    assert(ledger.accounts[i].wf());
                }
            }
            lemma_index_of(next, address, ledger.accounts.len() as int);
        }
    }
}

/// Minting keeps the ledger well formed; in particular the balances still
/// add up to the supply.
pub proof fn lemma_mint_keeps_wf(
    ledger: LedgerView,
    owner: Seq<u8>,
    quantity: u64,
    signer: Option<Seq<u8>>,
    destination: Option<Seq<u8>>,
)
    requires
        ledger.wf(),
    ensures
        mint_next(ledger, owner, quantity, signer, destination).wf(),
        mint_outcome(ledger, owner, quantity, signer, destination) is Ok ==> {
            let opened = open_next(ledger, destination, ledger.mint.unwrap().address, owner);
            let i = opened.index_of(destination.unwrap());
            &&& opened.account(destination.unwrap()).amount + quantity <= u64::MAX
            &&& mint_next(ledger, owner, quantity, signer, destination).accounts
                == opened.accounts.update(i, opened.accounts[i].credited(quantity))
        },
{
    if mint_outcome(ledger, owner, quantity, signer, destination) is Ok {
        let mint = ledger.mint.unwrap();
        let opened = open_next(ledger, destination, mint.address, owner);
        let next = mint_next(ledger, owner, quantity, signer, destination);
        lemma_open_keeps_wf(ledger, destination, mint.address, owner);
        let i = opened.index_of(destination.unwrap());
        lemma_holds(opened, destination.unwrap());
        lemma_total_covers(opened.accounts, i);
        lemma_replace(opened, i, opened.accounts[i].credited(quantity));
        lemma_total_update(opened.accounts, i, opened.accounts[i].credited(quantity));
        assert(next.accounts =~= opened.accounts.update(i, opened.accounts[i].credited(quantity)));
        assert forall|k: int| 0 <= k < next.accounts.len() implies (
        #[trigger] next.accounts[k]).wf() && next.accounts[k].mint
            == opened.accounts[k].mint by {
            assert(opened.accounts[k].wf());
        }
    }
}

} // verus!

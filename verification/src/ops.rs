use crate::account::{AccountView, TokenAccount};
use crate::address::{
    account_address, address_view, derive_account_address, derive_mint_address, derived_view,
    mint_address, Address,
};
use crate::auth::{authorize_mint, authorize_owner};
use crate::error::CustomError;
use crate::ledger::Ledger;
use crate::mint::Mint;
use crate::model::{
    approve_next, approve_outcome, burn_next, burn_outcome, init_next, init_outcome,
    lemma_approve_keeps_wf, lemma_burn_keeps_wf, lemma_index_of, lemma_init_keeps_wf,
    lemma_mint_keeps_wf, lemma_open_keeps_wf, lemma_transfer_keeps_wf, mint_next, mint_outcome,
    open_next, open_outcome, transfer_next, transfer_outcome, LedgerView,
};
use crate::request::{
    registration, ApproveTokens, BurnTokens, InitToken, InitTokenParams, MetadataRequest,
    MintTokens, TransferTokens,
};
use vstd::prelude::*;

verus! {

/// Whether `done` hands out the request that goes with `outcome`, or refuses
/// for the same reason.
pub open spec fn registers(
    done: Result<MetadataRequest, CustomError>,
    outcome: Result<(Seq<u8>, u8), CustomError>,
    accounts: InitToken,
    metadata: InitTokenParams,
) -> bool {
    match done {
        Ok(request) => outcome matches Ok((address, bump)) && request@ == registration(
            address,
            bump,
            accounts.metadata@,
            accounts.payer@,
            metadata.name@,
            metadata.symbol@,
            metadata.uri@,
        ),
        Err(e) => outcome == Err::<(Seq<u8>, u8), CustomError>(e),
    }
}

/// Creates the token type at the address `derived` for the deployment, where
/// there is one, and hands out the request that registers its description.
/// A second creation is refused with `AlreadyExists`; a deployment for which
/// no address can be derived gets `NotFound`.
pub fn init_token_at(
    ledger: &mut Ledger,
    accounts: &InitToken,
    metadata: InitTokenParams,
    derived: Option<(Address, u8)>,
) -> (done: Result<MetadataRequest, CustomError>)
    requires
        old(ledger).wf(),
    ensures
        final(ledger).wf(),
        registers(done, init_outcome(old(ledger)@, derived_view(derived)), *accounts, metadata),
        final(ledger)@ == init_next(
            old(ledger)@,
            derived_view(derived),
            metadata.decimals,
            accounts.metadata@,
        ),
{
    if ledger.mint().is_some() {
        return Err(CustomError::AlreadyExists);
    }
    let (address, bump) = match derived {
        Some(found) => found,
        None => {
            return Err(CustomError::NotFound);
        },
    };
    proof {
        lemma_init_keeps_wf(
            ledger@,
            derived_view(derived),
            metadata.decimals,
            accounts.metadata@,
        );
    }
    ledger.put_mint(Mint::new(address, metadata.decimals, accounts.metadata));
    Ok(
        MetadataRequest {
            mint: address,
            bump,
            metadata: accounts.metadata,
            payer: accounts.payer,
            name: metadata.name,
            symbol: metadata.symbol,
            uri: metadata.uri,
            seller_fee_basis_points: 0,
            is_mutable: false,
            update_authority_is_signer: true,
        },
    )
}

/// Creates the token type of the deployment at its derived address, with no
/// supply and itself as minting authority, and hands out the request that
/// registers its description.
pub fn init_token(ledger: &mut Ledger, accounts: &InitToken, metadata: InitTokenParams) -> (done:
    Result<MetadataRequest, CustomError>)
    requires
        old(ledger).wf(),
    ensures
        final(ledger).wf(),
        registers(
            done,
            init_outcome(old(ledger)@, mint_address(old(ledger)@.deployment.program_id)),
            *accounts,
            metadata,
        ),
        final(ledger)@ == init_next(
            old(ledger)@,
            mint_address(old(ledger)@.deployment.program_id),
            metadata.decimals,
            accounts.metadata@,
        ),
{
    let derived = derive_mint_address(&ledger.deployment().program_id);
    init_token_at(ledger, accounts, metadata, derived)
}

/// Moves `amount` from the account at `accounts.from` to the account at
/// `accounts.to`. Both must exist (`NotFound`), the paying account must hold
/// `amount` (`InsufficientFunds`) and `accounts.owner` must own it
/// (`Unauthorized`), tested in this order. The supply and the sum of the two
/// balances stay as they are. Crediting cannot overflow: both balances are
/// part of one supply.
pub fn transfer_tokens(ledger: &mut Ledger, accounts: &TransferTokens, amount: u64) -> (done:
    Result<(), CustomError>)
    requires
        old(ledger).wf(),
    ensures
        final(ledger).wf(),
        done == transfer_outcome(
            old(ledger)@,
            accounts.from@,
            accounts.to@,
            accounts.owner@,
            amount,
        ),
        final(ledger)@ == transfer_next(
            old(ledger)@,
            accounts.from@,
            accounts.to@,
            accounts.owner@,
            amount,
        ),
{
    let f = match ledger.position(&accounts.from) {
        Some(i) => i,
        None => {
            return Err(CustomError::NotFound);
        },
    };
    let t = match ledger.position(&accounts.to) {
        Some(i) => i,
        None => {
            return Err(CustomError::NotFound);
        },
    };
    proof {
        lemma_index_of(ledger@, accounts.from@, f as int);
        lemma_index_of(ledger@, accounts.to@, t as int);
        lemma_transfer_keeps_wf(ledger@, accounts.from@, accounts.to@, accounts.owner@, amount);
    }
    let mut source = ledger.record(f);
    if source.amount < amount {
        return Err(CustomError::InsufficientFunds);
    }
    if let Err(e) = authorize_owner(&source, &accounts.owner) {
        return Err(e);
    }
    if let Err(e) = source.debit(amount) {
        return Err(e);
    }
    if f == t {
        if let Err(e) = source.credit(amount) {
            return Err(e);
        }
        ledger.put_record(f, source);
    } else {
        let mut target = ledger.record(t);
        if let Err(e) = target.credit(amount) {
            return Err(e);
        }
        ledger.put_record(f, source);
        ledger.put_record(t, target);
    }
    assert(ledger@.accounts =~= transfer_next(
        old(ledger)@,
        accounts.from@,
        accounts.to@,
        accounts.owner@,
        amount,
    ).accounts);
    Ok(())
}

/// Destroys `quantity` tokens of the account at `accounts.from`. The account
/// and the token type at `accounts.mint` must exist (`NotFound`), the account
/// must hold `quantity` (`InsufficientFunds`) and `accounts.owner` must own
/// it (`Unauthorized`), tested in this order. Balance and supply shrink by
/// `quantity`. The supply cannot underflow: the balance is part of it.
pub fn burn_tokens(ledger: &mut Ledger, accounts: &BurnTokens, quantity: u64) -> (done: Result<
    (),
    CustomError,
>)
    requires
        old(ledger).wf(),
    ensures
        final(ledger).wf(),
        done == burn_outcome(
            old(ledger)@,
            accounts.from@,
            accounts.mint@,
            accounts.owner@,
            quantity,
        ),
        final(ledger)@ == burn_next(
            old(ledger)@,
            accounts.from@,
            accounts.mint@,
            accounts.owner@,
            quantity,
        ),
{
    let f = match ledger.position(&accounts.from) {
        Some(i) => i,
        None => {
            return Err(CustomError::NotFound);
        },
    };
    let mut mint = match ledger.mint() {
        Some(m) => m,
        None => {
            return Err(CustomError::NotFound);
        },
    };
    if mint.address != accounts.mint {
        return Err(CustomError::NotFound);
    }
    proof {
        lemma_index_of(ledger@, accounts.from@, f as int);
        lemma_burn_keeps_wf(ledger@, accounts.from@, accounts.mint@, accounts.owner@, quantity);
    }
    let mut source = ledger.record(f);
    if source.amount < quantity {
        return Err(CustomError::InsufficientFunds);
    }
    if let Err(e) = authorize_owner(&source, &accounts.owner) {
        return Err(e);
    }
    if let Err(e) = source.debit(quantity) {
        return Err(e);
    }
    if let Err(e) = mint.record_burn(quantity) {
        return Err(e);
    }
    ledger.put_record(f, source);
    ledger.put_mint(mint);
    Ok(())
}

/// Lets `accounts.delegate` spend up to `quantity` from the account at
/// `accounts.to`, replacing any earlier delegate. The account must exist
/// (`NotFound`) and `accounts.owner` must own it (`Unauthorized`). The
/// quantity is not held against the balance.
pub fn approve_tokens(ledger: &mut Ledger, accounts: &ApproveTokens, quantity: u64) -> (done:
    Result<(), CustomError>)
    requires
        old(ledger).wf(),
    ensures
        final(ledger).wf(),
        done == approve_outcome(old(ledger)@, accounts.to@, accounts.owner@),
        final(ledger)@ == approve_next(
            old(ledger)@,
            accounts.to@,
            accounts.owner@,
            accounts.delegate@,
            quantity,
        ),
{
    let t = match ledger.position(&accounts.to) {
        Some(i) => i,
        None => {
            return Err(CustomError::NotFound);
        },
    };
    proof {
        lemma_index_of(ledger@, accounts.to@, t as int);
        lemma_approve_keeps_wf(
            ledger@,
            accounts.to@,
            accounts.owner@,
            accounts.delegate@,
            quantity,
        );
    }
    let mut target = ledger.record(t);
    if let Err(e) = authorize_owner(&target, &accounts.owner) {
        return Err(e);
    }
    target.set_delegate(accounts.delegate, quantity);
    ledger.put_record(t, target);
    Ok(())
}

/// Mathematical value of an account or of the reason why there is none.
pub open spec fn opened_view(found: Result<TokenAccount, CustomError>) -> Result<
    AccountView,
    CustomError,
> {
    match found {
        Ok(account) => Ok(account@),
        Err(e) => Err(e),
    }
}

/// The identity under which the deployment owned by `program_id` signs: the
/// derived address of its token type.
pub open spec fn mint_signer(program_id: Seq<u8>) -> Option<Seq<u8>> {
    match mint_address(program_id) {
        Some((address, _)) => Some(address),
        None => None,
    }
}

/// The address derived for the account in which `owner` holds the ledger's
/// token type.
pub open spec fn mint_destination(ledger: LedgerView, owner: Seq<u8>) -> Option<Seq<u8>> {
    match ledger.mint {
        Some(mint) => account_address(ledger.deployment, mint.address, owner),
        None => None,
    }
}

/// Finds the account at `destination`, or makes the one that would be
/// created there, without changing the ledger. Returns the account with its
/// position, where it has one.
fn locate(ledger: &Ledger, destination: Option<Address>, mint: &Address, owner: &Address) -> (found:
    Result<(Option<usize>, TokenAccount), CustomError>)
    requires
        ledger.wf(),
    ensures
        match found {
            Ok((slot, account)) => {
                &&& open_outcome(ledger@, address_view(destination), mint@, owner@) == Ok::<
                    AccountView,
                    CustomError,
                >(account@)
                &&& slot is Some == ledger@.holds(address_view(destination).unwrap())
                &&& slot matches Some(i) ==> i as int == ledger@.index_of(
                    address_view(destination).unwrap(),
                ) && i < ledger@.accounts.len()
            },
            Err(e) => open_outcome(ledger@, address_view(destination), mint@, owner@) == Err::<
                AccountView,
                CustomError,
            >(e),
        },
{
    match ledger.mint() {
        Some(record) => {
            if record.address != *mint {
                return Err(CustomError::NotFound);
            }
        },
        None => {
            return Err(CustomError::NotFound);
        },
    }
    let address = match destination {
        Some(address) => address,
        None => {
            return Err(CustomError::NotFound);
        },
    };
    match ledger.position(&address) {
        Some(i) => {
            proof {
                lemma_index_of(ledger@, address@, i as int);
            }
            let account = ledger.record(i);
            if account.owner != *owner {
                return Err(CustomError::Unauthorized);
            }
            Ok((Some(i), account))
        },
        None => Ok((None, TokenAccount::new(address, *mint, *owner))),
    }
}

/// Returns the account at `destination`, the address derived for `owner` and
/// the token type at `mint`, creating it empty if it is not there. An
/// existing account is returned as it is. Without the token type at `mint`,
/// or without an address, the answer is `NotFound`; an account found at the
/// address that belongs to another owner gives `Unauthorized`. `payer` pays
/// for a new record; the ledger keeps no account of the payment.
#[allow(unused_variables)]
pub fn get_or_create_account_at(
    ledger: &mut Ledger,
    mint: &Address,
    owner: &Address,
    payer: &Address,
    destination: Option<Address>,
) -> (found: Result<TokenAccount, CustomError>)
    requires
        old(ledger).wf(),
    ensures
        final(ledger).wf(),
        opened_view(found) == open_outcome(old(ledger)@, address_view(destination), mint@, owner@),
        final(ledger)@ == open_next(old(ledger)@, address_view(destination), mint@, owner@),
{
    proof {
        lemma_open_keeps_wf(ledger@, address_view(destination), mint@, owner@);
    }
    match locate(ledger, destination, mint, owner) {
        Ok((slot, account)) => {
            if slot.is_none() {
                ledger.add_record(account);
            }
            Ok(account)
        },
        Err(e) => Err(e),
    }
}

/// Returns the account in which `owner` holds the token type at `mint`,
/// creating it empty, at its derived address, if it is not there.
pub fn get_or_create_account(ledger: &mut Ledger, mint: &Address, owner: &Address, payer: &Address) -> (found:
    Result<TokenAccount, CustomError>)
    requires
        old(ledger).wf(),
    ensures
        final(ledger).wf(),
        opened_view(found) == open_outcome(
            old(ledger)@,
            account_address(old(ledger)@.deployment, mint@, owner@),
            mint@,
            owner@,
        ),
        final(ledger)@ == open_next(
            old(ledger)@,
            account_address(old(ledger)@.deployment, mint@, owner@),
            mint@,
            owner@,
        ),
{
    let deployment = ledger.deployment();
    let destination = derive_account_address(&deployment, mint, owner);
    get_or_create_account_at(ledger, mint, owner, payer, destination)
}

/// Mints `quantity` into the account of `accounts.owner` at `destination`,
/// creating the account if need be, for a deployment that signs as `signer`.
/// The token type must exist (`NotFound`), `signer` must be its authority
/// (`Unauthorized`), the account must be there or be creatable (as for
/// `get_or_create_account_at`), and the supply must stay in range
/// (`Overflow`), tested in this order. Supply and balance grow by
/// `quantity`; a refusal leaves no new account behind.
pub fn mint_tokens_with(
    ledger: &mut Ledger,
    accounts: &MintTokens,
    quantity: u64,
    signer: Option<Address>,
    destination: Option<Address>,
) -> (done: Result<(), CustomError>)
    requires
        old(ledger).wf(),
    ensures
        final(ledger).wf(),
        done == mint_outcome(
            old(ledger)@,
            accounts.owner@,
            quantity,
            address_view(signer),
            address_view(destination),
        ),
        final(ledger)@ == mint_next(
            old(ledger)@,
            accounts.owner@,
            quantity,
            address_view(signer),
            address_view(destination),
        ),
{
    let mut mint = match ledger.mint() {
        Some(m) => m,
        None => {
            return Err(CustomError::NotFound);
        },
    };
    let signer = match signer {
        Some(s) => s,
        None => {
            return Err(CustomError::Unauthorized);
        },
    };
    if let Err(e) = authorize_mint(&mint, &signer) {
        return Err(e);
    }
    let (slot, mut account) = match locate(ledger, destination, &mint.address, &accounts.owner) {
        Ok(found) => found,
        Err(e) => {
            return Err(e);
        },
    };
    proof {
        lemma_open_keeps_wf(ledger@, address_view(destination), mint@.address, accounts.owner@);
        lemma_mint_keeps_wf(
            ledger@,
            accounts.owner@,
            quantity,
            Some(signer@),
            address_view(destination),
        );
    }
    if let Err(e) = mint.record_mint(quantity) {
        return Err(e);
    }
    if let Err(e) = account.credit(quantity) {
        return Err(e);
    }
    match slot {
        Some(i) => {
            ledger.put_record(i, account);
        },
        None => {
            ledger.add_record(account);
        },
    }
    ledger.put_mint(mint);
    assert(ledger@.accounts =~= mint_next(
        old(ledger)@,
        accounts.owner@,
        quantity,
        Some(signer@),
        address_view(destination),
    ).accounts);
    Ok(())
}

/// Mints `quantity` into the account of `accounts.owner`, creating the
/// account at its derived address if need be. The deployment signs as the
/// derived address of its token type, which is that type's authority.
pub fn mint_tokens(ledger: &mut Ledger, accounts: &MintTokens, quantity: u64) -> (done: Result<
    (),
    CustomError,
>)
    requires
        old(ledger).wf(),
    ensures
        final(ledger).wf(),
        done == mint_outcome(
            old(ledger)@,
            accounts.owner@,
            quantity,
            mint_signer(old(ledger)@.deployment.program_id),
            mint_destination(old(ledger)@, accounts.owner@),
        ),
        final(ledger)@ == mint_next(
            old(ledger)@,
            accounts.owner@,
            quantity,
            mint_signer(old(ledger)@.deployment.program_id),
            mint_destination(old(ledger)@, accounts.owner@),
        ),
{
    let deployment = ledger.deployment();
    let signer = match derive_mint_address(&deployment.program_id) {
        Some((address, _)) => Some(address),
        None => None,
    };
    let destination = match ledger.mint() {
        Some(mint) => derive_account_address(&deployment, &mint.address, &accounts.owner),
        None => None,
    };
    mint_tokens_with(ledger, accounts, quantity, signer, destination)
}

} // verus!

use crate::account::AccountView;
use crate::auth::{may_mint, may_spend};
use crate::error::CustomError;
use crate::model::{
    approve_next, approve_outcome, burn_next, burn_outcome, init_next, init_outcome, lemma_holds,
    lemma_index_of, lemma_mint_keeps_wf, lemma_open_keeps_wf, lemma_replace,
    lemma_transfer_keeps_wf, mint_next, mint_outcome, open_next, open_outcome, total_balance,
    transfer_next, transfer_outcome, LedgerView,
};
use vstd::prelude::*;

verus! {

/// One minting call: who receives, how much, under which signing identity
/// and at which derived address.
pub struct MintCall {
    pub owner: Seq<u8>,
    pub quantity: u64,
    pub signer: Option<Seq<u8>>,
    pub destination: Option<Seq<u8>>,
}

/// The ledger after the minting calls `calls`, made one after the other.
pub open spec fn after_mints(ledger: LedgerView, calls: Seq<MintCall>) -> LedgerView
    decreases calls.len(),
{
    if calls.len() == 0 {
        ledger
    } else {
        let call = calls.last();
        mint_next(
            after_mints(ledger, calls.drop_last()),
            call.owner,
            call.quantity,
            call.signer,
            call.destination,
        )
    }
}

/// After any run of minting calls, accepted or refused, the ledger is well
/// formed: the balances of its accounts add up to the supply.
pub proof fn law_mints_keep_balance(ledger: LedgerView, calls: Seq<MintCall>)
    requires
        ledger.wf(),
    ensures
        after_mints(ledger, calls).wf(),
        after_mints(ledger, calls).balanced(),
    decreases calls.len(),
{
    if calls.len() > 0 {
        let call = calls.last();
        law_mints_keep_balance(ledger, calls.drop_last());
        lemma_mint_keeps_wf(
            after_mints(ledger, calls.drop_last()),
            call.owner,
            call.quantity,
            call.signer,
            call.destination,
        );
    }
}

/// The balances add up to the supply at every point of a run of minting
/// calls, not only at its end.
pub proof fn law_mints_keep_balance_throughout(ledger: LedgerView, calls: Seq<MintCall>, n: int)
    requires
        ledger.wf(),
        0 <= n <= calls.len(),
    ensures
        after_mints(ledger, calls.take(n)).balanced(),
        after_mints(ledger, calls.take(n)).mint matches Some(mint) ==> total_balance(
            after_mints(ledger, calls.take(n)).accounts,
        ) == mint.supply,
{
    law_mints_keep_balance(ledger, calls.take(n));
}

/// A transfer, accepted or refused, changes neither the token type nor the
/// total of the balances, and the two accounts together hold what they held
/// before.
pub proof fn law_transfer_conserves(
    ledger: LedgerView,
    from: Seq<u8>,
    to: Seq<u8>,
    signer: Seq<u8>,
    amount: u64,
)
    requires
        ledger.wf(),
        ledger.holds(from),
        ledger.holds(to),
    ensures
        ({
            let next = transfer_next(ledger, from, to, signer, amount);
            &&& next.mint == ledger.mint
            &&& total_balance(next.accounts) == total_balance(ledger.accounts)
            &&& next.holds(from) && next.holds(to)
            &&& next.account(from).amount + next.account(to).amount == ledger.account(from).amount
                + ledger.account(to).amount
            &&& transfer_outcome(ledger, from, to, signer, amount) is Ok && from != to ==> {
                &&& next.account(from).amount == ledger.account(from).amount - amount
                &&& next.account(to).amount == ledger.account(to).amount + amount
            }
        }),
{
    lemma_transfer_keeps_wf(ledger, from, to, signer, amount);
    if transfer_outcome(ledger, from, to, signer, amount) is Ok {
        let f = ledger.index_of(from);
        let t = ledger.index_of(to);
        let next = transfer_next(ledger, from, to, signer, amount);
        lemma_holds(ledger, from);
        lemma_holds(ledger, to);
        lemma_index_of(next, from, f);
        lemma_index_of(next, to, t);
        if f != t {
            assert(ledger.accounts[f].address != ledger.accounts[t].address);
        }
    }
}

/// A transfer of more than the paying account holds is refused with
/// `InsufficientFunds`, whoever signs, and changes nothing.
pub proof fn law_transfer_overdraw_refused(
    ledger: LedgerView,
    from: Seq<u8>,
    to: Seq<u8>,
    signer: Seq<u8>,
    amount: u64,
)
    requires
        ledger.holds(from),
        ledger.holds(to),
        amount > ledger.account(from).amount,
    ensures
        transfer_outcome(ledger, from, to, signer, amount) == Err::<(), CustomError>(
            CustomError::InsufficientFunds,
        ),
        transfer_next(ledger, from, to, signer, amount) == ledger,
{
}

/// A burn of more than the account holds is refused with
/// `InsufficientFunds`, whoever signs, and changes nothing.
pub proof fn law_burn_overdraw_refused(
    ledger: LedgerView,
    from: Seq<u8>,
    mint: Seq<u8>,
    signer: Seq<u8>,
    quantity: u64,
)
    requires
        ledger.holds(from),
        ledger.mint matches Some(m) && m.address == mint,
        quantity > ledger.account(from).amount,
    ensures
        burn_outcome(ledger, from, mint, signer, quantity) == Err::<(), CustomError>(
            CustomError::InsufficientFunds,
        ),
        burn_next(ledger, from, mint, signer, quantity) == ledger,
{
}

/// A transfer that the paying account could afford, signed by another than
/// its owner, is refused with `Unauthorized` and changes nothing.
pub proof fn law_transfer_wrong_signer_refused(
    ledger: LedgerView,
    from: Seq<u8>,
    to: Seq<u8>,
    signer: Seq<u8>,
    amount: u64,
)
    requires
        ledger.holds(from),
        ledger.holds(to),
        amount <= ledger.account(from).amount,
        !may_spend(ledger.account(from), signer),
    ensures
        transfer_outcome(ledger, from, to, signer, amount) == Err::<(), CustomError>(
            CustomError::Unauthorized,
        ),
        transfer_next(ledger, from, to, signer, amount) == ledger,
{
}

/// A burn that the account could afford, signed by another than its owner,
/// is refused with `Unauthorized` and changes nothing.
pub proof fn law_burn_wrong_signer_refused(
    ledger: LedgerView,
    from: Seq<u8>,
    mint: Seq<u8>,
    signer: Seq<u8>,
    quantity: u64,
)
    requires
        ledger.holds(from),
        ledger.mint matches Some(m) && m.address == mint,
        quantity <= ledger.account(from).amount,
        !may_spend(ledger.account(from), signer),
    ensures
        burn_outcome(ledger, from, mint, signer, quantity) == Err::<(), CustomError>(
            CustomError::Unauthorized,
        ),
        burn_next(ledger, from, mint, signer, quantity) == ledger,
{
}

/// A delegation signed by another than the account's owner is refused with
/// `Unauthorized` and changes nothing.
pub proof fn law_approve_wrong_signer_refused(
    ledger: LedgerView,
    to: Seq<u8>,
    signer: Seq<u8>,
    delegate: Seq<u8>,
    quantity: u64,
)
    requires
        ledger.holds(to),
        !may_spend(ledger.account(to), signer),
    ensures
        approve_outcome(ledger, to, signer) == Err::<(), CustomError>(CustomError::Unauthorized),
        approve_next(ledger, to, signer, delegate, quantity) == ledger,
{
}

/// Minting under a signing identity that is not the token type's authority,
/// or under none, is refused with `Unauthorized` and changes nothing.
pub proof fn law_mint_wrong_signer_refused(
    ledger: LedgerView,
    owner: Seq<u8>,
    quantity: u64,
    signer: Option<Seq<u8>>,
    destination: Option<Seq<u8>>,
)
    requires
        ledger.mint is Some,
        !(signer matches Some(s) && may_mint(ledger.mint.unwrap(), s)),
    ensures
        mint_outcome(ledger, owner, quantity, signer, destination) == Err::<(), CustomError>(
            CustomError::Unauthorized,
        ),
        mint_next(ledger, owner, quantity, signer, destination) == ledger,
{
}

/// Once the token type has been created, every further creation is refused
/// with `AlreadyExists` and leaves the ledger, the token type with it, as it
/// is.
pub proof fn law_init_once(
    ledger: LedgerView,
    derived: Option<(Seq<u8>, u8)>,
    decimals: u8,
    metadata: Seq<u8>,
    again_derived: Option<(Seq<u8>, u8)>,
    again_decimals: u8,
    again_metadata: Seq<u8>,
)
    requires
        init_outcome(ledger, derived) is Ok,
    ensures
        ({
            let first = init_next(ledger, derived, decimals, metadata);
            &&& init_outcome(first, again_derived) == Err::<(Seq<u8>, u8), CustomError>(
                CustomError::AlreadyExists,
            )
            &&& init_next(first, again_derived, again_decimals, again_metadata) == first
        }),
{
}

/// Looking up or creating an account a second time, for the same token type
/// and owner at the same derived address, gives the account that the first
/// time gave, balance included, and changes nothing more.
pub proof fn law_open_idempotent(
    ledger: LedgerView,
    destination: Option<Seq<u8>>,
    mint: Seq<u8>,
    owner: Seq<u8>,
)
    requires
        ledger.wf(),
    ensures
        ({
            let first = open_next(ledger, destination, mint, owner);
            &&& first.deployment == ledger.deployment
            &&& open_outcome(first, destination, mint, owner) == open_outcome(
                ledger,
                destination,
                mint,
                owner,
            )
            &&& open_next(first, destination, mint, owner) == first
            &&& ledger.holds(destination.unwrap()) && open_outcome(
                ledger,
                destination,
                mint,
                owner,
            ) is Ok ==> first == ledger && open_outcome(ledger, destination, mint, owner) == Ok::<
                AccountView,
                CustomError,
            >(ledger.account(destination.unwrap()))
        }),
{
    lemma_open_keeps_wf(ledger, destination, mint, owner);
}

/// Minting a quantity and then burning it from the same account brings the
/// supply and the balance back to what they were before: the ledger is as
/// if the account had only been looked up or created.
pub proof fn law_mint_then_burn_restores(
    ledger: LedgerView,
    owner: Seq<u8>,
    quantity: u64,
    signer: Option<Seq<u8>>,
    destination: Option<Seq<u8>>,
)
    requires
        ledger.wf(),
        mint_outcome(ledger, owner, quantity, signer, destination) is Ok,
    ensures
        ({
            let address = destination.unwrap();
            let mint = ledger.mint.unwrap().address;
            let minted = mint_next(ledger, owner, quantity, signer, destination);
            let burned = burn_next(minted, address, mint, owner, quantity);
            &&& minted.mint.unwrap().supply == ledger.mint.unwrap().supply + quantity
            &&& burn_outcome(minted, address, mint, owner, quantity) is Ok
            &&& burned == open_next(ledger, destination, mint, owner)
            &&& burned.mint == ledger.mint
            &&& burned.holds(address)
            &&& burned.account(address).amount == if ledger.holds(address) {
                ledger.account(address).amount
            } else {
                0
            }
            &&& ledger.holds(address) ==> burned == ledger
        }),
{
    let address = destination.unwrap();
    let record = ledger.mint.unwrap();
    let opened = open_next(ledger, destination, record.address, owner);
    let minted = mint_next(ledger, owner, quantity, signer, destination);
    lemma_open_keeps_wf(ledger, destination, record.address, owner);
    lemma_mint_keeps_wf(ledger, owner, quantity, signer, destination);
    let i = opened.index_of(address);
    lemma_holds(opened, address);
    lemma_replace(opened, i, opened.accounts[i].credited(quantity));
    lemma_index_of(minted, address, i);
    let burned = burn_next(minted, address, record.address, owner, quantity);
    assert(burned.accounts =~= opened.accounts);
}

/// Minting the largest 64-bit quantity while there is supply never
/// succeeds and changes nothing; where the signer is the authority and the
/// account is there or creatable, the refusal is `Overflow`.
pub proof fn law_mint_overflow_refused(
    ledger: LedgerView,
    owner: Seq<u8>,
    signer: Option<Seq<u8>>,
    destination: Option<Seq<u8>>,
)
    requires
        ledger.mint matches Some(mint) && mint.supply > 0,
    ensures
        mint_outcome(ledger, owner, u64::MAX, signer, destination) is Err,
        mint_next(ledger, owner, u64::MAX, signer, destination) == ledger,
        (signer matches Some(s) && may_mint(ledger.mint.unwrap(), s)) && open_outcome(
            ledger,
            destination,
            ledger.mint.unwrap().address,
            owner,
        ) is Ok ==> mint_outcome(ledger, owner, u64::MAX, signer, destination) == Err::<
            (),
            CustomError,
        >(CustomError::Overflow),
{
}

/// A refused operation, whichever it is, leaves the ledger as it was.
pub proof fn law_refusal_changes_nothing(
    ledger: LedgerView,
    first: Seq<u8>,
    second: Seq<u8>,
    signer: Seq<u8>,
    amount: u64,
    decimals: u8,
    derived: Option<(Seq<u8>, u8)>,
    identity: Option<Seq<u8>>,
    destination: Option<Seq<u8>>,
)
    ensures
        init_outcome(ledger, derived) is Err ==> init_next(ledger, derived, decimals, first)
            == ledger,
        open_outcome(ledger, destination, first, second) is Err ==> open_next(
            ledger,
            destination,
            first,
            second,
        ) == ledger,
        mint_outcome(ledger, first, amount, identity, destination) is Err ==> mint_next(
            ledger,
            first,
            amount,
            identity,
            destination,
        ) == ledger,
        transfer_outcome(ledger, first, second, signer, amount) is Err ==> transfer_next(
            ledger,
            first,
            second,
            signer,
            amount,
        ) == ledger,
        burn_outcome(ledger, first, second, signer, amount) is Err ==> burn_next(
            ledger,
            first,
            second,
            signer,
            amount,
        ) == ledger,
        approve_outcome(ledger, first, signer) is Err ==> approve_next(
            ledger,
            first,
            signer,
            second,
            amount,
        ) == ledger,
{
}

} // verus!

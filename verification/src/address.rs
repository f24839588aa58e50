use anchor_lang::prelude::Pubkey;
use vstd::prelude::*;

verus! {

/// Identity of a record, a program or a party: thirty-two bytes.
#[derive(Clone, Copy, Debug)]
pub struct Address {
    pub bytes: [u8; 32],
}

impl View for Address {
    type V = Seq<u8>;

    open spec fn view(&self) -> Seq<u8> {
        self.bytes@
    }
}

impl PartialEq for Address {
    /// Two addresses are equal when all their bytes are.
    fn eq(&self, other: &Self) -> (same: bool) {
        let mut i: usize = 0;
        while i < 32
            invariant
                i <= 32,
                forall|k: int| 0 <= k < i ==> self.bytes@[k] == other.bytes@[k],
            decreases 32 - i,
        {
            if self.bytes[i] != other.bytes[i] {
                return false;
            }
            i += 1;
        }
        assert(self.bytes@ =~= other.bytes@);
        true
    }
}

impl Eq for Address {

}

impl vstd::std_specs::cmp::PartialEqSpecImpl for Address {
    open spec fn obeys_eq_spec() -> bool {
        true
    }

    open spec fn eq_spec(&self, other: &Self) -> bool {
        self@ == other@
    }
}

impl Address {
    /// The address made of `bytes`.
    pub fn new(bytes: [u8; 32]) -> (address: Address)
        ensures
            address@ == bytes@,
            address.bytes == bytes,
    {
        Address { bytes }
    }

    /// The bytes of the address, in a vector: the form in which an address
    /// enters a derivation as a seed.
    pub fn to_vec(&self) -> (seed: Vec<u8>)
        ensures
            seed@ == self@,
    {
        let mut seed: Vec<u8> = Vec::new();
        let mut i: usize = 0;
        while i < 32
            invariant
                i <= 32,
                seed@.len() == i,
                forall|k: int| 0 <= k < i ==> seed@[k] == self.bytes@[k],
            decreases 32 - i,
        {
            seed.push(self.bytes[i]);
            i += 1;
        }
        assert(seed@ =~= self.bytes@);
        seed
    }
}

/// The three programs that a deployment of the ledger is bound to.
#[derive(Clone, Copy, Debug, PartialEq, Eq)]
pub struct Deployment {
    /// The program that owns the ledger; token type and signing identity are
    /// derived from it.
    pub program_id: Address,
    /// The program under which holder accounts are denominated.
    pub token_program: Address,
    /// The program under which holder account addresses are derived.
    pub associated_token_program: Address,
}

/// Mathematical value of a `Deployment`.
pub struct DeploymentView {
    pub program_id: Seq<u8>,
    pub token_program: Seq<u8>,
    pub associated_token_program: Seq<u8>,
}

impl View for Deployment {
    type V = DeploymentView;

    open spec fn view(&self) -> DeploymentView {
        DeploymentView {
            program_id: self.program_id@,
            token_program: self.token_program@,
            associated_token_program: self.associated_token_program@,
        }
    }
}

/// The seeds of a derivation as sequences of bytes.
pub open spec fn seed_bytes(seeds: Seq<Vec<u8>>) -> Seq<Seq<u8>> {
    Seq::new(seeds.len(), |i: int| seeds[i]@)
}

/// The program-derived address for `seeds` under `program_id`, with the bump
/// seed that yields it; `None` where the seeds admit no such address.
pub uninterp spec fn program_address(seeds: Seq<Seq<u8>>, program_id: Seq<u8>) -> Option<
    (Seq<u8>, u8),
>;

/// Calls `Pubkey::try_find_program_address`, which `anchor_lang` hands on
/// from `solana_program`. Not proved, but taken on trust: off chain the call
/// hashes the seeds, a bump seed and the program id and tests the digest
/// against the curve, so what it returns depends on its arguments alone and
/// is `program_address` of them: the address and bump seed that it found, or
/// `None`. Nothing is claimed of which address that is. The call returns for
/// every argument; seeds that are too many or too long give `None`.
#[verifier::external_body]
pub(crate) fn find_program_address(seeds: &Vec<Vec<u8>>, program_id: &Address) -> (found: Option<
    (Address, u8),
>)
    ensures
        match found {
            Some((address, bump)) => program_address(seed_bytes(seeds@), program_id@) == Some(
                (address@, bump),
            ),
            None => program_address(seed_bytes(seeds@), program_id@) is None,
        },
{
    let parts: Vec<&[u8]> = seeds.iter().map(|seed| seed.as_slice()).collect();
    let program = Pubkey::new_from_array(program_id.bytes);
    Pubkey::try_find_program_address(&parts, &program).map(
        |(key, bump)| (Address { bytes: key.to_bytes() }, bump),
    )
}

/// The seed from which the token type's address is derived: the ASCII bytes
/// of `mint`.
pub open spec fn mint_seed() -> Seq<u8> {
    seq![109u8, 105u8, 110u8, 116u8]
}

/// Address of the token type of the deployment owned by `program_id`, with
/// its bump seed. The same address is the only identity that may mint.
pub open spec fn mint_address(program_id: Seq<u8>) -> Option<(Seq<u8>, u8)> {
    program_address(seq![mint_seed()], program_id)
}

/// Address of the account in which `owner` holds tokens of `mint`.
pub open spec fn account_address(deployment: DeploymentView, mint: Seq<u8>, owner: Seq<u8>) -> Option<
    Seq<u8>,
> {
    match program_address(
        seq![owner, deployment.token_program, mint],
        deployment.associated_token_program,
    ) {
        Some((address, _)) => Some(address),
        None => None,
    }
}

/// Mathematical value of an optional address.
pub open spec fn address_view(address: Option<Address>) -> Option<Seq<u8>> {
    match address {
        Some(a) => Some(a@),
        None => None,
    }
}

/// Mathematical value of an optional address with its bump seed.
pub open spec fn derived_view(derived: Option<(Address, u8)>) -> Option<(Seq<u8>, u8)> {
    match derived {
        Some((address, bump)) => Some((address@, bump)),
        None => None,
    }
}

/// Derives the address of the deployment's token type, with its bump seed.
pub fn derive_mint_address(program_id: &Address) -> (derived: Option<(Address, u8)>)
    ensures
        derived_view(derived) == mint_address(program_id@),
{
    let mut seed: Vec<u8> = Vec::new();
    seed.push(109u8);
    seed.push(105u8);
    seed.push(110u8);
    seed.push(116u8);
    let mut seeds: Vec<Vec<u8>> = Vec::new();
    seeds.push(seed);
    assert(seed_bytes(seeds@) =~~= seq![mint_seed()]);
    find_program_address(&seeds, program_id)
}

/// Derives the address of the account in which `owner` holds tokens of `mint`.
pub fn derive_account_address(deployment: &Deployment, mint: &Address, owner: &Address) -> (derived:
    Option<Address>)
    ensures
        address_view(derived) == account_address(deployment@, mint@, owner@),
{
    let mut seeds: Vec<Vec<u8>> = Vec::new();
    seeds.push(owner.to_vec());
    seeds.push(deployment.token_program.to_vec());
    seeds.push(mint.to_vec());
    assert(seed_bytes(seeds@) =~~= seq![owner@, deployment.token_program@, mint@]);
    match find_program_address(&seeds, &deployment.associated_token_program) {
        Some((address, _)) => Some(address),
        None => None,
    }
}

} // verus!

use crate::address::Address;
use vstd::prelude::*;

verus! {

/// Who takes part in creating the token type.
#[derive(Clone, Copy, Debug, PartialEq, Eq)]
pub struct InitToken {
    /// Where the descriptive record of the token type is to be kept.
    pub metadata: Address,
    /// Who pays for the new records.
    pub payer: Address,
}

/// Who takes part in minting.
#[derive(Clone, Copy, Debug, PartialEq, Eq)]
pub struct MintTokens {
    /// Whose account receives the new tokens.
    pub owner: Address,
    /// Who pays for the account if it has to be created.
    pub payer: Address,
}

/// Who takes part in a transfer.
#[derive(Clone, Copy, Debug, PartialEq, Eq)]
pub struct TransferTokens {
    /// The account that pays.
    pub from: Address,
    /// The account that receives.
    pub to: Address,
    /// The signer; must own `from`.
    pub owner: Address,
}

/// Who takes part in a burn.
#[derive(Clone, Copy, Debug, PartialEq, Eq)]
pub struct BurnTokens {
    /// The signer; must own `from`.
    pub owner: Address,
    /// The account whose tokens are destroyed.
    pub from: Address,
    /// The token type whose supply shrinks.
    pub mint: Address,
}

/// Who takes part in a delegation.
#[derive(Clone, Copy, Debug, PartialEq, Eq)]
pub struct ApproveTokens {
    /// The signer; must own `to`.
    pub owner: Address,
    /// The account that is opened to the delegate.
    pub to: Address,
    /// Who may spend from the account.
    pub delegate: Address,
}

/// How the token type is to be described and divided.
#[derive(Clone, Debug, PartialEq, Eq)]
pub struct InitTokenParams {
    pub name: String,
    pub symbol: String,
    pub uri: String,
    pub decimals: u8,
}

/// What the metadata registry is asked to record for a new token type. The
/// request names no creators, no collection and no uses, and is signed by the
/// token type itself: `bump` completes the seeds of that signature.
#[derive(Clone, Debug, PartialEq, Eq)]
pub struct MetadataRequest {
    /// The token type described; also the authority that signs and that may
    /// update the record.
    pub mint: Address,
    /// The bump seed of `mint`.
    pub bump: u8,
    /// Where the record is kept.
    pub metadata: Address,
    /// Who pays for the record.
    pub payer: Address,
    pub name: String,
    pub symbol: String,
    pub uri: String,
    /// Always zero: no fee is taken from sales.
    pub seller_fee_basis_points: u16,
    /// Always false: the record is written once.
    pub is_mutable: bool,
    /// Always true.
    pub update_authority_is_signer: bool,
}

/// Mathematical value of a `MetadataRequest`.
pub struct MetadataRequestView {
    pub mint: Seq<u8>,
    pub bump: u8,
    pub metadata: Seq<u8>,
    pub payer: Seq<u8>,
    pub name: Seq<char>,
    pub symbol: Seq<char>,
    pub uri: Seq<char>,
    pub seller_fee_basis_points: u16,
    pub is_mutable: bool,
    pub update_authority_is_signer: bool,
}

impl View for MetadataRequest {
    type V = MetadataRequestView;

    open spec fn view(&self) -> MetadataRequestView {
        MetadataRequestView {
            mint: self.mint@,
            bump: self.bump,
            metadata: self.metadata@,
            payer: self.payer@,
            name: self.name@,
            symbol: self.symbol@,
            uri: self.uri@,
            seller_fee_basis_points: self.seller_fee_basis_points,
            is_mutable: self.is_mutable,
            update_authority_is_signer: self.update_authority_is_signer,
        }
    }
}

/// The request that goes with the creation of the token type `mint`.
pub open spec fn registration(
    mint: Seq<u8>,
    bump: u8,
    metadata: Seq<u8>,
    payer: Seq<u8>,
    name: Seq<char>,
    symbol: Seq<char>,
    uri: Seq<char>,
) -> MetadataRequestView {
    MetadataRequestView {
        mint,
        bump,
        metadata,
        payer,
        name,
        symbol,
        uri,
        seller_fee_basis_points: 0,
        is_mutable: false,
        update_authority_is_signer: true,
    }
}

} // verus!

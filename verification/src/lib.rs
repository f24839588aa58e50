//! A minimal fungible-token ledger: one token type per deployment, holder
//! accounts at derived addresses, and five operations (initialise, mint,
//! transfer, burn, approve) with their authorisation rules.
//!
//! Every operation is all-or-nothing: it either applies in full or leaves the
//! ledger exactly as it was and reports why.

pub mod account;
pub mod address;
pub mod auth;
pub mod error;
pub mod laws;
pub mod ledger;
pub mod mint;
pub mod model;
pub mod ops;
pub mod request;

pub use account::TokenAccount;
pub use address::{Address, Deployment};
pub use error::CustomError;
pub use ledger::Ledger;
pub use mint::Mint;
pub use ops::{
    approve_tokens, burn_tokens, get_or_create_account, get_or_create_account_at, init_token,
    init_token_at, mint_tokens, mint_tokens_with, transfer_tokens,
};
pub use request::{
    ApproveTokens, BurnTokens, InitToken, InitTokenParams, MetadataRequest, MintTokens,
    TransferTokens,
};

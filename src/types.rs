use std::collections::HashMap;
use vstd::prelude::*;

verus! {

/// Name of the token standard that mint events follow.
pub const NFT_STANDARD_NAME: &'static str = "nep171";

/// Version of the token metadata standard that mint events declare.
pub const NFT_METADATA_SPEC: &'static str = "nft-1.0.0";

/// Arguments that an upstream relayer injects into a mint call, naming which
/// parameter of the call holds which value.
#[derive(Debug, Clone)]
pub struct KeypomArgs {
    pub account_id_field: Option<String>,
    pub drop_id_field: Option<String>,
    pub key_id_field: Option<String>,
}

/// Descriptive fields shared by every token of a series.
#[derive(Debug, Clone)]
pub struct TokenMetadata {
    pub title: Option<String>,
    pub description: Option<String>,
    pub media: Option<String>,
    pub media_hash: Option<Vec<u8>>,
    /// Upper bound on the number of tokens of the series, if any.
    pub copies: Option<u64>,
    pub issued_at: Option<u64>,
    pub expires_at: Option<u64>,
    pub starts_at: Option<u64>,
    pub updated_at: Option<u64>,
    pub extra: Option<String>,
    pub reference: Option<String>,
    pub reference_hash: Option<Vec<u8>>,
}

/// A mintable collection.
#[derive(Debug, Clone)]
pub struct Series {
    /// The external identifier that currently resolves to this series.
    pub mint_id: u64,
    pub metadata: TokenMetadata,
    /// Perpetual royalty split, fixed at creation.
    pub royalty: Option<HashMap<String, u32>>,
    /// Identifiers of the tokens issued so far, in order of issue.
    pub tokens: Vec<String>,
    /// The creator of the series.
    pub owner_id: String,
}

/// One issued token.
#[derive(Debug, Clone)]
pub struct Token {
    pub series_id: u64,
    pub owner_id: String,
    pub approved_account_ids: HashMap<String, u64>,
    pub next_approval_id: u64,
}

/// The record of one mint, as the event log carries it.
#[derive(Debug, Clone)]
pub struct NftMintLog {
    pub owner_id: String,
    pub token_ids: Vec<String>,
    pub memo: Option<String>,
}

/// A structured event of the token standard.
#[derive(Debug, Clone)]
pub struct EventLog {
    pub standard: String,
    pub version: String,
    pub event: Vec<NftMintLog>,
}

/// Why a state transition was refused. On any of them the state is left
/// as it was.
#[derive(Debug, Clone, Copy, PartialEq, Eq, Structural)]
pub enum ContractError {
    Unauthorized,
    DuplicateMintId,
    DuplicateSeriesId,
    DuplicateTokenId,
    UnknownMintId,
    UnknownSeries,
    SupplyExhausted,
    InsufficientDeposit,
    MalformedIntegrityPayload,
}

} // verus!

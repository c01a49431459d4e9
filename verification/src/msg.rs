//! Inbound message shapes: what callers and external asset contracts hand
//! to the engine, and the read-only query surface.

use vstd::prelude::*;

verus! {

/// The sender of the current invocation, as the host reports it.
#[derive(Debug, Clone, PartialEq)]
pub struct MessageInfo {
    pub sender: String,
}

/// The execution environment of the current invocation; only this
/// system's own address is read.
#[derive(Debug, Clone, PartialEq)]
pub struct Env {
    pub contract_address: String,
}

/// Instantiation parameters of the bundle-token registry.
#[derive(Debug, Clone, PartialEq)]
pub struct InstantiateMsg {
    pub name: String,
    pub symbol: String,
    pub minter: String,
}

/// The parameters of one token mint in the registry.
#[derive(Debug, Clone, PartialEq)]
pub struct Cw721MintMsg {
    /// The identifier of the new token; doubles as a bundle identifier.
    pub token_id: String,
    /// The owner the new token is minted to.
    pub owner: String,
    /// Opaque metadata link, stored but never read by the engine.
    pub token_uri: Option<String>,
}

/// A request to mint a new token through the registry.
#[derive(Debug, Clone, PartialEq)]
pub struct MintMsg {
    pub base: Cw721MintMsg,
}

/// A fungible-token deposit notification: the asset contract has already
/// moved `amount` units into this system's custody and reports it, with a
/// caller payload naming the target bundle.
#[derive(Debug, Clone, PartialEq)]
pub struct Cw20ReceiveMsg {
    pub sender: String,
    pub amount: u128,
    pub msg: Vec<u8>,
}

/// A non-fungible-token deposit notification.
#[derive(Debug, Clone, PartialEq)]
pub struct Cw721ReceiveMsg {
    pub sender: String,
    pub token_id: String,
    pub msg: Vec<u8>,
}

/// A semi-fungible-token batch deposit notification.
#[derive(Debug, Clone, PartialEq)]
pub struct Cw1155BatchReceiveMsg {
    pub operator: String,
    pub from: Option<String>,
    pub batch: Vec<(String, u128)>,
    pub msg: Vec<u8>,
}

/// Every state-changing invocation the engine accepts.
#[derive(Debug, Clone, PartialEq)]
pub enum ExecuteMsg {
    Mint(MintMsg),
    Receive(Cw20ReceiveMsg),
    ReceiveNft(Cw721ReceiveMsg),
    BatchReceive(Cw1155BatchReceiveMsg),
    Withdraw { bundle_id: String },
}

/// The read-only query surface, mirroring the registry's.
#[derive(Debug, Clone, PartialEq)]
pub enum QueryMsg {
    /// The owner of the given token; an error if the token does not exist.
    OwnerOf { token_id: String, include_expired: Option<bool> },
    /// The operators with full control over the owner's tokens; this
    /// engine grants none, so the answer is always empty.
    ApprovedForAll {
        owner: String,
        include_expired: Option<bool>,
        start_after: Option<String>,
        limit: Option<u32>,
    },
    /// The total number of tokens minted.
    NumTokens {},
    /// The name and symbol of the registry.
    ContractInfo {},
    /// The metadata of one token.
    NftInfo { token_id: String },
    /// The owner and the metadata of one token in one answer.
    AllNftInfo { token_id: String, include_expired: Option<bool> },
    /// The tokens of the given owner, ascending, paginated.
    Tokens { owner: String, start_after: Option<String>, limit: Option<u32> },
    /// All token identifiers, ascending, paginated.
    AllTokens { start_after: Option<String>, limit: Option<u32> },
    /// The address allowed to mint.
    Minter {},
}

/// The answer to a [`QueryMsg`], one variant per query.
#[derive(Debug, Clone, PartialEq)]
pub enum QueryAnswer {
    OwnerOf { owner: String },
    ApprovedForAll { operators: Vec<String> },
    NumTokens { count: usize },
    ContractInfo { name: String, symbol: String },
    NftInfo { token_uri: Option<String> },
    AllNftInfo { owner: String, token_uri: Option<String> },
    Tokens { tokens: Vec<String> },
    Minter { minter: String },
}

} // verus!

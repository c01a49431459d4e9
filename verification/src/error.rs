//! The error taxonomy of the engine: unauthorized actors, missing bundle
//! tokens, already-claimed token identifiers, and malformed deposit
//! payloads.

use vstd::prelude::*;

verus! {

/// An error surfaced from the underlying store model. The only one the
/// engine can produce is a lookup of an absent bundle token.
#[derive(Debug, Clone, PartialEq)]
pub enum StdError {
    NotFound {},
}

/// Everything an engine operation can fail with.
#[derive(Debug, Clone, PartialEq)]
pub enum ContractError {
    /// An underlying-store error, surfaced verbatim.
    Std(StdError),
    /// The actor is not the current owner of the bundle token, or the
    /// minter check failed.
    Unauthorized {},
    /// A mint named a token identifier that already exists.
    Claimed {},
    /// An approval expired; kept for interface compatibility, never
    /// produced by this engine.
    Expired {},
    /// A deposit payload was not valid base64.
    DecodeError {},
    /// A deposit payload did not decode to a bundle identifier.
    SerdeJsonError {},
}

impl ContractError {
    /// A short description, in place of trait-based formatting.
    pub fn describe(&self) -> (s: String)
        ensures
            match self {
                ContractError::Std(StdError::NotFound {}) => s@ == "NotFound"@,
                ContractError::Unauthorized {} => s@ == "Unauthorized"@,
                ContractError::Claimed {} => s@ == "Claimed"@,
                ContractError::Expired {} => s@ == "Expired"@,
                ContractError::DecodeError {} => s@ == "DecodeError"@,
                ContractError::SerdeJsonError {} => s@ == "SerdeJsonError"@,
            },
    {
        match self {
            ContractError::Std(StdError::NotFound {}) => "NotFound".to_owned(),
            ContractError::Unauthorized {} => "Unauthorized".to_owned(),
            ContractError::Claimed {} => "Claimed".to_owned(),
            ContractError::Expired {} => "Expired".to_owned(),
            ContractError::DecodeError {} => "DecodeError".to_owned(),
            ContractError::SerdeJsonError {} => "SerdeJsonError".to_owned(),
        }
    }
}

} // verus!

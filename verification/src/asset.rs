//! Asset wrapper records: per-asset-class snapshots of one deposit event,
//! recording enough to later reverse the deposit (source contract identity,
//! and the quantity or token identity as applicable).

use vstd::prelude::*;

verus! {

/// A recorded deposit of a fungible token: `amount` units owed back from
/// `contract_address`.
#[derive(Debug, Clone, PartialEq)]
pub struct CW20Wrapper {
    pub contract_address: String,
    pub amount: u128,
}

/// The mathematical value of a [`CW20Wrapper`].
pub struct CW20WrapperV {
    pub contract_address: Seq<char>,
    pub amount: u128,
}

impl DeepView for CW20Wrapper {
    type V = CW20WrapperV;

    open spec fn deep_view(&self) -> CW20WrapperV {
        CW20WrapperV { contract_address: self.contract_address@, amount: self.amount }
    }
}

/// A recorded deposit of a non-fungible token: token `token_id` owed back
/// from `contract_address`.
#[derive(Debug, Clone, PartialEq)]
pub struct CW721Wrapper {
    pub contract_address: String,
    pub token_id: String,
}

/// The mathematical value of a [`CW721Wrapper`].
pub struct CW721WrapperV {
    pub contract_address: Seq<char>,
    pub token_id: Seq<char>,
}

impl DeepView for CW721Wrapper {
    type V = CW721WrapperV;

    open spec fn deep_view(&self) -> CW721WrapperV {
        CW721WrapperV { contract_address: self.contract_address@, token_id: self.token_id@ }
    }
}

/// A recorded deposit of a semi-fungible token: `amount` units of token
/// `token_id` owed back from `contract_address`.
#[derive(Debug, Clone, PartialEq)]
pub struct CW1155Wrapper {
    pub contract_address: String,
    pub token_id: String,
    pub amount: u128,
}

/// The mathematical value of a [`CW1155Wrapper`].
pub struct CW1155WrapperV {
    pub contract_address: Seq<char>,
    pub token_id: Seq<char>,
    pub amount: u128,
}

impl DeepView for CW1155Wrapper {
    type V = CW1155WrapperV;

    open spec fn deep_view(&self) -> CW1155WrapperV {
        CW1155WrapperV {
            contract_address: self.contract_address@,
            token_id: self.token_id@,
            amount: self.amount,
        }
    }
}

} // verus!

//! A multi-asset escrow engine: heterogeneous digital assets (fungible,
//! non-fungible and semi-fungible tokens) are grouped under a named bundle,
//! itself represented as a non-fungible token, and the bundle's owner can
//! later reclaim every deposited asset in one atomic withdrawal.

pub mod asset;
pub mod decimal;
pub mod contract;
pub mod error;
pub mod laws;
pub mod msg;
pub mod payload;
pub mod response;
pub mod state;
pub mod store;
pub mod text;


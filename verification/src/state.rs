//! The persisted state the engine works on: the bundle-token registry it
//! embeds, and the bundle ledger with its three per-asset-class
//! partitions.

use vstd::prelude::*;

use crate::asset::{CW1155Wrapper, CW1155WrapperV, CW20Wrapper, CW20WrapperV, CW721Wrapper,
    CW721WrapperV};
use crate::store::StoreMap;

verus! {

/// What the registry records about one minted token.
#[derive(Debug, Clone, PartialEq)]
pub struct TokenInfo {
    /// The current owner; for a bundle token, the one actor allowed to
    /// deposit and withdraw.
    pub owner: String,
    /// Opaque metadata link, stored but never read by the engine.
    pub token_uri: Option<String>,
}

/// The mathematical value of a [`TokenInfo`].
pub struct TokenInfoV {
    pub owner: Seq<char>,
    pub token_uri: Option<Seq<char>>,
}

impl DeepView for TokenInfo {
    type V = TokenInfoV;

    open spec fn deep_view(&self) -> TokenInfoV {
        TokenInfoV { owner: self.owner@, token_uri: self.token_uri.deep_view() }
    }
}

/// The embedded bundle-token registry: contract metadata, the minting
/// address, and the minted tokens by identifier.
pub struct TokenRegistry {
    pub name: String,
    pub symbol: String,
    pub minter: String,
    pub tokens: StoreMap<TokenInfo>,
}

/// The bundle ledger: three independent partitions, each mapping a bundle
/// identifier to the append-ordered records of one asset class.
pub struct BundleLedger {
    pub cw20_bundle: StoreMap<Vec<CW20Wrapper>>,
    pub cw721_bundle: StoreMap<Vec<CW721Wrapper>>,
    pub cw1155_bundle: StoreMap<Vec<CW1155Wrapper>>,
}

/// Everything this system persists.
pub struct ContractStorage {
    pub tokens: TokenRegistry,
    pub ledger: BundleLedger,
}

impl ContractStorage {
    /// Well-formed: every keyed collection has unique keys.
    pub open spec fn wf(&self) -> bool {
        &&& self.tokens.tokens.wf()
        &&& self.ledger.cw20_bundle.wf()
        &&& self.ledger.cw721_bundle.wf()
        &&& self.ledger.cw1155_bundle.wf()
    }

    /// The fungible records of bundle `b`: the stored sequence, or empty
    /// where the partition holds no entry for `b`.
    pub open spec fn cw20_records(&self, b: Seq<char>) -> Seq<CW20WrapperV> {
        if self.ledger.cw20_bundle@.contains_key(b) {
            self.ledger.cw20_bundle@[b]
        } else {
            Seq::empty()
        }
    }

    /// The non-fungible records of bundle `b`, or empty.
    pub open spec fn cw721_records(&self, b: Seq<char>) -> Seq<CW721WrapperV> {
        if self.ledger.cw721_bundle@.contains_key(b) {
            self.ledger.cw721_bundle@[b]
        } else {
            Seq::empty()
        }
    }

    /// The semi-fungible records of bundle `b`, or empty.
    pub open spec fn cw1155_records(&self, b: Seq<char>) -> Seq<CW1155WrapperV> {
        if self.ledger.cw1155_bundle@.contains_key(b) {
            self.ledger.cw1155_bundle@[b]
        } else {
            Seq::empty()
        }
    }

    /// An empty store: no metadata, no tokens, no deposits.
    pub fn new() -> (s: ContractStorage)
        ensures
            s.wf(),
            s.tokens.name@ == Seq::<char>::empty(),
            s.tokens.symbol@ == Seq::<char>::empty(),
            s.tokens.minter@ == Seq::<char>::empty(),
            s.tokens.tokens@ == Map::<Seq<char>, TokenInfoV>::empty(),
            s.tokens.tokens.num_entries() == 0,
            s.ledger.cw20_bundle@ == Map::<Seq<char>, Seq<CW20WrapperV>>::empty(),
            s.ledger.cw721_bundle@ == Map::<Seq<char>, Seq<CW721WrapperV>>::empty(),
            s.ledger.cw1155_bundle@ == Map::<Seq<char>, Seq<CW1155WrapperV>>::empty(),
    {
        ContractStorage {
            tokens: TokenRegistry {
                name: String::new(),
                symbol: String::new(),
                minter: String::new(),
                tokens: StoreMap::new(),
            },
            ledger: BundleLedger {
                cw20_bundle: StoreMap::new(),
                cw721_bundle: StoreMap::new(),
                cw1155_bundle: StoreMap::new(),
            },
        }
    }
}

} // verus!

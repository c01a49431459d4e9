//! The deposit and withdrawal engine: validates deposit notifications,
//! appends to the bundle ledger, and on withdrawal drains the ledger and
//! emits the outbound transfer instructions.
//!
//! Authorization is re-derived on every deposit and withdrawal from the
//! bundle token's current recorded owner, never cached, so transferring
//! the bundle token transfers the rights to its contents.

use vstd::prelude::*;

use crate::asset::{CW1155Wrapper, CW1155WrapperV, CW20Wrapper, CW20WrapperV, CW721Wrapper,
    CW721WrapperV};
use crate::decimal::{dec_chars, u128_to_string};
use crate::error::{ContractError, StdError};
use crate::msg::{Cw1155BatchReceiveMsg, Cw20ReceiveMsg, Cw721ReceiveMsg, Env, ExecuteMsg,
    InstantiateMsg, MessageInfo, MintMsg, QueryAnswer, QueryMsg};
use crate::payload::{encode64_of, from_base64, parse_deposit_payload, spec_parse_payload,
    to_base64};
use crate::store::StoreMap;
use crate::text::{lemma_lex_total, lemma_lex_trans, lex_lt, str_lt};
use crate::response::{AttributeV, Response, ResponseV, TransferInstruction,
    TransferInstructionV};
use crate::state::{ContractStorage, TokenInfo, TokenInfoV};

verus! {

// ---------------------------------------------------------------------
// Attribute shapes
// ---------------------------------------------------------------------

/// The attributes of a successful fungible deposit notification.
pub open spec fn deposit_cw20_attrs(
    sender: Seq<char>,
    contract_sender: Seq<char>,
    amount: u128,
    bundle_id: Seq<char>,
) -> Seq<AttributeV> {
    seq![
        AttributeV { key: "action"@, value: "deposit_cw20"@ },
        AttributeV { key: "sender"@, value: sender },
        AttributeV { key: "contract_sender"@, value: contract_sender },
        AttributeV { key: "amount"@, value: dec_chars(amount as nat) },
        AttributeV { key: "bundle_id"@, value: bundle_id },
    ]
}

/// The attributes of a successful non-fungible deposit notification.
pub open spec fn deposit_cw721_attrs(
    sender: Seq<char>,
    contract_sender: Seq<char>,
    token_id: Seq<char>,
    bundle_id: Seq<char>,
) -> Seq<AttributeV> {
    seq![
        AttributeV { key: "action"@, value: "deposit_cw721"@ },
        AttributeV { key: "sender"@, value: sender },
        AttributeV { key: "contract_sender"@, value: contract_sender },
        AttributeV { key: "token_id"@, value: token_id },
        AttributeV { key: "bundle_id"@, value: bundle_id },
    ]
}

/// The attributes of a successful semi-fungible batch deposit
/// notification.
pub open spec fn deposit_cw1155_attrs(
    sender: Seq<char>,
    contract_sender: Seq<char>,
    bundle_id: Seq<char>,
) -> Seq<AttributeV> {
    seq![
        AttributeV { key: "action"@, value: "deposit_cw1155"@ },
        AttributeV { key: "sender"@, value: sender },
        AttributeV { key: "contract_sender"@, value: contract_sender },
        AttributeV { key: "bundle_id"@, value: bundle_id },
    ]
}

/// The attributes of a successful mint.
pub open spec fn mint_attrs(minter: Seq<char>, token_id: Seq<char>) -> Seq<AttributeV> {
    seq![
        AttributeV { key: "action"@, value: "mint"@ },
        AttributeV { key: "minter"@, value: minter },
        AttributeV { key: "token_id"@, value: token_id },
    ]
}

/// The single `method` attribute the pull-style deposits and the
/// withdrawal carry.
pub open spec fn method_attrs(name: Seq<char>) -> Seq<AttributeV> {
    seq![AttributeV { key: "method"@, value: name }]
}

// ---------------------------------------------------------------------
// Authorization guard
// ---------------------------------------------------------------------

/// Whether `actor` may deposit into the bundle of `token`: only the
/// current owner of the bundle token.
pub open spec fn can_deposit(token: TokenInfoV, actor: Seq<char>) -> bool {
    token.owner == actor
}

/// Whether `actor` may withdraw the bundle of `token`: the same rule.
pub open spec fn can_withdraw(token: TokenInfoV, actor: Seq<char>) -> bool {
    token.owner == actor
}

/// Only the current owner of the bundle token may deposit into it.
pub fn check_can_deposit(token: &TokenInfo, sender: String) -> (r: Result<(), ContractError>)
    ensures
        r is Ok <==> can_deposit(token.deep_view(), sender@),
        r is Err ==> r == Err::<(), ContractError>(ContractError::Unauthorized {}),
{
    if token.owner == sender {
        return Ok(());
    }
    Err(ContractError::Unauthorized {})
}

/// Only the current owner of the bundle token may withdraw it.
pub fn check_can_withdraw(info: &MessageInfo, token: &TokenInfo) -> (r: Result<
    (),
    ContractError,
>)
    ensures
        r is Ok <==> can_withdraw(token.deep_view(), info.sender@),
        r is Err ==> r == Err::<(), ContractError>(ContractError::Unauthorized {}),
{
    if token.owner == info.sender {
        return Ok(());
    }
    Err(ContractError::Unauthorized {})
}

// ---------------------------------------------------------------------
// Instantiation and minting
// ---------------------------------------------------------------------

/// What `instantiate` does: records the registry metadata and the
/// minting address, touches nothing else, and answers with an empty
/// response.
pub open spec fn spec_instantiate(
    pre: ContractStorage,
    post: ContractStorage,
    msg: InstantiateMsg,
    r: Result<Response, StdError>,
) -> bool {
    &&& post.tokens.name == msg.name
    &&& post.tokens.symbol == msg.symbol
    &&& post.tokens.minter == msg.minter
    &&& post.tokens.tokens == pre.tokens.tokens
    &&& post.ledger == pre.ledger
    &&& r is Ok
    &&& r->Ok_0.deep_view() == crate::response::empty_response()
}

/// Records the registry metadata and the minting address.
pub fn instantiate(
    storage: &mut ContractStorage,
    _env: Env,
    _info: MessageInfo,
    msg: InstantiateMsg,
) -> (r: Result<Response, StdError>)
    requires
        old(storage).wf(),
    ensures
        final(storage).wf(),
        spec_instantiate(*old(storage), *final(storage), msg, r),
{
    let InstantiateMsg { name, symbol, minter } = msg;
    storage.tokens.name = name;
    storage.tokens.symbol = symbol;
    storage.tokens.minter = minter;
    Ok(Response::default())
}

/// What `mint` does: only the recorded minter may mint, a taken token
/// identifier is refused as claimed, and otherwise the token is recorded
/// with the requested owner and metadata.
pub open spec fn spec_mint(
    pre: ContractStorage,
    post: ContractStorage,
    info: MessageInfo,
    msg: MintMsg,
    r: Result<Response, ContractError>,
) -> bool {
    if info.sender@ != pre.tokens.minter@ {
        r == Err::<Response, ContractError>(ContractError::Unauthorized {}) && post == pre
    } else if pre.tokens.tokens@.contains_key(msg.base.token_id@) {
        r == Err::<Response, ContractError>(ContractError::Claimed {}) && post == pre
    } else {
        &&& post.tokens.tokens@ == pre.tokens.tokens@.insert(
            msg.base.token_id@,
            TokenInfoV { owner: msg.base.owner@, token_uri: msg.base.token_uri.deep_view() },
        )
        &&& post.tokens.tokens.num_entries() == pre.tokens.tokens.num_entries() + 1
        &&& post.tokens.name == pre.tokens.name
        &&& post.tokens.symbol == pre.tokens.symbol
        &&& post.tokens.minter == pre.tokens.minter
        &&& post.ledger == pre.ledger
        &&& r is Ok
        &&& r->Ok_0.deep_view() == ResponseV {
            messages: Seq::empty(),
            attributes: mint_attrs(info.sender@, msg.base.token_id@),
        }
    }
}

/// Mints a new token through the embedded registry; minting a bundle
/// token is the same act, nothing distinguishes one until assets are
/// deposited under its identifier.
pub fn mint(storage: &mut ContractStorage, _env: Env, info: MessageInfo, msg: MintMsg) -> (r:
    Result<Response, ContractError>)
    requires
        old(storage).wf(),
    ensures
        final(storage).wf(),
        spec_mint(*old(storage), *final(storage), info, msg, r),
{
    if !(info.sender == storage.tokens.minter) {
        return Err(ContractError::Unauthorized {});
    }
    if storage.tokens.tokens.contains(&msg.base.token_id) {
        return Err(ContractError::Claimed {});
    }
    let token = TokenInfo { owner: msg.base.owner, token_uri: msg.base.token_uri };
    storage.tokens.tokens.save(&msg.base.token_id, token);
    let resp = Response::new()
        .add_attribute("action", "mint".to_owned())
        .add_attribute("minter", info.sender)
        .add_attribute("token_id", msg.base.token_id);
    proof {
        assert(resp.deep_view().attributes =~= mint_attrs(info.sender@, msg.base.token_id@));
    }
    Ok(resp)
}

// ---------------------------------------------------------------------
// Deposit notifications (receiver-hook pattern)
// ---------------------------------------------------------------------

/// What `receive_cw20` does. The asset contract has already moved the
/// units into custody; here the deposit is recorded, or refused with no
/// ledger mutation: a payload that does not decode is rejected, a bundle
/// token that does not exist is not found, and a depositor who is not
/// the bundle-token owner is unauthorized.
pub open spec fn spec_receive_cw20(
    pre: ContractStorage,
    post: ContractStorage,
    info: MessageInfo,
    msg: Cw20ReceiveMsg,
    r: Result<Response, ContractError>,
) -> bool {
    match spec_parse_payload(msg.msg@) {
        Some(bid) => {
            if !pre.tokens.tokens@.contains_key(bid) {
                r == Err::<Response, ContractError>(ContractError::Std(StdError::NotFound {}))
                    && post == pre
            } else if !can_deposit(pre.tokens.tokens@[bid], msg.sender@) {
                r == Err::<Response, ContractError>(ContractError::Unauthorized {}) && post == pre
            } else {
                &&& post.ledger.cw20_bundle@ == pre.ledger.cw20_bundle@.insert(
                    bid,
                    pre.cw20_records(bid).push(
                        CW20WrapperV { contract_address: info.sender@, amount: msg.amount },
                    ),
                )
                &&& post.ledger.cw721_bundle == pre.ledger.cw721_bundle
                &&& post.ledger.cw1155_bundle == pre.ledger.cw1155_bundle
                &&& post.tokens == pre.tokens
                &&& r is Ok
                &&& r->Ok_0.deep_view() == ResponseV {
                    messages: Seq::empty(),
                    attributes: deposit_cw20_attrs(msg.sender@, info.sender@, msg.amount, bid),
                }
            }
        },
        None => {
            r == Err::<Response, ContractError>(ContractError::SerdeJsonError {}) && post == pre
        },
    }
}

/// Records a fungible deposit notification.
pub fn receive_cw20(storage: &mut ContractStorage, info: MessageInfo, msg: Cw20ReceiveMsg) -> (r:
    Result<Response, ContractError>)
    requires
        old(storage).wf(),
    ensures
        final(storage).wf(),
        spec_receive_cw20(*old(storage), *final(storage), info, msg, r),
{
    let deposit_msg_string = to_base64(&msg.msg);
    let bytes_res = from_base64(&deposit_msg_string);
    proof {
        assert(deposit_msg_string@ == encode64_of(msg.msg@));
        assert(bytes_res is Ok && bytes_res->Ok_0@ == msg.msg@);
    }
    let bytes = bytes_res.unwrap();
    let bundle_id = match parse_deposit_payload(&bytes) {
        Ok(id) => id,
        Err(e) => {
            return Err(e);
        },
    };
    let token = match storage.tokens.tokens.may_load(&bundle_id) {
        Some(t) => t,
        None => {
            return Err(ContractError::Std(StdError::NotFound {}));
        },
    };
    match check_can_deposit(token, msg.sender.clone()) {
        Ok(_) => (),
        Err(e) => {
            return Err(e);
        },
    }
    let record = CW20Wrapper { contract_address: info.sender.clone(), amount: msg.amount };
    let ghost record_v = record.deep_view();
    let bundle = storage.ledger.cw20_bundle.take(&bundle_id);
    match bundle {
        Some(mut records) => {
            let ghost pre_records = records.deep_view();
            records.push(record);
            proof {
                assert(records.deep_view() =~= pre_records.push(record_v));
            }
            storage.ledger.cw20_bundle.save(&bundle_id, records);
        },
        None => {
            let mut records: Vec<CW20Wrapper> = Vec::new();
            records.push(record);
            proof {
                assert(records.deep_view() =~= Seq::<CW20WrapperV>::empty().push(record_v));
            }
            storage.ledger.cw20_bundle.save(&bundle_id, records);
        },
    }
    proof {
        assert(storage.ledger.cw20_bundle@ =~= old(storage).ledger.cw20_bundle@.insert(
            bundle_id@,
            old(storage).cw20_records(bundle_id@).push(record_v),
        ));
    }
    let resp = Response::default()
        .add_attribute("action", "deposit_cw20".to_owned())
        .add_attribute("sender", msg.sender)
        .add_attribute("contract_sender", info.sender)
        .add_attribute("amount", u128_to_string(msg.amount))
        .add_attribute("bundle_id", bundle_id);
    proof {
        assert(resp.deep_view().attributes =~= deposit_cw20_attrs(
            msg.sender@,
            info.sender@,
            msg.amount,
            bundle_id@,
        ));
    }
    Ok(resp)
}

/// What `receive_cw721` does: the non-fungible counterpart of
/// [`spec_receive_cw20`], recording the deposited token identity.
pub open spec fn spec_receive_cw721(
    pre: ContractStorage,
    post: ContractStorage,
    info: MessageInfo,
    msg: Cw721ReceiveMsg,
    r: Result<Response, ContractError>,
) -> bool {
    match spec_parse_payload(msg.msg@) {
        Some(bid) => {
            if !pre.tokens.tokens@.contains_key(bid) {
                r == Err::<Response, ContractError>(ContractError::Std(StdError::NotFound {}))
                    && post == pre
            } else if !can_deposit(pre.tokens.tokens@[bid], msg.sender@) {
                r == Err::<Response, ContractError>(ContractError::Unauthorized {}) && post == pre
            } else {
                &&& post.ledger.cw721_bundle@ == pre.ledger.cw721_bundle@.insert(
                    bid,
                    pre.cw721_records(bid).push(
                        CW721WrapperV { contract_address: info.sender@, token_id: msg.token_id@ },
                    ),
                )
                &&& post.ledger.cw20_bundle == pre.ledger.cw20_bundle
                &&& post.ledger.cw1155_bundle == pre.ledger.cw1155_bundle
                &&& post.tokens == pre.tokens
                &&& r is Ok
                &&& r->Ok_0.deep_view() == ResponseV {
                    messages: Seq::empty(),
                    attributes: deposit_cw721_attrs(msg.sender@, info.sender@, msg.token_id@, bid),
                }
            }
        },
        None => {
            r == Err::<Response, ContractError>(ContractError::SerdeJsonError {}) && post == pre
        },
    }
}

/// Records a non-fungible deposit notification.
pub fn receive_cw721(storage: &mut ContractStorage, info: MessageInfo, msg: Cw721ReceiveMsg) -> (r:
    Result<Response, ContractError>)
    requires
        old(storage).wf(),
    ensures
        final(storage).wf(),
        spec_receive_cw721(*old(storage), *final(storage), info, msg, r),
{
    let deposit_msg_string = to_base64(&msg.msg);
    let bytes_res = from_base64(&deposit_msg_string);
    proof {
        assert(deposit_msg_string@ == encode64_of(msg.msg@));
        assert(bytes_res is Ok && bytes_res->Ok_0@ == msg.msg@);
    }
    let bytes = bytes_res.unwrap();
    let bundle_id = match parse_deposit_payload(&bytes) {
        Ok(id) => id,
        Err(e) => {
            return Err(e);
        },
    };
    let token = match storage.tokens.tokens.may_load(&bundle_id) {
        Some(t) => t,
        None => {
            return Err(ContractError::Std(StdError::NotFound {}));
        },
    };
    match check_can_deposit(token, msg.sender.clone()) {
        Ok(_) => (),
        Err(e) => {
            return Err(e);
        },
    }
    let record = CW721Wrapper {
        contract_address: info.sender.clone(),
        token_id: msg.token_id.clone(),
    };
    let ghost record_v = record.deep_view();
    let bundle = storage.ledger.cw721_bundle.take(&bundle_id);
    match bundle {
        Some(mut records) => {
            let ghost pre_records = records.deep_view();
            records.push(record);
            proof {
                assert(records.deep_view() =~= pre_records.push(record_v));
            }
            storage.ledger.cw721_bundle.save(&bundle_id, records);
        },
        None => {
            let mut records: Vec<CW721Wrapper> = Vec::new();
            records.push(record);
            proof {
                assert(records.deep_view() =~= Seq::<CW721WrapperV>::empty().push(record_v));
            }
            storage.ledger.cw721_bundle.save(&bundle_id, records);
        },
    }
    proof {
        assert(storage.ledger.cw721_bundle@ =~= old(storage).ledger.cw721_bundle@.insert(
            bundle_id@,
            old(storage).cw721_records(bundle_id@).push(record_v),
        ));
    }
    let resp = Response::default()
        .add_attribute("action", "deposit_cw721".to_owned())
        .add_attribute("sender", msg.sender)
        .add_attribute("contract_sender", info.sender)
        .add_attribute("token_id", msg.token_id)
        .add_attribute("bundle_id", bundle_id);
    proof {
        assert(resp.deep_view().attributes =~= deposit_cw721_attrs(
            msg.sender@,
            info.sender@,
            msg.token_id@,
            bundle_id@,
        ));
    }
    Ok(resp)
}

/// One semi-fungible record built from a (token identity, amount) pair of
/// a batch notification sent by `contract_sender`.
pub open spec fn cw1155_record(p: (Seq<char>, u128), contract_sender: Seq<char>) -> CW1155WrapperV {
    CW1155WrapperV { contract_address: contract_sender, token_id: p.0, amount: p.1 }
}

/// The records a batch deposit appends: one per pair, drained from the
/// back of the batch, so in reverse batch order.
pub open spec fn cw1155_deposit_records(
    batch: Seq<(Seq<char>, u128)>,
    contract_sender: Seq<char>,
) -> Seq<CW1155WrapperV> {
    batch.reverse().map_values(|p: (Seq<char>, u128)| cw1155_record(p, contract_sender))
}

/// What `receive_cw1155` does: the batch counterpart of
/// [`spec_receive_cw20`]; every pair of the batch is recorded.
pub open spec fn spec_receive_cw1155(
    pre: ContractStorage,
    post: ContractStorage,
    info: MessageInfo,
    msg: Cw1155BatchReceiveMsg,
    r: Result<Response, ContractError>,
) -> bool {
    match spec_parse_payload(msg.msg@) {
        Some(bid) => {
            if !pre.tokens.tokens@.contains_key(bid) {
                r == Err::<Response, ContractError>(ContractError::Std(StdError::NotFound {}))
                    && post == pre
            } else if !can_deposit(pre.tokens.tokens@[bid], msg.operator@) {
                r == Err::<Response, ContractError>(ContractError::Unauthorized {}) && post == pre
            } else {
                &&& post.ledger.cw1155_bundle@ == pre.ledger.cw1155_bundle@.insert(
                    bid,
                    pre.cw1155_records(bid) + cw1155_deposit_records(
                        msg.batch.deep_view(),
                        info.sender@,
                    ),
                )
                &&& post.ledger.cw20_bundle == pre.ledger.cw20_bundle
                &&& post.ledger.cw721_bundle == pre.ledger.cw721_bundle
                &&& post.tokens == pre.tokens
                &&& r is Ok
                &&& r->Ok_0.deep_view() == ResponseV {
                    messages: Seq::empty(),
                    attributes: deposit_cw1155_attrs(msg.operator@, info.sender@, bid),
                }
            }
        },
        None => {
            r == Err::<Response, ContractError>(ContractError::SerdeJsonError {}) && post == pre
        },
    }
}

/// Records a semi-fungible batch deposit notification.
pub fn receive_cw1155(
    storage: &mut ContractStorage,
    info: MessageInfo,
    msg: Cw1155BatchReceiveMsg,
) -> (r: Result<Response, ContractError>)
    requires
        old(storage).wf(),
    ensures
        final(storage).wf(),
        spec_receive_cw1155(*old(storage), *final(storage), info, msg, r),
{
    let mut msg = msg;
    let ghost msg0 = msg;
    let deposit_msg_string = to_base64(&msg.msg);
    let bytes_res = from_base64(&deposit_msg_string);
    proof {
        assert(deposit_msg_string@ == encode64_of(msg.msg@));
        assert(bytes_res is Ok && bytes_res->Ok_0@ == msg.msg@);
    }
    let bytes = bytes_res.unwrap();
    let bundle_id = match parse_deposit_payload(&bytes) {
        Ok(id) => id,
        Err(e) => {
            return Err(e);
        },
    };
    let token = match storage.tokens.tokens.may_load(&bundle_id) {
        Some(t) => t,
        None => {
            return Err(ContractError::Std(StdError::NotFound {}));
        },
    };
    match check_can_deposit(token, msg.operator.clone()) {
        Ok(_) => (),
        Err(e) => {
            return Err(e);
        },
    }
    let bundle = storage.ledger.cw1155_bundle.take(&bundle_id);
    let mut records: Vec<CW1155Wrapper> = match bundle {
        Some(existing) => existing,
        None => Vec::new(),
    };
    let ghost base = records.deep_view();
    let ghost batch_v = msg.batch.deep_view();
    let ghost n = batch_v.len() as int;
    proof {
        assert(base == old(storage).cw1155_records(bundle_id@));
        assert(msg.batch.deep_view() =~= batch_v.take(msg.batch@.len() as int));
    }
    while msg.batch.len() > 0
        invariant
            n == batch_v.len(),
            msg.operator == msg0.operator,
            msg.batch.deep_view() == batch_v.take(msg.batch@.len() as int),
            msg.batch@.len() <= n,
            records.deep_view().len() == base.len() + (n - msg.batch@.len()),
            forall|j: int| 0 <= j < base.len() ==> #[trigger] records.deep_view()[j] == base[j],
            forall|j: int|
                0 <= j < n - msg.batch@.len() ==> #[trigger] records.deep_view()[base.len() + j]
                    == cw1155_record(batch_v[n - 1 - j], info.sender@),
        decreases msg.batch@.len(),
    {
        let ghost k = msg.batch@.len() as int;
        let ghost prev_shallow = msg.batch@;
        let ghost prev_deep = msg.batch.deep_view();
        let p = msg.batch.pop().unwrap();
        proof {
            assert(p == prev_shallow[k - 1]);
            assert(prev_deep[k - 1] == prev_shallow[k - 1].deep_view());
            assert(p.deep_view() == batch_v.take(k)[k - 1]);
            assert(batch_v.take(k)[k - 1] == batch_v[k - 1]);
            assert forall|i: int| 0 <= i < k - 1 implies #[trigger] msg.batch.deep_view()[i]
                == batch_v[i] by {
                assert(msg.batch@[i] == prev_shallow[i]);
                assert(prev_deep[i] == batch_v.take(k)[i]);
            }
            assert(msg.batch.deep_view() =~= batch_v.take(k - 1));
        }
        let ghost pre_records = records.deep_view();
        records.push(
            CW1155Wrapper { contract_address: info.sender.clone(), token_id: p.0, amount: p.1 },
        );
        proof {
            assert(records.deep_view() =~= pre_records.push(
                cw1155_record(batch_v[k - 1], info.sender@),
            ));
        }
    }
    proof {
        assert forall|j: int|
            0 <= j < n implies cw1155_deposit_records(batch_v, info.sender@)[j] == cw1155_record(
            batch_v[n - 1 - j],
            info.sender@,
        ) by {
            assert(batch_v.reverse()[j] == batch_v[n - 1 - j]);
        }
        let target = base + cw1155_deposit_records(batch_v, info.sender@);
        assert forall|j: int|
            0 <= j < records.deep_view().len() implies #[trigger] records.deep_view()[j]
            == target[j] by {
            if j >= base.len() {
                let jj = j - base.len();
                assert(records.deep_view()[base.len() + jj] == cw1155_record(
                    batch_v[n - 1 - jj],
                    info.sender@,
                ));
            }
        }
        assert(records.deep_view() =~= target);
    }
    storage.ledger.cw1155_bundle.save(&bundle_id, records);
    proof {
        assert(storage.ledger.cw1155_bundle@ =~= old(storage).ledger.cw1155_bundle@.insert(
            bundle_id@,
            old(storage).cw1155_records(bundle_id@) + cw1155_deposit_records(
                batch_v,
                info.sender@,
            ),
        ));
    }
    let resp = Response::default()
        .add_attribute("action", "deposit_cw1155".to_owned())
        .add_attribute("sender", msg.operator)
        .add_attribute("contract_sender", info.sender)
        .add_attribute("bundle_id", bundle_id);
    proof {
        assert(resp.deep_view().attributes =~= deposit_cw1155_attrs(
            msg0.operator@,
            info.sender@,
            bundle_id@,
        ));
    }
    Ok(resp)
}

// ---------------------------------------------------------------------
// Pull-style deposits
// ---------------------------------------------------------------------

/// What `deposit_cw20` does: appends the record and answers with the
/// transfer-from instruction that pulls the units into custody.
pub open spec fn spec_deposit_cw20(
    pre: ContractStorage,
    post: ContractStorage,
    env: Env,
    info: MessageInfo,
    contract_address: Seq<char>,
    amount: u128,
    bundle_id: Seq<char>,
    r: Result<Response, ContractError>,
) -> bool {
    &&& post.ledger.cw20_bundle@ == pre.ledger.cw20_bundle@.insert(
        bundle_id,
        pre.cw20_records(bundle_id).push(
            CW20WrapperV { contract_address: contract_address, amount: amount },
        ),
    )
    &&& post.ledger.cw721_bundle == pre.ledger.cw721_bundle
    &&& post.ledger.cw1155_bundle == pre.ledger.cw1155_bundle
    &&& post.tokens == pre.tokens
    &&& r is Ok
    &&& r->Ok_0.deep_view() == ResponseV {
        messages: seq![
            TransferInstructionV::Cw20TransferFrom {
                contract_addr: contract_address,
                owner: info.sender@,
                recipient: env.contract_address@,
                amount: amount,
            },
        ],
        attributes: method_attrs("deposit_cw20"@),
    }
}

/// Requests `amount` units of the fungible token at `contract_address`
/// to be pulled into custody, and records the deposit. This pull-style
/// path consults no ownership record: any caller may fund any bundle
/// identifier, whether or not its bundle token exists yet.
pub fn deposit_cw20(
    storage: &mut ContractStorage,
    env: Env,
    info: MessageInfo,
    contract_address: String,
    amount: u128,
    bundle_id: String,
) -> (r: Result<Response, ContractError>)
    requires
        old(storage).wf(),
    ensures
        final(storage).wf(),
        spec_deposit_cw20(
            *old(storage),
            *final(storage),
            env,
            info,
            contract_address@,
            amount,
            bundle_id@,
            r,
        ),
{
    let instruction = TransferInstruction::Cw20TransferFrom {
        contract_addr: contract_address.clone(),
        owner: info.sender,
        recipient: env.contract_address,
        amount,
    };
    let record = CW20Wrapper { contract_address, amount };
    let ghost record_v = record.deep_view();
    let bundle = storage.ledger.cw20_bundle.take(&bundle_id);
    match bundle {
        Some(mut records) => {
            let ghost pre_records = records.deep_view();
            records.push(record);
            proof {
                assert(records.deep_view() =~= pre_records.push(record_v));
            }
            storage.ledger.cw20_bundle.save(&bundle_id, records);
        },
        None => {
            let mut records: Vec<CW20Wrapper> = Vec::new();
            records.push(record);
            proof {
                assert(records.deep_view() =~= Seq::<CW20WrapperV>::empty().push(record_v));
            }
            storage.ledger.cw20_bundle.save(&bundle_id, records);
        },
    }
    proof {
        assert(storage.ledger.cw20_bundle@ =~= old(storage).ledger.cw20_bundle@.insert(
            bundle_id@,
            old(storage).cw20_records(bundle_id@).push(record_v),
        ));
    }
    let resp = Response::new().add_message(instruction).add_attribute(
        "method",
        "deposit_cw20".to_owned(),
    );
    proof {
        assert(resp.deep_view().attributes =~= method_attrs("deposit_cw20"@));
        assert(resp.deep_view().messages =~= seq![
            TransferInstructionV::Cw20TransferFrom {
                contract_addr: contract_address@,
                owner: info.sender@,
                recipient: env.contract_address@,
                amount: amount,
            },
        ]);
    }
    Ok(resp)
}

/// What `deposit_cw721` does: appends the record and answers with the
/// transfer instruction that moves the token into custody.
pub open spec fn spec_deposit_cw721(
    pre: ContractStorage,
    post: ContractStorage,
    env: Env,
    contract_address: Seq<char>,
    token_id: Seq<char>,
    bundle_id: Seq<char>,
    r: Result<Response, ContractError>,
) -> bool {
    &&& post.ledger.cw721_bundle@ == pre.ledger.cw721_bundle@.insert(
        bundle_id,
        pre.cw721_records(bundle_id).push(
            CW721WrapperV { contract_address: contract_address, token_id: token_id },
        ),
    )
    &&& post.ledger.cw20_bundle == pre.ledger.cw20_bundle
    &&& post.ledger.cw1155_bundle == pre.ledger.cw1155_bundle
    &&& post.tokens == pre.tokens
    &&& r is Ok
    &&& r->Ok_0.deep_view() == ResponseV {
        messages: seq![
            TransferInstructionV::Cw721TransferNft {
                contract_addr: contract_address,
                recipient: env.contract_address@,
                token_id: token_id,
            },
        ],
        attributes: method_attrs("deposit_cw721"@),
    }
}

/// Requests the non-fungible token at `contract_address` to be moved
/// into custody, and records the deposit. Like the other pull-style
/// deposits, this path consults no ownership record.
pub fn deposit_cw721(
    storage: &mut ContractStorage,
    env: Env,
    contract_address: String,
    token_id: String,
    bundle_id: String,
) -> (r: Result<Response, ContractError>)
    requires
        old(storage).wf(),
    ensures
        final(storage).wf(),
        spec_deposit_cw721(
            *old(storage),
            *final(storage),
            env,
            contract_address@,
            token_id@,
            bundle_id@,
            r,
        ),
{
    let instruction = TransferInstruction::Cw721TransferNft {
        contract_addr: contract_address.clone(),
        recipient: env.contract_address,
        token_id: token_id.clone(),
    };
    let record = CW721Wrapper { contract_address, token_id };
    let ghost record_v = record.deep_view();
    let bundle = storage.ledger.cw721_bundle.take(&bundle_id);
    match bundle {
        Some(mut records) => {
            let ghost pre_records = records.deep_view();
            records.push(record);
            proof {
                assert(records.deep_view() =~= pre_records.push(record_v));
            }
            storage.ledger.cw721_bundle.save(&bundle_id, records);
        },
        None => {
            let mut records: Vec<CW721Wrapper> = Vec::new();
            records.push(record);
            proof {
                assert(records.deep_view() =~= Seq::<CW721WrapperV>::empty().push(record_v));
            }
            storage.ledger.cw721_bundle.save(&bundle_id, records);
        },
    }
    proof {
        assert(storage.ledger.cw721_bundle@ =~= old(storage).ledger.cw721_bundle@.insert(
            bundle_id@,
            old(storage).cw721_records(bundle_id@).push(record_v),
        ));
    }
    let resp = Response::new().add_message(instruction).add_attribute(
        "method",
        "deposit_cw721".to_owned(),
    );
    proof {
        assert(resp.deep_view().attributes =~= method_attrs("deposit_cw721"@));
        assert(resp.deep_view().messages =~= seq![
            TransferInstructionV::Cw721TransferNft {
                contract_addr: contract_address@,
                recipient: env.contract_address@,
                token_id: token_id@,
            },
        ]);
    }
    Ok(resp)
}

/// What `deposit_cw1155` does: appends the record and answers with the
/// send-from instruction that moves the units into custody.
pub open spec fn spec_deposit_cw1155(
    pre: ContractStorage,
    post: ContractStorage,
    env: Env,
    info: MessageInfo,
    amount: u128,
    contract_address: Seq<char>,
    token_id: Seq<char>,
    bundle_id: Seq<char>,
    r: Result<Response, ContractError>,
) -> bool {
    &&& post.ledger.cw1155_bundle@ == pre.ledger.cw1155_bundle@.insert(
        bundle_id,
        pre.cw1155_records(bundle_id).push(
            CW1155WrapperV {
                contract_address: contract_address,
                token_id: token_id,
                amount: amount,
            },
        ),
    )
    &&& post.ledger.cw20_bundle == pre.ledger.cw20_bundle
    &&& post.ledger.cw721_bundle == pre.ledger.cw721_bundle
    &&& post.tokens == pre.tokens
    &&& r is Ok
    &&& r->Ok_0.deep_view() == ResponseV {
        messages: seq![
            TransferInstructionV::Cw1155SendFrom {
                contract_addr: contract_address,
                from: info.sender@,
                to: env.contract_address@,
                token_id: token_id,
                value: amount,
            },
        ],
        attributes: method_attrs("deposit_cw1155"@),
    }
}

/// Requests `amount` units of the semi-fungible token at
/// `contract_address` to be moved into custody, and records the
/// deposit. Like the other pull-style deposits, this path consults no
/// ownership record.
pub fn deposit_cw1155(
    storage: &mut ContractStorage,
    env: Env,
    info: MessageInfo,
    amount: u128,
    contract_address: String,
    token_id: String,
    bundle_id: String,
) -> (r: Result<Response, ContractError>)
    requires
        old(storage).wf(),
    ensures
        final(storage).wf(),
        spec_deposit_cw1155(
            *old(storage),
            *final(storage),
            env,
            info,
            amount,
            contract_address@,
            token_id@,
            bundle_id@,
            r,
        ),
{
    let instruction = TransferInstruction::Cw1155SendFrom {
        contract_addr: contract_address.clone(),
        from: info.sender,
        to: env.contract_address,
        token_id: token_id.clone(),
        value: amount,
    };
    let record = CW1155Wrapper { contract_address, token_id, amount };
    let ghost record_v = record.deep_view();
    let bundle = storage.ledger.cw1155_bundle.take(&bundle_id);
    match bundle {
        Some(mut records) => {
            let ghost pre_records = records.deep_view();
            records.push(record);
            proof {
                assert(records.deep_view() =~= pre_records.push(record_v));
            }
            storage.ledger.cw1155_bundle.save(&bundle_id, records);
        },
        None => {
            let mut records: Vec<CW1155Wrapper> = Vec::new();
            records.push(record);
            proof {
                assert(records.deep_view() =~= Seq::<CW1155WrapperV>::empty().push(record_v));
            }
            storage.ledger.cw1155_bundle.save(&bundle_id, records);
        },
    }
    proof {
        assert(storage.ledger.cw1155_bundle@ =~= old(storage).ledger.cw1155_bundle@.insert(
            bundle_id@,
            old(storage).cw1155_records(bundle_id@).push(record_v),
        ));
    }
    let resp = Response::new().add_message(instruction).add_attribute(
        "method",
        "deposit_cw1155".to_owned(),
    );
    proof {
        assert(resp.deep_view().attributes =~= method_attrs("deposit_cw1155"@));
        assert(resp.deep_view().messages =~= seq![
            TransferInstructionV::Cw1155SendFrom {
                contract_addr: contract_address@,
                from: info.sender@,
                to: env.contract_address@,
                token_id: token_id@,
                value: amount,
            },
        ]);
    }
    Ok(resp)
}

// ---------------------------------------------------------------------
// Withdrawal
// ---------------------------------------------------------------------

/// The outbound instruction reversing one non-fungible deposit.
pub open spec fn cw721_msg_of(rec: CW721WrapperV, recipient: Seq<char>) -> TransferInstructionV {
    TransferInstructionV::Cw721TransferNft {
        contract_addr: rec.contract_address,
        recipient: recipient,
        token_id: rec.token_id,
    }
}

/// The outbound instructions for a drained non-fungible partition:
/// one transfer per record, last deposit first.
pub open spec fn cw721_withdraw_msgs(
    records: Seq<CW721WrapperV>,
    recipient: Seq<char>,
) -> Seq<TransferInstructionV> {
    records.reverse().map_values(|rec: CW721WrapperV| cw721_msg_of(rec, recipient))
}

/// The outbound instruction reversing one fungible deposit.
pub open spec fn cw20_msg_of(rec: CW20WrapperV, recipient: Seq<char>) -> TransferInstructionV {
    TransferInstructionV::Cw20Transfer {
        contract_addr: rec.contract_address,
        recipient: recipient,
        amount: rec.amount,
    }
}

/// The outbound instructions for a drained fungible partition: one
/// transfer per record, last deposit first.
pub open spec fn cw20_withdraw_msgs(
    records: Seq<CW20WrapperV>,
    recipient: Seq<char>,
) -> Seq<TransferInstructionV> {
    records.reverse().map_values(|rec: CW20WrapperV| cw20_msg_of(rec, recipient))
}

/// Whether some batch group is for the contract `c`.
pub open spec fn group_has(gs: Seq<(Seq<char>, Seq<(Seq<char>, u128)>)>, c: Seq<char>) -> bool {
    exists|j: int| 0 <= j < gs.len() && gs[j].0 == c
}

/// The position of the batch group for the contract `c`, if any.
pub open spec fn group_idx(gs: Seq<(Seq<char>, Seq<(Seq<char>, u128)>)>, c: Seq<char>) -> int {
    choose|j: int| 0 <= j < gs.len() && gs[j].0 == c
}

/// Adds one record to its contract's batch group, or opens a new group.
pub open spec fn group_step(
    gs: Seq<(Seq<char>, Seq<(Seq<char>, u128)>)>,
    rec: CW1155WrapperV,
) -> Seq<(Seq<char>, Seq<(Seq<char>, u128)>)> {
    if group_has(gs, rec.contract_address) {
        let j = group_idx(gs, rec.contract_address);
        gs.update(j, (gs[j].0, gs[j].1.push((rec.token_id, rec.amount))))
    } else {
        gs.push((rec.contract_address, seq![(rec.token_id, rec.amount)]))
    }
}

/// The semi-fungible records grouped by source contract, in first-seen
/// order, each group keeping the order of its records.
pub open spec fn batch_groups(rs: Seq<CW1155WrapperV>) -> Seq<(Seq<char>, Seq<(Seq<char>, u128)>)>
    decreases rs.len(),
{
    if rs.len() == 0 {
        Seq::empty()
    } else {
        group_step(batch_groups(rs.drop_last()), rs.last())
    }
}

/// No two batch groups are for the same contract.
pub open spec fn groups_distinct(gs: Seq<(Seq<char>, Seq<(Seq<char>, u128)>)>) -> bool {
    forall|a: int, b: int| 0 <= a < b < gs.len() ==> gs[a].0 != gs[b].0
}

/// Grouping never makes two groups for one contract.
pub proof fn lemma_batch_groups_distinct(rs: Seq<CW1155WrapperV>)
    ensures
        groups_distinct(batch_groups(rs)),
    decreases rs.len(),
{
    if rs.len() > 0 {
        lemma_batch_groups_distinct(rs.drop_last());
        let gs = batch_groups(rs.drop_last());
        let rec = rs.last();
        let out = batch_groups(rs);
        if group_has(gs, rec.contract_address) {
            let j = group_idx(gs, rec.contract_address);
            assert(0 <= j < gs.len() && gs[j].0 == rec.contract_address);
            assert forall|a: int, b: int| 0 <= a < b < out.len() implies out[a].0 != out[b].0 by {
                assert(out[a].0 == gs[a].0);
                assert(out[b].0 == gs[b].0);
            }
        } else {
            assert forall|a: int, b: int| 0 <= a < b < out.len() implies out[a].0 != out[b].0 by {
                if b < gs.len() {
                } else {
                    assert(out[a].0 == gs[a].0);
                    assert(out[b].0 == rec.contract_address);
                    assert(!(exists|j: int|
                        0 <= j < gs.len() && gs[j].0 == rec.contract_address));
                }
            }
        }
    }
}

/// The outbound instruction for one batch group.
pub open spec fn batch_msg_of(
    g: (Seq<char>, Seq<(Seq<char>, u128)>),
    own: Seq<char>,
    recipient: Seq<char>,
) -> TransferInstructionV {
    TransferInstructionV::Cw1155BatchSendFrom {
        contract_addr: g.0,
        from: own,
        to: recipient,
        batch: g.1,
    }
}

/// The outbound instructions for a drained semi-fungible partition: one
/// batched transfer per source contract, covering all drained pairs for
/// that contract, records taken last deposit first.
pub open spec fn cw1155_withdraw_msgs(
    records: Seq<CW1155WrapperV>,
    own: Seq<char>,
    recipient: Seq<char>,
) -> Seq<TransferInstructionV> {
    batch_groups(records.reverse()).map_values(
        |g: (Seq<char>, Seq<(Seq<char>, u128)>)| batch_msg_of(g, own, recipient),
    )
}

/// Everything a withdrawal emits: the non-fungible transfers, then the
/// fungible transfers, then the semi-fungible batches.
pub open spec fn withdraw_msgs(
    nft: Seq<CW721WrapperV>,
    ft: Seq<CW20WrapperV>,
    sft: Seq<CW1155WrapperV>,
    own: Seq<char>,
    recipient: Seq<char>,
) -> Seq<TransferInstructionV> {
    cw721_withdraw_msgs(nft, recipient) + cw20_withdraw_msgs(ft, recipient)
        + cw1155_withdraw_msgs(sft, own, recipient)
}

/// Emits one transfer per drained non-fungible record, last first.
fn push_cw721_transfers(
    msgs: &mut Vec<TransferInstruction>,
    records: Vec<CW721Wrapper>,
    recipient: &String,
)
    ensures
        final(msgs).deep_view() == old(msgs).deep_view() + cw721_withdraw_msgs(
            records.deep_view(),
            recipient@,
        ),
{
    let ghost base = old(msgs).deep_view();
    let ghost rv = records.deep_view();
    let ghost n = rv.len() as int;
    let mut records = records;
    while records.len() > 0
        invariant
            n == rv.len(),
            records.deep_view() == rv.take(records@.len() as int),
            records@.len() <= n,
            msgs.deep_view().len() == base.len() + (n - records@.len()),
            forall|j: int| 0 <= j < base.len() ==> #[trigger] msgs.deep_view()[j] == base[j],
            forall|j: int|
                0 <= j < n - records@.len() ==> #[trigger] msgs.deep_view()[base.len() + j]
                    == cw721_msg_of(rv[n - 1 - j], recipient@),
        decreases records@.len(),
    {
        let ghost k = records@.len() as int;
        let ghost prev_shallow = records@;
        let ghost prev_deep = records.deep_view();
        let rec = records.pop().unwrap();
        proof {
            assert(rec == prev_shallow[k - 1]);
            assert(prev_deep[k - 1] == prev_shallow[k - 1].deep_view());
            assert(rec.deep_view() == rv[k - 1]);
            assert forall|i: int| 0 <= i < k - 1 implies #[trigger] records.deep_view()[i]
                == rv[i] by {
                assert(records@[i] == prev_shallow[i]);
                assert(prev_deep[i] == rv.take(k)[i]);
            }
            assert(records.deep_view() =~= rv.take(k - 1));
        }
        let ghost pre_msgs = msgs.deep_view();
        msgs.push(
            TransferInstruction::Cw721TransferNft {
                contract_addr: rec.contract_address,
                recipient: recipient.clone(),
                token_id: rec.token_id,
            },
        );
        proof {
            assert(msgs.deep_view() =~= pre_msgs.push(cw721_msg_of(rv[k - 1], recipient@)));
        }
    }
    proof {
        assert forall|j: int|
            0 <= j < n implies cw721_withdraw_msgs(rv, recipient@)[j] == cw721_msg_of(
            rv[n - 1 - j],
            recipient@,
        ) by {
            assert(rv.reverse()[j] == rv[n - 1 - j]);
        }
        let target = base + cw721_withdraw_msgs(rv, recipient@);
        assert forall|j: int|
            0 <= j < msgs.deep_view().len() implies #[trigger] msgs.deep_view()[j]
            == target[j] by {
            if j >= base.len() {
                let jj = j - base.len();
                assert(msgs.deep_view()[base.len() + jj] == cw721_msg_of(
                    rv[n - 1 - jj],
                    recipient@,
                ));
            }
        }
        assert(msgs.deep_view() =~= target);
    }
}

/// Emits one transfer per drained fungible record, last first.
fn push_cw20_transfers(
    msgs: &mut Vec<TransferInstruction>,
    records: Vec<CW20Wrapper>,
    recipient: &String,
)
    ensures
        final(msgs).deep_view() == old(msgs).deep_view() + cw20_withdraw_msgs(
            records.deep_view(),
            recipient@,
        ),
{
    let ghost base = old(msgs).deep_view();
    let ghost rv = records.deep_view();
    let ghost n = rv.len() as int;
    let mut records = records;
    while records.len() > 0
        invariant
            n == rv.len(),
            records.deep_view() == rv.take(records@.len() as int),
            records@.len() <= n,
            msgs.deep_view().len() == base.len() + (n - records@.len()),
            forall|j: int| 0 <= j < base.len() ==> #[trigger] msgs.deep_view()[j] == base[j],
            forall|j: int|
                0 <= j < n - records@.len() ==> #[trigger] msgs.deep_view()[base.len() + j]
                    == cw20_msg_of(rv[n - 1 - j], recipient@),
        decreases records@.len(),
    {
        let ghost k = records@.len() as int;
        let ghost prev_shallow = records@;
        let ghost prev_deep = records.deep_view();
        let rec = records.pop().unwrap();
        proof {
            assert(rec == prev_shallow[k - 1]);
            assert(prev_deep[k - 1] == prev_shallow[k - 1].deep_view());
            assert(rec.deep_view() == rv[k - 1]);
            assert forall|i: int| 0 <= i < k - 1 implies #[trigger] records.deep_view()[i]
                == rv[i] by {
                assert(records@[i] == prev_shallow[i]);
                assert(prev_deep[i] == rv.take(k)[i]);
            }
            assert(records.deep_view() =~= rv.take(k - 1));
        }
        let ghost pre_msgs = msgs.deep_view();
        msgs.push(
            TransferInstruction::Cw20Transfer {
                contract_addr: rec.contract_address,
                recipient: recipient.clone(),
                amount: rec.amount,
            },
        );
        proof {
            assert(msgs.deep_view() =~= pre_msgs.push(cw20_msg_of(rv[k - 1], recipient@)));
        }
    }
    proof {
        assert forall|j: int|
            0 <= j < n implies cw20_withdraw_msgs(rv, recipient@)[j] == cw20_msg_of(
            rv[n - 1 - j],
            recipient@,
        ) by {
            assert(rv.reverse()[j] == rv[n - 1 - j]);
        }
        let target = base + cw20_withdraw_msgs(rv, recipient@);
        assert forall|j: int|
            0 <= j < msgs.deep_view().len() implies #[trigger] msgs.deep_view()[j]
            == target[j] by {
            if j >= base.len() {
                let jj = j - base.len();
                assert(msgs.deep_view()[base.len() + jj] == cw20_msg_of(
                    rv[n - 1 - jj],
                    recipient@,
                ));
            }
        }
        assert(msgs.deep_view() =~= target);
    }
}

/// Groups the drained semi-fungible records by source contract, last
/// record first, keeping first-seen contract order.
fn build_cw1155_batches(records: Vec<CW1155Wrapper>) -> (groups: Vec<(String, Vec<(String, u128)>)>)
    ensures
        groups.deep_view() == batch_groups(records.deep_view().reverse()),
{
    let ghost orig = records.deep_view();
    let ghost rv = orig.reverse();
    let ghost n = rv.len() as int;
    let mut records = records;
    let mut groups: Vec<(String, Vec<(String, u128)>)> = Vec::new();
    proof {
        assert(batch_groups(rv.take(0)) =~= Seq::<(Seq<char>, Seq<(Seq<char>, u128)>)>::empty());
    }
    while records.len() > 0
        invariant
            n == rv.len(),
            n == orig.len(),
            rv == orig.reverse(),
            records.deep_view() == orig.take(records@.len() as int),
            records@.len() <= n,
            groups.deep_view() == batch_groups(rv.take(n - records@.len())),
        decreases records@.len(),
    {
        let ghost k = records@.len() as int;
        let ghost i = n - k;
        let ghost prev_shallow = records@;
        let ghost prev_deep = records.deep_view();
        let rec = records.pop().unwrap();
        proof {
            assert(rec == prev_shallow[k - 1]);
            assert(prev_deep[k - 1] == prev_shallow[k - 1].deep_view());
            assert(rec.deep_view() == orig[k - 1]);
            assert(rv[i] == orig[n - 1 - i]);
            assert(rec.deep_view() == rv[i]);
            assert forall|a: int| 0 <= a < k - 1 implies #[trigger] records.deep_view()[a]
                == orig[a] by {
                assert(records@[a] == prev_shallow[a]);
                assert(prev_deep[a] == orig.take(k)[a]);
            }
            assert(records.deep_view() =~= orig.take(k - 1));
            assert(rv.take(i + 1).drop_last() =~= rv.take(i));
            assert(rv.take(i + 1).last() == rv[i]);
            assert(batch_groups(rv.take(i + 1)) == group_step(batch_groups(rv.take(i)), rv[i]));
            lemma_batch_groups_distinct(rv.take(i));
        }
        let ghost gv = groups.deep_view();
        let gn: usize = groups.len();
        let mut j: usize = 0;
        while j < gn && !(groups[j].0 == rec.contract_address)
            invariant
                gn == groups@.len(),
                j <= gn,
                gv == groups.deep_view(),
                forall|a: int| 0 <= a < j ==> #[trigger] groups.deep_view()[a].0
                    != rec.contract_address@,
            decreases gn - j,
        {
            proof {
                assert(groups.deep_view()[j as int].0 == groups@[j as int].0@);
            }
            j = j + 1;
        }
        let ghost c = rec.contract_address@;
        if j < gn {
            proof {
                assert(groups.deep_view()[j as int].0 == groups@[j as int].0@);
                assert(group_has(gv, c));
                let j2 = group_idx(gv, c);
                assert(0 <= j2 < gv.len() && gv[j2].0 == c);
                if j2 != j {
                    assert(gv[j2].0 != gv[j as int].0);
                }
                assert(group_idx(gv, c) == j);
            }
            let ghost gs0 = groups@;
            let gref = &mut groups[j];
            gref.1.push((rec.token_id, rec.amount));
            proof {
                assert(groups@ == gs0.update(j as int, groups@[j as int]));
                assert(groups@[j as int].0 == gs0[j as int].0);
                assert(groups@[j as int].1@ == gs0[j as int].1@.push((rec.token_id, rec.amount)));
                assert(groups@[j as int].1.deep_view() =~= gv[j as int].1.push(
                    (rec.token_id@, rec.amount),
                ));
                let expected = gv.update(
                    j as int,
                    (gv[j as int].0, gv[j as int].1.push((rec.token_id@, rec.amount))),
                );
                assert forall|a: int|
                    0 <= a < groups.deep_view().len() implies #[trigger] groups.deep_view()[a]
                    == expected[a] by {
                    if a != j {
                        assert(groups@[a] == gs0[a]);
                        assert(gv[a] == gs0[a].deep_view());
                    }
                }
                assert(groups.deep_view() =~= expected);
                assert(groups.deep_view() == batch_groups(rv.take(i + 1)));
            }
        } else {
            let mut pairs: Vec<(String, u128)> = Vec::new();
            pairs.push((rec.token_id, rec.amount));
            proof {
                assert(pairs.deep_view() =~= seq![(rec.token_id@, rec.amount)]);
            }
            groups.push((rec.contract_address, pairs));
            proof {
                assert(!group_has(gv, c));
                assert(groups.deep_view() =~= gv.push((c, seq![(rec.token_id@, rec.amount)])));
                assert(groups.deep_view() == batch_groups(rv.take(i + 1)));
            }
        }
        proof {
            assert(rv.take(n - records@.len() as int) == rv.take(i + 1));
        }
    }
    proof {
        assert(rv.take(n) =~= rv);
    }
    groups
}

/// Emits one batched transfer per source contract of the drained
/// semi-fungible records.
fn push_cw1155_transfers(
    msgs: &mut Vec<TransferInstruction>,
    records: Vec<CW1155Wrapper>,
    own: &String,
    recipient: &String,
)
    ensures
        final(msgs).deep_view() == old(msgs).deep_view() + cw1155_withdraw_msgs(
            records.deep_view(),
            own@,
            recipient@,
        ),
{
    let ghost base = old(msgs).deep_view();
    let ghost gv = batch_groups(records.deep_view().reverse());
    let ghost gn0 = gv.len() as int;
    let ghost target_tail = cw1155_withdraw_msgs(records.deep_view(), own@, recipient@);
    let mut groups = build_cw1155_batches(records);
    while groups.len() > 0
        invariant
            gn0 == gv.len(),
            groups.deep_view() == gv.subrange(gn0 - groups@.len(), gn0),
            groups@.len() <= gn0,
            msgs.deep_view().len() == base.len() + (gn0 - groups@.len()),
            forall|j: int| 0 <= j < base.len() ==> #[trigger] msgs.deep_view()[j] == base[j],
            forall|j: int|
                0 <= j < gn0 - groups@.len() ==> #[trigger] msgs.deep_view()[base.len() + j]
                    == batch_msg_of(gv[j], own@, recipient@),
        decreases groups@.len(),
    {
        let ghost k = groups@.len() as int;
        let ghost i = gn0 - k;
        let ghost prev_shallow = groups@;
        let ghost prev_deep = groups.deep_view();
        let g = groups.remove(0);
        proof {
            assert(g == prev_shallow[0]);
            assert(prev_deep[0] == prev_shallow[0].deep_view());
            assert(g.deep_view() == gv[i]);
            assert forall|a: int| 0 <= a < k - 1 implies #[trigger] groups.deep_view()[a]
                == gv.subrange(i + 1, gn0)[a] by {
                assert(groups@[a] == prev_shallow[a + 1]);
                assert(prev_deep[a + 1] == gv.subrange(i, gn0)[a + 1]);
            }
            assert(groups.deep_view() =~= gv.subrange(i + 1, gn0));
        }
        let ghost pre_msgs = msgs.deep_view();
        msgs.push(
            TransferInstruction::Cw1155BatchSendFrom {
                contract_addr: g.0,
                from: own.clone(),
                to: recipient.clone(),
                batch: g.1,
            },
        );
        proof {
            assert(msgs.deep_view() =~= pre_msgs.push(batch_msg_of(gv[i], own@, recipient@)));
        }
    }
    proof {
        assert forall|j: int| 0 <= j < gn0 implies target_tail[j] == batch_msg_of(
            gv[j],
            own@,
            recipient@,
        ) by {}
        let target = base + target_tail;
        assert forall|j: int|
            0 <= j < msgs.deep_view().len() implies #[trigger] msgs.deep_view()[j]
            == target[j] by {
            if j >= base.len() {
                let jj = j - base.len();
                assert(msgs.deep_view()[base.len() + jj] == batch_msg_of(
                    gv[jj],
                    own@,
                    recipient@,
                ));
            }
        }
        assert(msgs.deep_view() =~= target);
    }
}

/// What `withdraw` does: a missing bundle token is not found, an actor
/// other than the current owner is unauthorized, and otherwise all three
/// partitions of the bundle are drained atomically and one instruction
/// per deposited asset is emitted, batched per contract where the asset
/// class supports batching. Withdrawing an untouched bundle succeeds
/// with no instructions.
pub open spec fn spec_withdraw(
    pre: ContractStorage,
    post: ContractStorage,
    env: Env,
    info: MessageInfo,
    bundle_id: String,
    r: Result<Response, ContractError>,
) -> bool {
    let bid = bundle_id@;
    if !pre.tokens.tokens@.contains_key(bid) {
        r == Err::<Response, ContractError>(ContractError::Std(StdError::NotFound {})) && post
            == pre
    } else if !can_withdraw(pre.tokens.tokens@[bid], info.sender@) {
        r == Err::<Response, ContractError>(ContractError::Unauthorized {}) && post == pre
    } else {
        &&& r is Ok
        &&& r->Ok_0.deep_view() == ResponseV {
            messages: withdraw_msgs(
                pre.cw721_records(bid),
                pre.cw20_records(bid),
                pre.cw1155_records(bid),
                env.contract_address@,
                info.sender@,
            ),
            attributes: method_attrs("withdraw"@),
        }
        &&& post.ledger.cw721_bundle@ == if pre.ledger.cw721_bundle@.contains_key(bid) {
            pre.ledger.cw721_bundle@.insert(bid, Seq::<CW721WrapperV>::empty())
        } else {
            pre.ledger.cw721_bundle@
        }
        &&& post.ledger.cw20_bundle@ == if pre.ledger.cw20_bundle@.contains_key(bid) {
            pre.ledger.cw20_bundle@.insert(bid, Seq::<CW20WrapperV>::empty())
        } else {
            pre.ledger.cw20_bundle@
        }
        &&& post.ledger.cw1155_bundle@ == if pre.ledger.cw1155_bundle@.contains_key(bid) {
            pre.ledger.cw1155_bundle@.insert(bid, Seq::<CW1155WrapperV>::empty())
        } else {
            pre.ledger.cw1155_bundle@
        }
        &&& post.cw721_records(bid) == Seq::<CW721WrapperV>::empty()
        &&& post.cw20_records(bid) == Seq::<CW20WrapperV>::empty()
        &&& post.cw1155_records(bid) == Seq::<CW1155WrapperV>::empty()
        &&& post.tokens == pre.tokens
    }
}

/// Drains every partition of the bundle and emits the transfer
/// instructions that hand every deposited asset back to the owner.
pub fn withdraw(storage: &mut ContractStorage, env: Env, info: MessageInfo, bundle_id: String) -> (r:
    Result<Response, ContractError>)
    requires
        old(storage).wf(),
    ensures
        final(storage).wf(),
        spec_withdraw(*old(storage), *final(storage), env, info, bundle_id, r),
{
    let token = match storage.tokens.tokens.may_load(&bundle_id) {
        Some(t) => t,
        None => {
            return Err(ContractError::Std(StdError::NotFound {}));
        },
    };
    match check_can_withdraw(&info, token) {
        Ok(_) => (),
        Err(e) => {
            return Err(e);
        },
    }
    let mut cw_transfer_msgs: Vec<TransferInstruction> = Vec::new();

    let bundle = storage.ledger.cw721_bundle.take(&bundle_id);
    match bundle {
        Some(records) => {
            proof {
                assert(records.deep_view() == old(storage).cw721_records(bundle_id@));
            }
            push_cw721_transfers(&mut cw_transfer_msgs, records, &info.sender);
            let empty_records: Vec<CW721Wrapper> = Vec::new();
            proof {
                assert(empty_records.deep_view() =~= Seq::<CW721WrapperV>::empty());
            }
            storage.ledger.cw721_bundle.save(&bundle_id, empty_records);
            proof {
                assert(storage.ledger.cw721_bundle@ =~= old(
                    storage,
                ).ledger.cw721_bundle@.insert(bundle_id@, Seq::<CW721WrapperV>::empty()));
            }
        },
        None => {
            proof {
                assert(old(storage).cw721_records(bundle_id@) =~= Seq::<CW721WrapperV>::empty());
                assert(cw721_withdraw_msgs(old(storage).cw721_records(bundle_id@), info.sender@)
                    =~= Seq::<TransferInstructionV>::empty());
            }
        },
    }
    proof {
        assert(cw_transfer_msgs.deep_view() =~= cw721_withdraw_msgs(
            old(storage).cw721_records(bundle_id@),
            info.sender@,
        ));
    }
    let ghost msgs_721 = cw_transfer_msgs.deep_view();

    let bundle = storage.ledger.cw20_bundle.take(&bundle_id);
    match bundle {
        Some(records) => {
            proof {
                assert(records.deep_view() == old(storage).cw20_records(bundle_id@));
            }
            push_cw20_transfers(&mut cw_transfer_msgs, records, &info.sender);
            let empty_records: Vec<CW20Wrapper> = Vec::new();
            proof {
                assert(empty_records.deep_view() =~= Seq::<CW20WrapperV>::empty());
            }
            storage.ledger.cw20_bundle.save(&bundle_id, empty_records);
            proof {
                assert(storage.ledger.cw20_bundle@ =~= old(storage).ledger.cw20_bundle@.insert(
                    bundle_id@,
                    Seq::<CW20WrapperV>::empty(),
                ));
            }
        },
        None => {
            proof {
                assert(old(storage).cw20_records(bundle_id@) =~= Seq::<CW20WrapperV>::empty());
                assert(cw20_withdraw_msgs(old(storage).cw20_records(bundle_id@), info.sender@)
                    =~= Seq::<TransferInstructionV>::empty());
                assert(cw_transfer_msgs.deep_view() =~= msgs_721 + cw20_withdraw_msgs(
                    old(storage).cw20_records(bundle_id@),
                    info.sender@,
                ));
            }
        },
    }
    proof {
        assert(cw_transfer_msgs.deep_view() == msgs_721 + cw20_withdraw_msgs(
            old(storage).cw20_records(bundle_id@),
            info.sender@,
        ));
    }
    let ghost msgs_721_20 = cw_transfer_msgs.deep_view();

    let bundle = storage.ledger.cw1155_bundle.take(&bundle_id);
    match bundle {
        Some(records) => {
            proof {
                assert(records.deep_view() == old(storage).cw1155_records(bundle_id@));
            }
            push_cw1155_transfers(
                &mut cw_transfer_msgs,
                records,
                &env.contract_address,
                &info.sender,
            );
            let empty_records: Vec<CW1155Wrapper> = Vec::new();
            proof {
                assert(empty_records.deep_view() =~= Seq::<CW1155WrapperV>::empty());
            }
            storage.ledger.cw1155_bundle.save(&bundle_id, empty_records);
            proof {
                assert(storage.ledger.cw1155_bundle@ =~= old(
                    storage,
                ).ledger.cw1155_bundle@.insert(bundle_id@, Seq::<CW1155WrapperV>::empty()));
            }
        },
        None => {
            proof {
                assert(old(storage).cw1155_records(bundle_id@)
                    =~= Seq::<CW1155WrapperV>::empty());
                assert(Seq::<CW1155WrapperV>::empty().reverse()
                    =~= Seq::<CW1155WrapperV>::empty());
                assert(cw1155_withdraw_msgs(
                    old(storage).cw1155_records(bundle_id@),
                    env.contract_address@,
                    info.sender@,
                ) =~= Seq::<TransferInstructionV>::empty());
                assert(cw_transfer_msgs.deep_view() =~= msgs_721_20 + cw1155_withdraw_msgs(
                    old(storage).cw1155_records(bundle_id@),
                    env.contract_address@,
                    info.sender@,
                ));
            }
        },
    }
    proof {
        assert(cw_transfer_msgs.deep_view() == msgs_721_20 + cw1155_withdraw_msgs(
            old(storage).cw1155_records(bundle_id@),
            env.contract_address@,
            info.sender@,
        ));
        assert(cw_transfer_msgs.deep_view() =~= withdraw_msgs(
            old(storage).cw721_records(bundle_id@),
            old(storage).cw20_records(bundle_id@),
            old(storage).cw1155_records(bundle_id@),
            env.contract_address@,
            info.sender@,
        ));
    }
    let resp = Response::new().add_messages(cw_transfer_msgs).add_attribute(
        "method",
        "withdraw".to_owned(),
    );
    proof {
        assert(resp.deep_view().attributes =~= method_attrs("withdraw"@));
        assert(resp.deep_view().messages =~= withdraw_msgs(
            old(storage).cw721_records(bundle_id@),
            old(storage).cw20_records(bundle_id@),
            old(storage).cw1155_records(bundle_id@),
            env.contract_address@,
            info.sender@,
        ));
    }
    Ok(resp)
}

// ---------------------------------------------------------------------
// Dispatch
// ---------------------------------------------------------------------

/// Routes one state-changing invocation to its operation.
pub fn execute(storage: &mut ContractStorage, env: Env, info: MessageInfo, msg: ExecuteMsg) -> (r:
    Result<Response, ContractError>)
    requires
        old(storage).wf(),
    ensures
        final(storage).wf(),
        match msg {
            ExecuteMsg::Mint(m) => spec_mint(*old(storage), *final(storage), info, m, r),
            ExecuteMsg::Receive(m) => spec_receive_cw20(
                *old(storage),
                *final(storage),
                info,
                m,
                r,
            ),
            ExecuteMsg::ReceiveNft(m) => spec_receive_cw721(
                *old(storage),
                *final(storage),
                info,
                m,
                r,
            ),
            ExecuteMsg::BatchReceive(m) => spec_receive_cw1155(
                *old(storage),
                *final(storage),
                info,
                m,
                r,
            ),
            ExecuteMsg::Withdraw { bundle_id } => spec_withdraw(
                *old(storage),
                *final(storage),
                env,
                info,
                bundle_id,
                r,
            ),
        },
{
    match msg {
        ExecuteMsg::Mint(m) => mint(storage, env, info, m),
        ExecuteMsg::Withdraw { bundle_id } => withdraw(storage, env, info, bundle_id),
        ExecuteMsg::Receive(m) => receive_cw20(storage, info, m),
        ExecuteMsg::ReceiveNft(m) => receive_cw721(storage, info, m),
        ExecuteMsg::BatchReceive(m) => receive_cw1155(storage, info, m),
    }
}

// ---------------------------------------------------------------------
// Queries
// ---------------------------------------------------------------------

/// Whether the token `k` is in an enumeration: it exists, its owner
/// matches the filter, and it lies strictly after the pagination start.
pub open spec fn token_matches(
    m: Map<Seq<char>, TokenInfoV>,
    owner: Option<Seq<char>>,
    after: Option<Seq<char>>,
    k: Seq<char>,
) -> bool {
    &&& m.contains_key(k)
    &&& match owner {
        Some(o) => m[k].owner == o,
        None => true,
    }
    &&& match after {
        Some(a) => lex_lt(a, k),
        None => true,
    }
}

/// Strictly ascending in the enumeration order.
pub open spec fn sorted_strict(s: Seq<Seq<char>>) -> bool {
    forall|x: int, y: int| 0 <= x < y < s.len() ==> lex_lt(s[x], s[y])
}

/// How many identifiers a page may hold: the requested limit, ten when
/// none is given, thirty at most.
pub open spec fn page_limit(limit: Option<u32>) -> u32 {
    match limit {
        Some(l) => if l > 30 {
            30
        } else {
            l
        },
        None => 10,
    }
}

/// The page `t` an enumeration answers: ascending, every entry matching,
/// within the limit, and nothing skipped — a short page holds every
/// match, a full page everything up to its last entry. Only one page
/// satisfies all of this.
pub open spec fn spec_token_page(
    m: Map<Seq<char>, TokenInfoV>,
    owner: Option<Seq<char>>,
    after: Option<Seq<char>>,
    lim: int,
    t: Seq<Seq<char>>,
) -> bool {
    &&& sorted_strict(t)
    &&& t.len() <= lim
    &&& forall|x: int| 0 <= x < t.len() ==> token_matches(m, owner, after, #[trigger] t[x])
    &&& t.len() < lim ==> (forall|k: Seq<char>|
        #[trigger] token_matches(m, owner, after, k) ==> t.contains(k))
    &&& t.len() == lim && lim > 0 ==> (forall|k: Seq<char>|
        #[trigger] token_matches(m, owner, after, k) ==> t.contains(k) || lex_lt(t.last(), k))
}

/// Inserts a new identifier at its place in a strictly ascending list.
fn sorted_insert(list: &mut Vec<String>, key: String)
    requires
        sorted_strict(old(list).deep_view()),
        !old(list).deep_view().contains(key@),
    ensures
        final(list).deep_view().len() == old(list).deep_view().len() + 1,
        sorted_strict(final(list).deep_view()),
        forall|k: Seq<char>|
            #[trigger] final(list).deep_view().contains(k) ==> old(
                list,
            ).deep_view().contains(k) || k == key@,
        forall|k: Seq<char>|
            #[trigger] old(list).deep_view().contains(k) ==> final(list).deep_view().contains(k),
        final(list).deep_view().contains(key@),
{
    let n: usize = list.len();
    let mut pos: usize = 0;
    while pos < n && !str_lt(&key, &list[pos])
        invariant
            n == list@.len(),
            pos <= n,
            *list == *old(list),
            sorted_strict(list.deep_view()),
            !list.deep_view().contains(key@),
            forall|x: int| 0 <= x < pos ==> lex_lt(#[trigger] list.deep_view()[x], key@),
        decreases n - pos,
    {
        proof {
            assert(list.deep_view()[pos as int] == list@[pos as int]@);
            if list.deep_view()[pos as int] == key@ {
                assert(list.deep_view().contains(key@));
            }
            lemma_lex_total(key@, list.deep_view()[pos as int]);
        }
        pos += 1;
    }
    let ghost old_deep = list.deep_view();
    let ghost p = pos as int;
    let ghost key_v = key@;
    proof {
        if p < n {
            assert(lex_lt(key_v, old_deep[p]));
        }
    }
    list.insert(pos, key);
    proof {
        old(list)@.insert_ensures(p, list@[p]);
        assert forall|x: int|
            0 <= x < list.deep_view().len() implies #[trigger] list.deep_view()[x] == (if x < p {
            old_deep[x]
        } else if x == p {
            key_v
        } else {
            old_deep[x - 1]
        }) by {
            if x < p {
                assert(list@[x] == old(list)@[x]);
            } else if x == p {
                assert(list@[x]@ == key_v);
            } else {
                assert(list@[x] == old(list)@[x - 1]);
            }
        }
        assert forall|x: int, y: int|
            0 <= x < y < list.deep_view().len() implies lex_lt(
            list.deep_view()[x],
            list.deep_view()[y],
        ) by {
            if y < p {
            } else if x < p && y == p {
            } else if x < p && y > p {
                assert(x < y - 1);
            } else if x == p && y > p {
                assert(lex_lt(key_v, old_deep[p]));
                if y - 1 > p {
                    lemma_lex_trans(key_v, old_deep[p], old_deep[y - 1]);
                }
            }
        }
        assert forall|k: Seq<char>|
            #[trigger] list.deep_view().contains(k) implies old_deep.contains(k) || k
            == key_v by {
            let x = choose|x: int| 0 <= x < list.deep_view().len() && list.deep_view()[x] == k;
            if x < p {
                assert(old_deep[x] == k);
            } else if x > p {
                assert(old_deep[x - 1] == k);
            }
        }
        assert forall|k: Seq<char>| #[trigger] old_deep.contains(k) implies list.deep_view()
            .contains(k) by {
            let x = choose|x: int| 0 <= x < old_deep.len() && old_deep[x] == k;
            if x < p {
                assert(list.deep_view()[x] == k);
            } else {
                assert(list.deep_view()[x + 1] == k);
            }
        }
        assert(list.deep_view()[p] == key_v);
        assert(list.deep_view().contains(key_v));
    }
}

/// Builds the page of token identifiers an enumeration answers.
fn token_page(
    tokens: &StoreMap<TokenInfo>,
    owner: Option<&String>,
    start_after: Option<&String>,
    limit: Option<u32>,
) -> (t: Vec<String>)
    requires
        tokens.wf(),
    ensures
        spec_token_page(
            tokens@,
            owner.deep_view(),
            start_after.deep_view(),
            page_limit(limit) as int,
            t.deep_view(),
        ),
{
    let ghost m = tokens@;
    let ghost ov = owner.deep_view();
    let ghost av = start_after.deep_view();
    let keys = tokens.key_list();
    let n: usize = keys.len();
    let mut matched: Vec<String> = Vec::new();
    let mut i: usize = 0;
    while i < n
        invariant
            tokens.wf(),
            m == tokens@,
            ov == owner.deep_view(),
            av == start_after.deep_view(),
            n == tokens.num_entries(),
            n == keys@.len(),
            forall|j: int| 0 <= j < n ==> keys@[j]@ == tokens.key_at(j),
            i <= n,
            sorted_strict(matched.deep_view()),
            forall|x: int|
                0 <= x < matched.deep_view().len() ==> token_matches(
                    m,
                    ov,
                    av,
                    #[trigger] matched.deep_view()[x],
                ),
            forall|x: int|
                0 <= x < matched.deep_view().len() ==> exists|j: int|
                    0 <= j < i && #[trigger] matched.deep_view()[x] == tokens.key_at(j),
            forall|j: int|
                0 <= j < i && token_matches(m, ov, av, #[trigger] tokens.key_at(j))
                    ==> matched.deep_view().contains(tokens.key_at(j)),
        decreases n - i,
    {
        let key = &keys[i];
        proof {
            tokens.lemma_entry_in_map(i as int);
        }
        let matches_owner = match (owner, tokens.may_load(key)) {
            (Some(o), Some(ti)) => ti.owner == *o,
            (None, _) => true,
            (Some(_), None) => false,
        };
        let after_ok = match start_after {
            Some(sa) => str_lt(sa, key),
            None => true,
        };
        proof {
            assert((matches_owner && after_ok) == token_matches(m, ov, av, key@));
        }
        if matches_owner && after_ok {
            proof {
                if matched.deep_view().contains(key@) {
                    let x = choose|x: int|
                        0 <= x < matched.deep_view().len() && matched.deep_view()[x] == key@;
                    let j = choose|j: int|
                        0 <= j < i && matched.deep_view()[x] == tokens.key_at(j);
                    assert(tokens.key_at(j) == tokens.key_at(i as int));
                    tokens.lemma_keys_distinct(j, i as int);
                }
            }
            let ghost pre_matched = matched.deep_view();
            sorted_insert(&mut matched, key.clone());
            proof {
                assert forall|x: int|
                    0 <= x < matched.deep_view().len() implies exists|j: int|
                        0 <= j < i + 1 && #[trigger] matched.deep_view()[x] == tokens.key_at(
                            j,
                        ) by {
                    assert(matched.deep_view().contains(matched.deep_view()[x]));
                    if matched.deep_view()[x] == key@ {
                        assert(matched.deep_view()[x] == tokens.key_at(i as int));
                    } else {
                        assert(pre_matched.contains(matched.deep_view()[x]));
                        let y = choose|y: int|
                            0 <= y < pre_matched.len() && pre_matched[y] == matched.deep_view()[x];
                    }
                }
                assert forall|x: int|
                    0 <= x < matched.deep_view().len() implies token_matches(
                    m,
                    ov,
                    av,
                    #[trigger] matched.deep_view()[x],
                ) by {
                    assert(matched.deep_view().contains(matched.deep_view()[x]));
                    if matched.deep_view()[x] != key@ {
                        assert(pre_matched.contains(matched.deep_view()[x]));
                        let y = choose|y: int|
                            0 <= y < pre_matched.len() && pre_matched[y] == matched.deep_view()[x];
                    }
                }
                assert forall|j: int|
                    0 <= j < i + 1 && token_matches(m, ov, av, #[trigger] tokens.key_at(j))
                        implies matched.deep_view().contains(tokens.key_at(j)) by {
                    if j < i {
                        assert(pre_matched.contains(tokens.key_at(j)));
                    } else {
                        assert(tokens.key_at(j) == key@);
                    }
                }
            }
        }
        i += 1;
    }
    proof {
        assert forall|k: Seq<char>| #[trigger] token_matches(m, ov, av, k) implies matched
            .deep_view().contains(k) by {
            tokens.lemma_map_key_has_index(k);
            let j = choose|j: int| 0 <= j < tokens.num_entries() && tokens.key_at(j) == k;
        }
    }
    let lim: usize = match limit {
        Some(l) => {
            let capped: u32 = if l > 30 {
                30
            } else {
                l
            };
            capped as usize
        },
        None => 10,
    };
    let ghost full = matched.deep_view();
    proof {
        assert(matched.deep_view() =~= full.take(matched@.len() as int));
    }
    while matched.len() > lim
        invariant
            lim == page_limit(limit),
            matched@.len() <= full.len(),
            matched@.len() >= lim || matched@.len() == full.len(),
            matched.deep_view() == full.take(matched@.len() as int),
        decreases matched@.len(),
    {
        let ghost k = matched@.len() as int;
        let ghost prev_shallow = matched@;
        let ghost prev_deep = matched.deep_view();
        let _last = matched.pop();
        proof {
            assert forall|a: int| 0 <= a < k - 1 implies #[trigger] matched.deep_view()[a]
                == full[a] by {
                assert(matched@[a] == prev_shallow[a]);
                assert(prev_deep[a] == full.take(k)[a]);
            }
            assert(matched.deep_view() =~= full.take(k - 1));
        }
    }
    proof {
        let t = matched.deep_view();
        let tlen = t.len() as int;
        assert(t =~= full.take(tlen));
        assert forall|x: int| 0 <= x < tlen implies token_matches(
            m,
            ov,
            av,
            #[trigger] t[x],
        ) by {
            assert(t[x] == full[x]);
        }
        assert forall|x: int, y: int| 0 <= x < y < tlen implies lex_lt(t[x], t[y]) by {
            assert(t[x] == full[x] && t[y] == full[y]);
        }
        if tlen < lim {
            assert(tlen == full.len());
            assert forall|k: Seq<char>| #[trigger] token_matches(m, ov, av, k) implies t
                .contains(k) by {
                assert(full.contains(k));
                let x = choose|x: int| 0 <= x < full.len() && full[x] == k;
                assert(t[x] == k);
            }
        } else if lim > 0 {
            assert(tlen == lim);
            assert forall|k: Seq<char>| #[trigger] token_matches(m, ov, av, k) implies t.contains(
                k,
            ) || lex_lt(t.last(), k) by {
                assert(full.contains(k));
                let x = choose|x: int| 0 <= x < full.len() && full[x] == k;
                if x < tlen {
                    assert(t[x] == k);
                    assert(t.contains(k));
                } else {
                    assert(t.last() == full[tlen - 1]);
                    assert(lex_lt(full[tlen - 1], full[x]));
                }
            }
        }
    }
    matched
}

/// Answers a read-only query from the registry. A query that names a
/// token that does not exist is not found; enumerations answer the one
/// page [`spec_token_page`] describes.
pub fn query(storage: &ContractStorage, _env: Env, msg: QueryMsg) -> (r: Result<
    QueryAnswer,
    StdError,
>)
    requires
        storage.wf(),
    ensures
        ({
            let m = storage.tokens.tokens@;
            match msg {
                QueryMsg::OwnerOf { token_id, include_expired } => {
                    if m.contains_key(token_id@) {
                        (r matches Ok(QueryAnswer::OwnerOf { owner }) && owner@
                            == m[token_id@].owner)
                    } else {
                        r == Err::<QueryAnswer, StdError>(StdError::NotFound {})
                    }
                },
                QueryMsg::ApprovedForAll { .. } => {
                    (r matches Ok(QueryAnswer::ApprovedForAll { operators }) && operators@.len()
                        == 0)
                },
                QueryMsg::NumTokens {  } => {
                    (r matches Ok(QueryAnswer::NumTokens { count }) && count
                        == storage.tokens.tokens.num_entries())
                },
                QueryMsg::ContractInfo {  } => {
                    (r matches Ok(QueryAnswer::ContractInfo { name, symbol }) && name@
                        == storage.tokens.name@ && symbol@ == storage.tokens.symbol@)
                },
                QueryMsg::NftInfo { token_id } => {
                    if m.contains_key(token_id@) {
                        (r matches Ok(QueryAnswer::NftInfo { token_uri }) && token_uri.deep_view()
                            == m[token_id@].token_uri)
                    } else {
                        r == Err::<QueryAnswer, StdError>(StdError::NotFound {})
                    }
                },
                QueryMsg::AllNftInfo { token_id, include_expired } => {
                    if m.contains_key(token_id@) {
                        (r matches Ok(QueryAnswer::AllNftInfo { owner, token_uri }) && owner@
                            == m[token_id@].owner && token_uri.deep_view()
                            == m[token_id@].token_uri)
                    } else {
                        r == Err::<QueryAnswer, StdError>(StdError::NotFound {})
                    }
                },
                QueryMsg::Tokens { owner, start_after, limit } => {
                    (r matches Ok(QueryAnswer::Tokens { tokens }) && spec_token_page(
                        m,
                        Some(owner@),
                        start_after.deep_view(),
                        page_limit(limit) as int,
                        tokens.deep_view(),
                    ))
                },
                QueryMsg::AllTokens { start_after, limit } => {
                    (r matches Ok(QueryAnswer::Tokens { tokens }) && spec_token_page(
                        m,
                        None,
                        start_after.deep_view(),
                        page_limit(limit) as int,
                        tokens.deep_view(),
                    ))
                },
                QueryMsg::Minter {  } => {
                    (r matches Ok(QueryAnswer::Minter { minter }) && minter@
                        == storage.tokens.minter@)
                },
            }
        }),
{
    match msg {
        QueryMsg::OwnerOf { token_id, include_expired: _ } => {
            match storage.tokens.tokens.may_load(&token_id) {
                Some(token) => Ok(QueryAnswer::OwnerOf { owner: token.owner.clone() }),
                None => Err(StdError::NotFound {}),
            }
        },
        QueryMsg::ApprovedForAll { .. } => {
            let operators: Vec<String> = Vec::new();
            Ok(QueryAnswer::ApprovedForAll { operators })
        },
        QueryMsg::NumTokens {  } => {
            Ok(QueryAnswer::NumTokens { count: storage.tokens.tokens.num_keys() })
        },
        QueryMsg::ContractInfo {  } => {
            Ok(
                QueryAnswer::ContractInfo {
                    name: storage.tokens.name.clone(),
                    symbol: storage.tokens.symbol.clone(),
                },
            )
        },
        QueryMsg::NftInfo { token_id } => {
            match storage.tokens.tokens.may_load(&token_id) {
                Some(token) => {
                    let token_uri = match &token.token_uri {
                        Some(u) => Some(u.clone()),
                        None => None,
                    };
                    Ok(QueryAnswer::NftInfo { token_uri })
                },
                None => Err(StdError::NotFound {}),
            }
        },
        QueryMsg::AllNftInfo { token_id, include_expired: _ } => {
            match storage.tokens.tokens.may_load(&token_id) {
                Some(token) => {
                    let token_uri = match &token.token_uri {
                        Some(u) => Some(u.clone()),
                        None => None,
                    };
                    Ok(QueryAnswer::AllNftInfo { owner: token.owner.clone(), token_uri })
                },
                None => Err(StdError::NotFound {}),
            }
        },
        QueryMsg::Tokens { owner, start_after, limit } => {
            let sa_ref: Option<&String> = match &start_after {
                Some(s) => Some(s),
                None => None,
            };
            let tokens = token_page(&storage.tokens.tokens, Some(&owner), sa_ref, limit);
            Ok(QueryAnswer::Tokens { tokens })
        },
        QueryMsg::AllTokens { start_after, limit } => {
            let sa_ref: Option<&String> = match &start_after {
                Some(s) => Some(s),
                None => None,
            };
            let tokens = token_page(&storage.tokens.tokens, None, sa_ref, limit);
            Ok(QueryAnswer::Tokens { tokens })
        },
        QueryMsg::Minter {  } => Ok(QueryAnswer::Minter { minter: storage.tokens.minter.clone() }),
    }
}

} // verus!

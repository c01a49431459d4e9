use cw_bundler::contract::{deposit_cw1155, deposit_cw20, deposit_cw721, instantiate, query,
    receive_cw20, receive_cw1155, receive_cw721, withdraw};
use cw_bundler::msg::{Cw1155BatchReceiveMsg, Cw20ReceiveMsg, Cw721MintMsg, Cw721ReceiveMsg, Env,
    InstantiateMsg, MessageInfo, MintMsg, QueryAnswer, QueryMsg};
use cw_bundler::response::{Response, TransferInstruction};
use cw_bundler::state::ContractStorage;

const TOKEN_ID: &str = "a";
const CONTRACT_TOKEN_ID: &str = "123";
const MINTER: &str = "minter_address";
const ALICE: &str = "alice_address";
const CONTRACT: &str = "contract_address";
const TOKEN_URI: &str = "ipfs://QmVKZ5YZYDqdnAQo93kaYbcMtzGgx9kvpAVwoERm5mZezh";
const PAYLOAD_B64: &str = "eyJidW5kbGVfaWQiOiAiYSJ9";

fn mock_env() -> Env {
    Env { contract_address: "cosmos2contract".to_string() }
}

fn mock_info(sender: &str) -> MessageInfo {
    MessageInfo { sender: sender.to_string() }
}

fn setup_contract(storage: &mut ContractStorage) {
    let msg = InstantiateMsg {
        name: "CW Bundled Asset".into(),
        symbol: "CWBUNDLE".into(),
        minter: MINTER.into(),
    };
    let info = mock_info(MINTER);
    let res = instantiate(storage, mock_env(), info, msg).unwrap();
    assert_eq!(0, res.messages.len());
}

fn mint_token(storage: &mut ContractStorage, token_id: &str, owner: &str) {
    let info = mock_info(MINTER);
    let mint_msg = MintMsg {
        base: Cw721MintMsg {
            token_id: token_id.into(),
            owner: owner.into(),
            token_uri: Some(TOKEN_URI.to_string()),
        },
    };
    cw_bundler::contract::mint(storage, mock_env(), info, mint_msg).unwrap();
}

fn payload() -> Vec<u8> {
    base64::decode(PAYLOAD_B64).unwrap()
}

#[test]
fn proper_instantiation() {
    let mut storage = ContractStorage::new();
    setup_contract(&mut storage);
}

#[test]
fn contract_proper_instantiation() {
    let mut storage = ContractStorage::new();
    setup_contract(&mut storage);
}

#[test]
fn mint() {
    let mut storage = ContractStorage::new();
    setup_contract(&mut storage);
    mint_token(&mut storage, TOKEN_ID, ALICE);

    // ensure num tokens increases
    let count = query(&storage, mock_env(), QueryMsg::NumTokens {}).unwrap();
    assert_eq!(count, QueryAnswer::NumTokens { count: 1 });
}

#[test]
fn contract_mint() {
    let mut storage = ContractStorage::new();
    setup_contract(&mut storage);
    mint_token(&mut storage, CONTRACT_TOKEN_ID, ALICE);

    // ensure num tokens increases
    let count = query(&storage, mock_env(), QueryMsg::NumTokens {}).unwrap();
    assert_eq!(count, QueryAnswer::NumTokens { count: 1 });
}

#[test]
fn try_receive_cw20() {
    let mut storage = ContractStorage::new();
    setup_contract(&mut storage);
    mint_token(&mut storage, TOKEN_ID, ALICE);

    let info = mock_info(CONTRACT);
    let msg = Cw20ReceiveMsg { sender: ALICE.into(), amount: 2, msg: payload() };

    // receive cw20 tokens
    let res = receive_cw20(&mut storage, info, msg).unwrap();
    let info = mock_info(CONTRACT);
    let msg = Cw20ReceiveMsg { sender: ALICE.into(), amount: 2, msg: payload() };
    assert_eq!(
        res,
        Response::default()
            .add_attribute("action", "deposit_cw20".to_string())
            .add_attribute("sender", msg.sender)
            .add_attribute("contract_sender", info.sender.to_string())
            .add_attribute("amount", "2".to_string())
            .add_attribute("bundle_id", "a".to_string())
    );

    // ensure num tokens in bundle is 1
    let bundle = storage.ledger.cw20_bundle.may_load(&"a".to_string()).unwrap();
    assert_eq!(1, bundle.len());
}

#[test]
fn try_receive_cw721() {
    let mut storage = ContractStorage::new();
    setup_contract(&mut storage);
    mint_token(&mut storage, TOKEN_ID, ALICE);

    let info = mock_info(CONTRACT);
    let msg = Cw721ReceiveMsg { sender: ALICE.into(), token_id: TOKEN_ID.into(), msg: payload() };

    // receive cw721 token
    let res = receive_cw721(&mut storage, info, msg).unwrap();
    let info = mock_info(CONTRACT);
    let msg = Cw721ReceiveMsg { sender: ALICE.into(), token_id: TOKEN_ID.into(), msg: payload() };
    assert_eq!(
        res,
        Response::default()
            .add_attribute("action", "deposit_cw721".to_string())
            .add_attribute("sender", msg.sender)
            .add_attribute("contract_sender", info.sender.to_string())
            .add_attribute("token_id", msg.token_id)
            .add_attribute("bundle_id", "a".to_string())
    );

    // ensure num tokens in bundle is 1
    let bundle = storage.ledger.cw721_bundle.may_load(&"a".to_string()).unwrap();
    assert_eq!(1, bundle.len());
}

#[test]
fn try_receive_cw1155() {
    let mut storage = ContractStorage::new();
    setup_contract(&mut storage);
    mint_token(&mut storage, TOKEN_ID, ALICE);

    let info = mock_info(CONTRACT);
    let msg = Cw1155BatchReceiveMsg {
        operator: ALICE.into(),
        from: None,
        batch: vec![(TOKEN_ID.to_string(), 2)],
        msg: payload(),
    };

    // receive cw1155 tokens
    let res = receive_cw1155(&mut storage, info, msg).unwrap();
    let info = mock_info(CONTRACT);
    let msg = Cw1155BatchReceiveMsg {
        operator: ALICE.into(),
        from: None,
        batch: vec![(TOKEN_ID.to_string(), 2)],
        msg: payload(),
    };
    assert_eq!(
        res,
        Response::default()
            .add_attribute("action", "deposit_cw1155".to_string())
            .add_attribute("sender", msg.operator)
            .add_attribute("contract_sender", info.sender.to_string())
            .add_attribute("bundle_id", "a".to_string())
    );

    // ensure num tokens in bundle is 1
    let bundle = storage.ledger.cw1155_bundle.may_load(&"a".to_string()).unwrap();
    assert_eq!(1, bundle.len());
}

#[test]
fn try_withdraw() {
    let mut storage = ContractStorage::new();
    setup_contract(&mut storage);
    mint_token(&mut storage, TOKEN_ID, ALICE);

    let info = mock_info(MINTER);
    let msg = Cw721ReceiveMsg { sender: ALICE.into(), token_id: TOKEN_ID.into(), msg: payload() };

    // receive cw721 token
    let _res = receive_cw721(&mut storage, info, msg).unwrap();

    // withdraw
    let info = mock_info(ALICE);
    let _res = withdraw(&mut storage, mock_env(), info, "a".into()).unwrap();

    // ensure num tokens in bundle is 0
    let bundle = storage.ledger.cw721_bundle.may_load(&"a".to_string()).unwrap();
    assert_eq!(0, bundle.len());
}

#[test]
fn try_deposit_cw20() {
    let mut storage = ContractStorage::new();
    setup_contract(&mut storage);
    mint_token(&mut storage, CONTRACT_TOKEN_ID, ALICE);

    // ensure num tokens increases
    let count = query(&storage, mock_env(), QueryMsg::NumTokens {}).unwrap();
    assert_eq!(count, QueryAnswer::NumTokens { count: 1 });

    // deposit cw20 token
    let res = deposit_cw20(
        &mut storage,
        mock_env(),
        mock_info(MINTER),
        "cw20_contract_address".to_string(),
        1000,
        CONTRACT_TOKEN_ID.into(),
    )
    .unwrap();

    let transfer_msg = TransferInstruction::Cw20TransferFrom {
        contract_addr: "cw20_contract_address".to_string(),
        owner: MINTER.to_string(),
        recipient: "cosmos2contract".to_string(),
        amount: 1000,
    };
    assert_eq!(
        res,
        Response::new()
            .add_message(transfer_msg)
            .add_attribute("method", "deposit_cw20".to_string())
    );
}

#[test]
fn try_deposit_cw721() {
    let mut storage = ContractStorage::new();
    setup_contract(&mut storage);
    mint_token(&mut storage, CONTRACT_TOKEN_ID, ALICE);

    // deposit cw721 token
    let res = deposit_cw721(
        &mut storage,
        mock_env(),
        "cw721_contract_address".to_string(),
        "CW721_1".to_string(),
        CONTRACT_TOKEN_ID.into(),
    )
    .unwrap();

    let transfer_msg = TransferInstruction::Cw721TransferNft {
        contract_addr: "cw721_contract_address".to_string(),
        recipient: "cosmos2contract".to_string(),
        token_id: "CW721_1".to_string(),
    };
    assert_eq!(
        res,
        Response::new()
            .add_message(transfer_msg)
            .add_attribute("method", "deposit_cw721".to_string())
    );

    // ensure num tokens in bundle is 1
    let bundle = storage.ledger.cw721_bundle.may_load(&CONTRACT_TOKEN_ID.to_string()).unwrap();
    assert_eq!(1, bundle.len());
}

#[test]
fn try_deposit_cw1155() {
    let mut storage = ContractStorage::new();
    setup_contract(&mut storage);
    mint_token(&mut storage, CONTRACT_TOKEN_ID, ALICE);

    // deposit cw1155 token
    let info = mock_info(MINTER);
    let res = deposit_cw1155(
        &mut storage,
        mock_env(),
        info,
        1000,
        "cw1155_contract_address".to_string(),
        "CW1155_1".to_string(),
        CONTRACT_TOKEN_ID.into(),
    )
    .unwrap();

    let info = mock_info(MINTER);
    let transfer_msg = TransferInstruction::Cw1155SendFrom {
        contract_addr: "cw1155_contract_address".to_string(),
        from: info.sender.to_string(),
        to: mock_env().contract_address.to_string(),
        token_id: "CW1155_1".to_string(),
        value: 1000,
    };
    assert_eq!(
        res,
        Response::new()
            .add_message(transfer_msg)
            .add_attribute("method", "deposit_cw1155".to_string())
    );
}

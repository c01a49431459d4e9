use cw_bundler::contract::{check_can_deposit, check_can_withdraw, execute, instantiate, mint,
    query, receive_cw20, receive_cw1155, receive_cw721, withdraw};
use cw_bundler::decimal::u128_to_string;
use cw_bundler::error::{ContractError, StdError};
use cw_bundler::msg::{Cw1155BatchReceiveMsg, Cw20ReceiveMsg, Cw721MintMsg, Cw721ReceiveMsg, Env,
    ExecuteMsg, InstantiateMsg, MessageInfo, MintMsg, QueryAnswer, QueryMsg};
use cw_bundler::asset::{CW20Wrapper, CW721Wrapper};
use cw_bundler::payload::parse_deposit_payload;
use cw_bundler::response::TransferInstruction;
use cw_bundler::state::{ContractStorage, TokenInfo};

const MINTER: &str = "minter_address";
const ALICE: &str = "alice_address";
const BOB: &str = "bob_address";
const TOKEN_URI: &str = "ipfs://QmVKZ5YZYDqdnAQo93kaYbcMtzGgx9kvpAVwoERm5mZezh";
const PAYLOAD_B64: &str = "eyJidW5kbGVfaWQiOiAiYSJ9";

fn mock_env() -> Env {
    Env { contract_address: "cosmos2contract".to_string() }
}

fn mock_info(sender: &str) -> MessageInfo {
    MessageInfo { sender: sender.to_string() }
}

fn setup(storage: &mut ContractStorage) {
    let msg = InstantiateMsg {
        name: "CW Bundled Asset".into(),
        symbol: "CWBUNDLE".into(),
        minter: MINTER.into(),
    };
    instantiate(storage, mock_env(), mock_info(MINTER), msg).unwrap();
}

fn mint_to(storage: &mut ContractStorage, token_id: &str, owner: &str) {
    let msg = MintMsg {
        base: Cw721MintMsg {
            token_id: token_id.into(),
            owner: owner.into(),
            token_uri: Some(TOKEN_URI.to_string()),
        },
    };
    mint(storage, mock_env(), mock_info(MINTER), msg).unwrap();
}

fn payload_a() -> Vec<u8> {
    base64::decode(PAYLOAD_B64).unwrap()
}

#[test]
fn deposit_two_classes_then_withdraw_returns_both() {
    // mint bundle token "a" to ALICE
    let mut storage = ContractStorage::new();
    setup(&mut storage);
    mint_to(&mut storage, "a", ALICE);

    // ALICE deposits 2 units of fungible token X
    let msg = Cw20ReceiveMsg { sender: ALICE.into(), amount: 2, msg: payload_a() };
    receive_cw20(&mut storage, mock_info("token_contract_x"), msg).unwrap();
    let bundle = storage.ledger.cw20_bundle.may_load(&"a".to_string()).unwrap();
    assert_eq!(
        bundle,
        &vec![CW20Wrapper { contract_address: "token_contract_x".to_string(), amount: 2 }]
    );

    // ALICE deposits non-fungible token "t1" from contract Y
    let msg = Cw721ReceiveMsg { sender: ALICE.into(), token_id: "t1".into(), msg: payload_a() };
    receive_cw721(&mut storage, mock_info("token_contract_y"), msg).unwrap();
    let bundle = storage.ledger.cw721_bundle.may_load(&"a".to_string()).unwrap();
    assert_eq!(
        bundle,
        &vec![CW721Wrapper {
            contract_address: "token_contract_y".to_string(),
            token_id: "t1".to_string(),
        }]
    );

    // ALICE withdraws "a": exactly two outbound instructions
    let res = withdraw(&mut storage, mock_env(), mock_info(ALICE), "a".into()).unwrap();
    assert_eq!(
        res.messages,
        vec![
            TransferInstruction::Cw721TransferNft {
                contract_addr: "token_contract_y".to_string(),
                recipient: ALICE.to_string(),
                token_id: "t1".to_string(),
            },
            TransferInstruction::Cw20Transfer {
                contract_addr: "token_contract_x".to_string(),
                recipient: ALICE.to_string(),
                amount: 2,
            },
        ]
    );

    // both partitions are now empty
    assert_eq!(0, storage.ledger.cw20_bundle.may_load(&"a".to_string()).unwrap().len());
    assert_eq!(0, storage.ledger.cw721_bundle.may_load(&"a".to_string()).unwrap().len());
}

#[test]
fn deposit_by_non_owner_is_unauthorized() {
    let mut storage = ContractStorage::new();
    setup(&mut storage);
    mint_to(&mut storage, "a", ALICE);

    // BOB is not the owner of bundle "a"
    let msg = Cw20ReceiveMsg { sender: BOB.into(), amount: 5, msg: payload_a() };
    let err = receive_cw20(&mut storage, mock_info("token_contract_x"), msg).unwrap_err();
    assert_eq!(err, ContractError::Unauthorized {});

    // the ledger partitions for "a" are unchanged
    assert!(storage.ledger.cw20_bundle.may_load(&"a".to_string()).is_none());
}

#[test]
fn withdraw_by_non_owner_is_unauthorized() {
    let mut storage = ContractStorage::new();
    setup(&mut storage);
    mint_to(&mut storage, "a", ALICE);

    let msg = Cw20ReceiveMsg { sender: ALICE.into(), amount: 5, msg: payload_a() };
    receive_cw20(&mut storage, mock_info("token_contract_x"), msg).unwrap();

    let err = withdraw(&mut storage, mock_env(), mock_info(BOB), "a".into()).unwrap_err();
    assert_eq!(err, ContractError::Unauthorized {});
    assert_eq!(1, storage.ledger.cw20_bundle.may_load(&"a".to_string()).unwrap().len());
}

#[test]
fn withdraw_untouched_bundle_returns_zero_instructions() {
    let mut storage = ContractStorage::new();
    setup(&mut storage);
    mint_to(&mut storage, "b", ALICE);

    let res = withdraw(&mut storage, mock_env(), mock_info(ALICE), "b".into()).unwrap();
    assert_eq!(0, res.messages.len());
    assert_eq!(1, res.attributes.len());
    assert_eq!("method", res.attributes[0].key);
    assert_eq!("withdraw", res.attributes[0].value);
}

#[test]
fn withdraw_unknown_bundle_is_not_found() {
    let mut storage = ContractStorage::new();
    setup(&mut storage);

    let err = withdraw(&mut storage, mock_env(), mock_info(ALICE), "zzz".into()).unwrap_err();
    assert_eq!(err, ContractError::Std(StdError::NotFound {}));
}

#[test]
fn malformed_payload_is_rejected_without_mutation() {
    let mut storage = ContractStorage::new();
    setup(&mut storage);
    mint_to(&mut storage, "a", ALICE);

    let bad_payloads: Vec<Vec<u8>> = vec![
        b"not json at all".to_vec(),
        b"{\"bundle\": \"a\"}".to_vec(),
        b"{\"bundle_id\": \"a\"".to_vec(),
        b"{\"bundle_id\": \"a\\\"b\"}".to_vec(),
        b"{\"bundle_id\": 3}".to_vec(),
        b"".to_vec(),
    ];
    for bad in bad_payloads {
        let msg = Cw20ReceiveMsg { sender: ALICE.into(), amount: 2, msg: bad };
        let err = receive_cw20(&mut storage, mock_info("token_contract_x"), msg).unwrap_err();
        assert_eq!(err, ContractError::SerdeJsonError {});
    }
    assert!(storage.ledger.cw20_bundle.may_load(&"a".to_string()).is_none());
}

#[test]
fn deposit_into_unknown_bundle_is_not_found() {
    let mut storage = ContractStorage::new();
    setup(&mut storage);

    let msg = Cw20ReceiveMsg { sender: ALICE.into(), amount: 2, msg: payload_a() };
    let err = receive_cw20(&mut storage, mock_info("token_contract_x"), msg).unwrap_err();
    assert_eq!(err, ContractError::Std(StdError::NotFound {}));
}

#[test]
fn deposit_after_withdraw_starts_fresh_partition() {
    let mut storage = ContractStorage::new();
    setup(&mut storage);
    mint_to(&mut storage, "a", ALICE);

    let msg = Cw20ReceiveMsg { sender: ALICE.into(), amount: 2, msg: payload_a() };
    receive_cw20(&mut storage, mock_info("token_contract_x"), msg).unwrap();
    withdraw(&mut storage, mock_env(), mock_info(ALICE), "a".into()).unwrap();
    assert_eq!(0, storage.ledger.cw20_bundle.may_load(&"a".to_string()).unwrap().len());

    let msg = Cw20ReceiveMsg { sender: ALICE.into(), amount: 7, msg: payload_a() };
    receive_cw20(&mut storage, mock_info("token_contract_x"), msg).unwrap();
    let bundle = storage.ledger.cw20_bundle.may_load(&"a".to_string()).unwrap();
    assert_eq!(
        bundle,
        &vec![CW20Wrapper { contract_address: "token_contract_x".to_string(), amount: 7 }]
    );
}

#[test]
fn cw1155_withdraw_batches_per_source_contract() {
    let mut storage = ContractStorage::new();
    setup(&mut storage);
    mint_to(&mut storage, "a", ALICE);

    // two pairs from contract P, then one pair from contract Q
    let msg = Cw1155BatchReceiveMsg {
        operator: ALICE.into(),
        from: None,
        batch: vec![("t1".to_string(), 1), ("t2".to_string(), 2)],
        msg: payload_a(),
    };
    receive_cw1155(&mut storage, mock_info("contract_p"), msg).unwrap();
    let msg = Cw1155BatchReceiveMsg {
        operator: ALICE.into(),
        from: None,
        batch: vec![("t3".to_string(), 3)],
        msg: payload_a(),
    };
    receive_cw1155(&mut storage, mock_info("contract_q"), msg).unwrap();

    // records appended in reverse batch order: [P t2, P t1, Q t3];
    // drained last-first: Q first, then P with its two pairs in drain order
    let res = withdraw(&mut storage, mock_env(), mock_info(ALICE), "a".into()).unwrap();
    assert_eq!(
        res.messages,
        vec![
            TransferInstruction::Cw1155BatchSendFrom {
                contract_addr: "contract_q".to_string(),
                from: "cosmos2contract".to_string(),
                to: ALICE.to_string(),
                batch: vec![("t3".to_string(), 3)],
            },
            TransferInstruction::Cw1155BatchSendFrom {
                contract_addr: "contract_p".to_string(),
                from: "cosmos2contract".to_string(),
                to: ALICE.to_string(),
                batch: vec![("t1".to_string(), 1), ("t2".to_string(), 2)],
            },
        ]
    );
    assert_eq!(0, storage.ledger.cw1155_bundle.may_load(&"a".to_string()).unwrap().len());
}

#[test]
fn mint_by_non_minter_is_unauthorized() {
    let mut storage = ContractStorage::new();
    setup(&mut storage);

    let msg = MintMsg {
        base: Cw721MintMsg { token_id: "a".into(), owner: ALICE.into(), token_uri: None },
    };
    let err = mint(&mut storage, mock_env(), mock_info(ALICE), msg).unwrap_err();
    assert_eq!(err, ContractError::Unauthorized {});
}

#[test]
fn mint_taken_token_id_is_claimed() {
    let mut storage = ContractStorage::new();
    setup(&mut storage);
    mint_to(&mut storage, "a", ALICE);

    let msg = MintMsg {
        base: Cw721MintMsg { token_id: "a".into(), owner: BOB.into(), token_uri: None },
    };
    let err = mint(&mut storage, mock_env(), mock_info(MINTER), msg).unwrap_err();
    assert_eq!(err, ContractError::Claimed {});
}

#[test]
fn execute_dispatches_withdraw() {
    let mut storage = ContractStorage::new();
    setup(&mut storage);
    mint_to(&mut storage, "a", ALICE);

    let msg = ExecuteMsg::Receive(Cw20ReceiveMsg {
        sender: ALICE.into(),
        amount: 9,
        msg: payload_a(),
    });
    execute(&mut storage, mock_env(), mock_info("token_contract_x"), msg).unwrap();

    let res = execute(
        &mut storage,
        mock_env(),
        mock_info(ALICE),
        ExecuteMsg::Withdraw { bundle_id: "a".into() },
    )
    .unwrap();
    assert_eq!(
        res.messages,
        vec![TransferInstruction::Cw20Transfer {
            contract_addr: "token_contract_x".to_string(),
            recipient: ALICE.to_string(),
            amount: 9,
        }]
    );
}

#[test]
fn authorization_follows_current_owner() {
    let token = TokenInfo { owner: ALICE.to_string(), token_uri: None };
    assert!(check_can_deposit(&token, ALICE.to_string()).is_ok());
    assert_eq!(
        check_can_deposit(&token, BOB.to_string()).unwrap_err(),
        ContractError::Unauthorized {}
    );
    assert!(check_can_withdraw(&mock_info(ALICE), &token).is_ok());
    assert_eq!(
        check_can_withdraw(&mock_info(BOB), &token).unwrap_err(),
        ContractError::Unauthorized {}
    );
}

#[test]
fn payload_parser_accepts_the_documented_shape() {
    assert_eq!(parse_deposit_payload(&payload_a()).unwrap(), "a".to_string());
    assert_eq!(
        parse_deposit_payload(&b"{\"bundle_id\":\"bundle-7\"}".to_vec()).unwrap(),
        "bundle-7".to_string()
    );
    assert_eq!(
        parse_deposit_payload(&b"  {  \"bundle_id\" :\t\"x y\" }\n".to_vec()).unwrap(),
        "x y".to_string()
    );
    assert_eq!(parse_deposit_payload(&b"{\"bundle_id\":\"\"}".to_vec()).unwrap(), "".to_string());
    assert_eq!(
        parse_deposit_payload(&b"{\"bundle_id\":\"a\"}{".to_vec()).unwrap_err(),
        ContractError::SerdeJsonError {}
    );
}

#[test]
fn amounts_format_in_decimal() {
    assert_eq!(u128_to_string(0), "0".to_string());
    assert_eq!(u128_to_string(2), "2".to_string());
    assert_eq!(u128_to_string(1000), "1000".to_string());
    assert_eq!(
        u128_to_string(u128::MAX),
        "340282366920938463463374607431768211455".to_string()
    );
}

#[test]
fn queries_answer_from_the_registry() {
    let mut storage = ContractStorage::new();
    setup(&mut storage);
    mint_to(&mut storage, "a", ALICE);
    mint_to(&mut storage, "c", ALICE);
    mint_to(&mut storage, "b", ALICE);
    mint_to(&mut storage, "d", BOB);

    let env = mock_env();
    assert_eq!(
        query(&storage, env.clone(), QueryMsg::OwnerOf {
            token_id: "a".into(),
            include_expired: None,
        })
        .unwrap(),
        QueryAnswer::OwnerOf { owner: ALICE.to_string() }
    );
    assert_eq!(
        query(&storage, env.clone(), QueryMsg::OwnerOf {
            token_id: "zzz".into(),
            include_expired: None,
        })
        .unwrap_err(),
        StdError::NotFound {}
    );
    assert_eq!(
        query(&storage, env.clone(), QueryMsg::NumTokens {}).unwrap(),
        QueryAnswer::NumTokens { count: 4 }
    );
    assert_eq!(
        query(&storage, env.clone(), QueryMsg::ContractInfo {}).unwrap(),
        QueryAnswer::ContractInfo {
            name: "CW Bundled Asset".to_string(),
            symbol: "CWBUNDLE".to_string(),
        }
    );
    assert_eq!(
        query(&storage, env.clone(), QueryMsg::NftInfo { token_id: "a".into() }).unwrap(),
        QueryAnswer::NftInfo { token_uri: Some(TOKEN_URI.to_string()) }
    );
    assert_eq!(
        query(&storage, env.clone(), QueryMsg::AllNftInfo {
            token_id: "a".into(),
            include_expired: None,
        })
        .unwrap(),
        QueryAnswer::AllNftInfo {
            owner: ALICE.to_string(),
            token_uri: Some(TOKEN_URI.to_string()),
        }
    );
    assert_eq!(
        query(&storage, env.clone(), QueryMsg::Minter {}).unwrap(),
        QueryAnswer::Minter { minter: MINTER.to_string() }
    );
    assert_eq!(
        query(&storage, env.clone(), QueryMsg::ApprovedForAll {
            owner: ALICE.into(),
            include_expired: None,
            start_after: None,
            limit: None,
        })
        .unwrap(),
        QueryAnswer::ApprovedForAll { operators: vec![] }
    );
}

#[test]
fn token_enumeration_is_sorted_and_paginated() {
    let mut storage = ContractStorage::new();
    setup(&mut storage);
    mint_to(&mut storage, "c", ALICE);
    mint_to(&mut storage, "a", ALICE);
    mint_to(&mut storage, "d", BOB);
    mint_to(&mut storage, "b", ALICE);

    let env = mock_env();
    assert_eq!(
        query(&storage, env.clone(), QueryMsg::Tokens {
            owner: ALICE.into(),
            start_after: None,
            limit: None,
        })
        .unwrap(),
        QueryAnswer::Tokens {
            tokens: vec!["a".to_string(), "b".to_string(), "c".to_string()],
        }
    );
    assert_eq!(
        query(&storage, env.clone(), QueryMsg::Tokens {
            owner: ALICE.into(),
            start_after: Some("a".to_string()),
            limit: Some(1),
        })
        .unwrap(),
        QueryAnswer::Tokens { tokens: vec!["b".to_string()] }
    );
    assert_eq!(
        query(&storage, env.clone(), QueryMsg::AllTokens { start_after: None, limit: Some(2) })
            .unwrap(),
        QueryAnswer::Tokens { tokens: vec!["a".to_string(), "b".to_string()] }
    );
    assert_eq!(
        query(&storage, env.clone(), QueryMsg::AllTokens {
            start_after: Some("b".to_string()),
            limit: None,
        })
        .unwrap(),
        QueryAnswer::Tokens { tokens: vec!["c".to_string(), "d".to_string()] }
    );
}

#[test]
fn errors_describe_themselves() {
    assert_eq!(ContractError::Unauthorized {}.describe(), "Unauthorized".to_string());
    assert_eq!(ContractError::Claimed {}.describe(), "Claimed".to_string());
    assert_eq!(ContractError::SerdeJsonError {}.describe(), "SerdeJsonError".to_string());
    assert_eq!(
        ContractError::Std(StdError::NotFound {}).describe(),
        "NotFound".to_string()
    );
}

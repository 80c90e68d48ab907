use one_core::handler::{execute_reply_data, factory_reply_payload, Handler, HostInfo, HostMsg, Step};
use one_core::registry::{default_salt, Accounts};
use one_core::token_factory::{assert_free_denom_creation, Params};
use one_core::trace::{DenomTraces, TraceItem};
use one_core::types::{Action, ActionResult, Endpoint, FactoryResponse, RegisterOptions, Trace};
use one_core::{deconstruct_denom, Coin, Error};

const PORT: &str = "wasm.host";

fn host_info(free: bool) -> HostInfo {
    HostInfo {
        contract: "contract".into(),
        contract_canonical: vec![7u8; 20],
        account_code_id: 3,
        account_checksum: vec![9u8; 32],
        token_factory_params: Params {
            denom_creation_fee: if free { vec![] } else { vec![Coin::new(1, "uosmo")] },
        },
    }
}

fn src() -> Endpoint {
    Endpoint::new("wasm.controller", "channel-4")
}

fn dest() -> Endpoint {
    Endpoint::new(PORT, "channel-0")
}

fn handler(accounts: &Accounts, actions: Vec<Action>, traces: Vec<Trace>) -> Handler {
    Handler::create(accounts, src(), dest(), "larry".into(), actions, traces)
}

fn registered() -> Accounts {
    let mut accounts = Accounts::new();
    accounts.register(&dest(), "larry", "osmo1host").unwrap();
    accounts
}

#[test]
fn transfer_of_foreign_token_mints_new_voucher() {
    let accounts = registered();
    let mut store = DenomTraces::new();
    let trace = Trace { denom: "uatom".into(), base_denom: "uatom".into(), path: vec![] };
    let mut h = handler(
        &accounts,
        vec![Action::Transfer { denom: "uatom".into(), amount: 50, recipient: None }],
        vec![trace],
    );
    let step = h.handle_next_action(&accounts, &mut store, &host_info(true)).unwrap();

    let mut expected_trace = TraceItem::new("uatom");
    expected_trace.push_hop(&dest());
    let subdenom = expected_trace.hash_hex();
    let denom = format!("factory/contract/{subdenom}");
    match step {
        Step::Dispatch { msgs, sub } => {
            assert_eq!(
                msgs,
                vec![
                    HostMsg::CreateDenom { subdenom: subdenom.clone() },
                    HostMsg::Mint { denom: denom.clone(), amount: 50 },
                ]
            );
            assert_eq!(sub, HostMsg::Send { to: "osmo1host".into(), denom: denom.clone(), amount: 50 });
        },
        other => panic!("unexpected step {other:?}"),
    }
    assert_eq!(
        h.results,
        vec![ActionResult::Transfer { denom: denom.clone(), new_token: true, recipient: "osmo1host".into() }]
    );
    assert_eq!(store.get(&denom), Some(expected_trace));
    assert_eq!(deconstruct_denom(&denom), Some(("contract", subdenom.as_str())));
}

#[test]
fn second_transfer_reuses_voucher() {
    let accounts = registered();
    let mut store = DenomTraces::new();
    let trace = || Trace { denom: "uatom".into(), base_denom: "uatom".into(), path: vec![] };
    let mut h = handler(
        &accounts,
        vec![
            Action::Transfer { denom: "uatom".into(), amount: 1, recipient: None },
            Action::Transfer { denom: "uatom".into(), amount: 2, recipient: Some("pumpkin".into()) },
        ],
        vec![trace()],
    );
    h.handle_next_action(&accounts, &mut store, &host_info(true)).unwrap();
    h.after_action(None).unwrap();
    let step = h.handle_next_action(&accounts, &mut store, &host_info(false)).unwrap();
    match step {
        Step::Dispatch { msgs, sub: HostMsg::Send { to, amount, .. } } => {
            assert_eq!(msgs.len(), 1);
            assert_eq!(to, "pumpkin");
            assert_eq!(amount, 2);
        },
        other => panic!("unexpected step {other:?}"),
    }
    match &h.results[1] {
        ActionResult::Transfer { new_token, .. } => assert!(!new_token),
        other => panic!("unexpected result {other:?}"),
    }
}

#[test]
fn creation_fee_blocks_new_voucher() {
    let accounts = registered();
    let mut store = DenomTraces::new();
    let trace = Trace { denom: "uatom".into(), base_denom: "uatom".into(), path: vec![] };
    let mut h = handler(
        &accounts,
        vec![Action::Transfer { denom: "uatom".into(), amount: 50, recipient: None }],
        vec![trace],
    );
    let err = h.handle_next_action(&accounts, &mut store, &host_info(false)).unwrap_err();
    assert_eq!(err, Error::NonZeroTokenCreationFee);
    assert!(store.trace_of("uatom").path.is_empty());
}

#[test]
fn returning_token_is_released() {
    let accounts = registered();
    let mut store = DenomTraces::new();
    // the token left this chain through `dest` and the sender sends it back
    let trace = Trace { denom: "factory/x/y".into(), base_denom: "uosmo".into(), path: vec![dest()] };
    let mut h = handler(
        &accounts,
        vec![Action::Transfer { denom: "factory/x/y".into(), amount: 9, recipient: None }],
        vec![trace],
    );
    // the sender's endpoint is what the last hop records
    h.counterparty_endpoint = dest();
    let step = h.handle_next_action(&accounts, &mut store, &host_info(true)).unwrap();
    match step {
        Step::Dispatch { msgs, sub } => {
            assert!(msgs.is_empty());
            assert_eq!(sub, HostMsg::Send { to: "osmo1host".into(), denom: "uosmo".into(), amount: 9 });
        },
        other => panic!("unexpected step {other:?}"),
    }
}

#[test]
fn transfer_without_trace_fails() {
    let accounts = registered();
    let mut store = DenomTraces::new();
    let mut h = handler(
        &accounts,
        vec![Action::Transfer { denom: "uatom".into(), amount: 50, recipient: None }],
        vec![],
    );
    let err = h.handle_next_action(&accounts, &mut store, &host_info(true)).unwrap_err();
    assert_eq!(err, Error::TraceNotFound { denom: "uatom".into() });
}

#[test]
fn transfer_without_account_fails() {
    let accounts = Accounts::new();
    let mut store = DenomTraces::new();
    let trace = Trace { denom: "uatom".into(), base_denom: "uatom".into(), path: vec![] };
    let mut h = handler(
        &accounts,
        vec![Action::Transfer { denom: "uatom".into(), amount: 50, recipient: None }],
        vec![trace],
    );
    let err = h.handle_next_action(&accounts, &mut store, &host_info(true)).unwrap_err();
    assert!(matches!(err, Error::AccountNotFound { .. }));
}

#[test]
fn register_twice_fails() {
    let accounts = registered();
    let mut store = DenomTraces::new();
    let mut h = handler(
        &accounts,
        vec![Action::RegisterAccount(RegisterOptions::Default { salt: None })],
        vec![],
    );
    let err = h.handle_next_action(&accounts, &mut store, &host_info(true)).unwrap_err();
    assert_eq!(err, Error::AccountExists { endpoint: dest(), controller: "larry".into() });

    let mut accounts = registered();
    let err = accounts.register(&dest(), "larry", "osmo1other").unwrap_err();
    assert!(matches!(err, Error::AccountExists { .. }));
    assert_eq!(accounts.lookup(&dest(), "larry"), Some("osmo1host".to_string()));
}

#[test]
fn bad_salt_fails_derivation() {
    let accounts = Accounts::new();
    let mut store = DenomTraces::new();
    let mut h = handler(
        &accounts,
        vec![Action::RegisterAccount(RegisterOptions::Default { salt: Some(vec![]) })],
        vec![],
    );
    let err = h.handle_next_action(&accounts, &mut store, &host_info(true)).unwrap_err();
    assert_eq!(err, Error::Instantiate2Address);
}

#[test]
fn default_salt_depends_on_pair() {
    let a = default_salt(&dest(), "larry");
    let b = default_salt(&dest(), "jake");
    assert_eq!(a.len(), 32);
    assert_ne!(a, b);
    assert_eq!(a, default_salt(&dest(), "larry"));
}

#[test]
fn register_then_failing_execute_leaves_no_account_when_rolled_back() {
    // the whole packet runs on a copy of the registry; a failing step
    // discards it, as the host discards the transaction
    let committed = Accounts::new();
    let mut working = Accounts::new();
    let mut store = DenomTraces::new();
    let host = host_info(true);
    let mut h = handler(
        &working,
        vec![
            Action::RegisterAccount(RegisterOptions::Default { salt: Some(vec![1, 2, 3]) }),
            Action::Execute(b"{}".to_vec()),
        ],
        vec![],
    );
    assert!(matches!(h.handle_next_action(&working, &mut store, &host).unwrap(), Step::Humanize { .. }));
    h.after_derive_address(&mut working, &host, "osmo1new".into()).unwrap();
    h.after_action(None).unwrap();
    h.handle_next_action(&working, &mut store, &host).unwrap();
    // the execute's reply is malformed: the packet fails
    let err = h.after_action(Some(vec![0x12, 0x00])).unwrap_err();
    assert_eq!(err, Error::ParseReply);
    assert_eq!(committed.lookup(&dest(), "larry"), None);
}

#[test]
fn custom_factory_flow() {
    let mut accounts = Accounts::new();
    let mut store = DenomTraces::new();
    let mut h = handler(
        &accounts,
        vec![Action::RegisterAccount(RegisterOptions::CustomFactory {
            address: "factory".into(),
            data: Some(vec![1]),
        })],
        vec![],
    );
    let step = h.handle_next_action(&accounts, &mut store, &host_info(true)).unwrap();
    match step {
        Step::Dispatch { sub: HostMsg::RegisterWithFactory { factory, endpoint, controller, data }, .. } => {
            assert_eq!(factory, "factory");
            assert_eq!(endpoint, dest());
            assert_eq!(controller, "larry");
            assert_eq!(data, Some(vec![1]));
        },
        other => panic!("unexpected step {other:?}"),
    }
    let err = h.after_register_account_custom_factory(&mut accounts, None).unwrap_err();
    assert_eq!(err, Error::FactoryResponseDataMissing);
    h.after_register_account_custom_factory(
        &mut accounts,
        Some(FactoryResponse { host: "osmo1fact".into() }),
    )
    .unwrap();
    assert_eq!(accounts.lookup(&dest(), "larry"), Some("osmo1fact".to_string()));
    assert_eq!(h.results, vec![ActionResult::RegisterAccount { address: "osmo1fact".into() }]);
}

#[test]
fn query_flow() {
    let accounts = registered();
    let mut store = DenomTraces::new();
    let mut h = handler(&accounts, vec![Action::Query(b"{}".to_vec())], vec![]);
    match h.handle_next_action(&accounts, &mut store, &host_info(true)).unwrap() {
        Step::Query { contract, msg } => {
            assert_eq!(contract, "osmo1host");
            assert_eq!(msg, b"{}".to_vec());
        },
        other => panic!("unexpected step {other:?}"),
    }
    h.after_query(Ok(b"42".to_vec())).unwrap();
    let err = h.after_query(Err("not found".into())).unwrap_err();
    assert_eq!(err, Error::QueryContract("not found".into()));
    match h.handle_next_action(&accounts, &mut store, &host_info(true)).unwrap() {
        Step::Done(results) => {
            assert_eq!(results, vec![ActionResult::Query { response: b"42".to_vec() }]);
        },
        other => panic!("unexpected step {other:?}"),
    }
}

#[test]
fn token_factory_fee_check() {
    assert_eq!(assert_free_denom_creation(&Params { denom_creation_fee: vec![] }), Ok(()));
    assert_eq!(
        assert_free_denom_creation(&Params { denom_creation_fee: vec![Coin::new(1, "uosmo")] }),
        Err(Error::NonZeroTokenCreationFee)
    );
}

#[test]
fn deconstructing_denoms() {
    assert_eq!(deconstruct_denom("factory/osmo1abc/sub"), Some(("osmo1abc", "sub")));
    assert_eq!(deconstruct_denom("factory/osmo1abc/a/b"), Some(("osmo1abc", "a/b")));
    assert_eq!(deconstruct_denom("uatom"), None);
    assert_eq!(deconstruct_denom("ibc/ABC/def"), None);
    assert_eq!(deconstruct_denom("factory/nosub"), None);
}

#[test]
fn factory_reply_payloads() {
    assert_eq!(factory_reply_payload(None), Err(Error::FactoryResponseDataMissing));
    assert_eq!(factory_reply_payload(Some(vec![])), Err(Error::FactoryResponseDataMissing));
    assert_eq!(factory_reply_payload(Some(vec![0x0a, 0x02, b'{', b'}'])), Ok(b"{}".to_vec()));
    assert_eq!(factory_reply_payload(Some(vec![0x12, 0x00])), Err(Error::ParseReply));
}

#[test]
fn execute_reply_data_decoding() {
    assert_eq!(execute_reply_data(&vec![]), Ok(None));
    assert_eq!(execute_reply_data(&vec![0x0a, 0x01, 7]), Ok(Some(vec![7])));
    assert_eq!(execute_reply_data(&vec![0x12, 0x00]), Err(Error::ParseReply));
}

use one_core::controller::{act, after_all_actions, packet_lifecycle_complete, should_refund};
use one_core::handler::{Handler, HostInfo, HostMsg, Step};
use one_core::registry::Accounts;
use one_core::token_factory::Params;
use one_core::handshake::ActiveChannels;
use one_core::trace::{DenomTraces, TraceItem};
use one_core::types::{
    Action, ActionResult, Endpoint, PacketAck, PacketData, PacketOutcome, RegisterOptions,
};
use one_core::{Coin, Coins, Error};

const PORT: &str = "wasm.cosmos2contract";

fn transfer(denom: &str, amount: u128, recipient: Option<&str>) -> Action {
    Action::Transfer {
        denom: denom.into(),
        amount,
        recipient: recipient.map(|r| r.to_string()),
    }
}

fn mock_channels() -> ActiveChannels {
    let mut channels = ActiveChannels::new();
    channels.save("connection-0", "channel-0");
    channels
}

#[test]
fn asserting_funds() {
    struct TestCase {
        sending_funds: Vec<Coin>,
        should_ok: bool,
    }

    // this contains the correct amount of coins expected to be sent
    let actions = || {
        vec![
            transfer("uatom", 10000, None),
            transfer("uosmo", 23456, None),
            transfer("uatom", 2345, Some("pumpkin")),
        ]
    };

    let testcases = [
        // no fund sent
        TestCase { sending_funds: vec![], should_ok: false },
        // only 1 coin sent
        TestCase { sending_funds: vec![Coin::new(12345, "uatom")], should_ok: false },
        // two coins sent but incorrect amount
        TestCase {
            sending_funds: vec![Coin::new(12345, "uatom"), Coin::new(12345, "uosmo")],
            should_ok: false,
        },
        // extra coins sent
        TestCase {
            sending_funds: vec![
                Coin::new(12345, "uatom"),
                Coin::new(23456, "uosmo"),
                Coin::new(34567, "ujuno"),
            ],
            should_ok: false,
        },
        // correct funds sent
        TestCase {
            sending_funds: vec![Coin::new(12345, "uatom"), Coin::new(23456, "uosmo")],
            should_ok: true,
        },
    ];

    for testcase in testcases {
        let store = DenomTraces::new();
        let channels = mock_channels();

        let result = act(
            &store,
            &channels,
            PORT,
            "connection-0",
            "larry",
            testcase.sending_funds,
            actions(),
        );

        if testcase.should_ok {
            assert!(result.is_ok());
        } else {
            assert!(matches!(result, Err(Error::FundsMismatch { .. })));
        }
    }
}

#[test]
fn sending_packet() {
    let mut store = DenomTraces::new();
    // a voucher that came in over this chain's channel: sending it back burns it
    let voucher = "factory/contract/abc";
    store.insert_new(
        voucher,
        TraceItem { base_denom: "ujuno".into(), path: vec![Endpoint::new(PORT, "channel-0")] },
    );
    let channels = mock_channels();
    let actions = vec![
        transfer("uatom", 100, None),
        transfer(voucher, 7, Some("pumpkin")),
        transfer("uatom", 5, None),
        Action::Execute(b"{}".to_vec()),
    ];
    let out = act(
        &store,
        &channels,
        PORT,
        "connection-0",
        "larry",
        vec![Coin::new(105, "uatom"), Coin::new(7, voucher)],
        actions,
    )
    .unwrap();

    assert_eq!(out.channel_id, "channel-0");
    assert_eq!(out.packet.sender, "larry");
    assert_eq!(out.packet.actions.len(), 4);
    assert_eq!(out.packet.traces.len(), 2);
    assert_eq!(out.packet.traces[0].denom, "uatom");
    assert_eq!(out.packet.traces[0].base_denom, "uatom");
    assert!(out.packet.traces[0].path.is_empty());
    assert_eq!(out.packet.traces[1].denom, voucher);
    assert_eq!(out.packet.traces[1].base_denom, "ujuno");
    assert_eq!(out.packet.traces[1].path, vec![Endpoint::new(PORT, "channel-0")]);
    assert_eq!(out.msgs, vec![HostMsg::Burn { denom: voucher.into(), amount: 7 }]);
}

#[test]
fn receiving_packet() {
    let mut accounts = Accounts::new();
    let mut store = DenomTraces::new();
    let host = HostInfo {
        contract: "contract".into(),
        contract_canonical: vec![7u8; 20],
        account_code_id: 1,
        account_checksum: vec![9u8; 32],
        token_factory_params: Params { denom_creation_fee: vec![] },
    };
    let src = Endpoint::new("wasm.counterparty", "channel-9");
    let dest = Endpoint::new(PORT, "channel-0");
    let actions = vec![
        Action::RegisterAccount(RegisterOptions::Default { salt: None }),
        Action::Execute(b"{\"increment\":{}}".to_vec()),
    ];
    let mut handler = Handler::create(
        &accounts,
        src.duplicate(),
        dest.duplicate(),
        "larry".into(),
        actions,
        vec![],
    );
    assert!(handler.host.is_none());

    let step = handler.handle_next_action(&accounts, &mut store, &host).unwrap();
    let Step::Humanize { canonical } = step else { panic!("expected an address to derive") };
    assert_eq!(canonical.len(), 32);

    let step = handler.after_derive_address(&mut accounts, &host, "osmo1account".into()).unwrap();
    match step {
        Step::Dispatch { msgs, sub: HostMsg::Instantiate2 { code_id, admin, label, salt } } => {
            assert!(msgs.is_empty());
            assert_eq!(code_id, 1);
            assert_eq!(admin, "contract");
            assert_eq!(label, "one-account/channel-0/larry");
            assert_eq!(salt.len(), 32);
        },
        other => panic!("unexpected step {other:?}"),
    }
    assert_eq!(accounts.lookup(&dest, "larry"), Some("osmo1account".to_string()));
    handler.after_action(None).unwrap();

    let step = handler.handle_next_action(&accounts, &mut store, &host).unwrap();
    match step {
        Step::Dispatch { sub: HostMsg::Execute { contract, msg }, .. } => {
            assert_eq!(contract, "osmo1account");
            assert_eq!(msg, b"{\"increment\":{}}".to_vec());
        },
        other => panic!("unexpected step {other:?}"),
    }
    // protobuf response: field 1, length 2, "hi"
    handler.after_action(Some(vec![0x0a, 0x02, b'h', b'i'])).unwrap();

    let step = handler.handle_next_action(&accounts, &mut store, &host).unwrap();
    let Step::Done(results) = step else { panic!("expected the queue to be done") };
    let expected = || {
        vec![
            ActionResult::RegisterAccount { address: "osmo1account".into() },
            ActionResult::Execute { data: Some(b"hi".to_vec()) },
        ]
    };
    assert_eq!(results, expected());
    assert_eq!(after_all_actions(Ok(results)), PacketAck::Success(expected()));
}

#[test]
fn end_to_end_funds_scenario() {
    let store = DenomTraces::new();
    let channels = mock_channels();
    let actions = || {
        vec![
            transfer("uatom", 10000, None),
            transfer("uosmo", 23456, None),
            transfer("uatom", 2345, Some("pumpkin")),
        ]
    };
    let ok = act(
        &store,
        &channels,
        PORT,
        "connection-0",
        "larry",
        vec![Coin::new(12345, "uatom"), Coin::new(23456, "uosmo")],
        actions(),
    );
    let out = ok.unwrap();
    // tokens of this chain are escrowed: no instruction
    assert!(out.msgs.is_empty());

    let err = act(
        &store,
        &channels,
        PORT,
        "connection-0",
        "larry",
        vec![Coin::new(12345, "uatom")],
        actions(),
    )
    .unwrap_err();
    assert_eq!(
        err,
        Error::FundsMismatch {
            actual: Coins::from_coins(vec![Coin::new(12345, "uatom")]).unwrap(),
            expected: Coins::from_coins(vec![Coin::new(12345, "uatom"), Coin::new(23456, "uosmo")])
                .unwrap(),
        }
    );
}

#[test]
fn empty_queue_is_rejected() {
    let store = DenomTraces::new();
    let channels = mock_channels();
    let err = act(&store, &channels, PORT, "connection-0", "larry", vec![], vec![]).unwrap_err();
    assert_eq!(err, Error::EmptyActionQueue);
}

#[test]
fn unknown_connection_is_rejected() {
    let store = DenomTraces::new();
    let channels = mock_channels();
    let err = act(
        &store,
        &channels,
        PORT,
        "connection-5",
        "larry",
        vec![],
        vec![Action::Query(vec![])],
    )
    .unwrap_err();
    assert_eq!(err, Error::ChannelNotFound { connection_id: "connection-5".into() });
}

#[test]
fn overflowing_transfers_are_rejected() {
    let store = DenomTraces::new();
    let channels = mock_channels();
    let err = act(
        &store,
        &channels,
        PORT,
        "connection-0",
        "larry",
        vec![],
        vec![transfer("uatom", u128::MAX, None), transfer("uatom", 1, None)],
    )
    .unwrap_err();
    assert_eq!(err, Error::Overflow);
}

fn sent_packet() -> PacketData {
    PacketData {
        sender: "larry".into(),
        actions: vec![transfer("uatom", 12345, None)],
        traces: vec![],
    }
}

#[test]
fn refund_on_timeout() {
    let store = DenomTraces::new();
    let src = Endpoint::new(PORT, "channel-0");
    let (outcome, msgs) = packet_lifecycle_complete(&store, &src, &sent_packet(), None);
    assert_eq!(outcome, PacketOutcome::Timeout);
    assert_eq!(
        msgs,
        vec![HostMsg::Send { to: "larry".into(), denom: "uatom".into(), amount: 12345 }]
    );
    // nothing stored was touched
    assert!(!store.has("uatom"));
}

#[test]
fn refund_on_failed_ack_mints_back_burned_vouchers() {
    let mut store = DenomTraces::new();
    let src = Endpoint::new(PORT, "channel-0");
    store.insert_new("factory/c/v", TraceItem { base_denom: "ujuno".into(), path: vec![src.duplicate()] });
    let packet = PacketData {
        sender: "larry".into(),
        actions: vec![transfer("factory/c/v", 3, None)],
        traces: vec![],
    };
    let (outcome, msgs) =
        packet_lifecycle_complete(&store, &src, &packet, Some(PacketAck::Failed("codespace: wasm, code: 5".into())));
    assert_eq!(outcome, PacketOutcome::Failed("codespace: wasm, code: 5".into()));
    assert_eq!(
        msgs,
        vec![
            HostMsg::Mint { denom: "factory/c/v".into(), amount: 3 },
            HostMsg::Send { to: "larry".into(), denom: "factory/c/v".into(), amount: 3 },
        ]
    );
}

#[test]
fn no_refund_on_success() {
    let store = DenomTraces::new();
    let src = Endpoint::new(PORT, "channel-0");
    let (outcome, msgs) =
        packet_lifecycle_complete(&store, &src, &sent_packet(), Some(PacketAck::Success(vec![])));
    assert_eq!(outcome, PacketOutcome::Success(vec![]));
    assert!(msgs.is_empty());
    assert!(!should_refund(&outcome));
    assert!(should_refund(&PacketOutcome::Timeout));
    assert_eq!(outcome.ty(), "success");
    assert_eq!(PacketOutcome::Timeout.ty(), "timeout");
}

#[test]
fn failed_handler_gives_failed_ack() {
    assert_eq!(after_all_actions(Err("boom".into())), PacketAck::Failed("boom".into()));
}

#[test]
fn repeated_attached_denoms_are_added_up() {
    let store = DenomTraces::new();
    let channels = mock_channels();
    let out = act(
        &store,
        &channels,
        PORT,
        "connection-0",
        "larry",
        vec![Coin::new(100, "uatom"), Coin::new(5, "uatom")],
        vec![transfer("uatom", 105, None)],
    );
    assert!(out.is_ok());
}

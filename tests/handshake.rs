use one_core::handshake::{close, open_connect, open_init, open_try, ActiveChannels, Channel, CloseMsg, ORDER, VERSION};
use one_core::types::Endpoint;
use one_core::{Error, Order};

fn mock_ibc_endpoint() -> Endpoint {
    Endpoint::new("wasm.cosmos2contract", "channel-0")
}

fn mock_ibc_channel() -> Channel {
    Channel {
        endpoint: mock_ibc_endpoint(),
        counterparty_endpoint: mock_ibc_endpoint(),
        order: ORDER,
        version: VERSION.into(),
        connection_id: "connection-0".into(),
    }
}

#[test]
fn proper_open_init() {
    let mut channels = ActiveChannels::new();

    // valid channel
    {
        let res = open_init(&channels, &mock_ibc_channel());
        assert_eq!(res, Ok(()));
    }

    // incorrect ordering
    {
        let mut channel = mock_ibc_channel();
        channel.order = Order::Ordered;

        let err = open_init(&channels, &channel).unwrap_err();
        assert!(matches!(err, Error::IncorrectOrder { .. }));
        assert_eq!(err, Error::IncorrectOrder { actual: Order::Ordered, expected: Order::Unordered });
    }

    // incorrect version
    {
        let mut channel = mock_ibc_channel();
        channel.version = "ics20".into();

        let err = open_init(&channels, &channel).unwrap_err();
        assert!(matches!(err, Error::IncorrectVersion { .. }));
    }

    // channel already exists for the connection
    {
        let channel = mock_ibc_channel();

        channels.save(&channel.connection_id, "channel-123");

        let err = open_init(&channels, &channel).unwrap_err();
        assert!(matches!(err, Error::ChannelExists { .. }));
    }
}

#[test]
fn proper_open_try() {
    let channels = ActiveChannels::new();

    // valid channel
    {
        let res = open_try(&channels, &mock_ibc_channel(), VERSION);
        assert_eq!(res, Ok(()));
    }

    // incorrect countarparty version
    {
        let err = open_try(&channels, &mock_ibc_channel(), "ics20").unwrap_err();
        assert!(matches!(err, Error::IncorrectVersion { .. }));
    }
}

#[test]
fn proper_open_connect() {
    let mut channels = ActiveChannels::new();

    let channel = mock_ibc_channel();

    let res = open_connect(&mut channels, &channel, Some(VERSION));
    assert_eq!(res, Ok(()));

    let active_channel = channels.get(&channel.connection_id).unwrap();
    assert_eq!(active_channel, channel.endpoint.channel_id);
}

#[test]
fn rejecting_channel_close() {
    let err = close(&CloseMsg::CloseInit { channel: mock_ibc_channel() }).unwrap_err();
    assert_eq!(err, Error::UnexpectedChannelClosure);
}

#[test]
fn accepting_counterparty_close() {
    assert_eq!(close(&CloseMsg::CloseConfirm { channel: mock_ibc_channel() }), Ok(()));
}

#[test]
fn rejected_connect_records_nothing() {
    let mut channels = ActiveChannels::new();
    let mut channel = mock_ibc_channel();
    channel.version = "ics20".into();
    let err = open_connect(&mut channels, &channel, Some(VERSION)).unwrap_err();
    assert_eq!(
        err,
        Error::IncorrectVersion { actual: "ics20".into(), expected: VERSION.into() }
    );
    assert!(!channels.has("connection-0"));

    let channel = mock_ibc_channel();
    let err = open_connect(&mut channels, &channel, Some("ics20")).unwrap_err();
    assert!(matches!(err, Error::IncorrectVersion { .. }));
    assert!(!channels.has("connection-0"));
}

#[test]
fn second_open_on_connection_is_rejected() {
    let mut channels = ActiveChannels::new();
    let channel = mock_ibc_channel();
    open_connect(&mut channels, &channel, Some(VERSION)).unwrap();
    let err = open_try(&channels, &channel, VERSION).unwrap_err();
    assert_eq!(err, Error::ChannelExists { connection_id: "connection-0".into() });
}

use one_core::denom::construct_denom;
use one_core::trace::{DenomTraces, TraceItem};
use one_core::types::Endpoint;

#[test]
fn deriving_hash() {
    let trace = TraceItem {
        base_denom: "ujuno".into(),
        path: vec![Endpoint::new("transfer", "channel-0"), Endpoint::new("ics999", "channel-12345")],
    };
    assert_eq!(trace.hash_hex(), "88a388f8b33bf58238ed9600360c471707db9eab");
}

#[test]
fn determining_source() {
    let mock_src = Endpoint::new("ics999", "channel_0");

    // if path is empty, then sender is source
    {
        let trace = TraceItem {
            base_denom: "uatom".into(),
            path: vec![],
        };
        assert!(trace.sender_is_source(&mock_src));
    }

    // if path is not empty, but the very last step is not the receiver
    // chain, then sender is source
    {
        let trace = TraceItem {
            base_denom: "uatom".into(),
            path: vec![Endpoint::new("test", "channel-1")],
        };
        assert!(trace.sender_is_source(&mock_src));
    }

    // if path is not empty, and the very last step is the receiver chain,
    // then receiver is the source
    {
        let trace = TraceItem {
            base_denom: "uatom".into(),
            path: vec![Endpoint::new("test", "channel-1"), mock_src.duplicate()],
        };
        assert!(trace.receiver_is_source(&mock_src));
    }
}

#[test]
fn hash_is_deterministic_and_fixed_length() {
    let make = || TraceItem {
        base_denom: "ujuno".into(),
        path: vec![Endpoint::new("transfer", "channel-0"), Endpoint::new("ics999", "channel-12345")],
    };
    let a = make().hash();
    let b = make().hash();
    assert_eq!(a, b);
    assert_eq!(a.len(), 20);
    assert_eq!(make().hash_hex().len(), 40);
    let other = TraceItem::new("ujuno").hash();
    assert_ne!(a, other);
}

#[test]
fn voucher_denom_fits_host_limit() {
    let contract = "osmo1qzskhrcjnkdz2ldv0ztc6dqxmuvpfhqqr0x8mclynlgsyj2qh5fqazgjsm";
    let trace = TraceItem {
        base_denom: "ujuno".into(),
        path: vec![Endpoint::new("transfer", "channel-0"), Endpoint::new("ics999", "channel-12345")],
    };
    let denom = trace.voucher_denom(contract);
    assert_eq!(denom, format!("factory/{contract}/88a388f8b33bf58238ed9600360c471707db9eab"));
    assert!(denom.len() <= 128);
}

#[test]
fn appending_a_hop_flips_source() {
    let e = Endpoint::new("ics999", "channel-7");
    let mut trace = TraceItem::new("uatom");
    assert!(trace.sender_is_source(&e));
    assert!(!trace.receiver_is_source(&e));
    trace.push_hop(&e);
    assert!(!trace.sender_is_source(&e));
    assert!(trace.receiver_is_source(&e));
    trace.pop_hop();
    assert!(trace.sender_is_source(&e));
    assert!(trace.path.is_empty());
}

#[test]
fn constructing_denom() {
    assert_eq!(construct_denom("osmo1abc", "sub"), "factory/osmo1abc/sub");
}

#[test]
fn trace_of_unknown_denom_is_local() {
    let mut store = DenomTraces::new();
    let t = store.trace_of("uatom");
    assert_eq!(t, TraceItem::new("uatom"));
    let stored = TraceItem { base_denom: "ujuno".into(), path: vec![Endpoint::new("p", "c")] };
    store.insert_new("factory/x/y", stored.duplicate());
    assert!(store.has("factory/x/y"));
    assert_eq!(store.trace_of("factory/x/y"), stored);
}

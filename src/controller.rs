use vstd::prelude::*;

use crate::coins::{amount_in, fold_add, Coin, Coins};
use crate::error::Error;
use crate::handler::{burn, mint, msgs_view, release, HostMsg, MsgView};
use crate::handshake::ActiveChannels;
use crate::order::compare_text;
use crate::trace::{sender_is_source_spec, trace_of_spec, trace_view, DenomTraces, TraceView};
use crate::types::{Action, Endpoint, PacketAck, PacketData, PacketOutcome, Trace};

verus! {

/// The amounts that a queue's transfers add up to, denomination by
/// denomination; none where a sum does not fit in 128 bits.
pub open spec fn transfer_total(actions: Seq<Action>) -> Option<Map<Seq<char>, u128>>
    decreases actions.len(),
{
    if actions.len() == 0 {
        Some(Map::empty())
    } else {
        match transfer_total(actions.drop_last()) {
            None => None,
            Some(m) => match actions.last() {
                Action::Transfer { denom, amount, .. } => if amount_in(m, denom@) + amount
                    > u128::MAX {
                    None
                } else {
                    Some(m.insert(denom@, (amount_in(m, denom@) + amount) as u128))
                },
                _ => Some(m),
            },
        }
    }
}

/// The traces that a packet carries: one per transferred denomination, in
/// order of first use, as this chain knows them.
pub open spec fn packet_traces(store: Map<Seq<char>, TraceView>, actions: Seq<Action>) -> Seq<
    (Seq<char>, TraceView),
>
    decreases actions.len(),
{
    if actions.len() == 0 {
        Seq::empty()
    } else {
        let p = packet_traces(store, actions.drop_last());
        match actions.last() {
            Action::Transfer { denom, .. } => if exists|i: int|
                0 <= i < p.len() && p[i].0 == denom@ {
                p
            } else {
                p.push((denom@, trace_of_spec(store, denom@)))
            },
            _ => p,
        }
    }
}

/// The burns that sending a queue takes: each transfer of a token whose
/// source this chain is not is burned here; the others are escrowed, which
/// needs no instruction.
pub open spec fn burn_msgs(
    store: Map<Seq<char>, TraceView>,
    localhost: (Seq<char>, Seq<char>),
    actions: Seq<Action>,
) -> Seq<MsgView>
    decreases actions.len(),
{
    if actions.len() == 0 {
        Seq::empty()
    } else {
        let p = burn_msgs(store, localhost, actions.drop_last());
        match actions.last() {
            Action::Transfer { denom, amount, .. } => if sender_is_source_spec(
                trace_of_spec(store, denom@),
                localhost,
            ) {
                p
            } else {
                p.push(MsgView::Burn { denom: denom@, amount })
            },
            _ => p,
        }
    }
}

pub open spec fn traces_view(v: Seq<Trace>) -> Seq<(Seq<char>, TraceView)> {
    v.map_values(|t: Trace| (t.denom@, trace_view(&t)))
}

/// The ledger that attached coins add up to; none where a sum overflows.
pub open spec fn coins_total(v: Seq<Coin>) -> Option<Map<Seq<char>, u128>> {
    fold_add(v.map_values(|c: Coin| c.entry()))
}

/// A request is accepted: it holds an action, the connection has an active
/// channel, and the funds attached are exactly what the transfers add up to.
pub open spec fn act_accepts(
    received: Map<Seq<char>, u128>,
    actions: Seq<Action>,
    channels: Map<Seq<char>, Seq<char>>,
    connection_id: Seq<char>,
) -> bool {
    actions.len() > 0 && channels.contains_key(connection_id) && transfer_total(actions) == Some(
        received,
    )
}

/// A packet ready to be sent, with the instructions that sending it takes.
#[derive(Debug)]
pub struct Outbound {
    /// The local channel to send on.
    pub channel_id: String,
    pub packet: PacketData,
    /// Burns of the vouchers that leave this chain.
    pub msgs: Vec<HostMsg>,
}

fn has_trace(traces: &Vec<Trace>, denom: &String) -> (r: bool)
    ensures
        r == exists|i: int| 0 <= i < traces@.len() && traces_view(traces@)[i].0 == denom@,
{
    let mut i: usize = 0;
    while i < traces.len()
        invariant
            i <= traces@.len(),
            forall|k: int| 0 <= k < i ==> #[trigger] traces_view(traces@)[k].0 != denom@,
        decreases traces@.len() - i,
    {
        assert(traces_view(traces@)[i as int].0 == traces@[i as int].denom@);
        if compare_text(traces[i].denom.as_str(), denom.as_str()) == 0 {
            return true;
        }
        i = i + 1;
    }
    false
}

/// Checks a request to run `actions` on the counterparty chain and builds its
/// packet: the funds attached must be exactly what the transfers add up to;
/// tokens that this chain is the source of are escrowed, vouchers are burned.
pub fn act(
    denom_traces: &DenomTraces,
    channels: &ActiveChannels,
    port_id: &str,
    connection_id: &str,
    sender: &str,
    funds: Vec<Coin>,
    actions: Vec<Action>,
) -> (r: Result<Outbound, Error>)
    requires
        denom_traces.wf(),
        channels.wf(),
    ensures
        r is Ok <==> coins_total(funds@) is Some && act_accepts(
            coins_total(funds@)->0,
            actions@,
            channels@,
            connection_id@,
        ),
        actions@.len() == 0 ==> r == Err::<Outbound, Error>(Error::EmptyActionQueue),
        actions@.len() > 0 && !channels@.contains_key(connection_id@) ==> (r matches Err(
            Error::ChannelNotFound { connection_id: c },
        ) && c@ == connection_id@),
        actions@.len() > 0 && channels@.contains_key(connection_id@) && (coins_total(funds@) is None
            || transfer_total(actions@) is None) ==> r == Err::<Outbound, Error>(Error::Overflow),
        actions@.len() > 0 && channels@.contains_key(connection_id@) && coins_total(funds@) is Some
            && transfer_total(actions@) is Some && transfer_total(actions@) != coins_total(funds@)
            ==> (r matches Err(Error::FundsMismatch { actual, expected }) && Some(actual.amounts())
            == coins_total(funds@) && Some(expected.amounts()) == transfer_total(actions@)),
        r matches Ok(out) ==> {
            let localhost = (port_id@, channels@[connection_id@]);
            &&& out.channel_id@ == channels@[connection_id@]
            &&& out.packet.sender@ == sender@
            &&& out.packet.actions == actions
            &&& traces_view(out.packet.traces@) == packet_traces(denom_traces@, actions@)
            &&& msgs_view(out.msgs@) == burn_msgs(denom_traces@, localhost, actions@)
        },
{
    if actions.len() == 0 {
        return Err(Error::EmptyActionQueue);
    }
    let channel_id = match channels.get(connection_id) {
        Some(c) => c,
        None => {
            return Err(Error::ChannelNotFound { connection_id: connection_id.to_owned() });
        },
    };
    let localhost = Endpoint::new(port_id, channel_id.as_str());
    let received = Coins::from_coins(funds)?;
    let mut sending = Coins::empty();
    let mut msgs: Vec<HostMsg> = Vec::new();
    let mut traces: Vec<Trace> = Vec::new();
    let mut i: usize = 0;
    while i < actions.len()
        invariant
            i <= actions@.len(),
            sending.wf(),
            denom_traces.wf(),
            channels@.contains_key(connection_id@),
            transfer_total(actions@.subrange(0, i as int)) == Some(sending.amounts()),
            traces_view(traces@) == packet_traces(denom_traces@, actions@.subrange(0, i as int)),
            msgs_view(msgs@) == burn_msgs(denom_traces@, localhost@, actions@.subrange(0, i as int)),
        decreases actions@.len() - i,
    {
        let ghost prefix = actions@.subrange(0, i + 1);
        assert(prefix.drop_last() =~= actions@.subrange(0, i as int));
        assert(prefix.last() == actions@[i as int]);
        if let Action::Transfer { denom, amount, .. } = &actions[i] {
            let trace = denom_traces.trace_of(denom.as_str());
            // a token this chain is the source of stays escrowed in the
            // contract; a voucher going back towards its source is burned
            if !trace.sender_is_source(&localhost) {
                burn(denom, *amount, &mut msgs);
            }
            if !has_trace(&traces, denom) {
                let ghost before = traces@;
                let t = trace.into_full_trace(denom.as_str());
                let ghost tv = (t.denom@, trace_view(&t));
                traces.push(t);
                assert(traces_view(traces@) =~= traces_view(before).push(tv));
            }
            let ghost m = sending.amounts();
            match sending.add(Coin { denom: denom.clone(), amount: *amount }) {
                Ok(()) => {},
                Err(e) => {
                    proof {
                        lemma_total_none_extends(actions@, i as int + 1);
                        assert(actions@.subrange(0, actions@.len() as int) =~= actions@);
                    }
                    return Err(e);
                },
            }
        }
        i = i + 1;
    }
    assert(actions@.subrange(0, i as int) =~= actions@);
    if !sending.same_as(&received) {
        return Err(Error::FundsMismatch { actual: received, expected: sending });
    }
    Ok(
        Outbound {
            channel_id,
            packet: PacketData { sender: sender.to_owned(), actions, traces },
            msgs,
        },
    )
}

/// Once the total of a prefix overflows, so does that of every longer prefix.
proof fn lemma_total_none_extends(actions: Seq<Action>, i: int)
    requires
        0 <= i <= actions.len(),
        transfer_total(actions.subrange(0, i)) is None,
    ensures
        transfer_total(actions.subrange(0, actions.len() as int)) is None,
    decreases actions.len() - i,
{
    if i < actions.len() {
        assert(actions.subrange(0, i + 1).drop_last() =~= actions.subrange(0, i));
        lemma_total_none_extends(actions, i + 1);
    }
}

/// A request on a connection with an active channel is accepted exactly when
/// the funds attached equal, denomination by denomination, what its transfers
/// add up to: extra, missing or wrongly named funds are refused.
pub proof fn lemma_fund_conservation(
    received: Map<Seq<char>, u128>,
    actions: Seq<Action>,
    channels: Map<Seq<char>, Seq<char>>,
    connection_id: Seq<char>,
)
    requires
        actions.len() > 0,
        channels.contains_key(connection_id),
    ensures
        act_accepts(received, actions, channels, connection_id) <==> transfer_total(actions)
            == Some(received),
        transfer_total(actions) is Some && (exists|d: Seq<char>| amount_in(received, d)
            != #[trigger] amount_in(transfer_total(actions)->0, d)) ==> !act_accepts(
            received,
            actions,
            channels,
            connection_id,
        ),
{
}

/// Whether the funds of a sent packet go back to its sender: on a timeout or
/// a failed acknowledgement.
pub fn should_refund(outcome: &PacketOutcome) -> (r: bool)
    ensures
        r == !(outcome is Success),
{
    match outcome {
        PacketOutcome::Timeout => true,
        PacketOutcome::Failed(_) => true,
        PacketOutcome::Success(_) => false,
    }
}

/// The refunds of a packet's transfers to `sender`: escrowed tokens are
/// released; burned vouchers are minted again (to this contract) and sent.
pub open spec fn refund_msgs(
    store: Map<Seq<char>, TraceView>,
    src: (Seq<char>, Seq<char>),
    sender: Seq<char>,
    actions: Seq<Action>,
) -> Seq<MsgView>
    decreases actions.len(),
{
    if actions.len() == 0 {
        Seq::empty()
    } else {
        let p = refund_msgs(store, src, sender, actions.drop_last());
        match actions.last() {
            Action::Transfer { denom, amount, .. } => if sender_is_source_spec(
                trace_of_spec(store, denom@),
                src,
            ) {
                p.push(MsgView::Send { to: sender, denom: denom@, amount })
            } else {
                p.push(MsgView::Mint { denom: denom@, amount }).push(
                    MsgView::Send { to: sender, denom: denom@, amount },
                )
            },
            _ => p,
        }
    }
}

/// Ends the life of a sent packet, given its acknowledgement (none on a
/// timeout): the outcome to report to the sender, and the refunds where the
/// packet timed out or failed.
pub fn packet_lifecycle_complete(
    denom_traces: &DenomTraces,
    src: &Endpoint,
    packet: &PacketData,
    ack: Option<PacketAck>,
) -> (r: (PacketOutcome, Vec<HostMsg>))
    requires
        denom_traces.wf(),
    ensures
        ack is None <==> r.0 == PacketOutcome::Timeout,
        ack matches Some(PacketAck::Success(v)) ==> r.0 == PacketOutcome::Success(v),
        ack matches Some(PacketAck::Failed(e)) ==> r.0 == PacketOutcome::Failed(e),
        msgs_view(r.1@) == (if ack matches Some(PacketAck::Success(_)) {
            Seq::empty()
        } else {
            refund_msgs(denom_traces@, src@, packet.sender@, packet.actions@)
        }),
{
    let outcome = PacketOutcome::from_ack(ack);
    let mut msgs: Vec<HostMsg> = Vec::new();
    if should_refund(&outcome) {
        let mut i: usize = 0;
        while i < packet.actions.len()
            invariant
                i <= packet.actions@.len(),
                denom_traces.wf(),
                msgs_view(msgs@) == refund_msgs(
                    denom_traces@,
                    src@,
                    packet.sender@,
                    packet.actions@.subrange(0, i as int),
                ),
            decreases packet.actions@.len() - i,
        {
            let ghost prefix = packet.actions@.subrange(0, i + 1);
            assert(prefix.drop_last() =~= packet.actions@.subrange(0, i as int));
            assert(prefix.last() == packet.actions@[i as int]);
            if let Action::Transfer { denom, amount, .. } = &packet.actions[i] {
                let trace = denom_traces.trace_of(denom.as_str());
                // undo what sending did: release what was escrowed, mint
                // back what was burned
                if trace.sender_is_source(src) {
                    release(denom, *amount, &packet.sender, &mut msgs);
                } else {
                    mint(denom, *amount, &packet.sender, &mut msgs);
                }
            }
            i = i + 1;
        }
        assert(packet.actions@.subrange(0, i as int) =~= packet.actions@);
    } else {
        assert(msgs_view(msgs@) =~= Seq::<MsgView>::empty());
    }
    (outcome, msgs)
}

/// The acknowledgement of a received packet: its results where every action
/// succeeded, else the error.
pub fn after_all_actions(res: Result<Vec<crate::types::ActionResult>, String>) -> (r: PacketAck)
    ensures
        res matches Ok(v) ==> r == PacketAck::Success(v),
        res matches Err(e) ==> r == PacketAck::Failed(e),
{
    match res {
        Ok(results) => PacketAck::Success(results),
        Err(e) => PacketAck::Failed(e),
    }
}

} // verus!

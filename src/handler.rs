use vstd::prelude::*;

use crate::denom::{construct_denom, full_denom, hex_text};
use crate::error::Error;
use crate::order::compare_text;
use crate::token_factory::{assert_free_denom_creation, Params};
use crate::registry::{
    account_key, default_salt, default_salt_spec, derive_address, instantiate2_accepts,
    instantiate2_of, Accounts,
};
use vstd::string::StringExecFns;
use crate::trace::{
    sender_is_source_spec, trace_hash, trace_view, voucher_denom, with_hop, without_last_hop,
    DenomTraces, TraceItem, TraceView,
};
use crate::types::{
    FactoryResponse, opt_bytes, results_view, Action, ActionResult, Endpoint, RegisterOptions, ResultView, Trace,
};

verus! {

/// What the host chain tells the engine about itself.
#[derive(Debug)]
pub struct HostInfo {
    /// This contract's address.
    pub contract: String,
    /// This contract's address in canonical (binary) form.
    pub contract_canonical: Vec<u8>,
    /// Code id of the default account template.
    pub account_code_id: u64,
    /// Checksum of the default account template's code.
    pub account_checksum: Vec<u8>,
    /// The token factory's parameters, its denomination creation fee among them.
    pub token_factory_params: Params,
}

/// A side-effecting instruction for the host chain.
#[derive(Debug, PartialEq, Eq)]
pub enum HostMsg {
    /// Create a token factory denomination owned by this contract.
    CreateDenom { subdenom: String },
    /// Mint to this contract (the token factory only mints to the minter).
    Mint { denom: String, amount: u128 },
    /// Burn from this contract.
    Burn { denom: String, amount: u128 },
    /// Send native funds.
    Send { to: String, denom: String, amount: u128 },
    /// Instantiate the account template at its derived address.
    Instantiate2 { code_id: u64, admin: String, label: String, salt: Vec<u8> },
    /// Invoke a contract with an opaque message.
    Execute { contract: String, msg: Vec<u8> },
    /// Ask a factory contract to register an account.
    RegisterWithFactory {
        factory: String,
        endpoint: Endpoint,
        controller: String,
        data: Option<Vec<u8>>,
    },
}

/// Abstract value of a host instruction.
pub enum MsgView {
    CreateDenom { subdenom: Seq<char> },
    Mint { denom: Seq<char>, amount: u128 },
    Burn { denom: Seq<char>, amount: u128 },
    Send { to: Seq<char>, denom: Seq<char>, amount: u128 },
    Instantiate2 { code_id: u64, admin: Seq<char>, label: Seq<char>, salt: Seq<u8> },
    Execute { contract: Seq<char>, msg: Seq<u8> },
    RegisterWithFactory {
        factory: Seq<char>,
        endpoint: (Seq<char>, Seq<char>),
        controller: Seq<char>,
        data: Option<Seq<u8>>,
    },
}

impl View for HostMsg {
    type V = MsgView;

    open spec fn view(&self) -> MsgView {
        match self {
            HostMsg::CreateDenom { subdenom } => MsgView::CreateDenom { subdenom: subdenom@ },
            HostMsg::Mint { denom, amount } => MsgView::Mint { denom: denom@, amount: *amount },
            HostMsg::Burn { denom, amount } => MsgView::Burn { denom: denom@, amount: *amount },
            HostMsg::Send { to, denom, amount } => MsgView::Send {
                to: to@,
                denom: denom@,
                amount: *amount,
            },
            HostMsg::Instantiate2 { code_id, admin, label, salt } => MsgView::Instantiate2 {
                code_id: *code_id,
                admin: admin@,
                label: label@,
                salt: salt@,
            },
            HostMsg::Execute { contract, msg } => MsgView::Execute {
                contract: contract@,
                msg: msg@,
            },
            HostMsg::RegisterWithFactory { factory, endpoint, controller, data } =>
                MsgView::RegisterWithFactory {
                factory: factory@,
                endpoint: endpoint@,
                controller: controller@,
                data: crate::types::opt_bytes(*data),
            },
        }
    }
}

pub open spec fn msgs_view(v: Seq<HostMsg>) -> Seq<MsgView> {
    v.map_values(|m: HostMsg| m@)
}

/// Returns escrowed funds: sends `amount` of `denom` to `to`.
pub fn release(denom: &String, amount: u128, to: &String, msgs: &mut Vec<HostMsg>)
    ensures
        msgs_view(final(msgs)@) == msgs_view(old(msgs)@).push(
            MsgView::Send { to: to@, denom: denom@, amount },
        ),
{
    let ghost before = msgs@;
    msgs.push(HostMsg::Send { to: to.clone(), denom: denom.clone(), amount });
    assert(msgs_view(msgs@) =~= msgs_view(before).push(
        MsgView::Send { to: to@, denom: denom@, amount },
    ));
}

/// Mints `amount` of `denom` and forwards it to `to`: the token factory
/// mints only to the minter, so the contract mints to itself first.
pub fn mint(denom: &String, amount: u128, to: &String, msgs: &mut Vec<HostMsg>)
    ensures
        msgs_view(final(msgs)@) == msgs_view(old(msgs)@).push(
            MsgView::Mint { denom: denom@, amount },
        ).push(MsgView::Send { to: to@, denom: denom@, amount }),
{
    let ghost before = msgs@;
    msgs.push(HostMsg::Mint { denom: denom.clone(), amount });
    msgs.push(HostMsg::Send { to: to.clone(), denom: denom.clone(), amount });
    assert(msgs_view(msgs@) =~= msgs_view(before).push(MsgView::Mint { denom: denom@, amount }).push(
        MsgView::Send { to: to@, denom: denom@, amount },
    ));
}

/// Burns `amount` of `denom` from the contract, where the sender attached it.
pub fn burn(denom: &String, amount: u128, msgs: &mut Vec<HostMsg>)
    ensures
        msgs_view(final(msgs)@) == msgs_view(old(msgs)@).push(
            MsgView::Burn { denom: denom@, amount },
        ),
{
    let ghost before = msgs@;
    msgs.push(HostMsg::Burn { denom: denom.clone(), amount });
    assert(msgs_view(msgs@) =~= msgs_view(before).push(MsgView::Burn { denom: denom@, amount }));
}

/// What a step asks of the host before the engine can go on.
#[derive(Debug)]
pub enum Step {
    /// The queue is empty: the handler's state is to be deleted and the
    /// results are the packet's outcome.
    Done(Vec<ActionResult>),
    /// Dispatch `msgs`, then `sub` as a sub-call whose failure aborts the
    /// whole execution and whose success comes back through `after_action`
    /// (or, for a factory registration, `after_register_account_custom_factory`).
    Dispatch { msgs: Vec<HostMsg>, sub: HostMsg },
    /// Run a read-only query of `contract` with `msg` and hand the answer to
    /// `after_query`.
    Query { contract: String, msg: Vec<u8> },
    /// Turn the canonical address of a new account into its textual form and
    /// hand it to `after_derive_address`.
    Humanize { canonical: Vec<u8> },
}

/// The fields that a step leaves as they are: the endpoints, the controller,
/// the packet's traces and the controller's account.
pub open spec fn same_frame(before: Handler, after: Handler) -> bool {
    &&& after.counterparty_endpoint == before.counterparty_endpoint
    &&& after.endpoint == before.endpoint
    &&& after.controller == before.controller
    &&& after.traces == before.traces
    &&& after.host == before.host
}

/// The error that a step gives where the controller has no account.
pub open spec fn is_account_not_found(before: Handler, r: Result<Step, Error>) -> bool {
    r matches Err(Error::AccountNotFound { endpoint, controller }) && endpoint@ == before.endpoint@
        && controller@ == before.controller@
}

/// The error that a step gives where the controller has an account already.
pub open spec fn is_account_exists(before: Handler, r: Result<Step, Error>) -> bool {
    r matches Err(Error::AccountExists { endpoint, controller }) && endpoint@ == before.endpoint@
        && controller@ == before.controller@
}

/// Creating a denomination costs nothing.
pub open spec fn creation_free(host: &HostInfo) -> bool {
    host.token_factory_params.denom_creation_fee@.len() == 0
}

/// A declared trace for the denomination stands at index `i`, and none before it.
pub open spec fn is_first_trace(traces: Seq<Trace>, denom: Seq<char>, i: int) -> bool {
    0 <= i < traces.len() && traces[i].denom@ == denom && forall|k: int|
        0 <= k < i ==> #[trigger] traces[k].denom@ != denom
}

/// The trace that a packet declares for a denomination: its first entry for it.
pub open spec fn declared_trace(traces: Seq<Trace>, denom: Seq<char>) -> Option<TraceView> {
    if exists|i: int| is_first_trace(traces, denom, i) {
        Some(trace_view(&traces[choose|i: int| is_first_trace(traces, denom, i)]))
    } else {
        None
    }
}

pub open spec fn opt_text(v: Option<String>) -> Option<Seq<char>> {
    match v {
        Some(s) => Some(s@),
        None => None,
    }
}

/// The recipient of a transfer: the one named, else the controller's account.
pub open spec fn transfer_recipient(named: Option<Seq<char>>, host: Option<Seq<char>>) -> Option<
    Seq<char>,
> {
    if named is Some {
        named
    } else {
        host
    }
}

/// The denomination that a transfer delivers on this chain, given the trace
/// declared by the sender, the sender's endpoint `src` and this chain's
/// endpoint `dest`. Where the sender is the source, a voucher for the trace
/// extended by `dest`; else the trace without its last hop names the token:
/// its base denomination where no hop is left, a voucher otherwise.
pub open spec fn received_denom(
    contract: Seq<char>,
    t: TraceView,
    src: (Seq<char>, Seq<char>),
    dest: (Seq<char>, Seq<char>),
) -> Seq<char> {
    if sender_is_source_spec(t, src) {
        voucher_denom(contract, with_hop(t, dest))
    } else if without_last_hop(t).path.len() == 0 {
        t.base_denom
    } else {
        voucher_denom(contract, without_last_hop(t))
    }
}

/// The persisted state of one packet's execution.
#[derive(Debug)]
pub struct Handler {
    /// The sender's endpoint.
    pub counterparty_endpoint: Endpoint,
    /// This chain's endpoint.
    pub endpoint: Endpoint,
    /// The account on the sending chain that owns the packet.
    pub controller: String,
    /// The controller's interchain account here, once known.
    pub host: Option<String>,
    /// Traces of the denominations that the packet transfers.
    pub traces: Vec<Trace>,
    /// The action being executed.
    pub action: Option<Action>,
    /// The actions still to run, the next one last.
    pub pending_actions: Vec<Action>,
    /// The salt of a default registration awaiting its address.
    pub pending_salt: Option<Vec<u8>>,
    /// Results of the actions done so far, in submission order.
    pub results: Vec<ActionResult>,
}

impl Handler {
    /// A handler for a packet: looks up the controller's account and queues
    /// the actions so that the first one is popped first.
    pub fn create(
        accounts: &Accounts,
        counterparty_endpoint: Endpoint,
        endpoint: Endpoint,
        controller: String,
        actions: Vec<Action>,
        traces: Vec<Trace>,
    ) -> (r: Handler)
        requires
            accounts.wf(),
        ensures
            r.counterparty_endpoint == counterparty_endpoint,
            r.endpoint == endpoint,
            r.controller == controller,
            opt_text(r.host) == (if accounts@.contains_key(
                crate::registry::account_key(endpoint@, controller@),
            ) {
                Some(accounts@[crate::registry::account_key(endpoint@, controller@)])
            } else {
                None::<Seq<char>>
            }),
            r.traces == traces,
            r.action is None,
            r.pending_actions@ == actions@.reverse(),
            r.pending_salt is None,
            r.results@.len() == 0,
    {
        let host = accounts.lookup(&endpoint, controller.as_str());
        let mut rest = actions;
        let mut pending: Vec<Action> = Vec::new();
        let ghost all = rest@;
        while rest.len() > 0
            invariant
                all.len() == rest@.len() + pending@.len(),
                rest@ == all.subrange(0, rest@.len() as int),
                pending@ == all.subrange(rest@.len() as int, all.len() as int).reverse(),
            decreases rest@.len(),
        {
            let ghost n = rest@.len();
            let a = rest.pop().unwrap();
            pending.push(a);
            assert(all.subrange(n - 1, all.len() as int) =~= seq![all[n - 1]] + all.subrange(
                n as int,
                all.len() as int,
            ));
            assert(pending@ =~= all.subrange(n - 1, all.len() as int).reverse());
        }
        assert(all.subrange(0, all.len() as int) =~= all);
        Handler {
            counterparty_endpoint,
            endpoint,
            controller,
            host,
            traces,
            action: None,
            pending_actions: pending,
            pending_salt: None,
            results: Vec::new(),
        }
    }

    fn find_trace(&self, denom: &String) -> (r: Option<usize>)
        ensures
            r is None <==> declared_trace(self.traces@, denom@) is None,
            r matches Some(i) ==> is_first_trace(self.traces@, denom@, i as int) && declared_trace(
                self.traces@,
                denom@,
            ) == Some(trace_view(&self.traces@[i as int])),
    {
        let mut i: usize = 0;
        while i < self.traces.len()
            invariant
                i <= self.traces@.len(),
                forall|k: int| 0 <= k < i ==> #[trigger] self.traces@[k].denom@ != denom@,
            decreases self.traces@.len() - i,
        {
            if compare_text(self.traces[i].denom.as_str(), denom.as_str()) == 0 {
                proof {
                    assert(is_first_trace(self.traces@, denom@, i as int));
                    let j = choose|j: int| is_first_trace(self.traces@, denom@, j);
                    if j < i {
                        assert(self.traces@[j].denom@ != denom@);
                    } else if j > i {
                        assert(self.traces@[i as int].denom@ != denom@);
                    }
                }
                return Some(i);
            }
            i = i + 1;
        }
        proof {
            if exists|j: int| is_first_trace(self.traces@, denom@, j) {
                let j = choose|j: int| is_first_trace(self.traces@, denom@, j);
                assert(self.traces@[j].denom@ != denom@);
            }
        }
        None
    }

    fn get_host(&self) -> (r: Result<String, Error>)
        ensures
            self.host matches Some(h) ==> r matches Ok(a) && a@ == h@,
            self.host is None ==> (r matches Err(Error::AccountNotFound { endpoint, controller })
                && endpoint@ == self.endpoint@ && controller@ == self.controller@),
    {
        match &self.host {
            Some(h) => Ok(h.clone()),
            None => Err(
                Error::AccountNotFound {
                    endpoint: self.endpoint.duplicate(),
                    controller: self.controller.clone(),
                },
            ),
        }
    }

    fn assert_no_host(&self) -> (r: Result<(), Error>)
        ensures
            self.host is None <==> r is Ok,
            self.host is Some ==> (r matches Err(Error::AccountExists { endpoint, controller })
                && endpoint@ == self.endpoint@ && controller@ == self.controller@),
    {
        if self.host.is_some() {
            return Err(
                Error::AccountExists {
                    endpoint: self.endpoint.duplicate(),
                    controller: self.controller.clone(),
                },
            );
        }
        Ok(())
    }

    /// Delivers a transfer on the receiving chain: mints a voucher where the
    /// sender is the token's source (creating its denomination on first use),
    /// else releases the escrowed token.
    fn handle_transfer(
        &mut self,
        denom_traces: &mut DenomTraces,
        host: &HostInfo,
        src_denom: &String,
        amount: u128,
        recipient: &Option<String>,
    ) -> (r: Result<Step, Error>)
        requires
            old(denom_traces).wf(),
        ensures
            final(denom_traces).wf(),
            final(self).pending_actions == old(self).pending_actions,
            final(self).action == old(self).action,
            same_frame(*old(self), *final(self)),
            r is Err ==> final(self).results == old(self).results,
            transfer_post(
                *old(self),
                *final(self),
                old(denom_traces)@,
                final(denom_traces)@,
                host,
                src_denom@,
                amount,
                opt_text(*recipient),
                r,
            ),
    {
        let idx = match self.find_trace(src_denom) {
            Some(i) => i,
            None => {
                return Err(Error::TraceNotFound { denom: src_denom.clone() });
            },
        };
        let to = match recipient {
            None => self.get_host()?,
            Some(a) => a.clone(),
        };
        let mut trace = TraceItem::from_trace(&self.traces[idx]);
        let ghost t = trace@;
        if trace.sender_is_source(&self.counterparty_endpoint) {
            trace.push_hop(&self.endpoint);
            let subdenom = trace.hash_hex();
            let denom = construct_denom(host.contract.as_str(), subdenom.as_str());
            let new_token = !denom_traces.has(denom.as_str());
            let mut msgs: Vec<HostMsg> = Vec::new();
            if new_token {
                assert_free_denom_creation(&host.token_factory_params)?;
                denom_traces.insert_new(denom.as_str(), trace);
                msgs.push(HostMsg::CreateDenom { subdenom });
            }
            self.results.push(
                ActionResult::Transfer { denom: denom.clone(), new_token, recipient: to.clone() },
            );
            let ghost created = msgs@;
            msgs.push(HostMsg::Mint { denom: denom.clone(), amount });
            proof {
                assert(msgs_view(msgs@) =~= msgs_view(created).push(
                    MsgView::Mint { denom: denom@, amount },
                ));
                if new_token {
                    assert(msgs_view(created) =~= seq![MsgView::CreateDenom { subdenom: subdenom@ }]);
                    assert(subdenom@ == hex_text(trace_hash(with_hop(t, self.endpoint@))));
                    assert(msgs_view(msgs@) =~= seq![
                        MsgView::CreateDenom { subdenom: subdenom@ },
                        MsgView::Mint { denom: denom@, amount },
                    ]);
                } else {
                    assert(msgs_view(created) =~= Seq::<MsgView>::empty());
                }
                assert(results_view(self.results@) =~= results_view(old(self).results@).push(
                    ResultView::Transfer { denom: denom@, new_token, recipient: to@ },
                ));
            }
            Ok(Step::Dispatch { msgs, sub: HostMsg::Send { to, denom, amount } })
        } else {
            trace.pop_hop();
            let denom = if trace.path.len() == 0 {
                trace.base_denom.clone()
            } else {
                trace.voucher_denom(host.contract.as_str())
            };
            self.results.push(
                ActionResult::Transfer { denom: denom.clone(), new_token: false, recipient: to.clone() },
            );
            proof {
                assert(results_view(self.results@) =~= results_view(old(self).results@).push(
                    ResultView::Transfer { denom: denom@, new_token: false, recipient: to@ },
                ));
            }
            let msgs: Vec<HostMsg> = Vec::new();
            assert(msgs_view(msgs@) =~= Seq::<MsgView>::empty());
            Ok(Step::Dispatch { msgs, sub: HostMsg::Send { to, denom, amount } })
        }
    }

    /// Default registration, first half: the account's canonical address is
    /// derived from the template's checksum, this contract and the salt (the
    /// one given, else the default salt of endpoint and controller).
    fn handle_register_account_default(&mut self, host: &HostInfo, salt: &Option<Vec<u8>>) -> (r:
        Result<Step, Error>)
        ensures
            final(self).pending_actions == old(self).pending_actions,
            final(self).action == old(self).action,
            final(self).results == old(self).results,
            same_frame(*old(self), *final(self)),
            register_default_post(*old(self), *final(self), host, opt_bytes(*salt), r),
    {
        self.assert_no_host()?;
        let salt = match salt {
            Some(s) => s.clone(),
            None => default_salt(&self.endpoint, self.controller.as_str()),
        };
        let canonical = derive_address(&host.account_checksum, &host.contract_canonical, &salt)?;
        self.pending_salt = Some(salt);
        Ok(Step::Humanize { canonical })
    }

    /// Default registration, second half: records the account under its
    /// textual address and asks for the template to be instantiated there.
    pub fn after_derive_address(
        &mut self,
        accounts: &mut Accounts,
        host: &HostInfo,
        address: String,
    ) -> (r: Result<Step, Error>)
        requires
            old(accounts).wf(),
            old(self).pending_salt is Some,
        ensures
            final(accounts).wf(),
            final(self).action == old(self).action,
            final(self).pending_actions == old(self).pending_actions,
            final(self).counterparty_endpoint == old(self).counterparty_endpoint,
            final(self).endpoint == old(self).endpoint,
            final(self).controller == old(self).controller,
            final(self).traces == old(self).traces,
            r is Err ==> final(self).results == old(self).results && final(self).host == old(
                self,
            ).host,
            old(accounts)@.contains_key(account_key(old(self).endpoint@, old(self).controller@))
                ==> (r matches Err(Error::AccountExists { endpoint, controller })
                && endpoint@ == old(self).endpoint@ && controller@ == old(self).controller@
                && final(accounts)@ == old(accounts)@),
            !old(accounts)@.contains_key(account_key(old(self).endpoint@, old(self).controller@))
                ==> {
                &&& final(accounts)@ == old(accounts)@.insert(
                    account_key(old(self).endpoint@, old(self).controller@),
                    address@,
                )
                &&& opt_text(final(self).host) == Some(address@)
                &&& final(self).pending_salt is None
                &&& results_view(final(self).results@) == results_view(old(self).results@).push(
                    ResultView::RegisterAccount { address: address@ },
                )
                &&& r matches Ok(Step::Dispatch { msgs, sub })
                &&& msgs@.len() == 0
                &&& sub@ == (MsgView::Instantiate2 {
                    code_id: host.account_code_id,
                    admin: host.contract@,
                    label: account_label(old(self).endpoint.channel_id@, old(self).controller@),
                    salt: old(self).pending_salt->0@,
                })
            },
    {
        accounts.register(&self.endpoint, self.controller.as_str(), address.as_str())?;
        let mut salt: Option<Vec<u8>> = None;
        core::mem::swap(&mut salt, &mut self.pending_salt);
        let salt = salt.unwrap();
        proof {
            reveal_strlit("one-account/");
            reveal_strlit("/");
        }
        let mut label = "one-account/".to_owned();
        label.append(self.endpoint.channel_id.as_str());
        label.append("/");
        label.append(self.controller.as_str());
        assert(label@ =~= account_label(self.endpoint.channel_id@, self.controller@));
        let ghost before = self.results@;
        self.results.push(ActionResult::RegisterAccount { address: address.clone() });
        assert(results_view(self.results@) =~= results_view(before).push(
            ResultView::RegisterAccount { address: address@ },
        ));
        self.host = Some(address);
        Ok(
            Step::Dispatch {
                msgs: Vec::new(),
                sub: HostMsg::Instantiate2 {
                    code_id: host.account_code_id,
                    admin: host.contract.clone(),
                    label,
                    salt,
                },
            },
        )
    }

    /// Registration through a factory: the factory is asked to create the
    /// account and reports its address in its reply.
    fn handle_register_account_custom_factory(&self, factory: &String, data: &Option<Vec<u8>>) -> (r:
        Result<Step, Error>)
        ensures
            self.host is Some ==> is_account_exists(*self, r),
            self.host is None ==> {
                &&& r matches Ok(Step::Dispatch { msgs, sub })
                &&& msgs@.len() == 0
                &&& sub@ == (MsgView::RegisterWithFactory {
                    factory: factory@,
                    endpoint: self.endpoint@,
                    controller: self.controller@,
                    data: opt_bytes(*data),
                })
            },
    {
        self.assert_no_host()?;
        let data = match data {
            Some(d) => Some(d.clone()),
            None => None,
        };
        Ok(
            Step::Dispatch {
                msgs: Vec::new(),
                sub: HostMsg::RegisterWithFactory {
                    factory: factory.clone(),
                    endpoint: self.endpoint.duplicate(),
                    controller: self.controller.clone(),
                    data,
                },
            },
        )
    }

    /// Invokes the controller's account with the opaque message.
    fn handle_execute(&self, msg: &Vec<u8>) -> (r: Result<Step, Error>)
        ensures
            self.host is None ==> is_account_not_found(*self, r),
            self.host matches Some(h) ==> {
                &&& r matches Ok(Step::Dispatch { msgs, sub })
                &&& msgs@.len() == 0
                &&& sub@ == (MsgView::Execute { contract: h@, msg: msg@ })
            },
    {
        let contract = self.get_host()?;
        Ok(Step::Dispatch { msgs: Vec::new(), sub: HostMsg::Execute { contract, msg: msg.clone() } })
    }

    /// Asks for a query of the controller's account.
    fn handle_query(&self, msg: &Vec<u8>) -> (r: Result<Step, Error>)
        ensures
            self.host is None ==> is_account_not_found(*self, r),
            self.host matches Some(h) ==> (r matches Ok(Step::Query { contract, msg: m })
                && contract@ == h@ && m@ == msg@),
    {
        let contract = self.get_host()?;
        Ok(Step::Query { contract, msg: msg.clone() })
    }

    /// Runs the next action of the queue, or ends the packet when none is left.
    pub fn handle_next_action(
        &mut self,
        accounts: &Accounts,
        denom_traces: &mut DenomTraces,
        host: &HostInfo,
    ) -> (r: Result<Step, Error>)
        requires
            old(denom_traces).wf(),
        ensures
            final(denom_traces).wf(),
            same_frame(*old(self), *final(self)),
            r is Err ==> final(denom_traces)@ == old(denom_traces)@,
            r is Err ==> final(self).results == old(self).results,
            old(self).pending_actions@.len() == 0 ==> {
                &&& r matches Ok(Step::Done(v))
                &&& results_view(v@) == results_view(old(self).results@)
                &&& final(self).action is None
                &&& final(denom_traces)@ == old(denom_traces)@
            },
            old(self).pending_actions@.len() > 0 ==> {
                let a = old(self).pending_actions@.last();
                &&& final(self).pending_actions@ == old(self).pending_actions@.drop_last()
                &&& r is Ok ==> final(self).action == Some(a)
                &&& !(a is Transfer) ==> final(self).results == old(self).results
                &&& step_post(*old(self), *final(self), old(denom_traces)@, final(denom_traces)@, host, a, r)
            },
    {
        let next = self.pending_actions.pop();
        let a = match next {
            None => {
                self.action = None;
                let mut out: Vec<ActionResult> = Vec::new();
                core::mem::swap(&mut out, &mut self.results);
                return Ok(Step::Done(out));
            },
            Some(a) => a,
        };
        let r = match &a {
            Action::Transfer { denom, amount, recipient } => self.handle_transfer(
                denom_traces,
                host,
                denom,
                *amount,
                recipient,
            ),
            Action::RegisterAccount(RegisterOptions::Default { salt }) => self.handle_register_account_default(
                host,
                salt,
            ),
            Action::RegisterAccount(RegisterOptions::CustomFactory { address, data }) => self.handle_register_account_custom_factory(
                address,
                data,
            ),
            Action::Execute(msg) => self.handle_execute(msg),
            Action::Query(msg) => self.handle_query(msg),
        };
        if r.is_ok() {
            self.action = Some(a);
        }
        r
    }

    /// Takes in the reply of the current action's sub-call: an execution's
    /// returned data is recorded; a transfer or a default registration
    /// records nothing here. A factory registration's reply goes to
    /// `after_register_account_custom_factory` instead.
    pub fn after_action(&mut self, data: Option<Vec<u8>>) -> (r: Result<(), Error>)
        requires
            !(old(self).action matches Some(
                Action::RegisterAccount(RegisterOptions::CustomFactory { .. }),
            )),
        ensures
            same_frame(*old(self), *final(self)),
            r is Err ==> final(self).results == old(self).results,
            final(self).action == old(self).action,
            final(self).pending_actions == old(self).pending_actions,
            final(self).host == old(self).host,
            !(old(self).action matches Some(Action::Execute(_))) ==> r is Ok && final(self).results
                == old(self).results,
            old(self).action matches Some(Action::Execute(_)) ==> match opt_bytes(data) {
                None => r is Ok && results_view(final(self).results@) == results_view(
                    old(self).results@,
                ).push(ResultView::Execute { data: None }),
                Some(b) => match execute_response_of(b) {
                    None => r == Err::<(), Error>(Error::ParseReply),
                    Some(inner) => r is Ok && results_view(final(self).results@) == results_view(
                        old(self).results@,
                    ).push(ResultView::Execute { data: inner }),
                },
            },
    {
        let is_execute = match &self.action {
            Some(Action::Execute(_)) => true,
            _ => false,
        };
        if !is_execute {
            return Ok(());
        }
        let inner = match data {
            None => None,
            Some(b) => match parse_execute_response_data(&b) {
                Ok(d) => d,
                Err(_) => {
                    return Err(Error::ParseReply);
                },
            },
        };
        let ghost before = self.results@;
        let ghost iv = opt_bytes(inner);
        self.results.push(ActionResult::Execute { data: inner });
        assert(results_view(self.results@) =~= results_view(before).push(
            ResultView::Execute { data: iv },
        ));
        Ok(())
    }

    /// Takes in the answer to a query step.
    pub fn after_query(&mut self, response: Result<Vec<u8>, String>) -> (r: Result<(), Error>)
        ensures
            same_frame(*old(self), *final(self)),
            r is Err ==> final(self).results == old(self).results,
            final(self).action == old(self).action,
            final(self).pending_actions == old(self).pending_actions,
            final(self).host == old(self).host,
            response matches Err(e) ==> (r matches Err(Error::QueryContract(m)) && m@ == e@),
            response matches Ok(b) ==> r is Ok && results_view(final(self).results@)
                == results_view(old(self).results@).push(ResultView::Query { response: b@ }),
    {
        match response {
            Ok(b) => {
                let ghost before = self.results@;
                let ghost bv = b@;
                self.results.push(ActionResult::Query { response: b });
                assert(results_view(self.results@) =~= results_view(before).push(
                    ResultView::Query { response: bv },
                ));
                Ok(())
            },
            Err(e) => Err(Error::QueryContract(e)),
        }
    }

    /// Takes in the factory's response, which reports the account it made
    /// (none where its reply carried no data), and records the account.
    pub fn after_register_account_custom_factory(
        &mut self,
        accounts: &mut Accounts,
        response: Option<FactoryResponse>,
    ) -> (r: Result<(), Error>)
        requires
            old(accounts).wf(),
        ensures
            final(accounts).wf(),
            final(self).action == old(self).action,
            final(self).pending_actions == old(self).pending_actions,
            final(self).counterparty_endpoint == old(self).counterparty_endpoint,
            final(self).endpoint == old(self).endpoint,
            final(self).controller == old(self).controller,
            final(self).traces == old(self).traces,
            r is Err ==> final(accounts)@ == old(accounts)@,
            r is Err ==> final(self).results == old(self).results && final(self).host == old(
                self,
            ).host,
            response is None ==> r == Err::<(), Error>(Error::FactoryResponseDataMissing),
            response is Some ==> {
                let a = response->0.host;
                let k = account_key(old(self).endpoint@, old(self).controller@);
                &&& old(accounts)@.contains_key(k) ==> (r matches Err(
                    Error::AccountExists { endpoint, controller },
                ) && endpoint@ == old(self).endpoint@ && controller@ == old(self).controller@)
                &&& !old(accounts)@.contains_key(k) ==> {
                    &&& r is Ok
                    &&& final(accounts)@ == old(accounts)@.insert(k, a@)
                    &&& opt_text(final(self).host) == Some(a@)
                    &&& results_view(final(self).results@) == results_view(old(self).results@).push(
                        ResultView::RegisterAccount { address: a@ },
                    )
                }
            },
    {
        let address = match response {
            Some(res) => res.host,
            None => {
                return Err(Error::FactoryResponseDataMissing);
            },
        };
        accounts.register(&self.endpoint, self.controller.as_str(), address.as_str())?;
        let ghost before = self.results@;
        self.results.push(ActionResult::RegisterAccount { address: address.clone() });
        assert(results_view(self.results@) =~= results_view(before).push(
            ResultView::RegisterAccount { address: address@ },
        ));
        self.host = Some(address);
        Ok(())
    }
}

/// What a step does with the action it popped, for every outcome.
pub open spec fn step_post(
    before: Handler,
    after: Handler,
    traces_before: Map<Seq<char>, TraceView>,
    traces_after: Map<Seq<char>, TraceView>,
    host: &HostInfo,
    a: Action,
    r: Result<Step, Error>,
) -> bool {
    match a {
        Action::Transfer { denom, amount, recipient } => transfer_post(
            before,
            after,
            traces_before,
            traces_after,
            host,
            denom@,
            amount,
            opt_text(recipient),
            r,
        ),
        Action::RegisterAccount(RegisterOptions::Default { salt }) => traces_after == traces_before
            && register_default_post(before, after, host, opt_bytes(salt), r),
        Action::RegisterAccount(RegisterOptions::CustomFactory { address, data }) => {
            &&& traces_after == traces_before
            &&& before.host is Some ==> is_account_exists(before, r)
            &&& before.host is None ==> (r matches Ok(Step::Dispatch { msgs, sub }) && msgs@.len()
                == 0 && sub@ == (MsgView::RegisterWithFactory {
                factory: address@,
                endpoint: before.endpoint@,
                controller: before.controller@,
                data: opt_bytes(data),
            }))
        },
        Action::Execute(msg) => {
            &&& traces_after == traces_before
            &&& before.host is None ==> is_account_not_found(before, r)
            &&& before.host matches Some(h) ==> (r matches Ok(Step::Dispatch { msgs, sub })
                && msgs@.len() == 0 && sub@ == (MsgView::Execute { contract: h@, msg: msg@ }))
        },
        Action::Query(msg) => {
            &&& traces_after == traces_before
            &&& before.host is None ==> is_account_not_found(before, r)
            &&& before.host matches Some(h) ==> (r matches Ok(Step::Query { contract, msg: m })
                && contract@ == h@ && m@ == msg@)
        },
    }
}

/// What the reply to an execution carries: none where it is not a
/// well-formed response, else the data the invoked contract returned.
pub uninterp spec fn execute_response_of(data: Seq<u8>) -> Option<Option<Seq<u8>>>;

#[verifier::external_type_specification]
#[verifier::external_body]
pub struct ExParseReplyError(cw_utils::ParseReplyError);

/// Relies on cw_utils::parse_execute_response_data: decodes the protobuf
/// reply of an execution; an empty reply carries no data.
#[verifier::external_body]
fn parse_execute_response_data(data: &Vec<u8>) -> (r: Result<
    Option<Vec<u8>>,
    cw_utils::ParseReplyError,
>)
    ensures
        r is Err <==> execute_response_of(data@) is None,
        r matches Ok(d) ==> execute_response_of(data@) == Some(opt_bytes(d)),
        data@.len() == 0 ==> r matches Ok(None),
{
    cw_utils::parse_execute_response_data(data.as_slice()).map(|res| res.data.map(|b| b.to_vec()))
}

/// The data that the reply to an execution carries, if any; fails with
/// `ParseReply` where the reply is not well formed.
pub fn execute_reply_data(data: &Vec<u8>) -> (r: Result<Option<Vec<u8>>, Error>)
    ensures
        execute_response_of(data@) is None ==> r == Err::<Option<Vec<u8>>, Error>(Error::ParseReply),
        execute_response_of(data@) matches Some(d) ==> r matches Ok(v) && opt_bytes(v) == d,
{
    match parse_execute_response_data(data) {
        Ok(d) => Ok(d),
        Err(_) => Err(Error::ParseReply),
    }
}

/// The payload that a factory's reply carries: its response to the
/// registration, to be decoded into a `FactoryResponse`. Fails with
/// `FactoryResponseDataMissing` where the reply or its response is empty,
/// and with `ParseReply` where the reply is not well formed.
pub fn factory_reply_payload(data: Option<Vec<u8>>) -> (r: Result<Vec<u8>, Error>)
    ensures
        data is None ==> r == Err::<Vec<u8>, Error>(Error::FactoryResponseDataMissing),
        data matches Some(b) ==> match execute_response_of(b@) {
            None => r == Err::<Vec<u8>, Error>(Error::ParseReply),
            Some(None) => r == Err::<Vec<u8>, Error>(Error::FactoryResponseDataMissing),
            Some(Some(inner)) => r matches Ok(v) && v@ == inner,
        },
{
    let bytes = match data {
        Some(b) => b,
        None => {
            return Err(Error::FactoryResponseDataMissing);
        },
    };
    match parse_execute_response_data(&bytes) {
        Ok(Some(inner)) => Ok(inner),
        Ok(None) => Err(Error::FactoryResponseDataMissing),
        Err(_) => Err(Error::ParseReply),
    }
}

/// The label of a default interchain account.
pub open spec fn account_label(channel_id: Seq<char>, controller: Seq<char>) -> Seq<char> {
    "one-account/"@ + channel_id + seq!['/'] + controller
}

/// What the first half of a default registration does, for every outcome.
pub open spec fn register_default_post(
    before: Handler,
    after: Handler,
    host: &HostInfo,
    salt: Option<Seq<u8>>,
    r: Result<Step, Error>,
) -> bool {
    let s = match salt {
        Some(s) => s,
        None => default_salt_spec(before.endpoint@, before.controller@),
    };
    &&& before.host is Some ==> is_account_exists(before, r)
    &&& (before.host is None && !instantiate2_accepts(host.account_checksum@, s)) ==> r == Err::<
        Step,
        Error,
    >(Error::Instantiate2Address)
    &&& (before.host is None && instantiate2_accepts(host.account_checksum@, s)) ==> {
        &&& r matches Ok(Step::Humanize { canonical })
        &&& canonical@ == instantiate2_of(host.account_checksum@, host.contract_canonical@, s)
        &&& opt_bytes(after.pending_salt) == Some(s)
        &&& after.results == before.results
        &&& after.host == before.host
    }
}

/// A successful transfer step that delivers `amount` of the token with
/// declared trace `t` to `rcp`.
pub open spec fn transfer_delivered(
    before: Handler,
    after: Handler,
    traces_before: Map<Seq<char>, TraceView>,
    traces_after: Map<Seq<char>, TraceView>,
    host: &HostInfo,
    t: TraceView,
    rcp: Seq<char>,
    amount: u128,
    msgs: Seq<MsgView>,
    sub: MsgView,
) -> bool {
    let d = received_denom(host.contract@, t, before.counterparty_endpoint@, before.endpoint@);
    let mints = sender_is_source_spec(t, before.counterparty_endpoint@);
    let new_token = mints && !traces_before.contains_key(d);
    &&& sub == (MsgView::Send { to: rcp, denom: d, amount })
    &&& msgs == (if new_token {
        seq![
            MsgView::CreateDenom { subdenom: hex_text(trace_hash(with_hop(t, before.endpoint@))) },
            MsgView::Mint { denom: d, amount },
        ]
    } else if mints {
        seq![MsgView::Mint { denom: d, amount }]
    } else {
        Seq::empty()
    })
    &&& results_view(after.results@) == results_view(before.results@).push(
        ResultView::Transfer { denom: d, new_token, recipient: rcp },
    )
    &&& traces_after == (if new_token {
        traces_before.insert(d, with_hop(t, before.endpoint@))
    } else {
        traces_before
    })
    &&& after.host == before.host
}

/// What a transfer step does, for every outcome.
pub open spec fn transfer_post(
    before: Handler,
    after: Handler,
    traces_before: Map<Seq<char>, TraceView>,
    traces_after: Map<Seq<char>, TraceView>,
    host: &HostInfo,
    denom: Seq<char>,
    amount: u128,
    recipient: Option<Seq<char>>,
    r: Result<Step, Error>,
) -> bool {
    let declared = declared_trace(before.traces@, denom);
    let to = transfer_recipient(recipient, opt_text(before.host));
    &&& declared is None ==> (r matches Err(Error::TraceNotFound { denom: d }) && d@ == denom)
    &&& (declared is Some && to is None) ==> is_account_not_found(before, r)
    &&& (declared is Some && to is Some) ==> {
        let t = declared->0;
        let rcp = to->0;
        let d = received_denom(host.contract@, t, before.counterparty_endpoint@, before.endpoint@);
        let new_token = sender_is_source_spec(t, before.counterparty_endpoint@)
            && !traces_before.contains_key(d);
        if new_token && !creation_free(host) {
            r == Err::<Step, Error>(Error::NonZeroTokenCreationFee)
        } else {
            r matches Ok(Step::Dispatch { msgs, sub }) && transfer_delivered(
                before,
                after,
                traces_before,
                traces_after,
                host,
                t,
                rcp,
                amount,
                msgs_view(msgs@),
                sub@,
            )
        }
    }
    &&& r is Err ==> traces_after == traces_before
}

} // verus!

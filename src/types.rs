use vstd::prelude::*;

verus! {

/// One end of a channel: the port and the channel on that port.
#[derive(Debug, PartialEq, Eq)]
pub struct Endpoint {
    pub port_id: String,
    pub channel_id: String,
}

impl View for Endpoint {
    type V = (Seq<char>, Seq<char>);

    open spec fn view(&self) -> (Seq<char>, Seq<char>) {
        (self.port_id@, self.channel_id@)
    }
}

impl Endpoint {
    pub fn new(port_id: &str, channel_id: &str) -> (r: Endpoint)
        ensures
            r.port_id@ == port_id@,
            r.channel_id@ == channel_id@,
    {
        Endpoint { port_id: port_id.to_owned(), channel_id: channel_id.to_owned() }
    }

    pub fn duplicate(&self) -> (r: Endpoint)
        ensures
            r@ == self@,
    {
        Endpoint { port_id: self.port_id.clone(), channel_id: self.channel_id.clone() }
    }

    pub fn same_as(&self, other: &Endpoint) -> (r: bool)
        ensures
            r == (self@ == other@),
    {
        self.port_id == other.port_id && self.channel_id == other.channel_id
    }
}

pub open spec fn path_view(p: Seq<Endpoint>) -> Seq<(Seq<char>, Seq<char>)> {
    p.map_values(|e: Endpoint| e@)
}

/// Copies a path hop by hop.
pub fn copy_path(p: &Vec<Endpoint>) -> (r: Vec<Endpoint>)
    ensures
        path_view(r@) == path_view(p@),
{
    let mut out: Vec<Endpoint> = Vec::new();
    let mut i: usize = 0;
    while i < p.len()
        invariant
            i <= p@.len(),
            path_view(out@) == path_view(p@.subrange(0, i as int)),
        decreases p@.len() - i,
    {
        let e = p[i].duplicate();
        let ghost prev = out@;
        out.push(e);
        assert(path_view(out@) =~= path_view(prev).push(e@));
        assert(p@.subrange(0, i + 1) =~= p@.subrange(0, i as int).push(p@[i as int]));
        assert(path_view(p@.subrange(0, i + 1)) =~= path_view(p@.subrange(0, i as int)).push(
            p@[i as int]@,
        ));
        i = i + 1;
    }
    assert(p@.subrange(0, i as int) =~= p@);
    out
}

/// How an interchain account is to be registered.
#[derive(Debug, PartialEq, Eq)]
pub enum RegisterOptions {
    /// The default account template at a derived address, with an optional salt.
    Default { salt: Option<Vec<u8>> },
    /// A third-party factory contract that reports the address it made.
    CustomFactory { address: String, data: Option<Vec<u8>> },
}

/// One unit of work requested in a packet.
#[derive(Debug, PartialEq, Eq)]
pub enum Action {
    Transfer { denom: String, amount: u128, recipient: Option<String> },
    RegisterAccount(RegisterOptions),
    Execute(Vec<u8>),
    Query(Vec<u8>),
}

/// The outcome of one action, in the order the actions were submitted.
#[derive(Debug, PartialEq, Eq)]
pub enum ActionResult {
    Transfer { denom: String, new_token: bool, recipient: String },
    RegisterAccount { address: String },
    Execute { data: Option<Vec<u8>> },
    Query { response: Vec<u8> },
}

pub open spec fn opt_bytes(v: Option<Vec<u8>>) -> Option<Seq<u8>> {
    match v {
        Some(b) => Some(b@),
        None => None,
    }
}

/// Abstract value of an action result.
pub enum ResultView {
    Transfer { denom: Seq<char>, new_token: bool, recipient: Seq<char> },
    RegisterAccount { address: Seq<char> },
    Execute { data: Option<Seq<u8>> },
    Query { response: Seq<u8> },
}

impl View for ActionResult {
    type V = ResultView;

    open spec fn view(&self) -> ResultView {
        match self {
            ActionResult::Transfer { denom, new_token, recipient } => ResultView::Transfer {
                denom: denom@,
                new_token: *new_token,
                recipient: recipient@,
            },
            ActionResult::RegisterAccount { address } => ResultView::RegisterAccount {
                address: address@,
            },
            ActionResult::Execute { data } => ResultView::Execute { data: opt_bytes(*data) },
            ActionResult::Query { response } => ResultView::Query { response: response@ },
        }
    }
}

pub open spec fn results_view(v: Seq<ActionResult>) -> Seq<ResultView> {
    v.map_values(|r: ActionResult| r@)
}

/// The provenance of a denomination as carried in a packet: its local name,
/// its name on its chain of origin, and the hops it has crossed.
#[derive(Debug, PartialEq, Eq)]
pub struct Trace {
    pub denom: String,
    pub base_denom: String,
    pub path: Vec<Endpoint>,
}

/// The content of one packet.
#[derive(Debug, PartialEq, Eq)]
pub struct PacketData {
    pub sender: String,
    pub actions: Vec<Action>,
    pub traces: Vec<Trace>,
}

/// What a custom factory replies after registering an account.
#[derive(Debug, PartialEq, Eq)]
pub struct FactoryResponse {
    /// The address of the account it registered.
    pub host: String,
}

/// The acknowledgement written for a received packet.
#[derive(Debug, PartialEq, Eq)]
pub enum PacketAck {
    Success(Vec<ActionResult>),
    Failed(String),
}

/// What became of a sent packet.
#[derive(Debug, PartialEq, Eq)]
pub enum PacketOutcome {
    Success(Vec<ActionResult>),
    Failed(String),
    Timeout,
}

impl PacketOutcome {
    /// The outcome that an acknowledgement, or its absence (a timeout), gives.
    pub fn from_ack(ack: Option<PacketAck>) -> (r: PacketOutcome)
        ensures
            ack.is_none() <==> r == PacketOutcome::Timeout,
            ack matches Some(PacketAck::Success(v)) ==> r == PacketOutcome::Success(v),
            ack matches Some(PacketAck::Failed(e)) ==> r == PacketOutcome::Failed(e),
    {
        match ack {
            Some(PacketAck::Success(results)) => PacketOutcome::Success(results),
            Some(PacketAck::Failed(error)) => PacketOutcome::Failed(error),
            None => PacketOutcome::Timeout,
        }
    }

    pub open spec fn ty_spec(&self) -> Seq<char> {
        match self {
            PacketOutcome::Success(_) => "success"@,
            PacketOutcome::Failed(_) => "failed"@,
            PacketOutcome::Timeout => "timeout"@,
        }
    }

    /// A short name of the outcome's kind.
    pub fn ty(&self) -> (r: &'static str)
        ensures
            r@ == self.ty_spec(),
    {
        match self {
            PacketOutcome::Success(_) => {
                proof { reveal_strlit("success"); }
                "success"
            },
            PacketOutcome::Failed(_) => {
                proof { reveal_strlit("failed"); }
                "failed"
            },
            PacketOutcome::Timeout => {
                proof { reveal_strlit("timeout"); }
                "timeout"
            },
        }
    }
}

} // verus!

use vstd::prelude::*;

use crate::error::{Error, Order};
use crate::order::compare_text;
use crate::table::{
    assoc_map, lemma_assoc_absent, lemma_assoc_index, lemma_assoc_push, lemma_map_keys, unique_keys,
};
use crate::types::Endpoint;

verus! {

/// The channel version that both ends must agree on.
pub const VERSION: &'static str = "ics999-1";

/// The packet order that the protocol's channels use.
pub const ORDER: Order = Order::Unordered;

pub open spec fn version_spec() -> Seq<char> {
    "ics999-1"@
}

/// A channel as the transport describes it during a handshake.
#[derive(Debug)]
pub struct Channel {
    pub endpoint: Endpoint,
    pub counterparty_endpoint: Endpoint,
    pub order: Order,
    pub version: String,
    pub connection_id: String,
}

/// A request to close a channel.
#[derive(Debug)]
pub enum CloseMsg {
    /// This side asked for the channel to be closed.
    CloseInit { channel: Channel },
    /// The counterparty closed the channel.
    CloseConfirm { channel: Channel },
}

/// The channel order and versions are those of the protocol.
pub open spec fn order_and_version_ok(
    order: Order,
    version: Seq<char>,
    counterparty_version: Option<Seq<char>>,
) -> bool {
    order == Order::Unordered && version == version_spec() && (counterparty_version is Some
        ==> counterparty_version->0 == version_spec())
}

pub open spec fn opt_view(v: Option<&str>) -> Option<Seq<char>> {
    match v {
        Some(s) => Some(s@),
        None => None,
    }
}

/// The error for a wrong order or version, checked in that order: the
/// channel's order, its version, then the counterparty's version.
pub open spec fn order_version_error<T>(
    order: Order,
    version: Seq<char>,
    counterparty_version: Option<Seq<char>>,
    r: Result<T, Error>,
) -> bool {
    &&& order != Order::Unordered ==> (r matches Err(Error::IncorrectOrder { actual, expected })
        && actual == order && expected == Order::Unordered)
    &&& order == Order::Unordered && version != version_spec() ==> (r matches Err(
        Error::IncorrectVersion { actual, expected },
    ) && actual@ == version && expected@ == version_spec())
    &&& order == Order::Unordered && version == version_spec() && counterparty_version is Some
        && counterparty_version->0 != version_spec() ==> (r matches Err(
        Error::IncorrectVersion { actual, expected },
    ) && actual@ == counterparty_version->0 && expected@ == version_spec())
}

/// Checks a channel's order and version, and the counterparty's version
/// where it is known.
pub fn validate_order_and_version(
    order: Order,
    version: &str,
    counterparty_version: Option<&str>,
) -> (r: Result<(), Error>)
    ensures
        r.is_ok() <==> order_and_version_ok(order, version@, opt_view(counterparty_version)),
        order != Order::Unordered ==> (r matches Err(Error::IncorrectOrder { actual, expected })
            && actual == order && expected == Order::Unordered),
        order == Order::Unordered && version@ != version_spec() ==> (r matches Err(
            Error::IncorrectVersion { actual, expected },
        ) && actual@ == version@ && expected@ == version_spec()),
        order == Order::Unordered && version@ == version_spec() && r.is_err() ==> (r matches Err(
            Error::IncorrectVersion { actual, expected },
        ) && actual@ == opt_view(counterparty_version)->0 && expected@ == version_spec()),
{
    proof {
        reveal_strlit("ics999-1");
    }
    if order != ORDER {
        return Err(Error::IncorrectOrder { actual: order, expected: ORDER });
    }
    if compare_text(version, VERSION) != 0 {
        return Err(Error::IncorrectVersion { actual: version.to_owned(), expected: VERSION.to_owned() });
    }
    if let Some(cp) = counterparty_version {
        if compare_text(cp, VERSION) != 0 {
            return Err(Error::IncorrectVersion { actual: cp.to_owned(), expected: VERSION.to_owned() });
        }
    }
    Ok(())
}

/// The active channel of each connection: connection id to channel id.
#[derive(Debug)]
pub struct ActiveChannels {
    entries: Vec<(String, String)>,
}

impl View for ActiveChannels {
    type V = Map<Seq<char>, Seq<char>>;

    closed spec fn view(&self) -> Map<Seq<char>, Seq<char>> {
        assoc_map(self.list())
    }
}

impl ActiveChannels {
    closed spec fn list(&self) -> Seq<(Seq<char>, Seq<char>)> {
        self.entries@.map_values(|e: (String, String)| (e.0@, e.1@))
    }

    pub closed spec fn wf(&self) -> bool {
        unique_keys(self.list())
    }

    pub fn new() -> (r: ActiveChannels)
        ensures
            r.wf(),
            r@ == Map::<Seq<char>, Seq<char>>::empty(),
    {
        let r = ActiveChannels { entries: Vec::new() };
        assert(r.list() =~= Seq::<(Seq<char>, Seq<char>)>::empty());
        r
    }

    fn find(&self, connection_id: &str) -> (r: Option<usize>)
        requires
            self.wf(),
        ensures
            r is None ==> !self@.contains_key(connection_id@),
            r matches Some(i) ==> i < self.entries@.len() && self.entries@[i as int].0@
                == connection_id@ && self@.contains_key(connection_id@) && self@[connection_id@]
                == self.entries@[i as int].1@,
    {
        let mut i: usize = 0;
        while i < self.entries.len()
            invariant
                i <= self.entries@.len(),
                self.wf(),
                forall|k: int| 0 <= k < i ==> #[trigger] self.list()[k].0 != connection_id@,
            decreases self.entries@.len() - i,
        {
            assert(self.list()[i as int].0 == self.entries@[i as int].0@);
            if compare_text(self.entries[i].0.as_str(), connection_id) == 0 {
                proof {
                    lemma_assoc_index(self.list(), i as int);
                }
                return Some(i);
            }
            i = i + 1;
        }
        proof {
            lemma_assoc_absent(self.list(), connection_id@);
        }
        None
    }

    /// Whether the connection has an active channel.
    pub fn has(&self, connection_id: &str) -> (r: bool)
        requires
            self.wf(),
        ensures
            r == self@.contains_key(connection_id@),
    {
        self.find(connection_id).is_some()
    }

    /// The active channel of the connection, if any.
    pub fn get(&self, connection_id: &str) -> (r: Option<String>)
        requires
            self.wf(),
        ensures
            r is None <==> !self@.contains_key(connection_id@),
            r matches Some(c) ==> c@ == self@[connection_id@],
    {
        match self.find(connection_id) {
            Some(i) => Some(self.entries[i].1.clone()),
            None => None,
        }
    }

    /// Records the connection's active channel, replacing any earlier one.
    pub fn save(&mut self, connection_id: &str, channel_id: &str)
        requires
            old(self).wf(),
        ensures
            final(self).wf(),
            final(self)@ == old(self)@.insert(connection_id@, channel_id@),
    {
        match self.find(connection_id) {
            Some(i) => {
                let ghost l = self.list();
                self.entries.set(i, (connection_id.to_owned(), channel_id.to_owned()));
                proof {
                    let l2 = self.list();
                    assert(l2 =~= l.update(i as int, (connection_id@, channel_id@)));
                    assert(unique_keys(l2)) by {
                        assert forall|a: int, b: int| 0 <= a < b < l2.len() implies #[trigger] l2[a].0
                            != #[trigger] l2[b].0 by {
                            assert(l[a].0 == l2[a].0 && l[b].0 == l2[b].0);
                        }
                    }
                    assert forall|k: Seq<char>| #[trigger] assoc_map(l2).contains_key(k)
                        == old(self)@.insert(connection_id@, channel_id@).contains_key(k) by {
                        lemma_map_keys(l, k);
                        lemma_map_keys(l2, k);
                        if exists|j: int| 0 <= j < l.len() && l[j].0 == k {
                            let j = choose|j: int| 0 <= j < l.len() && l[j].0 == k;
                            assert(l2[j].0 == k);
                        }
                        if exists|j: int| 0 <= j < l2.len() && l2[j].0 == k {
                            let j = choose|j: int| 0 <= j < l2.len() && l2[j].0 == k;
                            assert(l[j].0 == k);
                        }
                        if k == connection_id@ {
                            assert(l2[i as int].0 == k);
                        }
                    }
                    assert forall|k: Seq<char>| #[trigger] assoc_map(l2).contains_key(k)
                        implies assoc_map(l2)[k] == old(self)@.insert(connection_id@, channel_id@)[k] by {
                        lemma_map_keys(l2, k);
                        let j = choose|j: int| 0 <= j < l2.len() && l2[j].0 == k;
                        lemma_assoc_index(l2, j);
                        if j != i {
                            lemma_assoc_index(l, j);
                            assert(l2[j] == l[j]);
                            assert(l[i as int].0 == connection_id@);
                            assert(old(self)@ == assoc_map(l));
                        } else {
                            assert(l2[j] == (connection_id@, channel_id@));
                        }
                    }
                    assert(assoc_map(l2) =~= old(self)@.insert(connection_id@, channel_id@));
                }
            },
            None => {
                let ghost l = self.list();
                self.entries.push((connection_id.to_owned(), channel_id.to_owned()));
                proof {
                    assert(self.list() =~= l.push((connection_id@, channel_id@)));
                    lemma_assoc_push(l, connection_id@, channel_id@);
                }
            },
        }
    }
}

/// Outcome of an opening step: order and versions are the protocol's and the
/// connection has no active channel.
pub open spec fn open_ok(
    channels: Map<Seq<char>, Seq<char>>,
    channel: &Channel,
    counterparty_version: Option<Seq<char>>,
) -> bool {
    order_and_version_ok(channel.order, channel.version@, counterparty_version)
        && !channels.contains_key(channel.connection_id@)
}

fn assert_unique_channel(channels: &ActiveChannels, connection_id: &str) -> (r: Result<(), Error>)
    requires
        channels.wf(),
    ensures
        r.is_ok() <==> !channels@.contains_key(connection_id@),
        r matches Err(e) ==> (e matches Error::ChannelExists { connection_id: c }
            && c@ == connection_id@),
{
    if channels.has(connection_id) {
        return Err(Error::ChannelExists { connection_id: connection_id.to_owned() });
    }
    Ok(())
}

/// First step of a handshake started here: the counterparty's version is not
/// known yet.
pub fn open_init(channels: &ActiveChannels, channel: &Channel) -> (r: Result<(), Error>)
    requires
        channels.wf(),
    ensures
        r.is_ok() <==> open_ok(channels@, channel, None),
        order_version_error(channel.order, channel.version@, None, r),
        order_and_version_ok(channel.order, channel.version@, None) && r.is_err() ==> (r matches Err(
            Error::ChannelExists { connection_id },
        ) && connection_id@ == channel.connection_id@),
{
    validate_order_and_version(channel.order, channel.version.as_str(), None)?;
    assert_unique_channel(channels, channel.connection_id.as_str())
}

/// First step here of a handshake that the counterparty started.
pub fn open_try(channels: &ActiveChannels, channel: &Channel, counterparty_version: &str) -> (r:
    Result<(), Error>)
    requires
        channels.wf(),
    ensures
        r.is_ok() <==> open_ok(channels@, channel, Some(counterparty_version@)),
        order_version_error(channel.order, channel.version@, Some(counterparty_version@), r),
        order_and_version_ok(channel.order, channel.version@, Some(counterparty_version@)) && r.is_err()
            ==> (r matches Err(Error::ChannelExists { connection_id }) && connection_id@
            == channel.connection_id@),
{
    validate_order_and_version(channel.order, channel.version.as_str(), Some(counterparty_version))?;
    assert_unique_channel(channels, channel.connection_id.as_str())
}

/// Last step of a handshake: the channel becomes the connection's active one.
pub fn open_connect(
    channels: &mut ActiveChannels,
    channel: &Channel,
    counterparty_version: Option<&str>,
) -> (r: Result<(), Error>)
    requires
        old(channels).wf(),
    ensures
        final(channels).wf(),
        r.is_ok() <==> order_and_version_ok(channel.order, channel.version@, opt_view(counterparty_version)),
        order_version_error(channel.order, channel.version@, opt_view(counterparty_version), r),
        r.is_ok() ==> final(channels)@ == old(channels)@.insert(
            channel.connection_id@,
            channel.endpoint.channel_id@,
        ),
        r.is_err() ==> final(channels)@ == old(channels)@,
{
    validate_order_and_version(channel.order, channel.version.as_str(), counterparty_version)?;
    channels.save(channel.connection_id.as_str(), channel.endpoint.channel_id.as_str());
    Ok(())
}

/// Closing is refused where this side asked for it, and accepted where the
/// counterparty already closed the channel.
pub fn close(msg: &CloseMsg) -> (r: Result<(), Error>)
    ensures
        msg is CloseInit ==> r == Err::<(), Error>(Error::UnexpectedChannelClosure),
        msg is CloseConfirm ==> r is Ok,
{
    match msg {
        CloseMsg::CloseInit { .. } => Err(Error::UnexpectedChannelClosure),
        CloseMsg::CloseConfirm { .. } => Ok(()),
    }
}

/// An opening request whose order is not unordered, or whose version (or
/// counterparty version) is not the protocol's, is refused; so is one on a
/// connection that already has an active channel.
pub proof fn lemma_handshake_rejection(
    channels: Map<Seq<char>, Seq<char>>,
    channel: &Channel,
    counterparty_version: Option<Seq<char>>,
)
    ensures
        channel.order != Order::Unordered ==> !open_ok(channels, channel, counterparty_version),
        channel.version@ != version_spec() ==> !open_ok(channels, channel, counterparty_version),
        counterparty_version matches Some(v) && v != version_spec() ==> !open_ok(
            channels,
            channel,
            counterparty_version,
        ),
        channels.contains_key(channel.connection_id@) ==> !open_ok(
            channels,
            channel,
            counterparty_version,
        ),
{
}

} // verus!

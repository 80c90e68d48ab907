use vstd::prelude::*;

use crate::denom::{construct_denom, full_denom, hex_text, lemma_hex_text_len, to_hex};
use crate::order::{compare_text, text_key};
use crate::table::{assoc_map, lemma_assoc_absent, lemma_assoc_index, lemma_assoc_push, unique_keys};
use crate::types::{copy_path, path_view, Endpoint, Trace};

verus! {

/// The digest that RIPEMD-160 gives for a byte string.
pub uninterp spec fn ripemd160_of(data: Seq<u8>) -> Seq<u8>;

/// Relies on ripemd::Ripemd160: a 20-byte digest that depends on the input
/// bytes alone.
#[verifier::external_body]
fn ripemd160(data: &Vec<u8>) -> (r: Vec<u8>)
    ensures
        r@ == ripemd160_of(data@),
        r@.len() == 20,
{
    <ripemd::Ripemd160 as ripemd::Digest>::digest(data.as_slice()).to_vec()
}

/// Largest length of a denomination that the host chain accepts.
pub const MAX_DENOM_LEN: usize = 128;

/// Abstract value of a trace item: base denomination and path of hops.
pub struct TraceView {
    pub base_denom: Seq<char>,
    pub path: Seq<(Seq<char>, Seq<char>)>,
}

/// The bytes of a path's hops, port then channel, in order.
pub open spec fn hop_bytes(path: Seq<(Seq<char>, Seq<char>)>) -> Seq<u8>
    decreases path.len(),
{
    if path.len() == 0 {
        Seq::empty()
    } else {
        hop_bytes(path.drop_last()) + text_key(path.last().0) + text_key(path.last().1)
    }
}

/// What the trace digest is computed over: the base denomination followed by
/// each hop's port and channel.
pub open spec fn trace_preimage(t: TraceView) -> Seq<u8> {
    text_key(t.base_denom) + hop_bytes(t.path)
}

/// The digest of a trace.
pub open spec fn trace_hash(t: TraceView) -> Seq<u8> {
    ripemd160_of(trace_preimage(t))
}

/// The voucher denomination that a contract mints for a trace.
pub open spec fn voucher_denom(contract: Seq<char>, t: TraceView) -> Seq<char> {
    full_denom(contract, hex_text(trace_hash(t)))
}

/// The receiving chain is the origin: the last hop is the sender's endpoint.
pub open spec fn receiver_is_source_spec(t: TraceView, src: (Seq<char>, Seq<char>)) -> bool {
    t.path.len() > 0 && t.path.last() == src
}

pub open spec fn sender_is_source_spec(t: TraceView, src: (Seq<char>, Seq<char>)) -> bool {
    !receiver_is_source_spec(t, src)
}

/// The same trace with one more hop.
pub open spec fn with_hop(t: TraceView, hop: (Seq<char>, Seq<char>)) -> TraceView {
    TraceView { base_denom: t.base_denom, path: t.path.push(hop) }
}

/// The same trace with its last hop removed.
pub open spec fn without_last_hop(t: TraceView) -> TraceView {
    TraceView { base_denom: t.base_denom, path: t.path.drop_last() }
}

/// A trace without its local denomination: what is stored for a voucher.
#[derive(Debug, PartialEq, Eq)]
pub struct TraceItem {
    pub base_denom: String,
    pub path: Vec<Endpoint>,
}

impl View for TraceItem {
    type V = TraceView;

    open spec fn view(&self) -> TraceView {
        TraceView { base_denom: self.base_denom@, path: path_view(self.path@) }
    }
}

pub open spec fn trace_view(t: &Trace) -> TraceView {
    TraceView { base_denom: t.base_denom@, path: path_view(t.path@) }
}

impl TraceItem {
    /// A trace with an empty path: this chain is the origin.
    pub fn new(base_denom: &str) -> (r: TraceItem)
        ensures
            r@ == (TraceView { base_denom: base_denom@, path: Seq::empty() }),
    {
        let r = TraceItem { base_denom: base_denom.to_owned(), path: Vec::new() };
        assert(r@.path =~= Seq::<(Seq<char>, Seq<char>)>::empty());
        r
    }

    /// The trace of a packet's trace entry, without its local denomination.
    pub fn from_trace(trace: &Trace) -> (r: TraceItem)
        ensures
            r@ == trace_view(trace),
    {
        TraceItem { base_denom: trace.base_denom.clone(), path: copy_path(&trace.path) }
    }

    pub fn duplicate(&self) -> (r: TraceItem)
        ensures
            r@ == self@,
    {
        TraceItem { base_denom: self.base_denom.clone(), path: copy_path(&self.path) }
    }

    /// Combines the trace with the denomination on this chain.
    pub fn into_full_trace(self, denom: &str) -> (r: Trace)
        ensures
            r.denom@ == denom@,
            trace_view(&r) == self@,
    {
        Trace { denom: denom.to_owned(), base_denom: self.base_denom, path: self.path }
    }

    fn preimage(&self) -> (r: Vec<u8>)
        ensures
            r@ == trace_preimage(self@),
    {
        let mut data: Vec<u8> = Vec::new();
        push_bytes(&mut data, self.base_denom.as_str());
        let mut i: usize = 0;
        while i < self.path.len()
            invariant
                i <= self.path@.len(),
                data@ == text_key(self.base_denom@) + hop_bytes(
                    path_view(self.path@.subrange(0, i as int)),
                ),
            decreases self.path@.len() - i,
        {
            let ghost before = data@;
            push_bytes(&mut data, self.path[i].port_id.as_str());
            push_bytes(&mut data, self.path[i].channel_id.as_str());
            proof {
                let p = path_view(self.path@.subrange(0, i + 1));
                assert(p.drop_last() =~= path_view(self.path@.subrange(0, i as int)));
                assert(p.last() == self.path@[i as int]@);
                assert(data@ =~= text_key(self.base_denom@) + hop_bytes(p));
            }
            i = i + 1;
        }
        assert(self.path@.subrange(0, i as int) =~= self.path@);
        data
    }

    /// The digest of the trace: RIPEMD-160 over the base denomination and each
    /// hop's port and channel, in order. Its 20 bytes keep a voucher's
    /// denomination within the host's length limit.
    pub fn hash(&self) -> (r: Vec<u8>)
        ensures
            r@ == trace_hash(self@),
            r@.len() == 20,
    {
        let data = self.preimage();
        ripemd160(&data)
    }

    /// The digest as lowercase hexadecimal text, 40 characters.
    pub fn hash_hex(&self) -> (r: String)
        ensures
            r@ == hex_text(trace_hash(self@)),
            r@.len() == 40,
    {
        let h = self.hash();
        proof {
            lemma_hex_text_len(h@);
        }
        to_hex(&h)
    }

    /// The voucher denomination minted by `contract` for this trace.
    pub fn voucher_denom(&self, contract: &str) -> (r: String)
        ensures
            r@ == voucher_denom(contract@, self@),
    {
        let sub = self.hash_hex();
        construct_denom(contract, sub.as_str())
    }

    /// Whether the sending chain is the token's source, given the sender's
    /// endpoint `src`: true unless the path ends with `src`.
    pub fn sender_is_source(&self, src: &Endpoint) -> (r: bool)
        ensures
            r == sender_is_source_spec(self@, src@),
    {
        !self.receiver_is_source(src)
    }

    /// Whether the receiving chain is the token's source: the path is not
    /// empty and its last hop is the sender's endpoint `src`.
    pub fn receiver_is_source(&self, src: &Endpoint) -> (r: bool)
        ensures
            r == receiver_is_source_spec(self@, src@),
    {
        let n = self.path.len();
        if n == 0 {
            false
        } else {
            assert(self@.path.last() == self.path@[n - 1]@);
            self.path[n - 1].same_as(src)
        }
    }

    /// Appends a hop to the path.
    pub fn push_hop(&mut self, hop: &Endpoint)
        ensures
            final(self)@ == with_hop(old(self)@, hop@),
    {
        self.path.push(hop.duplicate());
        assert(final(self)@.path =~= old(self)@.path.push(hop@));
    }

    /// Removes the last hop of the path, if any.
    pub fn pop_hop(&mut self)
        ensures
            old(self)@.path.len() > 0 ==> final(self)@ == without_last_hop(old(self)@),
            old(self)@.path.len() == 0 ==> final(self)@ == old(self)@,
    {
        if self.path.len() > 0 {
            self.path.pop();
            assert(final(self)@.path =~= old(self)@.path.drop_last());
        }
    }
}

/// Appends the UTF-8 bytes of `s`.
pub(crate) fn push_bytes(data: &mut Vec<u8>, s: &str)
    ensures
        final(data)@ == old(data)@ + text_key(s@),
{
    let b = s.as_bytes();
    let mut i: usize = 0;
    while i < b.len()
        invariant
            i <= b@.len(),
            b@ == text_key(s@),
            data@ == old(data)@ + b@.subrange(0, i as int),
        decreases b@.len() - i,
    {
        data.push(b[i]);
        assert(b@.subrange(0, i + 1) =~= b@.subrange(0, i as int).push(b@[i as int]));
        i = i + 1;
    }
    assert(b@.subrange(0, i as int) =~= b@);
}

/// For any trace and endpoint, the sender is the source exactly when the
/// receiver is not; and once the endpoint is appended as the last hop, the
/// receiver is the source for that endpoint, so a token that left its source
/// through a hop comes back to its source through the same hop.
pub proof fn lemma_provenance_symmetry(t: TraceView, e: (Seq<char>, Seq<char>))
    ensures
        sender_is_source_spec(t, e) == !receiver_is_source_spec(t, e),
        receiver_is_source_spec(with_hop(t, e), e),
        !sender_is_source_spec(with_hop(t, e), e),
{
}

/// The digest depends on the base denomination and the path alone, has 20
/// bytes, and the voucher denomination built from it stays within the
/// host's limit when the contract's address has at most 79 characters.
pub proof fn lemma_hash_determinism_and_bound(t1: TraceView, t2: TraceView, contract: Seq<char>)
    requires
        contract.len() + 49 <= MAX_DENOM_LEN,
    ensures
        t1.base_denom == t2.base_denom && t1.path == t2.path ==> trace_hash(t1) == trace_hash(
            t2,
        ),
        hex_text(trace_hash(t1)).len() == 2 * trace_hash(t1).len(),
        trace_hash(t1).len() == 20 ==> voucher_denom(contract, t1).len() <= MAX_DENOM_LEN,
{
    lemma_hex_text_len(trace_hash(t1));
    reveal_strlit("factory");
}

/// The traces of the vouchers this chain has minted: denomination to trace.
/// An entry is written when a voucher denomination is first created.
#[derive(Debug)]
pub struct DenomTraces {
    entries: Vec<(String, TraceItem)>,
}

impl View for DenomTraces {
    type V = Map<Seq<char>, TraceView>;

    closed spec fn view(&self) -> Map<Seq<char>, TraceView> {
        assoc_map(self.list())
    }
}

impl DenomTraces {
    closed spec fn list(&self) -> Seq<(Seq<char>, TraceView)> {
        self.entries@.map_values(|e: (String, TraceItem)| (e.0@, e.1@))
    }

    pub closed spec fn wf(&self) -> bool {
        unique_keys(self.list())
    }

    pub fn new() -> (r: DenomTraces)
        ensures
            r.wf(),
            r@ == Map::<Seq<char>, TraceView>::empty(),
    {
        let r = DenomTraces { entries: Vec::new() };
        assert(r.list() =~= Seq::<(Seq<char>, TraceView)>::empty());
        r
    }

    fn find(&self, denom: &str) -> (r: Option<usize>)
        requires
            self.wf(),
        ensures
            r is None <==> !self@.contains_key(denom@),
            r matches Some(i) ==> i < self.entries@.len() && self@[denom@]
                == self.entries@[i as int].1@,
    {
        let mut i: usize = 0;
        while i < self.entries.len()
            invariant
                i <= self.entries@.len(),
                self.wf(),
                forall|k: int| 0 <= k < i ==> #[trigger] self.list()[k].0 != denom@,
            decreases self.entries@.len() - i,
        {
            assert(self.list()[i as int] == (self.entries@[i as int].0@, self.entries@[i as int].1@));
            if compare_text(self.entries[i].0.as_str(), denom) == 0 {
                proof {
                    lemma_assoc_index(self.list(), i as int);
                }
                return Some(i);
            }
            i = i + 1;
        }
        proof {
            lemma_assoc_absent(self.list(), denom@);
        }
        None
    }

    /// Whether a trace is stored for the denomination.
    pub fn has(&self, denom: &str) -> (r: bool)
        requires
            self.wf(),
        ensures
            r == self@.contains_key(denom@),
    {
        self.find(denom).is_some()
    }

    /// The trace stored for the denomination, if any.
    pub fn get(&self, denom: &str) -> (r: Option<TraceItem>)
        requires
            self.wf(),
        ensures
            r is None <==> !self@.contains_key(denom@),
            r matches Some(t) ==> t@ == self@[denom@],
    {
        match self.find(denom) {
            Some(i) => Some(self.entries[i].1.duplicate()),
            None => None,
        }
    }

    /// Stores the trace of a denomination that has none yet.
    pub fn insert_new(&mut self, denom: &str, trace: TraceItem)
        requires
            old(self).wf(),
            !old(self)@.contains_key(denom@),
        ensures
            final(self).wf(),
            final(self)@ == old(self)@.insert(denom@, trace@),
    {
        let ghost l = self.list();
        let ghost tv = trace@;
        self.entries.push((denom.to_owned(), trace));
        proof {
            assert(self.list() =~= l.push((denom@, tv)));
            lemma_assoc_push(l, denom@, tv);
        }
    }

    /// The trace of a denomination as this chain knows it: the stored one, or,
    /// for a denomination with none, a trace with an empty path (this chain is
    /// its origin).
    pub fn trace_of(&self, denom: &str) -> (r: TraceItem)
        requires
            self.wf(),
        ensures
            r@ == trace_of_spec(self@, denom@),
    {
        match self.get(denom) {
            Some(t) => t,
            None => TraceItem::new(denom),
        }
    }
}

pub open spec fn trace_of_spec(store: Map<Seq<char>, TraceView>, denom: Seq<char>) -> TraceView {
    if store.contains_key(denom) {
        store[denom]
    } else {
        TraceView { base_denom: denom, path: Seq::empty() }
    }
}

} // verus!

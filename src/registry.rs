use vstd::prelude::*;

use crate::error::Error;
use crate::order::{compare_text, text_key};
use crate::table::{assoc_map, lemma_assoc_absent, lemma_assoc_index, lemma_assoc_push, unique_keys};
use crate::types::Endpoint;

verus! {

/// Key of an interchain account: the local endpoint and the controller.
pub type AccountKey = (Seq<char>, Seq<char>, Seq<char>);

pub open spec fn account_key(endpoint: (Seq<char>, Seq<char>), controller: Seq<char>) -> AccountKey {
    (endpoint.0, endpoint.1, controller)
}

/// The registry after registering `address` under `key`: none where the key
/// has an account already.
pub open spec fn register_outcome(
    before: Map<AccountKey, Seq<char>>,
    key: AccountKey,
    address: Seq<char>,
) -> Option<Map<AccountKey, Seq<char>>> {
    if before.contains_key(key) {
        None
    } else {
        Some(before.insert(key, address))
    }
}

/// One registered interchain account.
#[derive(Debug)]
pub struct AccountEntry {
    pub port_id: String,
    pub channel_id: String,
    pub controller: String,
    pub address: String,
}

/// The interchain accounts: (local endpoint, controller) to account address.
/// An entry is created once and never changed or removed.
#[derive(Debug)]
pub struct Accounts {
    entries: Vec<AccountEntry>,
}

impl View for Accounts {
    type V = Map<AccountKey, Seq<char>>;

    closed spec fn view(&self) -> Map<AccountKey, Seq<char>> {
        assoc_map(self.list())
    }
}

impl Accounts {
    closed spec fn list(&self) -> Seq<(AccountKey, Seq<char>)> {
        self.entries@.map_values(
            |e: AccountEntry| ((e.port_id@, e.channel_id@, e.controller@), e.address@),
        )
    }

    pub closed spec fn wf(&self) -> bool {
        unique_keys(self.list())
    }

    pub fn new() -> (r: Accounts)
        ensures
            r.wf(),
            r@ == Map::<AccountKey, Seq<char>>::empty(),
    {
        let r = Accounts { entries: Vec::new() };
        assert(r.list() =~= Seq::<(AccountKey, Seq<char>)>::empty());
        r
    }

    /// The address registered for the controller at the endpoint, if any.
    pub fn lookup(&self, endpoint: &Endpoint, controller: &str) -> (r: Option<String>)
        requires
            self.wf(),
        ensures
            r is None <==> !self@.contains_key(account_key(endpoint@, controller@)),
            r matches Some(a) ==> a@ == self@[account_key(endpoint@, controller@)],
    {
        let ghost k = account_key(endpoint@, controller@);
        let mut i: usize = 0;
        while i < self.entries.len()
            invariant
                i <= self.entries@.len(),
                self.wf(),
                k == account_key(endpoint@, controller@),
                forall|j: int| 0 <= j < i ==> #[trigger] self.list()[j].0 != k,
            decreases self.entries@.len() - i,
        {
            let e = &self.entries[i];
            assert(self.list()[i as int].0 == (e.port_id@, e.channel_id@, e.controller@));
            if compare_text(e.port_id.as_str(), endpoint.port_id.as_str()) == 0 && compare_text(
                e.channel_id.as_str(),
                endpoint.channel_id.as_str(),
            ) == 0 && compare_text(e.controller.as_str(), controller) == 0 {
                proof {
                    lemma_assoc_index(self.list(), i as int);
                }
                return Some(e.address.clone());
            }
            i = i + 1;
        }
        proof {
            lemma_assoc_absent(self.list(), k);
        }
        None
    }

    /// Registers `address` for the controller at the endpoint; fails with
    /// `AccountExists`, changing nothing, where one is registered already.
    pub fn register(&mut self, endpoint: &Endpoint, controller: &str, address: &str) -> (r: Result<
        (),
        Error,
    >)
        requires
            old(self).wf(),
        ensures
            final(self).wf(),
            r.is_ok() <==> !old(self)@.contains_key(account_key(endpoint@, controller@)),
            r.is_ok() <==> register_outcome(old(self)@, account_key(endpoint@, controller@), address@)
                == Some(final(self)@),
            r.is_ok() ==> final(self)@ == old(self)@.insert(
                account_key(endpoint@, controller@),
                address@,
            ),
            r.is_err() ==> final(self)@ == old(self)@ && (r matches Err(
                Error::AccountExists { endpoint: e, controller: c },
            ) && e@ == endpoint@ && c@ == controller@),
    {
        if self.lookup(endpoint, controller).is_some() {
            return Err(
                Error::AccountExists { endpoint: endpoint.duplicate(), controller: controller.to_owned() },
            );
        }
        let ghost l = self.list();
        self.entries.push(
            AccountEntry {
                port_id: endpoint.port_id.clone(),
                channel_id: endpoint.channel_id.clone(),
                controller: controller.to_owned(),
                address: address.to_owned(),
            },
        );
        proof {
            assert(self.list() =~= l.push((account_key(endpoint@, controller@), address@)));
            lemma_assoc_push(l, account_key(endpoint@, controller@), address@);
        }
        Ok(())
    }
}

/// After a successful registration, looking the pair up gives the address
/// that was registered, and any second registration of the pair fails.
pub proof fn lemma_registry_uniqueness(
    before: Map<AccountKey, Seq<char>>,
    endpoint: (Seq<char>, Seq<char>),
    controller: Seq<char>,
    address: Seq<char>,
    other: Seq<char>,
)
    requires
        register_outcome(before, account_key(endpoint, controller), address) is Some,
    ensures
        ({
            let after = register_outcome(before, account_key(endpoint, controller), address)->0;
            &&& after.contains_key(account_key(endpoint, controller))
            &&& after[account_key(endpoint, controller)] == address
            &&& register_outcome(after, account_key(endpoint, controller), other) is None
        }),
{
}

/// The SHA-256 digest of a byte string.
pub uninterp spec fn sha256_of(data: Seq<u8>) -> Seq<u8>;

/// Relies on sha2::Sha256: a 32-byte digest that depends on the input bytes
/// alone.
#[verifier::external_body]
fn sha256(data: &Vec<u8>) -> (r: Vec<u8>)
    ensures
        r@ == sha256_of(data@),
        r@.len() == 32,
{
    <sha2::Sha256 as sha2::Digest>::digest(data.as_slice()).to_vec()
}

/// The salt used where a registration names none.
pub open spec fn default_salt_spec(endpoint: (Seq<char>, Seq<char>), controller: Seq<char>) -> Seq<u8> {
    sha256_of(text_key(endpoint.0) + text_key(endpoint.1) + text_key(controller))
}

/// Salt for address derivation where the registration names none: SHA-256 of
/// the endpoint's port and channel and the controller, which is distinct for
/// each pair and within the 64 bytes that derivation accepts.
pub fn default_salt(endpoint: &Endpoint, controller: &str) -> (r: Vec<u8>)
    ensures
        r@ == default_salt_spec(endpoint@, controller@),
        r@.len() == 32,
{
    let mut data: Vec<u8> = Vec::new();
    crate::trace::push_bytes(&mut data, endpoint.port_id.as_str());
    crate::trace::push_bytes(&mut data, endpoint.channel_id.as_str());
    crate::trace::push_bytes(&mut data, controller);
    assert(data@ =~= text_key(endpoint.port_id@) + text_key(endpoint.channel_id@) + text_key(
        controller@,
    ));
    sha256(&data)
}

/// The address that instantiating a code with a given checksum, by a given
/// creator and with a given salt, yields.
pub uninterp spec fn instantiate2_of(checksum: Seq<u8>, creator: Seq<u8>, salt: Seq<u8>) -> Seq<u8>;

/// Address derivation accepts the inputs: a 32-byte checksum and a salt of 1
/// to 64 bytes.
pub open spec fn instantiate2_accepts(checksum: Seq<u8>, salt: Seq<u8>) -> bool {
    checksum.len() == 32 && 1 <= salt.len() <= 64
}

/// Relies on cosmwasm_std::instantiate2_address: fails exactly where the
/// checksum is not 32 bytes or the salt not 1 to 64 bytes; otherwise the
/// canonical address depends on the three inputs alone.
#[verifier::external_body]
fn instantiate2_address(checksum: &Vec<u8>, creator: &Vec<u8>, salt: &Vec<u8>) -> (r: Result<
    Vec<u8>,
    cosmwasm_std::Instantiate2AddressError,
>)
    ensures
        r.is_ok() <==> instantiate2_accepts(checksum@, salt@),
        r matches Ok(a) ==> a@ == instantiate2_of(checksum@, creator@, salt@),
{
    let creator = cosmwasm_std::CanonicalAddr::from(creator.as_slice());
    cosmwasm_std::instantiate2_address(checksum.as_slice(), &creator, salt.as_slice()).map(
        |a| a.to_vec(),
    )
}

#[verifier::external_type_specification]
#[verifier::external_body]
pub struct ExInstantiate2AddressError(cosmwasm_std::Instantiate2AddressError);

/// The canonical address of an account instantiated from the template with
/// the given checksum, by `creator`, with `salt`.
pub fn derive_address(checksum: &Vec<u8>, creator: &Vec<u8>, salt: &Vec<u8>) -> (r: Result<
    Vec<u8>,
    Error,
>)
    ensures
        r.is_ok() <==> instantiate2_accepts(checksum@, salt@),
        r matches Ok(a) ==> a@ == instantiate2_of(checksum@, creator@, salt@),
        r.is_err() ==> r == Err::<Vec<u8>, Error>(Error::Instantiate2Address),
{
    match instantiate2_address(checksum, creator, salt) {
        Ok(a) => Ok(a),
        Err(_) => Err(Error::Instantiate2Address),
    }
}

} // verus!

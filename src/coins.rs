use vstd::prelude::*;

use vstd::string::StringExecFns;

use crate::order::{compare_text, lemma_bytes_lt_asymmetric, lemma_bytes_lt_irreflexive,
    lemma_bytes_lt_transitive, text_key, text_lt};

verus! {

/// An amount of one denomination.
#[derive(Debug)]
pub struct Coin {
    pub denom: String,
    pub amount: u128,
}

impl Coin {
    pub open spec fn entry(&self) -> (Seq<char>, u128) {
        (self.denom@, self.amount)
    }

    pub fn new(amount: u128, denom: &str) -> (r: Coin)
        ensures
            r.denom@ == denom@,
            r.amount == amount,
    {
        Coin { denom: denom.to_owned(), amount }
    }

    pub fn duplicate(&self) -> (r: Coin)
        ensures
            r.entry() == self.entry(),
    {
        Coin { denom: self.denom.clone(), amount: self.amount }
    }
}

impl PartialEq for Coin {
    fn eq(&self, other: &Coin) -> (r: bool) {
        self.denom == other.denom && self.amount == other.amount
    }
}

impl vstd::std_specs::cmp::PartialEqSpecImpl for Coin {
    open spec fn obeys_eq_spec() -> bool {
        true
    }

    open spec fn eq_spec(&self, other: &Coin) -> bool {
        self.entry() == other.entry()
    }
}

/// Entries strictly ascending by denomination, so each denomination occurs once.
pub open spec fn strictly_sorted(s: Seq<(Seq<char>, u128)>) -> bool {
    forall|i: int, j: int| 0 <= i < j < s.len() ==> #[trigger] text_lt(s[i].0, s[j].0)
}

/// The denomination-to-amount mapping that a list of entries describes.
pub open spec fn to_map(s: Seq<(Seq<char>, u128)>) -> Map<Seq<char>, u128>
    decreases s.len(),
{
    if s.len() == 0 {
        Map::empty()
    } else {
        to_map(s.drop_last()).insert(s.last().0, s.last().1)
    }
}

/// The amount held of `denom`, zero when absent.
pub open spec fn amount_in(m: Map<Seq<char>, u128>, denom: Seq<char>) -> nat {
    if m.contains_key(denom) {
        m[denom] as nat
    } else {
        0
    }
}

/// The amounts that a list of entries adds up to, denomination by
/// denomination; none where a sum does not fit in 128 bits.
pub open spec fn fold_add(s: Seq<(Seq<char>, u128)>) -> Option<Map<Seq<char>, u128>>
    decreases s.len(),
{
    if s.len() == 0 {
        Some(Map::empty())
    } else {
        match fold_add(s.drop_last()) {
            None => None,
            Some(m) => if amount_in(m, s.last().0) + s.last().1 > u128::MAX {
                None
            } else {
                Some(m.insert(s.last().0, (amount_in(m, s.last().0) + s.last().1) as u128))
            },
        }
    }
}

/// Once a prefix overflows, so does every longer one.
proof fn lemma_fold_add_none_extends(s: Seq<(Seq<char>, u128)>, i: int)
    requires
        0 <= i <= s.len(),
        fold_add(s.subrange(0, i)) is None,
    ensures
        fold_add(s.subrange(0, s.len() as int)) is None,
    decreases s.len() - i,
{
    if i < s.len() {
        assert(s.subrange(0, i + 1).drop_last() =~= s.subrange(0, i));
        lemma_fold_add_none_extends(s, i + 1);
    }
}

/// The decimal digit of a number below ten.
pub open spec fn digit_char(d: nat) -> char {
    ((('0' as u8) as nat) + d) as char
}

/// Decimal text of a number, without leading zeros.
pub open spec fn decimal_text(n: nat) -> Seq<char>
    decreases n,
{
    if n < 10 {
        seq![digit_char(n)]
    } else {
        decimal_text(n / 10).push(digit_char(n % 10))
    }
}

/// Relies on `u128::to_string` (its `Display`): the decimal digits of the
/// number.
#[verifier::external_body]
fn amount_text(n: u128) -> (r: String)
    ensures
        r@ == decimal_text(n as nat),
{
    n.to_string()
}

/// Text of a list of entries: `{amount}{denom}` joined by commas, `[]` when
/// there is none.
pub open spec fn entries_text(s: Seq<(Seq<char>, u128)>) -> Seq<char>
    decreases s.len(),
{
    if s.len() == 0 {
        "[]"@
    } else if s.len() == 1 {
        decimal_text(s[0].1 as nat) + s[0].0
    } else {
        entries_text(s.drop_last()) + seq![','] + decimal_text(s.last().1 as nat) + s.last().0
    }
}

/// A ledger of amounts keyed by denomination, each denomination at most once,
/// kept in ascending order of denomination.
#[derive(Debug)]
pub struct Coins {
    entries: Vec<Coin>,
}

impl View for Coins {
    type V = Seq<(Seq<char>, u128)>;

    closed spec fn view(&self) -> Seq<(Seq<char>, u128)> {
        self.entries@.map_values(|c: Coin| c.entry())
    }
}

impl Coins {
    pub open spec fn wf(&self) -> bool {
        strictly_sorted(self@)
    }

    /// The ledger as a mapping from denomination to amount.
    pub open spec fn amounts(&self) -> Map<Seq<char>, u128> {
        to_map(self@)
    }

    pub fn empty() -> (r: Coins)
        ensures
            r.wf(),
            r@ == Seq::<(Seq<char>, u128)>::empty(),
            r.amounts() == Map::<Seq<char>, u128>::empty(),
    {
        let r = Coins { entries: Vec::new() };
        assert(r@ =~= Seq::<(Seq<char>, u128)>::empty());
        r
    }

    pub fn is_empty(&self) -> (r: bool)
        ensures
            r == (self@.len() == 0),
    {
        self.entries.len() == 0
    }

    pub fn len(&self) -> (r: usize)
        ensures
            r == self@.len(),
    {
        self.entries.len()
    }

    /// The ledger as text, in ascending order of denomination:
    /// `12345uatom,23456uosmo`, or `[]` when empty.
    pub fn to_text(&self) -> (r: String)
        ensures
            r@ == entries_text(self@),
    {
        if self.entries.len() == 0 {
            proof {
                reveal_strlit("[]");
            }
            return "[]".to_owned();
        }
        let mut out = amount_text(self.entries[0].amount);
        out.append(self.entries[0].denom.as_str());
        assert(self@.subrange(0, 1).len() == 1);
        assert(out@ == entries_text(self@.subrange(0, 1))) by {
            assert(self@.subrange(0, 1)[0] == self@[0]);
            assert(self@[0] == self.entries@[0].entry());
        }
        let mut i: usize = 1;
        while i < self.entries.len()
            invariant
                1 <= i <= self.entries@.len(),
                self@.len() == self.entries@.len(),
                out@ == entries_text(self@.subrange(0, i as int)),
            decreases self.entries@.len() - i,
        {
            proof {
                reveal_strlit(",");
            }
            out.append(",");
            let a = amount_text(self.entries[i].amount);
            out.append(a.as_str());
            out.append(self.entries[i].denom.as_str());
            proof {
                let p = self@.subrange(0, i + 1);
                assert(p.drop_last() =~= self@.subrange(0, i as int));
                assert(p.last() == self.entries@[i as int].entry());
                assert(out@ =~= entries_text(p));
            }
            i = i + 1;
        }
        assert(self@.subrange(0, i as int) =~= self@);
        out
    }

    /// Index of the first entry not below `denom`.
    fn position(&self, denom: &str) -> (r: (usize, bool))
        requires
            self.wf(),
        ensures
            r.0 <= self@.len(),
            forall|i: int| 0 <= i < r.0 ==> text_lt(#[trigger] self@[i].0, denom@),
            r.0 < self@.len() ==> !text_lt(self@[r.0 as int].0, denom@),
            r.1 <==> (r.0 < self@.len() && self@[r.0 as int].0 == denom@),
            !r.1 ==> (r.0 < self@.len() ==> text_lt(denom@, self@[r.0 as int].0)),
    {
        let mut i: usize = 0;
        while i < self.entries.len()
            invariant
                i <= self@.len(),
                self@.len() == self.entries@.len(),
                forall|k: int| 0 <= k < i ==> text_lt(#[trigger] self@[k].0, denom@),
            decreases self@.len() - i,
        {
            let c = compare_text(self.entries[i].denom.as_str(), denom);
            assert(self@[i as int].0 == self.entries@[i as int].denom@);
            if c >= 0 {
                return (i, c == 0);
            }
            i = i + 1;
        }
        (i, false)
    }

    proof fn lemma_map_prefix(s: Seq<(Seq<char>, u128)>, k: Seq<char>)
        requires
            forall|i: int| 0 <= i < s.len() ==> #[trigger] s[i].0 != k,
        ensures
            !to_map(s).contains_key(k),
        decreases s.len(),
    {
        if s.len() > 0 {
            Self::lemma_map_prefix(s.drop_last(), k);
        }
    }

    /// `to_map` of a list with unique keys: each entry's key maps to its amount.
    proof fn lemma_map_entries(s: Seq<(Seq<char>, u128)>)
        requires
            strictly_sorted(s),
        ensures
            forall|i: int| 0 <= i < s.len() ==> #[trigger] to_map(s).contains_key(s[i].0)
                && to_map(s)[s[i].0] == s[i].1,
            forall|k: Seq<char>| #[trigger] to_map(s).contains_key(k) ==> exists|i: int|
                0 <= i < s.len() && s[i].0 == k,
        decreases s.len(),
    {
        if s.len() > 0 {
            let p = s.drop_last();
            assert(strictly_sorted(p));
            Self::lemma_map_entries(p);
            assert forall|i: int| 0 <= i < s.len() implies #[trigger] to_map(s).contains_key(
                s[i].0,
            ) && to_map(s)[s[i].0] == s[i].1 by {
                if i < s.len() - 1 {
                    assert(text_lt(s[i].0, s[s.len() - 1].0));
                    lemma_bytes_lt_irreflexive(text_key(s[i].0));
                    assert(p[i] == s[i]);
                    assert(to_map(p).contains_key(p[i].0));
                }
            }
            assert forall|k: Seq<char>| #[trigger] to_map(s).contains_key(k) implies exists|
                i: int,
            | 0 <= i < s.len() && s[i].0 == k by {
                if k != s.last().0 {
                    assert(to_map(p).contains_key(k));
                    let j = choose|j: int| 0 <= j < p.len() && p[j].0 == k;
                    assert(s[j] == p[j]);
                } else {
                    assert(s[s.len() - 1].0 == k);
                }
            }
        }
    }

    proof fn lemma_insert_at(
        s: Seq<(Seq<char>, u128)>,
        i: int,
        e: (Seq<char>, u128),
    )
        requires
            strictly_sorted(s),
            0 <= i <= s.len(),
            forall|k: int| 0 <= k < i ==> text_lt(#[trigger] s[k].0, e.0),
            i < s.len() ==> text_lt(e.0, s[i].0),
        ensures
            strictly_sorted(s.insert(i, e)),
            to_map(s.insert(i, e)) == to_map(s).insert(e.0, e.1),
    {
        let t = s.insert(i, e);
        assert forall|a: int, b: int| 0 <= a < b < t.len() implies #[trigger] text_lt(
            t[a].0,
            t[b].0,
        ) by {
            if b < i {
                assert(t[a] == s[a] && t[b] == s[b]);
            } else if a < i && b == i {
            } else if a < i && b > i {
                assert(t[b] == s[b - 1]);
                if b - 1 > a {
                    assert(text_lt(s[a].0, s[b - 1].0));
                } else {
                    assert(a == b - 1);
                }
            } else if a == i {
                assert(t[b] == s[b - 1]);
                if b - 1 > i {
                    assert(text_lt(s[i].0, s[b - 1].0));
                    lemma_bytes_lt_transitive(text_key(e.0), text_key(s[i].0), text_key(s[b - 1].0));
                }
            } else {
                assert(t[a] == s[a - 1] && t[b] == s[b - 1]);
                assert(text_lt(s[a - 1].0, s[b - 1].0));
            }
        }
        Self::lemma_map_entries(s);
        Self::lemma_map_entries(t);
        assert forall|k: Seq<char>| #[trigger] to_map(t).contains_key(k) == to_map(s).insert(
            e.0,
            e.1,
        ).contains_key(k) by {
            if to_map(t).contains_key(k) {
                let j = choose|j: int| 0 <= j < t.len() && t[j].0 == k;
                if j < i {
                    assert(t[j] == s[j]);
                } else if j > i {
                    assert(t[j] == s[j - 1]);
                }
            }
            if to_map(s).contains_key(k) {
                let j = choose|j: int| 0 <= j < s.len() && s[j].0 == k;
                if j < i {
                    assert(t[j] == s[j]);
                } else {
                    assert(t[j + 1] == s[j]);
                }
            }
            if k == e.0 {
                assert(t[i] == e);
            }
        }
        assert forall|k: Seq<char>| #[trigger] to_map(t).contains_key(k) implies to_map(t)[k]
            == to_map(s).insert(e.0, e.1)[k] by {
            let j = choose|j: int| 0 <= j < t.len() && t[j].0 == k;
            if j < i {
                assert(t[j] == s[j]);
                lemma_bytes_lt_irreflexive(text_key(k));
            } else if j > i {
                assert(t[j] == s[j - 1]);
                if j - 1 > i {
                    assert(text_lt(s[i].0, s[j - 1].0));
                    lemma_bytes_lt_transitive(text_key(e.0), text_key(s[i].0), text_key(k));
                }
                assert(text_lt(e.0, k));
                lemma_bytes_lt_irreflexive(text_key(k));
            }
        }
        assert(to_map(t) =~= to_map(s).insert(e.0, e.1));
    }

    proof fn lemma_update_at(s: Seq<(Seq<char>, u128)>, i: int, v: u128)
        requires
            strictly_sorted(s),
            0 <= i < s.len(),
        ensures
            strictly_sorted(s.update(i, (s[i].0, v))),
            to_map(s.update(i, (s[i].0, v))) == to_map(s).insert(s[i].0, v),
    {
        let t = s.update(i, (s[i].0, v));
        assert forall|a: int, b: int| 0 <= a < b < t.len() implies #[trigger] text_lt(
            t[a].0,
            t[b].0,
        ) by {
            assert(text_lt(s[a].0, s[b].0));
        }
        Self::lemma_map_entries(s);
        Self::lemma_map_entries(t);
        assert forall|k: Seq<char>| #[trigger] to_map(t).contains_key(k) == to_map(s).insert(
            s[i].0,
            v,
        ).contains_key(k) by {
            if to_map(t).contains_key(k) {
                let j = choose|j: int| 0 <= j < t.len() && t[j].0 == k;
                assert(t[j].0 == s[j].0);
            }
            if to_map(s).contains_key(k) {
                let j = choose|j: int| 0 <= j < s.len() && s[j].0 == k;
                assert(t[j].0 == s[j].0);
            }
        }
        assert forall|k: Seq<char>| #[trigger] to_map(t).contains_key(k) implies to_map(t)[k]
            == to_map(s).insert(s[i].0, v)[k] by {
            let j = choose|j: int| 0 <= j < t.len() && t[j].0 == k;
            if j != i {
                assert(t[j] == s[j]);
                if k == s[i].0 {
                    if j < i {
                        assert(text_lt(s[j].0, s[i].0));
                    } else {
                        assert(text_lt(s[i].0, s[j].0));
                    }
                    lemma_bytes_lt_irreflexive(text_key(k));
                }
            }
        }
        assert(to_map(t) =~= to_map(s).insert(s[i].0, v));
    }

    proof fn lemma_map_drop_last(s: Seq<(Seq<char>, u128)>)
        requires
            strictly_sorted(s),
            s.len() > 0,
        ensures
            to_map(s.drop_last()) == to_map(s).remove(s.last().0),
    {
        let p = s.drop_last();
        let k = s.last().0;
        assert forall|i: int| 0 <= i < p.len() implies #[trigger] p[i].0 != k by {
            assert(p[i] == s[i]);
            assert(text_lt(s[i].0, s[s.len() - 1].0));
            lemma_bytes_lt_irreflexive(text_key(k));
        }
        Self::lemma_map_prefix(p, k);
        assert(to_map(p) =~= to_map(s).remove(k));
    }

    /// Two strictly sorted entry lists with the same mapping are the same list.
    pub proof fn lemma_sorted_map_eq(a: Seq<(Seq<char>, u128)>, b: Seq<(Seq<char>, u128)>)
        requires
            strictly_sorted(a),
            strictly_sorted(b),
            to_map(a) == to_map(b),
        ensures
            a == b,
        decreases a.len() + b.len(),
    {
        Self::lemma_map_entries(a);
        Self::lemma_map_entries(b);
        if a.len() == 0 && b.len() == 0 {
            assert(a =~= b);
        } else if a.len() == 0 {
            assert(to_map(b).contains_key(b[0].0));
        } else if b.len() == 0 {
            assert(to_map(a).contains_key(a[0].0));
        } else {
            let ka = a.last().0;
            let kb = b.last().0;
            assert(to_map(a).contains_key(a[a.len() - 1].0));
            assert(to_map(b).contains_key(b[b.len() - 1].0));
            if ka != kb {
                let j = choose|j: int| 0 <= j < b.len() && b[j].0 == ka;
                let i = choose|i: int| 0 <= i < a.len() && a[i].0 == kb;
                assert(j != b.len() - 1);
                assert(i != a.len() - 1);
                assert(text_lt(b[j].0, b[b.len() - 1].0));
                assert(text_lt(a[i].0, a[a.len() - 1].0));
                lemma_bytes_lt_asymmetric(text_key(ka), text_key(kb));
            }
            assert(a.last() == b.last());
            Self::lemma_map_drop_last(a);
            Self::lemma_map_drop_last(b);
            assert(strictly_sorted(a.drop_last()));
            assert(strictly_sorted(b.drop_last()));
            Self::lemma_sorted_map_eq(a.drop_last(), b.drop_last());
            assert(a =~= a.drop_last().push(a.last()));
            assert(b =~= b.drop_last().push(b.last()));
        }
    }

    /// Adds `coin.amount` to the amount held of `coin.denom`; fails, leaving
    /// the ledger as it was, where the sum does not fit in 128 bits.
    pub fn add(&mut self, coin: Coin) -> (r: Result<(), crate::error::Error>)
        requires
            old(self).wf(),
        ensures
            final(self).wf(),
            r.is_ok() <==> amount_in(old(self).amounts(), coin.denom@) + coin.amount
                <= u128::MAX,
            r.is_ok() ==> final(self).amounts() == old(self).amounts().insert(
                coin.denom@,
                (amount_in(old(self).amounts(), coin.denom@) + coin.amount) as u128,
            ),
            r.is_err() ==> *final(self) == *old(self) && r == Err::<(), _>(
                crate::error::Error::Overflow,
            ),
    {
        let ghost e = coin.entry();
        let (i, found) = self.position(coin.denom.as_str());
        proof {
            Self::lemma_map_entries(self@);
        }
        if found {
            let cur = self.entries[i].amount;
            assert(self@[i as int].1 == cur);
            match cur.checked_add(coin.amount) {
                Some(sum) => {
                    proof {
                        Self::lemma_update_at(self@, i as int, sum);
                    }
                    self.entries.set(i, Coin { denom: coin.denom, amount: sum });
                    assert(self@ =~= old(self)@.update(i as int, (e.0, sum)));
                    Ok(())
                },
                None => Err(crate::error::Error::Overflow),
            }
        } else {
            proof {
                if old(self).amounts().contains_key(coin.denom@) {
                    let j = choose|j: int|
                        0 <= j < self@.len() && self@[j].0 == coin.denom@;
                    if j < i {
                        lemma_bytes_lt_irreflexive(text_key(coin.denom@));
                    } else if j > i {
                        assert(text_lt(self@[i as int].0, self@[j].0));
                        lemma_bytes_lt_transitive(
                            text_key(coin.denom@),
                            text_key(self@[i as int].0),
                            text_key(coin.denom@),
                        );
                        lemma_bytes_lt_irreflexive(text_key(coin.denom@));
                    }
                }
                Self::lemma_insert_at(self@, i as int, e);
            }
            self.entries.insert(i, coin);
            assert(self@ =~= old(self)@.insert(i as int, e));
            Ok(())
        }
    }

    /// The entries in ascending order of denomination.
    pub fn to_vec(&self) -> (r: Vec<Coin>)
        ensures
            r@.map_values(|c: Coin| c.entry()) == self@,
    {
        let mut out: Vec<Coin> = Vec::new();
        let mut i: usize = 0;
        while i < self.entries.len()
            invariant
                i <= self.entries@.len(),
                out@.map_values(|c: Coin| c.entry()) == self@.subrange(0, i as int),
            decreases self.entries@.len() - i,
        {
            let c = self.entries[i].duplicate();
            assert(self@[i as int] == self.entries@[i as int].entry());
            let ghost prev = out@;
            out.push(c);
            assert(out@ =~= prev.push(c));
            assert(out@.map_values(|c: Coin| c.entry()) =~= prev.map_values(|c: Coin| c.entry()).push(c.entry()));
            assert(self@.subrange(0, i + 1) =~= self@.subrange(0, i as int).push(self@[i as int]));
            assert(out@.map_values(|c: Coin| c.entry()) =~= self@.subrange(0, i + 1));
            i = i + 1;
        }
        assert(self@.subrange(0, i as int) =~= self@);
        out
    }

    /// Builds a ledger by adding up a list of coins, denomination by
    /// denomination; fails with `Overflow` where a sum does not fit in 128 bits.
    pub fn from_coins(coins: Vec<Coin>) -> (r: Result<Coins, crate::error::Error>)
        ensures
            r is Ok <==> fold_add(coins@.map_values(|c: Coin| c.entry())) is Some,
            r matches Ok(c) ==> c.wf() && Some(c.amounts()) == fold_add(
                coins@.map_values(|c: Coin| c.entry()),
            ),
            r is Err ==> r == Err::<Coins, crate::error::Error>(crate::error::Error::Overflow),
    {
        let ghost s = coins@.map_values(|c: Coin| c.entry());
        let mut r = Coins::empty();
        let mut i: usize = 0;
        while i < coins.len()
            invariant
                r.wf(),
                i <= coins@.len(),
                s == coins@.map_values(|c: Coin| c.entry()),
                fold_add(s.subrange(0, i as int)) == Some(r.amounts()),
            decreases coins@.len() - i,
        {
            let c = coins[i].duplicate();
            assert(s.subrange(0, i + 1).drop_last() =~= s.subrange(0, i as int));
            assert(s.subrange(0, i + 1).last() == s[i as int]);
            match r.add(c) {
                Ok(()) => {},
                Err(e) => {
                    proof {
                        lemma_fold_add_none_extends(s, i + 1);
                        assert(s.subrange(0, s.len() as int) =~= s);
                    }
                    return Err(e);
                },
            }
            i = i + 1;
        }
        assert(s.subrange(0, i as int) =~= s);
        Ok(r)
    }

    /// Structural comparison of two ledgers.
    pub fn same_as(&self, other: &Coins) -> (r: bool)
        ensures
            r == (self@ == other@),
            self.wf() && other.wf() ==> (r == (self.amounts() == other.amounts())),
    {
        let r = self.same_entries(other);
        proof {
            if self.wf() && other.wf() && self.amounts() == other.amounts() {
                Self::lemma_sorted_map_eq(self@, other@);
            }
        }
        r
    }

    fn same_entries(&self, other: &Coins) -> (r: bool)
        ensures
            r == (self@ == other@),
    {
        if self.entries.len() != other.entries.len() {
            return false;
        }
        let mut i: usize = 0;
        while i < self.entries.len()
            invariant
                i <= self@.len(),
                self@.len() == other@.len(),
                self@.len() == self.entries@.len(),
                forall|k: int| 0 <= k < i ==> #[trigger] self@[k] == other@[k],
            decreases self@.len() - i,
        {
            let a = &self.entries[i];
            let b = &other.entries[i];
            if !(a.denom == b.denom && a.amount == b.amount) {
                assert(self@[i as int] != other@[i as int]);
                return false;
            }
            i = i + 1;
        }
        assert(self@ =~= other@);
        true
    }
}

impl PartialEq for Coins {
    fn eq(&self, other: &Coins) -> (r: bool) {
        self.same_as(other)
    }
}

impl vstd::std_specs::cmp::PartialEqSpecImpl for Coins {
    open spec fn obeys_eq_spec() -> bool {
        true
    }

    open spec fn eq_spec(&self, other: &Coins) -> bool {
        self@ == other@
    }
}

} // verus!

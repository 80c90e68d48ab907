use vstd::prelude::*;

use vstd::string::StringExecFns;

use crate::order::{compare_text, lemma_text_key_injective, text_key};

verus! {

/// The lowercase hexadecimal digit of a nibble.
pub open spec fn hex_digit(n: u8) -> char {
    if n < 10 {
        (('0' as u8) + n) as char
    } else {
        (('a' as u8) + (n - 10)) as char
    }
}

/// Lowercase hexadecimal text of a byte string, two digits per byte.
pub open spec fn hex_text(b: Seq<u8>) -> Seq<char>
    decreases b.len(),
{
    if b.len() == 0 {
        Seq::empty()
    } else {
        hex_text(b.drop_last()).push(hex_digit(b.last() / 16)).push(hex_digit(b.last() % 16))
    }
}

pub proof fn lemma_hex_text_len(b: Seq<u8>)
    ensures
        hex_text(b).len() == 2 * b.len(),
    decreases b.len(),
{
    if b.len() > 0 {
        lemma_hex_text_len(b.drop_last());
    }
}

/// Relies on cosmwasm_std::HexBinary::to_hex (hex::encode): two lowercase
/// digits for each byte, in order.
#[verifier::external_body]
pub(crate) fn to_hex(b: &Vec<u8>) -> (r: String)
    ensures
        r@ == hex_text(b@),
{
    cosmwasm_std::HexBinary::from(b.as_slice()).to_hex()
}

/// Prefix of every denomination that the token factory creates.
pub open spec fn factory_prefix() -> Seq<char> {
    "factory"@
}

/// `factory/{creator}/{subdenom}`.
pub open spec fn full_denom(creator: Seq<char>, subdenom: Seq<char>) -> Seq<char> {
    factory_prefix() + seq!['/'] + creator + seq!['/'] + subdenom
}

/// Combines a creator address and a subdenomination into the token
/// factory's full denomination.
pub fn construct_denom(creator: &str, subdenom: &str) -> (r: String)
    ensures
        r@ == full_denom(creator@, subdenom@),
{
    proof {
        reveal_strlit("factory/");
        reveal_strlit("factory");
        reveal_strlit("/");
    }
    let mut r = "factory/".to_owned();
    r.append(creator);
    r.append("/");
    r.append(subdenom);
    assert(r@ =~= full_denom(creator@, subdenom@));
    r
}

/// The bytes of a denomination split as `factory/{creator}/{subdenom}`, with a
/// creator free of `/`.
pub open spec fn factory_split(d: Seq<u8>, creator: Seq<u8>, subdenom: Seq<u8>) -> bool {
    &&& d == text_key(factory_prefix()) + seq![47u8] + creator + seq![47u8] + subdenom
    &&& !creator.contains(47u8)
}

proof fn lemma_factory_prefix_bytes()
    ensures
        text_key(factory_prefix()).len() == 7,
        forall|i: int| 0 <= i < 7 ==> text_key(factory_prefix())[i] != 47u8,
{
    reveal_strlit("factory");
    let p = factory_prefix();
    assert(p =~= seq!['f', 'a', 'c', 't', 'o', 'r', 'y']);
    assert(vstd::utf8::is_ascii_chars(p));
    vstd::utf8::is_ascii_chars_encode_utf8(p);
}

/// Index of the first `/` at or after `from`.
fn find_slash(b: &[u8], from: usize) -> (r: Option<usize>)
    requires
        from <= b@.len(),
    ensures
        r is None ==> forall|k: int| from <= k < b@.len() ==> b@[k] != 47u8,
        r matches Some(i) ==> from <= i < b@.len() && b@[i as int] == 47u8 && forall|k: int|
            from <= k < i ==> b@[k] != 47u8,
{
    let mut i: usize = from;
    while i < b.len()
        invariant
            from <= i <= b@.len(),
            forall|k: int| from <= k < i ==> b@[k] != 47u8,
        decreases b@.len() - i,
    {
        if b[i] == 47u8 {
            return Some(i);
        }
        i = i + 1;
    }
    None
}

/// The text before and after the `/` at byte `i`.
fn split_around_slash(s: &str, i: usize) -> (r: (&str, &str))
    requires
        i < text_key(s@).len(),
        text_key(s@)[i as int] == 47u8,
    ensures
        text_key(r.0@) == text_key(s@).subrange(0, i as int),
        text_key(r.1@) == text_key(s@).subrange(i + 1, text_key(s@).len() as int),
{
    proof {
        vstd::utf8::encode_utf8_valid_utf8(s@);
        vstd::utf8::is_char_boundary_iff_not_is_continuation_byte(text_key(s@), i as int);
    }
    let (a, rest) = s.split_at(i);
    proof {
        let rb = text_key(rest@);
        vstd::utf8::encode_utf8_valid_utf8(rest@);
        assert(rb[0] == 47u8);
        reveal_with_fuel(vstd::utf8::is_char_boundary, 2);
        assert(vstd::utf8::length_of_first_scalar(rb) == 1);
        assert(vstd::utf8::is_char_boundary(rb, 1));
    }
    let (_, b) = rest.split_at(1);
    proof {
        assert(text_key(b@) =~= text_key(s@).subrange(i + 1, text_key(s@).len() as int));
    }
    (a, b)
}

/// Splits a token factory denomination into its creator and subdenomination;
/// none where the denomination does not have the form
/// `factory/{creator}/{subdenom}`.
pub fn deconstruct_denom(denom: &str) -> (r: Option<(&str, &str)>)
    ensures
        r matches Some((c, s)) ==> factory_split(text_key(denom@), text_key(c@), text_key(s@)),
        r is None ==> forall|c: Seq<u8>, s: Seq<u8>| !factory_split(text_key(denom@), c, s),
{
    let b = denom.as_bytes();
    proof {
        lemma_factory_prefix_bytes();
    }
    let ghost d = b@;
    let i = match find_slash(b, 0) {
        Some(i) => i,
        None => {
            proof {
                assert forall|c: Seq<u8>, s: Seq<u8>| !factory_split(text_key(denom@), c, s) by {
                    if factory_split(text_key(denom@), c, s) {
                        assert(d[7] == 47u8);
                    }
                }
            }
            return None;
        },
    };
    let (prefix, rest) = split_around_slash(denom, i);
    if compare_text(prefix, "factory") != 0 {
        proof {
            reveal_strlit("factory");
            assert forall|c: Seq<u8>, s: Seq<u8>| !factory_split(text_key(denom@), c, s) by {
                if factory_split(text_key(denom@), c, s) {
                    let p = text_key(factory_prefix());
                    assert(d[7] == 47u8);
                    assert forall|k: int| 0 <= k < 7 implies d[k] != 47u8 by {
                        assert(d[k] == p[k]);
                    }
                    assert(i == 7);
                    assert(text_key(prefix@) =~= p);
                    lemma_text_key_injective(prefix@, factory_prefix());
                }
            }
        }
        return None;
    }
    let rb = rest.as_bytes();
    let j = match find_slash(rb, 0) {
        Some(j) => j,
        None => {
            proof {
                reveal_strlit("factory");
                assert forall|c: Seq<u8>, s: Seq<u8>| !factory_split(text_key(denom@), c, s) by {
                    if factory_split(text_key(denom@), c, s) {
                        let p = text_key(factory_prefix());
                        assert(d[7] == 47u8);
                        assert forall|k: int| 0 <= k < 7 implies d[k] != 47u8 by {
                            assert(d[k] == p[k]);
                        }
                        assert(i == 7);
                        assert(rb@[c.len() as int] == d[8 + c.len() as int]);
                    }
                }
            }
            return None;
        },
    };
    let (creator, sub) = split_around_slash(rest, j);
    proof {
        reveal_strlit("factory");
        assert(prefix@ == factory_prefix());
        assert(d =~= text_key(factory_prefix()) + seq![47u8] + text_key(creator@) + seq![47u8]
            + text_key(sub@));
        if text_key(creator@).contains(47u8) {
            let k = choose|k: int| 0 <= k < text_key(creator@).len() && text_key(creator@)[k] == 47u8;
            assert(rb@[k] == 47u8);
        }
    }
    Some((creator, sub))
}

} // verus!

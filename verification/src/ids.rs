//! Identifiers: 128-bit values, their text, and where new ones come from.

use crate::text::join;
use vstd::prelude::*;

verus! {

/// An identifier, by its 128 bits.
pub type Id = u128;

/// The lower-case hexadecimal digit of `n`.
pub open spec fn hex_digit(n: nat) -> char {
    if n < 10 {
        (n + '0' as u32) as char
    } else {
        (n - 10 + 'a' as u32) as char
    }
}

/// The lower-case hexadecimal digits of `n`, `len` of them, most significant
/// first.
pub open spec fn hex_digits(n: nat, len: nat) -> Seq<char>
    decreases len,
{
    if len == 0 {
        seq![]
    } else {
        hex_digits(n / 16, (len - 1) as nat).push(hex_digit(n % 16))
    }
}

/// The 32 hexadecimal digits of an identifier.
pub open spec fn simple_id(id: Id) -> Seq<char> {
    hex_digits(id as nat, 32)
}

/// The digits of an identifier in groups of 8, 4, 4, 4 and 12.
pub open spec fn hyphenated_id(id: Id) -> Seq<char> {
    let d = simple_id(id);
    d.subrange(0, 8).push('-') + d.subrange(8, 12).push('-') + d.subrange(12, 16).push('-')
        + d.subrange(16, 20).push('-') + d.subrange(20, 32)
}

/// The identifier that `uuid::Uuid::parse_str` reads from a text.
pub uninterp spec fn parsed_id(text: Seq<char>) -> Option<u128>;

/// A fresh identifier from `uuid::Uuid::new_v4`: 122 random bits under the
/// fixed version and variant bits, which are four and two. Nothing is claimed
/// of the random bits.
#[verifier::external_body]
pub(crate) fn random_id() -> (r: Id)
    ensures
        r / 0x1000_0000_0000_0000_0000 % 16 == 4,
        r / 0x4000_0000_0000_0000 % 4 == 2,
{
    uuid::Uuid::new_v4().as_u128()
}

/// `uuid::Uuid::simple`, displayed: the 32 lower-case hexadecimal digits.
#[verifier::external_body]
pub(crate) fn simple_text(id: Id) -> (r: String)
    ensures
        r@ == simple_id(id),
{
    uuid::Uuid::from_u128(id).simple().to_string()
}

/// `uuid::Uuid::hyphenated`, displayed: the lower-case digits in hyphenated
/// groups, which `uuid::Uuid::parse_str` reads back as the same identifier.
#[verifier::external_body]
pub(crate) fn hyphenated_text(id: Id) -> (r: String)
    ensures
        r@ == hyphenated_id(id),
        parsed_id(r@) == Some(id),
{
    uuid::Uuid::from_u128(id).hyphenated().to_string()
}

/// `uuid::Uuid::parse_str`: the identifier that a text spells, if it spells
/// one in any of the forms that the function takes.
#[verifier::external_body]
pub(crate) fn read_id(text: &str) -> (r: Option<Id>)
    ensures
        r == parsed_id(text@),
{
    uuid::Uuid::parse_str(text).ok().map(|id| id.as_u128())
}

/// The text of an identifier.
pub fn id_text(id: Id) -> (r: String)
    ensures
        r@ == hyphenated_id(id),
        parsed_id(r@) == Some(id),
{
    hyphenated_text(id)
}

/// The identifier that a text spells.
pub fn parse_id(text: &str) -> (r: Option<Id>)
    ensures
        r == parsed_id(text@),
{
    read_id(text)
}

/// A secret made of a prefix and the digits of two identifiers.
pub open spec fn secret_text(prefix: Seq<char>, a: Id, b: Id) -> Seq<char> {
    prefix + simple_id(a) + simple_id(b)
}

/// A secret made of a prefix and the digits of two identifiers.
pub fn secret_of(prefix: &str, a: Id, b: Id) -> (r: String)
    ensures
        r@ == secret_text(prefix@, a, b),
{
    let first = simple_text(a);
    let second = simple_text(b);
    let mut out = join(prefix, first.as_str());
    out.append(second.as_str());
    out
}

/// A name made of a prefix and the digits of an identifier.
pub fn tagged_id(prefix: &str, id: Id) -> (r: String)
    ensures
        r@ == prefix@ + simple_id(id),
{
    let digits = simple_text(id);
    join(prefix, digits.as_str())
}

/// A fresh name with the given prefix.
pub fn new_tagged_id(prefix: &str) -> (r: String)
    ensures
        exists|id: Id| r@ == prefix@ + #[trigger] simple_id(id),
{
    tagged_id(prefix, random_id())
}

/// A fresh secret with the given prefix.
pub fn new_secret(prefix: &str) -> (r: String)
    ensures
        exists|a: Id, b: Id| r@ == #[trigger] secret_text(prefix@, a, b),
{
    let a: u128 = random_id();
    let b: u128 = random_id();
    secret_of(prefix, a, b)
}

proof fn lemma_hex_digits(n: nat, len: nat)
    ensures
        hex_digits(n, len).len() == len,
    decreases len,
{
    if len > 0 {
        lemma_hex_digits(n / 16, (len - 1) as nat);
    }
}

proof fn lemma_hex_digits_are_digits(n: nat, len: nat)
    ensures
        forall|i: int|
            0 <= i < hex_digits(n, len).len() ==> '-' < #[trigger] hex_digits(n, len)[i],
    decreases len,
{
    if len > 0 {
        lemma_hex_digits_are_digits(n / 16, (len - 1) as nat);
        let all = hex_digits(n, len);
        let before = hex_digits(n / 16, (len - 1) as nat);
        let d = n % 16;
        assert('-' < hex_digit(d)) by {
            assert(hex_digit(d) as u32 == if d < 10 {
                d + 48
            } else {
                d + 87
            });
        }
        assert forall|i: int| 0 <= i < all.len() implies '-' < #[trigger] all[i] by {
            if i < before.len() {
                assert(all[i] == before[i]);
            }
        }
    }
}

/// The text of an identifier has 36 characters, none of them below the hyphen.
pub proof fn lemma_hyphenated_id(id: Id)
    ensures
        hyphenated_id(id).len() == 36,
        forall|i: int|
            0 <= i < hyphenated_id(id).len() ==> '-' <= #[trigger] hyphenated_id(id)[i],
{
    lemma_hex_digits(id as nat, 32);
    lemma_hex_digits_are_digits(id as nat, 32);
    let d = simple_id(id);
    let a = d.subrange(0, 8).push('-');
    let b = d.subrange(8, 12).push('-');
    let c = d.subrange(12, 16).push('-');
    let e = d.subrange(16, 20).push('-');
    let f = d.subrange(20, 32);
    let h = hyphenated_id(id);
    assert(h == a + b + c + e + f);
    assert forall|i: int| 0 <= i < h.len() implies '-' <= #[trigger] h[i] by {
        if i < 9 {
            assert(h[i] == a[i]);
        } else if i < 14 {
            assert(h[i] == b[i - 9]);
        } else if i < 19 {
            assert(h[i] == c[i - 14]);
        } else if i < 24 {
            assert(h[i] == e[i - 19]);
        } else {
            assert(h[i] == f[i - 24]);
        }
    }
}

proof fn lemma_hex_digits_injective(m: nat, n: nat, len: nat)
    requires
        hex_digits(m, len) == hex_digits(n, len),
        m < pow16(len),
        n < pow16(len),
    ensures
        m == n,
    decreases len,
{
    if len > 0 {
        let k = (len - 1) as nat;
        lemma_hex_digits(m / 16, k);
        lemma_hex_digits(n / 16, k);
        let a = hex_digits(m, len);
        let b = hex_digits(n, len);
        assert(a.drop_last() =~= hex_digits(m / 16, k));
        assert(b.drop_last() =~= hex_digits(n / 16, k));
        assert(a.last() == hex_digit(m % 16));
        assert(b.last() == hex_digit(n % 16));
        assert(m % 16 == n % 16);
        assert(m / 16 < pow16(k)) by (nonlinear_arith)
            requires
                m < 16 * pow16(k),
        ;
        assert(n / 16 < pow16(k)) by (nonlinear_arith)
            requires
                n < 16 * pow16(k),
        ;
        lemma_hex_digits_injective(m / 16, n / 16, k);
    }
}

spec fn pow16(len: nat) -> nat
    decreases len,
{
    if len == 0 {
        1
    } else {
        16 * pow16((len - 1) as nat)
    }
}

/// A secret spells every bit that went into it: different identifiers give
/// different secrets, all of one length.
pub proof fn secrets_keep_their_bits(prefix: Seq<char>, a: Id, b: Id, c: Id, d: Id)
    ensures
        secret_text(prefix, a, b).len() == prefix.len() + 64,
        secret_text(prefix, a, b) == secret_text(prefix, c, d) ==> a == c && b == d,
{
    lemma_hex_digits(a as nat, 32);
    lemma_hex_digits(b as nat, 32);
    lemma_hex_digits(c as nat, 32);
    lemma_hex_digits(d as nat, 32);
    let s = secret_text(prefix, a, b);
    let t = secret_text(prefix, c, d);
    if s == t {
        let n = prefix.len() as int;
        assert(s.subrange(n, n + 32) =~= simple_id(a));
        assert(t.subrange(n, n + 32) =~= simple_id(c));
        assert(s.subrange(n + 32, n + 64) =~= simple_id(b));
        assert(t.subrange(n + 32, n + 64) =~= simple_id(d));
        assert(pow16(32) == 0x1_0000_0000_0000_0000_0000_0000_0000_0000) by {
            reveal_with_fuel(pow16, 33);
        }
        lemma_hex_digits_injective(a as nat, c as nat, 32);
        lemma_hex_digits_injective(b as nat, d as nat, 32);
    }
}

/// A digit of base sixteen is one of the ten digits or the first six small
/// letters.
pub proof fn hex_digits_are_small(n: nat)
    requires
        n < 16,
    ensures
        n < 10 ==> hex_digit(n) as u32 == 48 + n,
        n >= 10 ==> hex_digit(n) as u32 == 87 + n,
{
}

/// An identifier is written in thirty-two digits, or in five groups of them
/// with hyphens between.
pub proof fn identifiers_are_written_in_groups(id: Id, i: int)
    ensures
        simple_id(id).len() == 32,
        hyphenated_id(id).len() == 36,
        0 <= i < 36 ==> (hyphenated_id(id)[i] == '-' <==> i == 8 || i == 13 || i == 18 || i == 23),
        0 <= i < 8 ==> hyphenated_id(id)[i] == simple_id(id)[i],
        8 < i < 13 ==> hyphenated_id(id)[i] == simple_id(id)[i - 1],
        13 < i < 18 ==> hyphenated_id(id)[i] == simple_id(id)[i - 2],
        18 < i < 23 ==> hyphenated_id(id)[i] == simple_id(id)[i - 3],
        23 < i < 36 ==> hyphenated_id(id)[i] == simple_id(id)[i - 4],
{
    lemma_digits(id as nat, 32);
    let d = simple_id(id);
    let h = hyphenated_id(id);
    assert(d.len() == 32);
    assert(h.len() == 36);
    if 0 <= i < 36 && i != 8 && i != 13 && i != 18 && i != 23 {
        let k: int = if i < 8 {
            i
        } else if i < 13 {
            i - 1
        } else if i < 18 {
            i - 2
        } else if i < 23 {
            i - 3
        } else {
            i - 4
        };
        assert(h[i] == d[k]);
        assert(d[k] != '-');
    }
}

proof fn lemma_digits(n: nat, len: nat)
    ensures
        hex_digits(n, len).len() == len,
        forall|i: int| 0 <= i < len ==> #[trigger] hex_digits(n, len)[i] != '-',
    decreases len,
{
    if len > 0 {
        lemma_digits(n / 16, (len - 1) as nat);
    }
}

/// The last digit is the remainder by sixteen, and the others are those of the
/// quotient.
pub proof fn digits_are_of_base_sixteen(n: nat, len: nat)
    requires
        len > 0,
    ensures
        hex_digits(n, len).len() == len,
        hex_digits(n, len).last() == hex_digit(n % 16),
        hex_digits(n, len).drop_last() == hex_digits(n / 16, (len - 1) as nat),
{
    lemma_digits(n, len);
    assert(hex_digits(n, len).drop_last() =~= hex_digits(n / 16, (len - 1) as nat));
}

} // verus!

//! Decimal numerals: reading and writing integers.

use crate::text::{chars_of, digit, is_digit};
use vstd::prelude::*;

verus! {

/// The value of one decimal digit.
pub open spec fn digit_value(c: char) -> nat {
    (c as u32 - '0' as u32) as nat
}

/// A nonempty run of decimal digits.
pub open spec fn all_digits(s: Seq<char>) -> bool {
    s.len() > 0 && forall|i: int| 0 <= i < s.len() ==> is_digit(#[trigger] s[i])
}

/// The number that a run of decimal digits stands for.
pub open spec fn digits_value(s: Seq<char>) -> nat
    decreases s.len(),
{
    if s.len() == 0 {
        0
    } else {
        10 * digits_value(s.drop_last()) + digit_value(s.last())
    }
}

/// The number that an optionally signed numeral stands for.
pub open spec fn signed_value(s: Seq<char>) -> Option<int> {
    if s.len() > 0 && s[0] == '-' && all_digits(s.skip(1)) {
        Some(-(digits_value(s.skip(1)) as int))
    } else if s.len() > 0 && s[0] == '+' && all_digits(s.skip(1)) {
        Some(digits_value(s.skip(1)) as int)
    } else if all_digits(s) {
        Some(digits_value(s) as int)
    } else {
        None
    }
}

/// The number that a numeral with an optional plus sign stands for.
pub open spec fn unsigned_value(s: Seq<char>) -> Option<nat> {
    if s.len() > 0 && s[0] == '+' && all_digits(s.skip(1)) {
        Some(digits_value(s.skip(1)))
    } else if all_digits(s) {
        Some(digits_value(s))
    } else {
        None
    }
}

/// A longer run of digits stands for a number that is no smaller.
proof fn lemma_prefix_value(s: Seq<char>, n: int)
    requires
        0 <= n <= s.len(),
    ensures
        digits_value(s.take(n)) <= digits_value(s),
    decreases s.len() - n,
{
    if n < s.len() {
        lemma_prefix_value(s, n + 1);
        assert(s.take(n + 1).drop_last() =~= s.take(n));
    } else {
        assert(s.take(n) =~= s);
    }
}

/// Reads the digits from `from` on; nothing when one is no digit, when there
/// is none, or when the number is above `u64::MAX`.
fn read_digits(chars: &Vec<char>, from: usize) -> (r: Option<u64>)
    requires
        from <= chars@.len(),
    ensures
        match r {
            Some(v) => all_digits(chars@.skip(from as int)) && v == digits_value(
                chars@.skip(from as int),
            ),
            None => all_digits(chars@.skip(from as int)) ==> digits_value(chars@.skip(from as int))
                > u64::MAX,
        },
{
    let ghost s = chars@.skip(from as int);
    if from == chars.len() {
        return None;
    }
    let mut i: usize = from;
    let mut acc: u64 = 0;
    while i < chars.len()
        invariant
            from <= i <= chars@.len(),
            s == chars@.skip(from as int),
            forall|k: int| 0 <= k < i - from ==> is_digit(#[trigger] s[k]),
            acc == digits_value(s.take(i - from)),
        decreases chars@.len() - i,
    {
        let c = chars[i];
        assert(s[i - from] == c);
        if !digit(c) {
            return None;
        }
        let d: u64 = (c as u32 - '0' as u32) as u64;
        assert(s.take(i - from + 1).drop_last() =~= s.take(i - from));
        assert(digits_value(s.take(i - from + 1)) == 10 * acc + d);
        if acc > (u64::MAX - d) / 10 {
            proof {
                assert(10 * acc + d > u64::MAX);
                lemma_prefix_value(s, i - from + 1);
            }
            return None;
        }
        acc = acc * 10 + d;
        i = i + 1;
    }
    assert(s.take(s.len() as int) =~= s);
    Some(acc)
}

/// Reads a run of decimal digits; nothing when the text is something else or
/// the number is above `u64::MAX`.
pub fn parse_digits(s: &str) -> (r: Option<u64>)
    ensures
        match r {
            Some(v) => all_digits(s@) && v == digits_value(s@),
            None => all_digits(s@) ==> digits_value(s@) > u64::MAX,
        },
{
    let chars = chars_of(s);
    assert(chars@.skip(0) =~= s@);
    read_digits(&chars, 0)
}

/// Reads a signed 64-bit integer: an optional sign and decimal digits, nothing
/// else around them.
pub fn parse_i64(s: &str) -> (r: Option<i64>)
    ensures
        match r {
            Some(v) => signed_value(s@) == Some(v as int),
            None => match signed_value(s@) {
                Some(v) => !(i64::MIN <= v <= i64::MAX),
                None => true,
            },
        },
{
    let chars = chars_of(s);
    if chars.len() == 0 {
        return None;
    }
    let first = chars[0];
    assert(first == s@[0]);
    assert(s@.skip(0) =~= s@);
    assert(s@.skip(1) =~= chars@.skip(1));
    proof {
        if !is_digit(s@[0]) {
            assert(!all_digits(s@));
        }
    }
    let from: usize = if first == '-' || first == '+' {
        1
    } else {
        0
    };
    match read_digits(&chars, from) {
        Some(v) => {
            if first == '-' {
                if v == 0x8000_0000_0000_0000 {
                    Some(i64::MIN)
                } else if v < 0x8000_0000_0000_0000 {
                    Some(-(v as i64))
                } else {
                    None
                }
            } else if v <= 0x7fff_ffff_ffff_ffff {
                Some(v as i64)
            } else {
                None
            }
        },
        None => None,
    }
}

/// Reads an unsigned 32-bit integer: an optional plus sign and decimal digits,
/// nothing else around them.
pub fn parse_u32(s: &str) -> (r: Option<u32>)
    ensures
        match r {
            Some(v) => unsigned_value(s@) == Some(v as nat),
            None => match unsigned_value(s@) {
                Some(v) => v > u32::MAX,
                None => true,
            },
        },
{
    let chars = chars_of(s);
    if chars.len() == 0 {
        return None;
    }
    let first = chars[0];
    assert(first == s@[0]);
    assert(s@.skip(0) =~= s@);
    assert(s@.skip(1) =~= chars@.skip(1));
    proof {
        if !is_digit(s@[0]) {
            assert(!all_digits(s@));
        }
    }
    let from: usize = if first == '+' {
        1
    } else {
        0
    };
    match read_digits(&chars, from) {
        Some(v) => {
            if v <= 0xffff_ffff {
                Some(v as u32)
            } else {
                None
            }
        },
        None => None,
    }
}

/// The decimal numeral of `n`.
pub open spec fn decimal(n: nat) -> Seq<char>
    decreases n,
{
    if n < 10 {
        seq![(n + '0' as u32) as char]
    } else {
        decimal(n / 10).push((n % 10 + '0' as u32) as char)
    }
}

/// The decimal numeral of `n`.
pub fn decimal_text(n: u64) -> (r: String)
    ensures
        r@ == decimal(n as nat),
    decreases n,
{
    let d: u8 = (n % 10) as u8;
    let c: char = (d + 48) as char;
    if n < 10 {
        let mut out = String::new();
        out.push(c);
        assert(out@ =~= seq![c]);
        out
    } else {
        let mut out = decimal_text(n / 10);
        out.push(c);
        out
    }
}

/// A number is what its numeral reads as.
pub proof fn decimal_reads_back(n: nat)
    ensures
        all_digits(decimal(n)),
        digits_value(decimal(n)) == n,
        unsigned_value(decimal(n)) == Some(n),
        signed_value(decimal(n)) == Some(n as int),
    decreases n,
{
    let s = decimal(n);
    if n < 10 {
        assert(s.drop_last() =~= Seq::<char>::empty());
        assert(digits_value(s.drop_last()) == 0);
    } else {
        decimal_reads_back(n / 10);
        assert(s.drop_last() =~= decimal(n / 10));
        assert forall|i: int| 0 <= i < s.len() implies is_digit(#[trigger] s[i]) by {
            if i < s.len() - 1 {
                assert(s[i] == decimal(n / 10)[i]);
            }
        }
    }
    assert(is_digit(s[0]));
}

/// Digits are read from the left, each ten times what the next one is worth.
pub proof fn digits_count_tenfold(s: Seq<char>, c: char)
    ensures
        digits_value(seq![]) == 0,
        is_digit(c) ==> digits_value(s.push(c)) == 10 * digits_value(s) + (c as u32 - 48),
        all_digits(s) <==> s.len() > 0 && forall|i: int|
            0 <= i < s.len() ==> '0' <= #[trigger] s[i] <= '9',
{
    assert(s.push(c).drop_last() =~= s);
    if all_digits(s) {
        assert forall|i: int| 0 <= i < s.len() implies '0' <= #[trigger] s[i] <= '9' by {
            assert(is_digit(s[i]));
        }
    }
}

/// A sign may stand before the digits, a minus only where negative numbers are
/// read.
pub proof fn signs_stand_first(digits: Seq<char>)
    requires
        all_digits(digits),
    ensures
        signed_value(digits) == Some(digits_value(digits) as int),
        signed_value(seq!['-'] + digits) == Some(-(digits_value(digits) as int)),
        signed_value(seq!['+'] + digits) == Some(digits_value(digits) as int),
        unsigned_value(digits) == Some(digits_value(digits)),
        unsigned_value(seq!['+'] + digits) == Some(digits_value(digits)),
        unsigned_value(seq!['-'] + digits) is None,
{
    assert((seq!['-'] + digits).skip(1) =~= digits);
    assert((seq!['+'] + digits).skip(1) =~= digits);
    assert(is_digit(digits[0]));
    assert(!is_digit((seq!['-'] + digits)[0]));
    assert(!is_digit((seq!['+'] + digits)[0]));
}

/// What holds anything but digits behind a sign is no number.
pub proof fn other_texts_are_no_numbers(s: Seq<char>, i: int)
    requires
        0 < i < s.len(),
        !is_digit(s[i]),
    ensures
        signed_value(s) is None,
        unsigned_value(s) is None,
{
    assert(s.skip(1)[i - 1] == s[i]);
}

} // verus!

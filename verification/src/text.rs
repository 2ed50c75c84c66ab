//! Text as a sequence of characters: trimming, splitting, searching, case and
//! numerals.

use vstd::prelude::*;
use vstd::utf8::encode_utf8;

verus! {

// ---------------------------------------------------------------------------
// Characters
// ---------------------------------------------------------------------------

/// The characters with the Unicode property `White_Space`.
pub open spec fn is_space(c: char) -> bool {
    ||| '\u{9}' <= c <= '\u{d}'
    ||| c == '\u{20}'
    ||| c == '\u{85}'
    ||| c == '\u{a0}'
    ||| c == '\u{1680}'
    ||| '\u{2000}' <= c <= '\u{200a}'
    ||| c == '\u{2028}'
    ||| c == '\u{2029}'
    ||| c == '\u{202f}'
    ||| c == '\u{205f}'
    ||| c == '\u{3000}'
}

/// The control characters (general category `Cc`).
pub open spec fn is_control(c: char) -> bool {
    c <= '\u{1f}' || '\u{7f}' <= c <= '\u{9f}'
}

pub open spec fn is_digit(c: char) -> bool {
    '0' <= c <= '9'
}

pub open spec fn is_lower(c: char) -> bool {
    'a' <= c <= 'z'
}

pub open spec fn is_upper(c: char) -> bool {
    'A' <= c <= 'Z'
}

pub open spec fn is_alphanumeric(c: char) -> bool {
    is_digit(c) || is_lower(c) || is_upper(c)
}

/// ASCII lower case of one character; every other character is kept.
pub open spec fn lower_char(c: char) -> char {
    if is_upper(c) {
        ((c as u32) + 32) as char
    } else {
        c
    }
}

/// Tells whether `c` is white space.
pub fn space(c: char) -> (r: bool)
    ensures
        r == is_space(c),
{
    ('\u{9}' <= c && c <= '\u{d}') || c == '\u{20}' || c == '\u{85}' || c == '\u{a0}' || c
        == '\u{1680}' || ('\u{2000}' <= c && c <= '\u{200a}') || c == '\u{2028}' || c == '\u{2029}'
        || c == '\u{202f}' || c == '\u{205f}' || c == '\u{3000}'
}

/// Tells whether `c` is a control character.
pub fn control(c: char) -> (r: bool)
    ensures
        r == is_control(c),
{
    c <= '\u{1f}' || ('\u{7f}' <= c && c <= '\u{9f}')
}

/// Tells whether `c` is an ASCII decimal digit.
pub fn digit(c: char) -> (r: bool)
    ensures
        r == is_digit(c),
{
    '0' <= c && c <= '9'
}

/// Tells whether `c` is an ASCII letter or digit.
pub fn alphanumeric(c: char) -> (r: bool)
    ensures
        r == is_alphanumeric(c),
{
    ('0' <= c && c <= '9') || ('a' <= c && c <= 'z') || ('A' <= c && c <= 'Z')
}

/// The ASCII lower case of `c`.
pub fn lower(c: char) -> (r: char)
    ensures
        r == lower_char(c),
{
    if 'A' <= c && c <= 'Z' {
        let code: u8 = c as u8;
        (code + 32) as char
    } else {
        c
    }
}

// ---------------------------------------------------------------------------
// Between strings and character vectors
// ---------------------------------------------------------------------------

/// `String::push`: the character is appended.
pub assume_specification[ String::push ](s: &mut String, c: char)
    ensures
        final(s)@ == old(s)@.push(c),
;

/// The characters of `s`.
pub fn chars_of(s: &str) -> (r: Vec<char>)
    ensures
        r@ == s@,
{
    let mut out: Vec<char> = Vec::new();
    for c in it: s.chars()
        invariant
            out@ == it.seq().take(it.index() as int),
            it.seq() == s@,
    {
        out.push(c);
        assert(out@ =~= it.seq().take(it.index() as int + 1));
    }
    assert(s@.take(s@.len() as int) =~= s@);
    out
}

/// The string with the characters `from..to` of `chars`.
pub fn range_string(chars: &Vec<char>, from: usize, to: usize) -> (r: String)
    requires
        from <= to <= chars@.len(),
    ensures
        r@ == chars@.subrange(from as int, to as int),
{
    let mut out = String::new();
    let mut i: usize = from;
    while i < to
        invariant
            from <= i <= to <= chars@.len(),
            out@ == chars@.subrange(from as int, i as int),
        decreases to - i,
    {
        out.push(chars[i]);
        i = i + 1;
        assert(out@ =~= chars@.subrange(from as int, i as int));
    }
    out
}

/// The number of bytes of `s` in UTF-8.
pub open spec fn byte_count(s: Seq<char>) -> nat {
    encode_utf8(s).len()
}

/// The number of bytes of `s` in UTF-8.
pub fn byte_len(s: &str) -> (r: usize)
    ensures
        r == byte_count(s@),
{
    s.as_bytes().len()
}

/// The number of characters of `s`.
pub fn char_count(s: &str) -> (r: usize)
    ensures
        r == s@.len(),
{
    chars_of(s).len()
}

/// Tells whether two strings hold the same text.
pub fn same(a: &str, b: &str) -> (r: bool)
    ensures
        r == (a@ == b@),
{
    a.to_owned() == b.to_owned()
}

/// The texts of a sequence of strings.
pub open spec fn views(v: Seq<String>) -> Seq<Seq<char>> {
    Seq::new(v.len(), |i: int| v[i]@)
}

/// The text of an optional string.
pub open spec fn opt_view(v: Option<String>) -> Option<Seq<char>> {
    match v {
        Some(s) => Some(s@),
        None => None,
    }
}

/// The concatenation of `a` and `b`.
pub fn join(a: &str, b: &str) -> (r: String)
    ensures
        r@ == a@ + b@,
{
    let mut out = a.to_owned();
    out.append(b);
    out
}

/// A copy of an optional string.
pub fn copy_opt(v: &Option<String>) -> (r: Option<String>)
    ensures
        r == *v,
{
    match v {
        Some(s) => Some(s.clone()),
        None => None,
    }
}

/// Tells whether two optional strings hold the same text.
pub fn same_opt(a: &Option<String>, b: &Option<String>) -> (r: bool)
    ensures
        r == (opt_view(*a) == opt_view(*b)),
{
    match (a, b) {
        (Some(x), Some(y)) => same(x.as_str(), y.as_str()),
        (None, None) => true,
        _ => false,
    }
}

// ---------------------------------------------------------------------------
// Trimming and case
// ---------------------------------------------------------------------------

/// `s` without its leading white space.
pub open spec fn trimmed_start(s: Seq<char>) -> Seq<char>
    decreases s.len(),
{
    if s.len() > 0 && is_space(s[0]) {
        trimmed_start(s.drop_first())
    } else {
        s
    }
}

/// `s` without its trailing white space.
pub open spec fn trimmed_end(s: Seq<char>) -> Seq<char>
    decreases s.len(),
{
    if s.len() > 0 && is_space(s.last()) {
        trimmed_end(s.drop_last())
    } else {
        s
    }
}

/// `s` without leading and trailing white space.
pub open spec fn trimmed(s: Seq<char>) -> Seq<char> {
    trimmed_end(trimmed_start(s))
}

/// Text that is empty or all white space.
pub open spec fn blank(s: Seq<char>) -> bool {
    trimmed(s).len() == 0
}

/// `s` without leading and trailing white space.
pub fn trim(s: &str) -> (r: String)
    ensures
        r@ == trimmed(s@),
{
    let chars = chars_of(s);
    let mut from: usize = 0;
    assert(chars@.subrange(0, chars@.len() as int) =~= chars@);
    while from < chars.len() && space(chars[from])
        invariant
            from <= chars@.len(),
            trimmed_start(chars@.subrange(from as int, chars@.len() as int)) == trimmed_start(
                chars@,
            ),
        decreases chars@.len() - from,
    {
        let ghost rest = chars@.subrange(from as int, chars@.len() as int);
        assert(rest.drop_first() =~= chars@.subrange(from as int + 1, chars@.len() as int));
        from = from + 1;
    }
    let ghost start = chars@.subrange(from as int, chars@.len() as int);
    assert(trimmed_start(start) == start);
    let mut to: usize = chars.len();
    while from < to && space(chars[to - 1])
        invariant
            from <= to <= chars@.len(),
            trimmed_end(chars@.subrange(from as int, to as int)) == trimmed_end(start),
        decreases to,
    {
        let ghost rest = chars@.subrange(from as int, to as int);
        assert(rest.drop_last() =~= chars@.subrange(from as int, to - 1));
        to = to - 1;
    }
    range_string(&chars, from, to)
}

/// Tells whether `s` is empty or all white space.
pub fn is_blank(s: &str) -> (r: bool)
    ensures
        r == blank(s@),
{
    char_count(trim(s).as_str()) == 0
}

/// `s` in ASCII lower case.
pub open spec fn lowered(s: Seq<char>) -> Seq<char> {
    Seq::new(s.len(), |i: int| lower_char(s[i]))
}

/// `s` in ASCII lower case.
pub fn lowercase(s: &str) -> (r: String)
    ensures
        r@ == lowered(s@),
{
    let chars = chars_of(s);
    let mut out = String::new();
    let mut i: usize = 0;
    while i < chars.len()
        invariant
            i <= chars@.len(),
            out@ == lowered(chars@).take(i as int),
        decreases chars@.len() - i,
    {
        out.push(lower(chars[i]));
        i = i + 1;
        assert(out@ =~= lowered(chars@).take(i as int));
    }
    assert(out@ =~= lowered(s@));
    out
}

/// Tells whether `a` and `b` are the same up to ASCII case.
pub fn same_ignoring_case(a: &str, b: &str) -> (r: bool)
    ensures
        r == (lowered(a@) == lowered(b@)),
{
    same(lowercase(a).as_str(), lowercase(b).as_str())
}

// ---------------------------------------------------------------------------
// Searching and splitting
// ---------------------------------------------------------------------------

/// The index of the first `c` in `s`, or the length of `s` when it has none.
pub open spec fn position(s: Seq<char>, c: char) -> nat
    decreases s.len(),
{
    if s.len() == 0 || s[0] == c {
        0
    } else {
        1 + position(s.drop_first(), c)
    }
}

/// What `position` says, without the recursion.
pub proof fn lemma_position(s: Seq<char>, c: char)
    ensures
        position(s, c) <= s.len(),
        forall|i: int| 0 <= i < position(s, c) ==> s[i] != c,
        position(s, c) < s.len() ==> s[position(s, c) as int] == c,
        s.contains(c) == (position(s, c) < s.len()),
    decreases s.len(),
{
    if s.len() > 0 && s[0] != c {
        lemma_position(s.drop_first(), c);
        let p = position(s.drop_first(), c);
        assert forall|i: int| 0 <= i < position(s, c) implies s[i] != c by {
            if i > 0 {
                assert(s[i] == s.drop_first()[i - 1]);
            }
        }
        if p < s.drop_first().len() {
            assert(s[1 + p as int] == s.drop_first()[p as int]);
        }
        if s.contains(c) {
            let k = choose|k: int| 0 <= k < s.len() && s[k] == c;
            assert(k > 0);
            assert(s.drop_first()[k - 1] == c);
            assert(s.drop_first().contains(c));
        }
    }
}

/// An index with that shape is `position`.
pub proof fn lemma_position_unique(s: Seq<char>, c: char, p: nat)
    requires
        p <= s.len(),
        forall|i: int| 0 <= i < p ==> s[i] != c,
        p < s.len() ==> s[p as int] == c,
    ensures
        position(s, c) == p,
{
    lemma_position(s, c);
    let q = position(s, c);
    if q < p {
        assert(s[q as int] != c);
    }
    if p < q {
        assert(s[p as int] != c);
    }
}

/// The index of the first `c` in `chars` at or after `from`.
pub fn find_from(chars: &Vec<char>, from: usize, c: char) -> (r: usize)
    requires
        from <= chars@.len(),
    ensures
        from <= r <= chars@.len(),
        r - from == position(chars@.subrange(from as int, chars@.len() as int), c),
{
    let mut i: usize = from;
    while i < chars.len() && chars[i] != c
        invariant
            from <= i <= chars@.len(),
            forall|k: int| from <= k < i ==> chars@[k] != c,
        decreases chars@.len() - i,
    {
        i = i + 1;
    }
    proof {
        lemma_position_unique(
            chars@.subrange(from as int, chars@.len() as int),
            c,
            (i - from) as nat,
        );
    }
    i
}

/// Tells whether `s` holds the character `c`.
pub fn contains_char(s: &str, c: char) -> (r: bool)
    ensures
        r == s@.contains(c),
{
    let chars = chars_of(s);
    let p: usize = find_from(&chars, 0, c);
    proof {
        assert(chars@.subrange(0, chars@.len() as int) =~= chars@);
        lemma_position(s@, c);
    }
    p < chars.len()
}

/// The parts of `s` before and after its first `c`.
pub open spec fn split_at_first(s: Seq<char>, c: char) -> Option<(Seq<char>, Seq<char>)> {
    let p = position(s, c) as int;
    if p < s.len() {
        Some((s.take(p), s.skip(p + 1)))
    } else {
        None
    }
}

/// The parts of `s` before and after its first `c`.
pub fn split_once(s: &str, c: char) -> (r: Option<(String, String)>)
    ensures
        match r {
            Some((a, b)) => split_at_first(s@, c) == Some((a@, b@)),
            None => split_at_first(s@, c) is None,
        },
{
    let chars = chars_of(s);
    let p: usize = find_from(&chars, 0, c);
    assert(chars@.subrange(0, chars@.len() as int) =~= chars@);
    if p < chars.len() {
        let a = range_string(&chars, 0, p);
        let b = range_string(&chars, p + 1, chars.len());
        assert(a@ =~= s@.take(p as int));
        assert(b@ =~= s@.skip(p + 1));
        Some((a, b))
    } else {
        None
    }
}

/// `s` cut at every `c`.
pub open spec fn split_all(s: Seq<char>, c: char) -> Seq<Seq<char>>
    decreases s.len(),
{
    let p = position(s, c) as int;
    if p < s.len() {
        seq![s.take(p)] + split_all(s.skip(p + 1), c)
    } else {
        seq![s]
    }
}

/// `s` cut at every `c`.
pub fn split(s: &str, c: char) -> (r: Vec<String>)
    ensures
        views(r@) == split_all(s@, c),
        r@.len() >= 1,
{
    let chars = chars_of(s);
    let mut out: Vec<String> = Vec::new();
    let mut from: usize = 0;
    assert(chars@.skip(0) =~= chars@);
    assert(views(out@) =~= Seq::<Seq<char>>::empty());
    assert(views(out@) + split_all(s@, c) =~= split_all(s@, c));
    loop
        invariant
            from <= chars@.len(),
            chars@ == s@,
            views(out@) + split_all(chars@.skip(from as int), c) == split_all(s@, c),
        decreases chars@.len() - from,
    {
        let p: usize = find_from(&chars, from, c);
        let part = range_string(&chars, from, p);
        let ghost rest = chars@.skip(from as int);
        let ghost before = views(out@);
        assert(rest =~= chars@.subrange(from as int, chars@.len() as int));
        assert(part@ =~= rest.take(p - from));
        out.push(part);
        assert(views(out@) =~= before.push(part@));
        if p < chars.len() {
            assert(rest.skip(p - from + 1) =~= chars@.skip(p + 1));
            assert(before + (seq![part@] + split_all(chars@.skip(p + 1), c)) =~= views(out@)
                + split_all(chars@.skip(p + 1), c));
            from = p + 1;
        } else {
            assert(part@ =~= rest);
            assert(before + seq![rest] =~= views(out@));
            return out;
        }
    }
}

/// The white space of ASCII that separates words: space, tab, line feed, form
/// feed and carriage return.
pub open spec fn is_ascii_space(c: char) -> bool {
    c == '\u{20}' || c == '\u{9}' || c == '\u{a}' || c == '\u{c}' || c == '\u{d}'
}

/// A character between words: white space, or that of ASCII only.
pub open spec fn separates(c: char, ascii: bool) -> bool {
    if ascii {
        is_ascii_space(c)
    } else {
        is_space(c)
    }
}

/// The length of the leading run of characters that are between words (`sp`)
/// or that are not.
pub open spec fn run_length(s: Seq<char>, ascii: bool, sp: bool) -> nat
    decreases s.len(),
{
    if s.len() > 0 && separates(s[0], ascii) == sp {
        1 + run_length(s.drop_first(), ascii, sp)
    } else {
        0
    }
}

/// The maximal runs of characters that are not between words.
pub open spec fn words_by(s: Seq<char>, ascii: bool) -> Seq<Seq<char>>
    decreases s.len(),
    via words_decreases
{
    let t = s.skip(run_length(s, ascii, true) as int);
    if t.len() == 0 {
        seq![]
    } else {
        let n = run_length(t, ascii, false) as int;
        seq![t.take(n)] + words_by(t.skip(n), ascii)
    }
}

#[via_fn]
proof fn words_decreases(s: Seq<char>, ascii: bool) {
    lemma_run_ends(s, ascii, true);
    let t = s.skip(run_length(s, ascii, true) as int);
    lemma_run_ends(t, ascii, false);
    if t.len() > 0 {
        assert(run_length(t, ascii, false) > 0);
    }
}

/// The maximal runs of characters that are not white space.
pub open spec fn words(s: Seq<char>) -> Seq<Seq<char>> {
    words_by(s, false)
}

proof fn lemma_run_ends(s: Seq<char>, ascii: bool, sp: bool)
    ensures
        run_length(s, ascii, sp) <= s.len(),
        run_length(s, ascii, sp) < s.len() ==> separates(s[run_length(s, ascii, sp) as int], ascii)
            != sp,
    decreases s.len(),
{
    if s.len() > 0 && separates(s[0], ascii) == sp {
        lemma_run_ends(s.drop_first(), ascii, sp);
    }
}

fn separator(c: char, ascii: bool) -> (r: bool)
    ensures
        r == separates(c, ascii),
{
    if ascii {
        c == '\u{20}' || c == '\u{9}' || c == '\u{a}' || c == '\u{c}' || c == '\u{d}'
    } else {
        space(c)
    }
}

fn run_end(chars: &Vec<char>, from: usize, ascii: bool, sp: bool) -> (r: usize)
    requires
        from <= chars@.len(),
    ensures
        from <= r <= chars@.len(),
        r - from == run_length(chars@.skip(from as int), ascii, sp),
{
    let mut i: usize = from;
    while i < chars.len() && separator(chars[i], ascii) == sp
        invariant
            from <= i <= chars@.len(),
            (i - from) + run_length(chars@.skip(i as int), ascii, sp) == run_length(
                chars@.skip(from as int),
                ascii,
                sp,
            ),
        decreases chars@.len() - i,
    {
        assert(chars@.skip(i as int).drop_first() =~= chars@.skip(i + 1));
        i = i + 1;
    }
    i
}

proof fn lemma_run_is(s: Seq<char>, ascii: bool, sp: bool, n: int)
    requires
        0 <= n <= s.len(),
        forall|i: int| 0 <= i < n ==> separates(#[trigger] s[i], ascii) == sp,
        n < s.len() ==> separates(s[n], ascii) != sp,
    ensures
        run_length(s, ascii, sp) == n,
    decreases n,
{
    if n > 0 {
        assert(separates(s[0], ascii) == sp);
        let rest = s.drop_first();
        assert forall|i: int| 0 <= i < n - 1 implies separates(#[trigger] rest[i], ascii) == sp by {
            assert(rest[i] == s[i + 1]);
        }
        lemma_run_is(rest, ascii, sp, n - 1);
    }
}

proof fn lemma_run_holds(s: Seq<char>, ascii: bool, sp: bool)
    ensures
        forall|i: int|
            0 <= i < run_length(s, ascii, sp) ==> separates(#[trigger] s[i], ascii) == sp,
    decreases s.len(),
{
    if s.len() > 0 && separates(s[0], ascii) == sp {
        let rest = s.drop_first();
        lemma_run_holds(rest, ascii, sp);
        lemma_run_ends(s, ascii, sp);
        assert forall|i: int| 0 <= i < run_length(s, ascii, sp) implies separates(
            #[trigger] s[i],
            ascii,
        ) == sp by {
            if i > 0 {
                assert(rest[i - 1] == s[i]);
            }
        }
    }
}

/// A text that is one word.
pub open spec fn is_word(s: Seq<char>, ascii: bool) -> bool {
    s.len() > 0 && forall|i: int| 0 <= i < s.len() ==> !separates(#[trigger] s[i], ascii)
}

/// The only word of a text that is one.
pub proof fn lemma_one_word(s: Seq<char>, ascii: bool)
    requires
        is_word(s, ascii),
    ensures
        words_by(s, ascii) == seq![s],
{
    lemma_run_is(s, ascii, true, 0);
    assert(s.skip(0) =~= s);
    lemma_run_is(s, ascii, false, s.len() as int);
    assert(s.take(s.len() as int) =~= s);
    let none = s.skip(s.len() as int);
    assert(none =~= seq![]);
    lemma_run_is(none, ascii, true, 0);
    assert(words_by(none, ascii) =~= seq![]);
    assert(words_by(s, ascii) =~= seq![s]);
}

/// A word behind a separator is the last word of a text.
pub proof fn lemma_words_push(s: Seq<char>, c: char, word: Seq<char>, ascii: bool)
    requires
        separates(c, ascii),
        is_word(word, ascii),
    ensures
        words_by(s.push(c) + word, ascii) == words_by(s, ascii).push(word),
    decreases s.len(),
{
    let all = s.push(c) + word;
    let gap = run_length(s, ascii, true) as int;
    lemma_run_ends(s, ascii, true);
    lemma_run_holds(s, ascii, true);
    let t = s.skip(gap);
    if t.len() == 0 {
        let start = s.len() as int + 1;
        assert forall|i: int| 0 <= i < start implies separates(
            #[trigger] all[i],
            ascii,
        ) by {
            if i < s.len() {
                assert(all[i] == s[i]);
            }
        }
        assert(all[start] == word[0]);
        lemma_run_is(all, ascii, true, start);
        assert(all.skip(start) =~= word);
        lemma_one_word(word, ascii);
        lemma_run_is(word, ascii, true, 0);
        assert(word.skip(0) =~= word);
        assert(words_by(all, ascii) == seq![word.take(run_length(word, ascii, false) as int)]
            + words_by(word.skip(run_length(word, ascii, false) as int), ascii));
        assert(words_by(s, ascii) =~= seq![]);
        assert(seq![word] =~= words_by(s, ascii).push(word));
    } else {
        assert forall|i: int| 0 <= i < gap implies separates(#[trigger] all[i], ascii) by {
            assert(all[i] == s[i]);
        }
        assert(all[gap] == s[gap]);
        lemma_run_is(all, ascii, true, gap);
        let t2 = all.skip(gap);
        assert(t2 =~= t.push(c) + word);
        let n = run_length(t, ascii, false) as int;
        lemma_run_ends(t, ascii, false);
        lemma_run_holds(t, ascii, false);
        assert(t[0] == s[gap]);
        assert(n > 0);
        assert forall|i: int| 0 <= i < n implies !separates(#[trigger] t2[i], ascii) by {
            assert(t2[i] == t[i]);
        }
        assert(t2[n] == if n < t.len() { t[n] } else { c });
        lemma_run_is(t2, ascii, false, n);
        assert(t2.take(n) =~= t.take(n));
        assert(t2.skip(n) =~= t.skip(n).push(c) + word);
        lemma_words_push(t.skip(n), c, word, ascii);
        assert(words_by(all, ascii) =~= words_by(s, ascii).push(word));
    }
}

/// The words of `s`: what is left between white space, or between that of
/// ASCII only.
pub fn split_words(s: &str, ascii: bool) -> (r: Vec<String>)
    ensures
        views(r@) == words_by(s@, ascii),
{
    let chars = chars_of(s);
    let mut out: Vec<String> = Vec::new();
    let mut from: usize = 0;
    assert(chars@.skip(0) =~= chars@);
    assert(views(out@) + words_by(s@, ascii) =~= words_by(s@, ascii));
    loop
        invariant
            from <= chars@.len(),
            chars@ == s@,
            views(out@) + words_by(chars@.skip(from as int), ascii) == words_by(s@, ascii),
        decreases chars@.len() - from,
    {
        let ghost rest = chars@.skip(from as int);
        let start: usize = run_end(&chars, from, ascii, true);
        proof {
            lemma_run_ends(rest, ascii, true);
            assert(rest.skip(start - from) =~= chars@.skip(start as int));
        }
        let ghost t = chars@.skip(start as int);
        if start >= chars.len() {
            assert(views(out@) + words_by(rest, ascii) =~= views(out@));
            return out;
        }
        let end: usize = run_end(&chars, start, ascii, false);
        proof {
            lemma_run_ends(t, ascii, false);
            assert(t[0] == chars@[start as int]);
            assert(!separates(t[0], ascii));
        }
        let part = range_string(&chars, start, end);
        let ghost before = views(out@);
        assert(part@ =~= t.take(end - start));
        assert(t.skip(end - start) =~= chars@.skip(end as int));
        out.push(part);
        assert(views(out@) =~= before.push(part@));
        assert(before + words_by(rest, ascii) =~= views(out@) + words_by(
            chars@.skip(end as int),
            ascii,
        ));
        from = end;
    }
}

/// The words of `s`: what is left between its white space.
pub fn split_whitespace(s: &str) -> (r: Vec<String>)
    ensures
        views(r@) == words(s@),
{
    split_words(s, false)
}

/// Tells whether `s` starts with `prefix`.
pub fn starts_with(s: &str, prefix: &str) -> (r: bool)
    ensures
        r == prefix@.is_prefix_of(s@),
{
    let a = chars_of(s);
    let b = chars_of(prefix);
    matches_at(&a, 0, &b)
}

/// `pat` stands in `s` at index `i`.
pub open spec fn stands_at(s: Seq<char>, i: int, pat: Seq<char>) -> bool {
    pat.is_prefix_of(s.skip(i))
}

fn matches_at(chars: &Vec<char>, at: usize, pat: &Vec<char>) -> (r: bool)
    requires
        at <= chars@.len(),
    ensures
        r == stands_at(chars@, at as int, pat@),
        at == 0 ==> r == pat@.is_prefix_of(chars@),
{
    assert(chars@.skip(0) =~= chars@);
    let ghost rest = chars@.skip(at as int);
    let total: usize = chars.len();
    if pat.len() > total - at {
        return false;
    }
    let mut i: usize = 0;
    while i < pat.len()
        invariant
            total == chars@.len(),
            i <= pat@.len() <= chars@.len() - at,
            rest == chars@.skip(at as int),
            forall|k: int| 0 <= k < i ==> pat@[k] == rest[k],
        decreases pat@.len() - i,
    {
        if chars[at + i] != pat[i] {
            assert(rest[i as int] != pat@[i as int]);
            assert(rest.subrange(0, pat@.len() as int)[i as int] == rest[i as int]);
            return false;
        }
        assert(chars@[at + i] == rest[i as int]);
        i = i + 1;
    }
    assert(rest.subrange(0, pat@.len() as int) =~= pat@);
    true
}

/// What follows `prefix` in `s`, when `s` starts with it.
pub fn strip_prefix(s: &str, prefix: &str) -> (r: Option<String>)
    ensures
        match r {
            Some(rest) => prefix@.is_prefix_of(s@) && rest@ == s@.skip(prefix@.len() as int),
            None => !prefix@.is_prefix_of(s@),
        },
{
    let a = chars_of(s);
    let b = chars_of(prefix);
    if matches_at(&a, 0, &b) {
        let rest = range_string(&a, b.len(), a.len());
        assert(rest@ =~= s@.skip(prefix@.len() as int));
        Some(rest)
    } else {
        None
    }
}

/// `s` without its trailing run of `c`.
pub open spec fn without_trailing(s: Seq<char>, c: char) -> Seq<char>
    decreases s.len(),
{
    if s.len() > 0 && s.last() == c {
        without_trailing(s.drop_last(), c)
    } else {
        s
    }
}

/// `s` without its trailing run of `c`.
pub fn trim_end_char(s: &str, c: char) -> (r: String)
    ensures
        r@ == without_trailing(s@, c),
{
    let chars = chars_of(s);
    let mut to: usize = chars.len();
    assert(chars@.take(to as int) =~= chars@);
    while to > 0 && chars[to - 1] == c
        invariant
            to <= chars@.len(),
            without_trailing(chars@.take(to as int), c) == without_trailing(chars@, c),
        decreases to,
    {
        assert(chars@.take(to as int).drop_last() =~= chars@.take(to - 1));
        to = to - 1;
    }
    let out = range_string(&chars, 0, to);
    assert(out@ =~= chars@.take(to as int));
    out
}

/// The first index at which `pat` stands in `s`.
pub open spec fn find(s: Seq<char>, pat: Seq<char>) -> Option<int>
    decreases s.len(),
{
    if pat.is_prefix_of(s) {
        Some(0)
    } else if s.len() == 0 {
        None
    } else {
        match find(s.drop_first(), pat) {
            Some(i) => Some(i + 1),
            None => None,
        }
    }
}

proof fn lemma_find(s: Seq<char>, pat: Seq<char>)
    ensures
        match find(s, pat) {
            Some(i) => 0 <= i && i + pat.len() <= s.len() && stands_at(s, i, pat),
            None => true,
        },
    decreases s.len(),
{
    assert(s.skip(0) =~= s);
    if !pat.is_prefix_of(s) && s.len() > 0 {
        lemma_find(s.drop_first(), pat);
        match find(s.drop_first(), pat) {
            Some(i) => {
                assert(s.drop_first().skip(i) =~= s.skip(i + 1));
            },
            None => {},
        }
    }
}

fn find_at(chars: &Vec<char>, from: usize, pat: &Vec<char>) -> (r: Option<usize>)
    requires
        from <= chars@.len(),
    ensures
        match r {
            Some(i) => from <= i && i + pat@.len() <= chars@.len() && find(
                chars@.skip(from as int),
                pat@,
            ) == Some(i - from),
            None => find(chars@.skip(from as int), pat@) is None,
        },
{
    let mut i: usize = from;
    let ghost whole = chars@.skip(from as int);
    while i < chars.len() && !matches_at(chars, i, pat)
        invariant
            from <= i <= chars@.len(),
            whole == chars@.skip(from as int),
            match find(chars@.skip(i as int), pat@) {
                Some(k) => find(whole, pat@) == Some(k + (i - from)),
                None => find(whole, pat@) is None,
            },
        decreases chars@.len() - i,
    {
        assert(chars@.skip(i as int).drop_first() =~= chars@.skip(i + 1));
        i = i + 1;
    }
    proof {
        lemma_find(chars@.skip(i as int), pat@);
    }
    if matches_at(chars, i, pat) {
        Some(i)
    } else {
        None
    }
}

/// How often `pat` stands in `s`, counted from the left without overlap.
pub open spec fn occurrences(s: Seq<char>, pat: Seq<char>) -> nat
    decreases s.len(),
    via occurrences_decreases
{
    match find(s, pat) {
        Some(i) => if pat.len() > 0 {
            1 + occurrences(s.skip(i + pat.len()), pat)
        } else {
            0
        },
        None => 0,
    }
}

#[via_fn]
proof fn occurrences_decreases(s: Seq<char>, pat: Seq<char>) {
    lemma_find(s, pat);
}

/// How often `pat` stands in `s`, counted from the left without overlap.
pub fn count_text(s: &str, pat: &str) -> (r: usize)
    requires
        pat@.len() > 0,
    ensures
        r == occurrences(s@, pat@),
{
    let a = chars_of(s);
    let b = chars_of(pat);
    let mut from: usize = 0;
    let mut count: usize = 0;
    let total: usize = a.len();
    assert(a@.skip(0) =~= a@);
    loop
        invariant
            total == a@.len(),
            from <= a@.len(),
            b@.len() > 0,
            b@ == pat@,
            count <= from,
            count + occurrences(a@.skip(from as int), b@) == occurrences(s@, pat@),
        decreases a@.len() - from,
    {
        match find_at(&a, from, &b) {
            Some(i) => {
                assert(a@.skip(from as int).skip(i - from + b@.len()) =~= a@.skip(i + b@.len()));
                from = i + b.len();
                count = count + 1;
            },
            None => {
                return count;
            },
        }
    }
}

/// `s` with the first `pat` in it replaced by `with`.
pub open spec fn replaced_first(s: Seq<char>, pat: Seq<char>, with: Seq<char>) -> Seq<char> {
    match find(s, pat) {
        Some(i) => s.take(i) + with + s.skip(i + pat.len()),
        None => s,
    }
}

/// `s` with the first `pat` in it replaced by `with`.
pub fn replace_first(s: &str, pat: &str, with: &str) -> (r: String)
    ensures
        r@ == replaced_first(s@, pat@, with@),
{
    let a = chars_of(s);
    let b = chars_of(pat);
    assert(a@.skip(0) =~= a@);
    let total: usize = a.len();
    match find_at(&a, 0, &b) {
        Some(i) => {
            let mut out = range_string(&a, 0, i);
            let tail = range_string(&a, i + b.len(), total);
            out.append(with);
            out.append(tail.as_str());
            assert(out@ =~= s@.take(i as int) + with@ + s@.skip(i + pat@.len()));
            out
        },
        None => s.to_owned(),
    }
}

/// Tells whether `s` holds a control character.
pub open spec fn has_control(s: Seq<char>) -> bool {
    exists|i: int| 0 <= i < s.len() && is_control(#[trigger] s[i])
}

/// Tells whether `s` holds white space.
pub open spec fn has_space(s: Seq<char>) -> bool {
    exists|i: int| 0 <= i < s.len() && is_space(#[trigger] s[i])
}

/// Tells whether `s` holds a control character.
pub fn any_control(s: &str) -> (r: bool)
    ensures
        r == has_control(s@),
{
    let chars = chars_of(s);
    let mut i: usize = 0;
    while i < chars.len()
        invariant
            i <= chars@.len(),
            chars@ == s@,
            forall|k: int| 0 <= k < i ==> !is_control(#[trigger] chars@[k]),
        decreases chars@.len() - i,
    {
        if control(chars[i]) {
            return true;
        }
        i = i + 1;
    }
    false
}

/// Tells whether `s` holds white space.
pub fn any_space(s: &str) -> (r: bool)
    ensures
        r == has_space(s@),
{
    let chars = chars_of(s);
    let mut i: usize = 0;
    while i < chars.len()
        invariant
            i <= chars@.len(),
            chars@ == s@,
            forall|k: int| 0 <= k < i ==> !is_space(#[trigger] chars@[k]),
        decreases chars@.len() - i,
    {
        if space(chars[i]) {
            return true;
        }
        i = i + 1;
    }
    false
}

// ---------------------------------------------------------------------------
// Facts about trimming
// ---------------------------------------------------------------------------

/// Text that neither starts nor ends with white space.
pub open spec fn is_trimmed(s: Seq<char>) -> bool {
    s.len() > 0 ==> !is_space(s[0]) && !is_space(s.last())
}

proof fn lemma_trimmed_start(s: Seq<char>)
    ensures
        trimmed_start(s).len() > 0 ==> !is_space(trimmed_start(s)[0]),
        trimmed_start(s).is_suffix_of(s),
    decreases s.len(),
{
    if s.len() > 0 && is_space(s[0]) {
        lemma_trimmed_start(s.drop_first());
        let t = trimmed_start(s);
        assert(t =~= s.subrange(s.len() - t.len(), s.len() as int));
    }
}

proof fn lemma_trimmed_end(s: Seq<char>)
    ensures
        trimmed_end(s).len() > 0 ==> !is_space(trimmed_end(s).last()) && trimmed_end(s)[0] == s[0],
        trimmed_end(s).is_prefix_of(s),
    decreases s.len(),
{
    if s.len() > 0 && is_space(s.last()) {
        lemma_trimmed_end(s.drop_last());
    }
}

/// Trimming leaves trimmed text, a part of what it was given, and leaves
/// trimmed text alone.
pub proof fn lemma_trimmed(s: Seq<char>)
    ensures
        is_trimmed(trimmed(s)),
        is_trimmed(s) ==> trimmed(s) == s,
        trimmed(trimmed(s)) == trimmed(s),
        trimmed(s).len() <= s.len(),
        forall|c: char| trimmed(s).contains(c) ==> s.contains(c),
{
    let t = trimmed_start(s);
    lemma_trimmed_start(s);
    lemma_trimmed_end(t);
    let u = trimmed_end(t);
    assert(is_trimmed(u));
    assert(trimmed_start(u) == u);
    assert(trimmed_end(u) == u);
    assert forall|c: char| trimmed(s).contains(c) implies s.contains(c) by {
        let k = choose|k: int| 0 <= k < u.len() && u[k] == c;
        assert(u[k] == t[k]);
        assert(t[k] == s[s.len() - t.len() + k]);
    }
}

/// The blanks, controls, digits and letters of the first hundred and
/// twenty-eight characters are those of the usual table.
pub proof fn characters_are_of_their_kind(c: char)
    ensures
        c as u32 <= 127 ==> (is_space(c) <==> c == ' ' || 9 <= c as u32 <= 13),
        is_control(c) <==> c as u32 <= 31 || 127 <= c as u32 <= 159,
        is_alphanumeric(c) <==> 48 <= c as u32 <= 57 || 65 <= c as u32 <= 90 || 97 <= c as u32
            <= 122,
        is_digit(c) <==> 48 <= c as u32 <= 57,
        is_ascii_space(c) <==> c as u32 == 32 || c as u32 == 9 || c as u32 == 10 || c as u32 == 12
            || c as u32 == 13,
        is_ascii_space(c) ==> is_space(c),
        65 <= c as u32 <= 90 ==> lower_char(c) as u32 == c as u32 + 32,
        !(65 <= c as u32 <= 90) ==> lower_char(c) == c,
        lower_char(lower_char(c)) == lower_char(c),
{
}

proof fn lemma_start(s: Seq<char>) -> (n: int)
    ensures
        0 <= n <= s.len(),
        trimmed_start(s) == s.skip(n),
        forall|i: int| 0 <= i < n ==> is_space(#[trigger] s[i]),
    decreases s.len(),
{
    if s.len() > 0 && is_space(s[0]) {
        let k = lemma_start(s.drop_first());
        assert(s.drop_first().skip(k) =~= s.skip(k + 1));
        assert forall|i: int| 0 <= i < k + 1 implies is_space(#[trigger] s[i]) by {
            if i > 0 {
                assert(s.drop_first()[i - 1] == s[i]);
            }
        }
        k + 1
    } else {
        assert(s.skip(0) =~= s);
        0
    }
}

proof fn lemma_end(s: Seq<char>) -> (n: int)
    ensures
        0 <= n <= s.len(),
        trimmed_end(s) == s.take(n),
        forall|i: int| n <= i < s.len() ==> is_space(#[trigger] s[i]),
    decreases s.len(),
{
    if s.len() > 0 && is_space(s.last()) {
        let k = lemma_end(s.drop_last());
        assert(s.drop_last().take(k) =~= s.take(k));
        assert forall|i: int| k <= i < s.len() implies is_space(#[trigger] s[i]) by {
            if i < s.len() - 1 {
                assert(s.drop_last()[i] == s[i]);
            }
        }
        k
    } else {
        assert(s.take(s.len() as int) =~= s);
        s.len() as int
    }
}

/// Only blanks stand around.
pub open spec fn all_spaces(s: Seq<char>) -> bool {
    forall|i: int| 0 <= i < s.len() ==> is_space(#[trigger] s[i])
}

/// Trimming takes away the blanks at both ends and nothing else; a text is
/// blank where there is nothing else in it.
pub proof fn trimming_takes_blanks_away(s: Seq<char>)
    ensures
        exists|a: Seq<char>, b: Seq<char>|
            #![trigger all_spaces(a), all_spaces(b)]
            all_spaces(a) && all_spaces(b) && s == a + trimmed(s) + b,
        trimmed(s).len() > 0 ==> !is_space(trimmed(s)[0]) && !is_space(trimmed(s).last()),
        blank(s) <==> all_spaces(s),
{
    lemma_trimmed(s);
    let n = lemma_start(s);
    let t = s.skip(n);
    let m = lemma_end(t);
    let a = s.take(n);
    let b = t.skip(m);
    assert(s =~= a + trimmed(s) + b);
    assert forall|i: int| 0 <= i < a.len() implies is_space(#[trigger] a[i]) by {
        assert(a[i] == s[i]);
    }
    assert forall|i: int| 0 <= i < b.len() implies is_space(#[trigger] b[i]) by {
        assert(b[i] == t[m + i]);
    }
    assert(all_spaces(a) && all_spaces(b));
    if blank(s) {
        assert(s =~= a + b);
        assert forall|i: int| 0 <= i < s.len() implies is_space(#[trigger] s[i]) by {
            if i < a.len() {
                assert(s[i] == a[i]);
            } else {
                assert(s[i] == b[i - a.len()]);
            }
        }
    }
    if all_spaces(s) && trimmed(s).len() > 0 {
        assert(trimmed(s)[0] == s[n]);
    }
}

/// A text is split at each such character: the parts hold none, and put
/// together again they are the text.
pub proof fn parts_make_the_text(s: Seq<char>, c: char)
    ensures
        split_all(s, c).len() >= 1,
        forall|i: int| 0 <= i < split_all(s, c).len() ==> !(#[trigger] split_all(s, c)[i]).contains(c),
        joined(split_all(s, c), c) == s,
    decreases s.len(),
{
    lemma_position(s, c);
    let p = position(s, c) as int;
    let parts = split_all(s, c);
    if p < s.len() {
        let rest = s.skip(p + 1);
        parts_make_the_text(rest, c);
        let others = split_all(rest, c);
        assert(parts == seq![s.take(p)] + others);
        assert(parts.drop_first() =~= others);
        assert(parts[0] == s.take(p));
        assert forall|i: int| 0 <= i < parts.len() implies !(#[trigger] parts[i]).contains(c) by {
            if i == 0 {
                if s.take(p).contains(c) {
                    let k = choose|k: int| 0 <= k < p && s.take(p)[k] == c;
                    assert(s[k] == c);
                }
            } else {
                assert(parts[i] == others[i - 1]);
            }
        }
        assert(joined(parts, c) == parts[0].push(c) + joined(others, c));
        assert(s.take(p).push(c) + rest =~= s);
    } else {
        assert(parts =~= seq![s]);
    }
}

/// The parts with the character between them.
pub open spec fn joined(parts: Seq<Seq<char>>, c: char) -> Seq<char>
    decreases parts.len(),
{
    if parts.len() == 0 {
        seq![]
    } else if parts.len() == 1 {
        parts[0]
    } else {
        parts[0].push(c) + joined(parts.drop_first(), c)
    }
}

/// A text is cut at the first such character, which goes.
pub proof fn texts_are_cut_once(s: Seq<char>, c: char)
    ensures
        split_at_first(s, c) is Some <==> s.contains(c),
        split_at_first(s, c) matches Some((a, b)) ==> !a.contains(c) && s == a.push(c) + b,
{
    lemma_position(s, c);
    let p = position(s, c) as int;
    if p < s.len() {
        assert(s =~= s.take(p).push(c) + s.skip(p + 1));
        if s.take(p).contains(c) {
            let k = choose|k: int| 0 <= k < p && s.take(p)[k] == c;
            assert(s[k] == c);
        }
    }
}

/// Only the character goes from the end, and all of it.
pub proof fn ends_are_taken_away(s: Seq<char>, c: char)
    ensures
        without_trailing(s, c).len() <= s.len(),
        without_trailing(s, c) == s.take(without_trailing(s, c).len() as int),
        forall|i: int| without_trailing(s, c).len() <= i < s.len() ==> #[trigger] s[i] == c,
        without_trailing(s, c).len() > 0 ==> without_trailing(s, c).last() != c,
    decreases s.len(),
{
    if s.len() > 0 && s.last() == c {
        let t = s.drop_last();
        ends_are_taken_away(t, c);
        let n = without_trailing(t, c).len() as int;
        assert(t.take(n) =~= s.take(n));
        assert forall|i: int| n <= i < s.len() implies #[trigger] s[i] == c by {
            if i < t.len() {
                assert(t[i] == s[i]);
            }
        }
    } else {
        assert(s.take(s.len() as int) =~= s);
    }
}

/// What is found is the first place where the pattern stands.
pub proof fn patterns_are_found_first(s: Seq<char>, pat: Seq<char>)
    ensures
        find(s, pat) matches Some(i) ==> {
            &&& 0 <= i <= s.len()
            &&& pat.is_prefix_of(s.skip(i))
            &&& forall|k: int| 0 <= k < i ==> !pat.is_prefix_of(#[trigger] s.skip(k))
        },
        find(s, pat) is None ==> forall|k: int|
            0 <= k <= s.len() ==> !pat.is_prefix_of(#[trigger] s.skip(k)),
    decreases s.len(),
{
    assert(s.skip(0) =~= s);
    if !pat.is_prefix_of(s) && s.len() > 0 {
        let t = s.drop_first();
        patterns_are_found_first(t, pat);
        assert forall|k: int| 0 <= k <= t.len() implies #[trigger] t.skip(k) == s.skip(k + 1) by {
            assert(t.skip(k) =~= s.skip(k + 1));
        }
        match find(t, pat) {
            Some(i) => {
                assert(t.skip(i) == s.skip(i + 1));
                assert forall|k: int| 0 <= k < i + 1 implies !pat.is_prefix_of(
                    #[trigger] s.skip(k),
                ) by {
                    if k > 0 {
                        assert(t.skip(k - 1) == s.skip(k));
                    }
                }
            },
            None => {
                assert forall|k: int| 0 <= k <= s.len() implies !pat.is_prefix_of(
                    #[trigger] s.skip(k),
                ) by {
                    if k > 0 {
                        assert(t.skip(k - 1) == s.skip(k));
                    }
                }
            },
        }
    }
}

/// Replacing puts the new text where the pattern first stands and changes
/// nothing else; where it stands nowhere nothing is changed.
pub proof fn the_first_place_is_replaced(s: Seq<char>, pat: Seq<char>, with: Seq<char>)
    ensures
        find(s, pat) is None ==> replaced_first(s, pat, with) == s,
        find(s, pat) matches Some(i) ==> replaced_first(s, pat, with) == s.take(i) + with
            + s.skip(i + pat.len()),
        replaced_first(s, pat, pat) == s,
{
    patterns_are_found_first(s, pat);
    match find(s, pat) {
        Some(i) => {
            assert(s.skip(i).len() >= pat.len());
            assert(s =~= s.take(i) + pat + s.skip(i + pat.len())) by {
                assert forall|k: int| 0 <= k < pat.len() implies pat[k] == s[i + k] by {
                    assert(s.skip(i)[k] == s[i + k]);
                }
            }
        },
        None => {},
    }
}

/// A pattern occurs once where it stands at one place with nothing of it
/// behind.
pub proof fn patterns_are_counted(s: Seq<char>, pat: Seq<char>)
    requires
        pat.len() > 0,
    ensures
        occurrences(s, pat) == 0 <==> find(s, pat) is None,
        find(s, pat) matches Some(i) ==> occurrences(s, pat) == 1 + occurrences(
            s.skip(i + pat.len()),
            pat,
        ),
{
}

/// A text has control characters or blanks where one of its characters is one.
pub proof fn marks_are_noticed(s: Seq<char>, c: char)
    ensures
        !has_control(seq![]),
        !has_space(seq![]),
        has_control(s.push(c)) <==> has_control(s) || is_control(c),
        has_space(s.push(c)) <==> has_space(s) || is_space(c),
{
    let t = s.push(c);
    assert(t[s.len() as int] == c);
    if has_control(s) {
        let i = choose|i: int| 0 <= i < s.len() && is_control(#[trigger] s[i]);
        assert(is_control(t[i]));
    }
    if has_space(s) {
        let i = choose|i: int| 0 <= i < s.len() && is_space(#[trigger] s[i]);
        assert(is_space(t[i]));
    }
    if has_control(t) && !is_control(c) {
        let i = choose|i: int| 0 <= i < t.len() && is_control(#[trigger] t[i]);
        assert(is_control(s[i]));
    }
    if has_space(t) && !is_space(c) {
        let i = choose|i: int| 0 <= i < t.len() && is_space(#[trigger] t[i]);
        assert(is_space(s[i]));
    }
}

/// Lowering changes capital letters alone, each into its small one.
pub proof fn lowering_keeps_the_rest(s: Seq<char>, i: int)
    requires
        0 <= i < s.len(),
    ensures
        lowered(s).len() == s.len(),
        65 <= s[i] as u32 <= 90 ==> lowered(s)[i] as u32 == s[i] as u32 + 32,
        !(65 <= s[i] as u32 <= 90) ==> lowered(s)[i] == s[i],
        lowered(lowered(s)) == lowered(s),
{
    assert(lowered(lowered(s)) =~= lowered(s));
}

} // verus!

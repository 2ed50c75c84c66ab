//! Where a login comes from: forwarding headers, trusted proxies and the peer
//! of the connection.

use crate::text::{
    chars_of, find_from, lowered, opt_view, position, range_string, same_ignoring_case, split,
    split_all, split_at_first, split_once, trim, trimmed, views,
};
use vstd::arithmetic::power2::{lemma2_to64, lemma_pow2_adds, lemma_pow2_pos, pow2};
use vstd::prelude::*;

verus! {

/// An address, by its bits.
#[derive(Clone, Copy, Debug, PartialEq, Eq, Structural)]
pub enum IpAddress {
    V4(u32),
    V6(u128),
}

/// A block of addresses: those that share the first `prefix` bits of
/// `address`.
#[derive(Clone, Copy, Debug, PartialEq, Eq, Structural)]
pub struct Cidr {
    pub address: IpAddress,
    pub prefix: u8,
}

impl Cidr {
    /// The prefix is no longer than the address.
    pub open spec fn wf(self) -> bool {
        match self.address {
            IpAddress::V4(_) => self.prefix <= 32,
            IpAddress::V6(_) => self.prefix <= 128,
        }
    }

    /// The address lies in the block.
    pub open spec fn holds(self, ip: IpAddress) -> bool {
        match (self.address, ip) {
            (IpAddress::V4(a), IpAddress::V4(b)) => a as int / pow2((32 - self.prefix) as nat) as int
                == b as int / pow2((32 - self.prefix) as nat) as int,
            (IpAddress::V6(a), IpAddress::V6(b)) => a as int / pow2(
                (128 - self.prefix) as nat,
            ) as int == b as int / pow2((128 - self.prefix) as nat) as int,
            _ => false,
        }
    }

    /// Tells whether the address lies in the block.
    pub fn contains(self, ip: IpAddress) -> (r: bool)
        requires
            self.wf(),
        ensures
            r == self.holds(ip),
    {
        match (self.address, ip) {
            (IpAddress::V4(a), IpAddress::V4(b)) => {
                shared(a as u128, b as u128, 32 - self.prefix)
            },
            (IpAddress::V6(a), IpAddress::V6(b)) => {
                shared(a, b, 128 - self.prefix)
            },
            _ => false,
        }
    }
}

/// Tells whether two numbers are the same without their last `bits` bits.
fn shared(a: u128, b: u128, bits: u8) -> (r: bool)
    requires
        bits <= 128,
    ensures
        r == (a as int / pow2(bits as nat) as int == b as int / pow2(bits as nat) as int),
{
    let mut x: u128 = a;
    let mut y: u128 = b;
    let mut left: u8 = bits;
    while left > 0
        invariant
            left <= bits <= 128,
            x as int / pow2(left as nat) as int == a as int / pow2(bits as nat) as int,
            y as int / pow2(left as nat) as int == b as int / pow2(bits as nat) as int,
        decreases left,
    {
        proof {
            let k = (left - 1) as nat;
            lemma_pow2_adds(1, k);
            lemma_pow2_pos(k);
            lemma2_to64();
            vstd::arithmetic::div_mod::lemma_div_denominator(x as int, 2, pow2(k) as int);
            vstd::arithmetic::div_mod::lemma_div_denominator(y as int, 2, pow2(k) as int);
        }
        x = x / 2;
        y = y / 2;
        left = left - 1;
    }
    proof {
        lemma2_to64();
        assert(x as int / 1 == x);
        assert(y as int / 1 == y);
    }
    x == y
}

// ---------------------------------------------------------------------------
// Forwarding headers
// ---------------------------------------------------------------------------

/// What stands before the first `c`, or all of the text.
pub open spec fn before_first(s: Seq<char>, c: char) -> Seq<char> {
    s.take(position(s, c) as int)
}

/// What stands before the first comma: the entry of the first hop.
pub fn first_hop(value: &str) -> (r: String)
    ensures
        r@ == before_first(value@, ','),
{
    let chars = chars_of(value);
    assert(chars@.subrange(0, chars@.len() as int) =~= chars@);
    let end: usize = find_from(&chars, 0, ',');
    let out = range_string(&chars, 0, end);
    assert(out@ =~= value@.take(end as int));
    out
}

/// The parameter of a forwarding entry: a name and a value around an equals
/// sign.
pub open spec fn parameter(part: Seq<char>) -> Option<(Seq<char>, Seq<char>)> {
    split_at_first(trimmed(part), '=')
}

/// A part of a forwarding entry that says for whom it is.
pub open spec fn names_client(part: Seq<char>) -> bool {
    match parameter(part) {
        Some((name, _)) => lowered(name) == lowered("for"@),
        None => false,
    }
}

/// The value of the first part from `from` on that says for whom the entry is.
pub open spec fn client_value(parts: Seq<Seq<char>>, from: int) -> Option<Seq<char>>
    decreases parts.len() - from,
{
    if from >= parts.len() {
        None
    } else if names_client(parts[from]) {
        match parameter(parts[from]) {
            Some((_, client)) => Some(client),
            None => None,
        }
    } else {
        client_value(parts, from + 1)
    }
}

/// The client that a `Forwarded` header names: the `for` parameter of its
/// first entry.
pub open spec fn forwarded_for(value: Seq<char>) -> Option<Seq<char>> {
    client_value(split_all(before_first(value, ','), ';'), 0)
}

/// The client that a `Forwarded` header names.
pub fn parse_forwarded_header(value: &str) -> (r: Option<String>)
    ensures
        opt_view(r) == forwarded_for(value@),
{
    let hop = first_hop(value);
    let parts = split(hop.as_str(), ';');
    let ghost texts = split_all(hop@, ';');
    let mut i: usize = 0;
    while i < parts.len()
        invariant
            i <= parts@.len(),
            texts == views(parts@),
            texts == split_all(before_first(value@, ','), ';'),
            client_value(texts, 0) == client_value(texts, i as int),
        decreases parts@.len() - i,
    {
        let part = trim(parts[i].as_str());
        assert(texts[i as int] == parts@[i as int]@);
        match split_once(part.as_str(), '=') {
            Some((name, client)) => {
                if same_ignoring_case(name.as_str(), "for") {
                    return Some(client);
                }
            },
            None => {},
        }
        i = i + 1;
    }
    None
}

/// `s` without leading and trailing quotation marks.
pub open spec fn unquoted(s: Seq<char>) -> Seq<char>
    decreases s.len(),
{
    if s.len() > 0 && s[0] == '"' {
        unquoted(s.drop_first())
    } else if s.len() > 0 && s.last() == '"' {
        unquoted(s.drop_last())
    } else {
        s
    }
}

fn unquote(s: &str) -> (r: String)
    ensures
        r@ == unquoted(s@),
{
    let chars = chars_of(s);
    let mut from: usize = 0;
    let mut to: usize = chars.len();
    assert(chars@.subrange(0, chars@.len() as int) =~= chars@);
    while from < to && (chars[from] == '"' || chars[to - 1] == '"')
        invariant
            from <= to <= chars@.len(),
            unquoted(chars@.subrange(from as int, to as int)) == unquoted(s@),
        decreases to - from,
    {
        let ghost rest = chars@.subrange(from as int, to as int);
        assert(rest.drop_first() =~= chars@.subrange(from + 1, to as int));
        assert(rest.drop_last() =~= chars@.subrange(from as int, to - 1));
        assert(rest[0] == chars@[from as int]);
        assert(rest.last() == chars@[to - 1]);
        if chars[from] == '"' {
            from = from + 1;
        } else {
            to = to - 1;
        }
    }
    range_string(&chars, from, to)
}

/// The text to read an address from: none where the hop hides it.
pub open spec fn hop_text(value: Seq<char>) -> Option<Seq<char>> {
    let t = unquoted(trimmed(value));
    if lowered(t) == lowered("unknown"@) || (t.len() > 0 && t[0] == '_') {
        None
    } else {
        Some(t)
    }
}

/// The text to read an address from: none where the hop hides it.
pub fn forwarded_hop_text(value: &str) -> (r: Option<String>)
    ensures
        opt_view(r) == hop_text(value@),
{
    let t = trim(value);
    let text = unquote(t.as_str());
    let chars = chars_of(text.as_str());
    if same_ignoring_case(text.as_str(), "unknown") || (chars.len() > 0 && chars[0] == '_') {
        None
    } else {
        Some(text)
    }
}

/// What stands between a leading bracket and the next closing one.
pub open spec fn bracketed(text: Seq<char>) -> Option<Seq<char>> {
    if text.len() > 0 && text[0] == '[' && position(text.skip(1), ']') < text.len() - 1 {
        Some(text.skip(1).take(position(text.skip(1), ']') as int))
    } else {
        None
    }
}

/// What stands between a leading bracket and the next closing one.
pub fn bracketed_text(text: &str) -> (r: Option<String>)
    ensures
        opt_view(r) == bracketed(text@),
{
    let chars = chars_of(text);
    if chars.len() == 0 || chars[0] != '[' {
        return None;
    }
    assert(chars@.subrange(1, chars@.len() as int) =~= text@.skip(1));
    let end: usize = find_from(&chars, 1, ']');
    if end < chars.len() {
        let out = range_string(&chars, 1, end);
        assert(out@ =~= text@.skip(1).take(end - 1));
        Some(out)
    } else {
        None
    }
}

/// What a hop's text reads as: an address, an address with a port, and the
/// address between its brackets.
#[derive(Clone, Copy, Debug, PartialEq, Eq, Structural)]
pub struct HopReading {
    pub address: Option<IpAddress>,
    pub socket: Option<IpAddress>,
    pub bracketed: Option<IpAddress>,
}

/// The address of a hop: the first reading that succeeded.
pub open spec fn hop_address(reading: HopReading) -> Option<IpAddress> {
    if reading.address is Some {
        reading.address
    } else if reading.socket is Some {
        reading.socket
    } else {
        reading.bracketed
    }
}

/// The address of a hop: the first reading that succeeded.
pub fn parse_forwarded_ip(reading: HopReading) -> (r: Option<IpAddress>)
    ensures
        r == hop_address(reading),
{
    match (reading.address, reading.socket) {
        (Some(ip), _) => Some(ip),
        (None, Some(ip)) => Some(ip),
        (None, None) => reading.bracketed,
    }
}

/// The client that the headers name: `Forwarded` before `X-Forwarded-For`.
pub open spec fn named_client(
    forwarded: Option<IpAddress>,
    x_forwarded_for: Option<IpAddress>,
) -> Option<IpAddress> {
    if forwarded is Some {
        forwarded
    } else {
        x_forwarded_for
    }
}

/// The client that the headers name.
pub fn forwarded_client_ip(
    forwarded: Option<IpAddress>,
    x_forwarded_for: Option<IpAddress>,
) -> (r: Option<IpAddress>)
    ensures
        r == named_client(forwarded, x_forwarded_for),
{
    match forwarded {
        Some(ip) => Some(ip),
        None => x_forwarded_for,
    }
}

/// The headers are believed: nothing restricts them, or the peer is a trusted
/// proxy.
pub open spec fn trusts_headers(peer: Option<IpAddress>, trusted: Option<Seq<Cidr>>) -> bool {
    match trusted {
        None => true,
        Some(blocks) => peer is Some && exists|i: int|
            0 <= i < blocks.len() && (#[trigger] blocks[i]).holds(peer->0),
    }
}

/// The source of a login: the client that believed headers name, else the
/// peer, else the unspecified address.
pub open spec fn source_ip(
    named: Option<IpAddress>,
    peer: Option<IpAddress>,
    trusted: Option<Seq<Cidr>>,
) -> IpAddress {
    if trusts_headers(peer, trusted) && named is Some {
        named->0
    } else {
        peer.unwrap_or(IpAddress::V4(0))
    }
}

fn any_contains(blocks: &Vec<Cidr>, ip: IpAddress) -> (r: bool)
    requires
        forall|i: int| 0 <= i < blocks@.len() ==> (#[trigger] blocks@[i]).wf(),
    ensures
        r == exists|i: int| 0 <= i < blocks@.len() && (#[trigger] blocks@[i]).holds(ip),
{
    let mut i: usize = 0;
    while i < blocks.len()
        invariant
            i <= blocks@.len(),
            forall|k: int| 0 <= k < blocks@.len() ==> (#[trigger] blocks@[k]).wf(),
            forall|k: int| 0 <= k < i ==> !(#[trigger] blocks@[k]).holds(ip),
        decreases blocks@.len() - i,
    {
        if blocks[i].contains(ip) {
            return true;
        }
        i = i + 1;
    }
    false
}

/// The blocks that are listed, if any are.
pub open spec fn blocks_of(trusted: Option<Vec<Cidr>>) -> Option<Seq<Cidr>> {
    match trusted {
        Some(blocks) => Some(blocks@),
        None => None,
    }
}

/// The source of a login.
pub fn login_source_ip(
    named: Option<IpAddress>,
    peer: Option<IpAddress>,
    trusted: &Option<Vec<Cidr>>,
) -> (r: IpAddress)
    requires
        trusted is Some ==> forall|i: int|
            0 <= i < trusted->0@.len() ==> (#[trigger] trusted->0@[i]).wf(),
    ensures
        r == source_ip(named, peer, blocks_of(*trusted)),
{
    let believed = match (trusted, peer) {
        (None, _) => true,
        (Some(blocks), Some(ip)) => any_contains(blocks, ip),
        (Some(_), None) => false,
    };
    assert(believed == trusts_headers(peer, blocks_of(*trusted)));
    match named {
        Some(ip) => {
            if believed {
                return ip;
            }
        },
        None => {},
    }
    peer.unwrap_or(IpAddress::V4(0))
}

/// Whatever an untrusted peer writes into its headers, its login is counted
/// under its own address.
pub proof fn untrusted_headers_change_nothing(
    named: Option<IpAddress>,
    other: Option<IpAddress>,
    peer: Option<IpAddress>,
    trusted: Seq<Cidr>,
)
    requires
        !trusts_headers(peer, Some(trusted)),
    ensures
        source_ip(named, peer, Some(trusted)) == source_ip(other, peer, Some(trusted)),
        peer is Some ==> source_ip(named, peer, Some(trusted)) == peer->0,
{
}

/// A block holds the address that it was written with, and the block of
/// prefix zero holds every address of its family.
pub proof fn blocks_hold_their_address(block: Cidr, ip: IpAddress)
    requires
        block.wf(),
    ensures
        block.holds(block.address),
        block.prefix == 0 && (block.address is V4 <==> ip is V4) ==> block.holds(ip),
        !(block.address is V4 <==> ip is V4) ==> !block.holds(ip),
{
    lemma2_to64();
    lemma_pow2_adds(64, 64);
    if block.prefix == 0 {
        match (block.address, ip) {
            (IpAddress::V4(a), IpAddress::V4(b)) => {
                assert(a as int / 0x1_0000_0000 == 0);
                assert(b as int / 0x1_0000_0000 == 0);
            },
            (IpAddress::V6(a), IpAddress::V6(b)) => {
                assert(pow2(128) == pow2(64) * pow2(64));
                vstd::arithmetic::div_mod::lemma_basic_div(a as int, pow2(128) as int);
                vstd::arithmetic::div_mod::lemma_basic_div(b as int, pow2(128) as int);
            },
            _ => {},
        }
    }
}

/// A block holds the addresses of its family that agree with it in as many of
/// the first bits as its prefix says.
pub proof fn blocks_hold_what_agrees_in_front(a: u32, b: u32, c: u128, d: u128, prefix: u8)
    requires
        prefix < 32,
    ensures
        (Cidr { address: IpAddress::V4(a), prefix: 32 }).holds(IpAddress::V4(b)) <==> a == b,
        (Cidr { address: IpAddress::V4(a), prefix: 24 }).holds(IpAddress::V4(b)) <==> a / 256 == b
            / 256,
        (Cidr { address: IpAddress::V4(a), prefix: 16 }).holds(IpAddress::V4(b)) <==> a / 65536
            == b / 65536,
        (Cidr { address: IpAddress::V4(a), prefix: 8 }).holds(IpAddress::V4(b)) <==> a / 16777216
            == b / 16777216,
        (Cidr { address: IpAddress::V4(a), prefix: (prefix + 1) as u8 }).holds(IpAddress::V4(b))
            ==> (Cidr { address: IpAddress::V4(a), prefix }).holds(IpAddress::V4(b)),
        !(Cidr { address: IpAddress::V4(a), prefix }).holds(IpAddress::V6(c)),
        !(Cidr { address: IpAddress::V6(c), prefix }).holds(IpAddress::V4(a)),
        (Cidr { address: IpAddress::V6(c), prefix: 128 }).holds(IpAddress::V6(d)) <==> c == d,
        (Cidr { address: IpAddress::V6(c), prefix: 96 }).holds(IpAddress::V6(d)) <==> c
            / 0x1_0000_0000 == d / 0x1_0000_0000,
{
    vstd::arithmetic::power2::lemma2_to64();
    assert(pow2(0) == 1);
    assert(a as int / 1 == a && b as int / 1 == b);
    assert(c as int / 1 == c && d as int / 1 == d);
    let k = (31 - prefix) as nat;
    let wide = (Cidr { address: IpAddress::V4(a), prefix });
    let narrow = (Cidr { address: IpAddress::V4(a), prefix: (prefix + 1) as u8 });
    vstd::arithmetic::power2::lemma_pow2_unfold(k + 1);
    vstd::arithmetic::power2::lemma_pow2_pos(k);
    vstd::arithmetic::div_mod::lemma_div_denominator(a as int, pow2(k) as int, 2);
    vstd::arithmetic::div_mod::lemma_div_denominator(b as int, pow2(k) as int, 2);
    assert(pow2(k + 1) as int == pow2(k) as int * 2);
    assert((32 - wide.prefix) as nat == k + 1);
    assert((32 - narrow.prefix) as nat == k);
}

/// The first hop ends before the first comma.
pub proof fn the_first_hop_comes_first(value: Seq<char>, rest: Seq<char>)
    requires
        !value.contains(','),
    ensures
        before_first(value, ',') == value,
        before_first(value.push(',') + rest, ',') == value,
{
    crate::text::lemma_position(value, ',');
    assert(before_first(value, ',') =~= value);
    let all = value.push(',') + rest;
    assert(all[value.len() as int] == ',');
    assert forall|i: int| 0 <= i < value.len() implies all[i] != ',' by {
        assert(all[i] == value[i]);
    }
    crate::text::lemma_position_unique(all, ',', value.len());
    assert(all.take(value.len() as int) =~= value);
}

/// The client is named by the first parameter of the first hop that is called
/// so, in whatever case.
pub proof fn clients_are_named_by_their_parameter(parts: Seq<Seq<char>>, from: int, i: int)
    requires
        0 <= from <= i < parts.len(),
        forall|k: int|
            from <= k < i ==> split_at_first(trimmed(#[trigger] parts[k]), '=') is None || lowered(
                (split_at_first(trimmed(parts[k]), '=')->0).0,
            ) != lowered("for"@),
        split_at_first(trimmed(parts[i]), '=') is Some,
        lowered((split_at_first(trimmed(parts[i]), '=')->0).0) == lowered("for"@),
    ensures
        client_value(parts, from) == Some((split_at_first(trimmed(parts[i]), '=')->0).1),
    decreases i - from,
{
    if from < i {
        assert(!names_client(parts[from]));
        clients_are_named_by_their_parameter(parts, from + 1, i);
    }
}

/// A header names a client where its first hop does.
pub proof fn headers_name_their_first_client(value: Seq<char>)
    ensures
        forwarded_for(value) == client_value(split_all(before_first(value, ','), ';'), 0),
        forwarded_for(value) is Some ==> exists|i: int|
            0 <= i < split_all(before_first(value, ','), ';').len() && names_client(
                #[trigger] split_all(before_first(value, ','), ';')[i],
            ),
{
    lemma_client(split_all(before_first(value, ','), ';'), 0);
}

proof fn lemma_client(parts: Seq<Seq<char>>, from: int)
    requires
        0 <= from <= parts.len(),
    ensures
        client_value(parts, from) is Some ==> exists|i: int|
            0 <= i < parts.len() && names_client(#[trigger] parts[i]),
    decreases parts.len() - from,
{
    if from < parts.len() {
        if names_client(parts[from]) {
            assert(names_client(parts[from]));
        } else {
            lemma_client(parts, from + 1);
        }
    }
}

/// Quotes go from both ends and from nowhere else.
pub proof fn quotes_go_from_the_ends(s: Seq<char>)
    ensures
        unquoted(s).len() > 0 ==> unquoted(s)[0] != '"' && unquoted(s).last() != '"',
        unquoted(s).len() <= s.len(),
        s.len() > 0 && s[0] != '"' && s.last() != '"' ==> unquoted(s) == s,
        s.len() > 0 && s[0] != '"' && s.last() != '"' ==> unquoted(seq!['"'] + s) == s && unquoted(
            (seq!['"'] + s).push('"'),
        ) == s,
    decreases s.len(),
{
    if s.len() > 0 && s[0] == '"' {
        quotes_go_from_the_ends(s.drop_first());
    } else if s.len() > 0 && s.last() == '"' {
        quotes_go_from_the_ends(s.drop_last());
    } else if s.len() > 0 {
        reveal_with_fuel(unquoted, 3);
        assert((seq!['"'] + s).drop_first() =~= s);
        assert((seq!['"'] + s).push('"').drop_first() =~= s.push('"'));
        assert(s.push('"').drop_last() =~= s);
        assert(s.push('"')[0] == s[0]);
    }
}

/// A hop that is unknown or hidden names nobody; any other is read without
/// blanks and quotes.
pub proof fn hidden_hops_name_nobody(value: Seq<char>)
    ensures
        ({
            let t = unquoted(trimmed(value));
            &&& hop_text(value) is None <==> lowered(t) == lowered("unknown"@) || (t.len() > 0
                && t[0] == '_')
            &&& hop_text(value) is Some ==> hop_text(value)->0 == t
        }),
{
}

/// What stands in brackets is read up to the first closing one.
pub proof fn brackets_are_opened_and_closed(inside: Seq<char>, rest: Seq<char>)
    requires
        !inside.contains(']'),
    ensures
        bracketed((seq!['['] + inside).push(']') + rest) == Some(inside),
        bracketed(seq!['['] + inside) is None,
        inside.len() > 0 && inside[0] != '[' ==> bracketed(inside) is None,
{
    let all = (seq!['['] + inside).push(']') + rest;
    let behind = all.skip(1);
    assert(behind =~= inside.push(']') + rest);
    assert(behind[inside.len() as int] == ']');
    crate::text::lemma_position(inside, ']');
    assert forall|i: int| 0 <= i < inside.len() implies behind[i] != ']' by {
        assert(behind[i] == inside[i]);
    }
    crate::text::lemma_position_unique(behind, ']', inside.len());
    assert(behind.take(inside.len() as int) =~= inside);
    assert((seq!['['] + inside).skip(1) =~= inside);
}

/// A hop is read as an address, or else with its port, or else out of
/// brackets; the newer header comes before the older.
pub proof fn hops_are_read_in_order(
    reading: HopReading,
    forwarded: Option<IpAddress>,
    older: Option<IpAddress>,
)
    ensures
        reading.address is Some ==> hop_address(reading) == reading.address,
        reading.address is None && reading.socket is Some ==> hop_address(reading)
            == reading.socket,
        reading.address is None && reading.socket is None ==> hop_address(reading)
            == reading.bracketed,
        forwarded is Some ==> named_client(forwarded, older) == forwarded,
        forwarded is None ==> named_client(forwarded, older) == older,
{
}

/// A client that trusted headers name is the source; without one, or without
/// trust, the peer is.
pub proof fn sources_are_named_by_whom_is_trusted(
    named: IpAddress,
    peer: IpAddress,
    trusted: Seq<Cidr>,
    i: int,
)
    ensures
        source_ip(Some(named), Some(peer), None) == named,
        source_ip(None, Some(peer), None) == peer,
        0 <= i < trusted.len() && trusted[i].holds(peer) ==> source_ip(
            Some(named),
            Some(peer),
            Some(trusted),
        ) == named,
        (forall|k: int| 0 <= k < trusted.len() ==> !(#[trigger] trusted[k]).holds(peer))
            ==> source_ip(Some(named), Some(peer), Some(trusted)) == peer,
        source_ip(Some(named), None, Some(trusted)) == IpAddress::V4(0),
        source_ip(None, None, None) == IpAddress::V4(0),
{
    if 0 <= i < trusted.len() && trusted[i].holds(peer) {
        assert(trusts_headers(Some(peer), Some(trusted)));
    }
}

} // verus!

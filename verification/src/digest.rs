//! Digests, message authentication and base64.

use crate::ids::hex_digit;
use vstd::prelude::*;
use vstd::utf8::encode_utf8;

verus! {

/// The SHA-256 digest that `sha2::Sha256` computes.
pub uninterp spec fn sha256_of(bytes: Seq<u8>) -> Seq<u8>;

/// `sha2::Sha256::digest`: a digest of 32 bytes, determined by the bytes.
#[verifier::external_body]
pub(crate) fn sha256(bytes: &[u8]) -> (r: Vec<u8>)
    ensures
        r@ == sha256_of(bytes@),
        r@.len() == 32,
{
    <sha2::Sha256 as sha2::Digest>::digest(bytes).to_vec()
}

/// The code that `hmac::Hmac` over SHA-256 computes for a key and a message.
pub uninterp spec fn hmac_sha256_of(key: Seq<u8>, message: Seq<u8>) -> Option<Seq<u8>>;

/// `hmac::Mac::new_from_slice`, `update` and `finalize` over `sha2::Sha256`:
/// the code of the message under the key, or nothing where the key is refused.
#[verifier::external_body]
pub(crate) fn hmac_sha256(key: &[u8], message: &[u8]) -> (r: Option<Vec<u8>>)
    ensures
        match r {
            Some(code) => hmac_sha256_of(key@, message@) == Some(code@),
            None => hmac_sha256_of(key@, message@) is None,
        },
{
    match <hmac::Hmac<sha2::Sha256> as hmac::Mac>::new_from_slice(key) {
        Ok(mac) => Some(
            hmac::Mac::finalize(hmac::Mac::chain_update(mac, message)).into_bytes().to_vec(),
        ),
        Err(_) => None,
    }
}

/// The text that base64 with the URL-safe alphabet and without padding gives.
pub uninterp spec fn base64url_of(bytes: Seq<u8>) -> Seq<char>;

/// The bytes that base64 with the URL-safe alphabet and without padding reads.
pub uninterp spec fn base64url_read(text: Seq<char>) -> Option<Seq<u8>>;

/// The bytes that base64 with the standard alphabet and padding reads.
pub uninterp spec fn base64_read(text: Seq<char>) -> Option<Seq<u8>>;

/// `base64::Engine::encode` of `URL_SAFE_NO_PAD`, whose `decode` gives the
/// bytes back.
#[verifier::external_body]
pub(crate) fn base64url_encode(bytes: &[u8]) -> (r: String)
    ensures
        r@ == base64url_of(bytes@),
        base64url_read(r@) == Some(bytes@),
{
    base64::Engine::encode(&base64::engine::general_purpose::URL_SAFE_NO_PAD, bytes)
}

/// `base64::Engine::decode` of `URL_SAFE_NO_PAD`: the bytes, or nothing where
/// the text is not in that form.
#[verifier::external_body]
pub(crate) fn base64url_decode(text: &str) -> (r: Option<Vec<u8>>)
    ensures
        match r {
            Some(bytes) => base64url_read(text@) == Some(bytes@),
            None => base64url_read(text@) is None,
        },
{
    base64::Engine::decode(&base64::engine::general_purpose::URL_SAFE_NO_PAD, text).ok()
}

/// `base64::Engine::decode` of `STANDARD`: the bytes, or nothing where the
/// text is not in that form.
#[verifier::external_body]
pub(crate) fn base64_decode(text: &str) -> (r: Option<Vec<u8>>)
    ensures
        match r {
            Some(bytes) => base64_read(text@) == Some(bytes@),
            None => base64_read(text@) is None,
        },
{
    base64::Engine::decode(&base64::engine::general_purpose::STANDARD, text).ok()
}

/// The lower-case hexadecimal text of bytes, two digits each.
pub open spec fn hex_text(bytes: Seq<u8>) -> Seq<char>
    decreases bytes.len(),
{
    if bytes.len() == 0 {
        seq![]
    } else {
        hex_text(bytes.drop_last()).push(hex_digit((bytes.last() / 16) as nat)).push(
            hex_digit((bytes.last() % 16) as nat),
        )
    }
}

fn hex_char(n: u8) -> (r: char)
    requires
        n < 16,
    ensures
        r == hex_digit(n as nat),
{
    if n < 10 {
        (n + 48) as char
    } else {
        (n - 10 + 97) as char
    }
}

/// The lower-case hexadecimal text of bytes.
pub fn hex(bytes: &Vec<u8>) -> (r: String)
    ensures
        r@ == hex_text(bytes@),
{
    let mut out = String::new();
    let mut i: usize = 0;
    while i < bytes.len()
        invariant
            i <= bytes@.len(),
            out@ == hex_text(bytes@.take(i as int)),
        decreases bytes@.len() - i,
    {
        out.push(hex_char(bytes[i] / 16));
        out.push(hex_char(bytes[i] % 16));
        i = i + 1;
        assert(bytes@.take(i as int).drop_last() =~= bytes@.take(i - 1));
    }
    assert(bytes@.take(i as int) =~= bytes@);
    out
}

/// The hexadecimal SHA-256 digest of a text.
pub open spec fn text_digest(text: Seq<char>) -> Seq<char> {
    hex_text(sha256_of(encode_utf8(text)))
}

/// The hexadecimal SHA-256 digest of a text.
pub fn sha256_hex(text: &str) -> (r: String)
    ensures
        r@ == text_digest(text@),
        r@.len() == 64,
{
    let digest = sha256(text.as_bytes());
    proof {
        lemma_hex_text(digest@);
    }
    hex(&digest)
}

proof fn lemma_hex_text(bytes: Seq<u8>)
    ensures
        hex_text(bytes).len() == 2 * bytes.len(),
    decreases bytes.len(),
{
    if bytes.len() > 0 {
        lemma_hex_text(bytes.drop_last());
    }
}

/// Tells whether two byte strings are equal, looking at every byte of strings
/// of one length whatever the first difference is.
pub fn constant_time_eq(a: &[u8], b: &[u8]) -> (r: bool)
    ensures
        r == (a@ == b@),
{
    if a.len() != b.len() {
        return false;
    }
    let mut different: u8 = 0;
    let mut i: usize = 0;
    while i < a.len()
        invariant
            i <= a@.len(),
            a@.len() == b@.len(),
            different == 0 <==> forall|k: int| 0 <= k < i ==> a@[k] == b@[k],
        decreases a@.len() - i,
    {
        let x: u8 = a[i];
        let y: u8 = b[i];
        let next: u8 = different | (x ^ y);
        assert((next == 0) == (different == 0 && x == y)) by (bit_vector)
            requires
                next == different | (x ^ y),
        ;
        different = next;
        i = i + 1;
    }
    proof {
        if different == 0 {
            assert(a@ =~= b@);
        }
    }
    different == 0
}

/// Each byte is written in two digits, the greater one first.
pub proof fn bytes_are_written_in_two_digits(bytes: Seq<u8>, byte: u8)
    ensures
        hex_text(seq![]) == Seq::<char>::empty(),
        hex_text(bytes.push(byte)) == hex_text(bytes) + seq![
            hex_digit((byte / 16) as nat),
            hex_digit((byte % 16) as nat),
        ],
{
    assert(bytes.push(byte).drop_last() =~= bytes);
    assert(hex_text(bytes.push(byte)) =~= hex_text(bytes) + seq![
        hex_digit((byte / 16) as nat),
        hex_digit((byte % 16) as nat),
    ]);
}

} // verus!

//! Derivation of a file's content key from its name.
use vstd::prelude::*;
use vstd::utf8::encode_utf8;

verus! {

/// The SHA-256 digest of a byte sequence.
pub uninterp spec fn sha256_of(bytes: Seq<u8>) -> Seq<u8>;

/// The digit of the standard base64 alphabet for a 6-bit value.
pub open spec fn base64_digit(v: int) -> char {
    if v < 26 {
        (65 + v) as char
    } else if v < 52 {
        (97 + (v - 26)) as char
    } else if v < 62 {
        (48 + (v - 52)) as char
    } else if v == 62 {
        '+'
    } else {
        '/'
    }
}

/// The padded base64 text of a byte sequence, in the standard alphabet: each group
/// of three bytes becomes four digits, and a last group of one or two bytes becomes
/// two or three digits followed by `=` up to four characters.
pub open spec fn base64_of(bytes: Seq<u8>) -> Seq<char>
    decreases bytes.len(),
{
    if bytes.len() == 0 {
        Seq::empty()
    } else {
        let b0 = bytes[0] as int;
        let b1 = if bytes.len() > 1 { bytes[1] as int } else { 0 };
        let b2 = if bytes.len() > 2 { bytes[2] as int } else { 0 };
        let d0 = base64_digit(b0 / 4);
        let d1 = base64_digit((b0 % 4) * 16 + b1 / 16);
        let d2 = base64_digit((b1 % 16) * 4 + b2 / 64);
        let d3 = base64_digit(b2 % 64);
        if bytes.len() == 1 {
            seq![d0, d1, '=', '=']
        } else if bytes.len() == 2 {
            seq![d0, d1, d2, '=']
        } else {
            seq![d0, d1, d2, d3] + base64_of(bytes.subrange(3, bytes.len() as int))
        }
    }
}

/// The base64 text of `n` bytes has four characters for every three bytes begun.
pub proof fn lemma_base64_len(bytes: Seq<u8>)
    ensures
        base64_of(bytes).len() == 4 * ((bytes.len() + 2) / 3),
    decreases bytes.len(),
{
    if bytes.len() >= 3 {
        let rest = bytes.subrange(3, bytes.len() as int);
        lemma_base64_len(rest);
        assert(rest.len() == bytes.len() - 3);
        assert((bytes.len() + 2) / 3 == (rest.len() + 2) / 3 + 1);
    }
}

/// The key under which a file of the given name is stored.
pub open spec fn key_of(name: Seq<char>) -> Seq<char> {
    base64_of(sha256_of(encode_utf8(name)))
}

/// Relies on near_sdk::env::sha256: the 32-byte SHA-256 digest of its input.
#[verifier::external_body]
fn sha256(bytes: &[u8]) -> (r: Vec<u8>)
    ensures
        r@ == sha256_of(bytes@),
        r@.len() == 32,
{
    near_sdk::env::sha256(bytes)
}

/// Relies on near_sdk::base64::encode: the padded base64 text of its input, in the
/// standard alphabet.
#[verifier::external_body]
fn base64_encode(bytes: &[u8]) -> (r: String)
    ensures
        r@ == base64_of(bytes@),
{
    #[allow(deprecated)]
    near_sdk::base64::encode(bytes)
}

/// Returns the content key of a file name: 44 characters of base64 text.
pub fn file_key(name: &str) -> (key: String)
    ensures
        key@ == key_of(name@),
        key@.len() == 44,
{
    let digest = sha256(name.as_bytes());
    proof {
        lemma_base64_len(digest@);
    }
    base64_encode(digest.as_slice())
}

/// The key of a name depends on the name's bytes alone: names with the same UTF-8
/// bytes give equal keys, so re-adding a name always reaches the record that the
/// first addition made.
pub proof fn lemma_key_deterministic(a: Seq<char>, b: Seq<char>)
    requires
        encode_utf8(a) == encode_utf8(b),
    ensures
        key_of(a) == key_of(b),
{
}

} // verus!

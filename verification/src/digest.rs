//! Hashes, message authentication and encodings, computed by the `sha2`,
//! `hmac` and `base64` crates; lower-case hexadecimal is written here.
use base64::Engine;
use hmac::{KeyInit, Mac};
use sha2::Digest;
use vstd::prelude::*;

verus! {

/// The SHA-256 digest of `data`.
pub uninterp spec fn sha256(data: Seq<u8>) -> Seq<u8>;

/// The HMAC-SHA256 tag of `message` under `key`.
pub uninterp spec fn hmac_sha256(key: Seq<u8>, message: Seq<u8>) -> Seq<u8>;

/// The character of a six-bit value in the standard Base64 alphabet.
pub open spec fn base64_char(v: u8) -> char {
    if v < 26 {
        (('A' as u8) + v) as char
    } else if v < 52 {
        (('a' as u8) + v - 26) as char
    } else if v < 62 {
        (('0' as u8) + v - 52) as char
    } else if v == 62 {
        '+'
    } else {
        '/'
    }
}

/// The standard, padded Base64 encoding of `data`: each three bytes become
/// four characters of six bits each; a last group of one or two bytes is
/// padded with `=`.
pub open spec fn base64_standard(data: Seq<u8>) -> Seq<char>
    decreases data.len(),
{
    if data.len() == 0 {
        seq![]
    } else if data.len() == 1 {
        let a = data[0];
        seq![base64_char(a / 4), base64_char(((a % 4) * 16) as u8), '=', '=']
    } else if data.len() == 2 {
        let a = data[0];
        let b = data[1];
        seq![
            base64_char(a / 4),
            base64_char(((a % 4) * 16 + b / 16) as u8),
            base64_char(((b % 16) * 4) as u8),
            '=',
        ]
    } else {
        let a = data[0];
        let b = data[1];
        let c = data[2];
        seq![
            base64_char(a / 4),
            base64_char(((a % 4) * 16 + b / 16) as u8),
            base64_char(((b % 16) * 4 + c / 64) as u8),
            base64_char(c % 64),
        ] + base64_standard(data.skip(3))
    }
}

/// `sha2::Sha256::digest(data)`: the 32-byte SHA-256 digest.
#[verifier::external_body]
pub(crate) fn sha256_of(data: &[u8]) -> (r: Vec<u8>)
    ensures
        r@ == sha256(data@),
        r@.len() == 32,
{
    sha2::Sha256::digest(data).to_vec()
}

/// `hmac::Hmac::<sha2::Sha256>::new_from_slice(key)`, then `update(message)`
/// and `finalize().into_bytes()`. The crate's HMAC core accepts keys of any
/// length, so the construction does not fail.
#[verifier::external_body]
pub(crate) fn hmac_sha256_of(key: &[u8], message: &[u8]) -> (r: Result<Vec<u8>, String>)
    ensures
        match r {
            Ok(tag) => tag@ == hmac_sha256(key@, message@) && tag@.len() == 32,
            Err(_) => false,
        },
{
    let mut mac = hmac::Hmac::<sha2::Sha256>::new_from_slice(key).map_err(|e| e.to_string())?;
    mac.update(message);
    Ok(mac.finalize().into_bytes().to_vec())
}

/// `base64::engine::general_purpose::STANDARD.encode(data)`: the standard
/// alphabet with padding, as [`base64_standard`] writes it.
#[verifier::external_body]
pub(crate) fn base64_of(data: &[u8]) -> (r: String)
    ensures
        r@ == base64_standard(data@),
{
    base64::engine::general_purpose::STANDARD.encode(data)
}

pub open spec fn hex_digit(d: u8) -> char {
    if d < 10 {
        (('0' as u8) + d) as char
    } else {
        (('a' as u8) + d - 10) as char
    }
}

/// Lower-case hexadecimal: two digits for each byte, high half first.
pub open spec fn lower_hex(data: Seq<u8>) -> Seq<char>
    decreases data.len(),
{
    if data.len() == 0 {
        seq![]
    } else {
        lower_hex(data.drop_last()) + seq![hex_digit(data.last() / 16), hex_digit(data.last() % 16)]
    }
}

fn hex_char(d: u8) -> (c: char)
    requires
        d < 16,
    ensures
        c == hex_digit(d),
{
    if d < 10 {
        ((48u8 + d) as u8) as char
    } else {
        ((97u8 + d - 10) as u8) as char
    }
}

/// The lower-case hexadecimal text of `data`.
pub fn to_lower_hex(data: &Vec<u8>) -> (r: String)
    ensures
        r@ == lower_hex(data@),
{
    let mut out: Vec<char> = Vec::new();
    let mut i: usize = 0;
    while i < data.len()
        invariant
            i <= data.len(),
            out@ == lower_hex(data@.take(i as int)),
        decreases data.len() - i,
    {
        let b = data[i];
        out.push(hex_char(b / 16));
        out.push(hex_char(b % 16));
        proof {
            let t = data@.take(i + 1);
            assert(t.drop_last() =~= data@.take(i as int));
            assert(t.last() == b);
        }
        i += 1;
    }
    assert(data@.take(data.len() as int) =~= data@);
    crate::text::string_of(&out)
}

} // verus!

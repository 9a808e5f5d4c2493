//! The text codecs of the outside crates, and the few functions of the
//! standard library that have no specification yet, behind contracts that
//! Verus takes on trust. Nothing in this file is proved: each item says which
//! outside function it stands for and what is claimed of it.

use vstd::prelude::*;
use vstd::utf8::*;
use crate::numeral::{
    be_value, hex_bytes, hex_text, is_hex, is_numeral, numeral_bytes, radix_text,
};
use crate::options::{count_value, is_count};

verus! {

/// The alphabet of `bs58::Alphabet::BITCOIN`, which is also the crate's
/// default and its `MONERO`.
pub open spec fn bitcoin_alphabet() -> Seq<char> {
    "123456789ABCDEFGHJKLMNPQRSTUVWXYZabcdefghijkmnopqrstuvwxyz"@
}

/// The alphabet of `bs58::Alphabet::FLICKR`.
pub open spec fn flickr_alphabet() -> Seq<char> {
    "123456789abcdefghijkmnopqrstuvwxyzABCDEFGHJKLMNPQRSTUVWXYZ"@
}

/// The alphabet of `bs58::Alphabet::RIPPLE`.
pub open spec fn ripple_alphabet() -> Seq<char> {
    "rpshnaf39wBUDNEGHJKLM4PQRST7VWXYZ2bcdeCg65jkm8oFqi1tuvAxyz"@
}

/// The text of the error that `hex::decode` reports for `text`.
pub uninterp spec fn hex_failure(text: Seq<char>) -> Seq<char>;

/// What `bs58::encode` gives for `data` under the alphabet `alphabet`.
pub uninterp spec fn base58_text(alphabet: Seq<char>, data: Seq<u8>) -> Seq<char>;

/// What `bs58::decode` gives for `text` under the alphabet `alphabet`: the
/// bytes, or the text of the error.
pub uninterp spec fn base58_decoded(alphabet: Seq<char>, text: Seq<char>) -> Result<
    Seq<u8>,
    Seq<char>,
>;

/// What `base_x::encode` gives for `data` under the alphabet `alphabet`.
pub uninterp spec fn basex_text(alphabet: Seq<char>, data: Seq<u8>) -> Seq<char>;

/// What `base_x::decode` gives for `text` under the alphabet `alphabet`: the
/// bytes, or the text of the error.
pub uninterp spec fn basex_decoded(alphabet: Seq<char>, text: Seq<char>) -> Result<
    Seq<u8>,
    Seq<char>,
>;

/// What `base64::encode` gives for `data`.
pub uninterp spec fn base64_text(data: Seq<u8>) -> Seq<char>;

/// What `base64::decode` gives for `text`: the bytes, or the text of the
/// error.
pub uninterp spec fn base64_decoded(text: Seq<char>) -> Result<Seq<u8>, Seq<char>>;

/// What `base64_url::encode` gives for `data`.
pub uninterp spec fn base64url_text(data: Seq<u8>) -> Seq<char>;

/// What `base64_url::decode` gives for `text`: the bytes, or the text of
/// the error.
pub uninterp spec fn base64url_decoded(text: Seq<char>) -> Result<Seq<u8>, Seq<char>>;

/// What `String::from_utf8_lossy` gives for `data`.
pub uninterp spec fn utf8_lossy_text(data: Seq<u8>) -> Seq<char>;

/// `hex::encode`: two lower-case hexadecimal digits per byte.
#[verifier::external_body]
pub(crate) fn hex_encode(data: &[u8]) -> (text: String)
    ensures
        text@ == hex_text(data@, false),
{
    hex::encode(data)
}

/// `hex::encode_upper`: two upper-case hexadecimal digits per byte.
#[verifier::external_body]
pub(crate) fn hex_encode_upper(data: &[u8]) -> (text: String)
    ensures
        text@ == hex_text(data@, true),
{
    hex::encode_upper(data)
}

/// `hex::decode`: succeeds exactly on an even number of hexadecimal digits
/// of either case, with the bytes they spell.
#[verifier::external_body]
pub(crate) fn hex_decode(text: &str) -> (r: Result<Vec<u8>, String>)
    ensures
        match r {
            Ok(bytes) => is_hex(text@) && bytes@ == hex_bytes(text@),
            Err(reason) => !is_hex(text@) && reason@ == hex_failure(text@),
        },
{
    match hex::decode(text) {
        Ok(bytes) => Ok(bytes),
        Err(e) => Err(e.to_string()),
    }
}

/// `bs58::encode` with the crate's default alphabet.
#[verifier::external_body]
pub(crate) fn base58_encode_bitcoin(data: &[u8]) -> (text: String)
    ensures
        text@ == base58_text(bitcoin_alphabet(), data@),
{
    bs58::encode(data).into_string()
}

/// `bs58::encode` with `bs58::Alphabet::FLICKR`.
#[verifier::external_body]
pub(crate) fn base58_encode_flickr(data: &[u8]) -> (text: String)
    ensures
        text@ == base58_text(flickr_alphabet(), data@),
{
    bs58::encode(data).with_alphabet(bs58::Alphabet::FLICKR).into_string()
}

/// `bs58::encode` with `bs58::Alphabet::MONERO`, which holds the same
/// characters as the default alphabet.
#[verifier::external_body]
pub(crate) fn base58_encode_monero(data: &[u8]) -> (text: String)
    ensures
        text@ == base58_text(bitcoin_alphabet(), data@),
{
    bs58::encode(data).with_alphabet(bs58::Alphabet::MONERO).into_string()
}

/// `bs58::encode` with `bs58::Alphabet::RIPPLE`.
#[verifier::external_body]
pub(crate) fn base58_encode_ripple(data: &[u8]) -> (text: String)
    ensures
        text@ == base58_text(ripple_alphabet(), data@),
{
    bs58::encode(data).with_alphabet(bs58::Alphabet::RIPPLE).into_string()
}

/// `bs58::decode` with the crate's default alphabet.
#[verifier::external_body]
pub(crate) fn base58_decode_bitcoin(text: &str) -> (r: Result<Vec<u8>, String>)
    ensures
        match r {
            Ok(bytes) => base58_decoded(bitcoin_alphabet(), text@) == Ok::<Seq<u8>, Seq<char>>(
                bytes@,
            ),
            Err(reason) => base58_decoded(bitcoin_alphabet(), text@) == Err::<Seq<u8>, Seq<char>>(
                reason@,
            ),
        },
{
    match bs58::decode(text).into_vec() {
        Ok(bytes) => Ok(bytes),
        Err(e) => Err(e.to_string()),
    }
}

/// `bs58::decode` with `bs58::Alphabet::FLICKR`.
#[verifier::external_body]
pub(crate) fn base58_decode_flickr(text: &str) -> (r: Result<Vec<u8>, String>)
    ensures
        match r {
            Ok(bytes) => base58_decoded(flickr_alphabet(), text@) == Ok::<Seq<u8>, Seq<char>>(
                bytes@,
            ),
            Err(reason) => base58_decoded(flickr_alphabet(), text@) == Err::<Seq<u8>, Seq<char>>(
                reason@,
            ),
        },
{
    match bs58::decode(text).with_alphabet(bs58::Alphabet::FLICKR).into_vec() {
        Ok(bytes) => Ok(bytes),
        Err(e) => Err(e.to_string()),
    }
}

/// `bs58::decode` with `bs58::Alphabet::MONERO`, which holds the same
/// characters as the default alphabet.
#[verifier::external_body]
pub(crate) fn base58_decode_monero(text: &str) -> (r: Result<Vec<u8>, String>)
    ensures
        match r {
            Ok(bytes) => base58_decoded(bitcoin_alphabet(), text@) == Ok::<Seq<u8>, Seq<char>>(
                bytes@,
            ),
            Err(reason) => base58_decoded(bitcoin_alphabet(), text@) == Err::<Seq<u8>, Seq<char>>(
                reason@,
            ),
        },
{
    match bs58::decode(text).with_alphabet(bs58::Alphabet::MONERO).into_vec() {
        Ok(bytes) => Ok(bytes),
        Err(e) => Err(e.to_string()),
    }
}

/// `bs58::decode` with `bs58::Alphabet::RIPPLE`.
#[verifier::external_body]
pub(crate) fn base58_decode_ripple(text: &str) -> (r: Result<Vec<u8>, String>)
    ensures
        match r {
            Ok(bytes) => base58_decoded(ripple_alphabet(), text@) == Ok::<Seq<u8>, Seq<char>>(
                bytes@,
            ),
            Err(reason) => base58_decoded(ripple_alphabet(), text@) == Err::<Seq<u8>, Seq<char>>(
                reason@,
            ),
        },
{
    match bs58::decode(text).with_alphabet(bs58::Alphabet::RIPPLE).into_vec() {
        Ok(bytes) => Ok(bytes),
        Err(e) => Err(e.to_string()),
    }
}

/// `base_x::encode`. With fewer than two characters in the alphabet the
/// outside function divides by zero or does not return.
#[verifier::external_body]
pub(crate) fn basex_encode(alphabet: &str, data: &[u8]) -> (text: String)
    requires
        alphabet@.len() >= 2,
    ensures
        text@ == basex_text(alphabet@, data@),
{
    base_x::encode(alphabet, data)
}

/// `base_x::decode`. With an empty alphabet the outside function reads
/// past the end of it. Its error has one text only.
#[verifier::external_body]
pub(crate) fn basex_decode(alphabet: &str, text: &str) -> (r: Result<Vec<u8>, String>)
    requires
        alphabet@.len() >= 2,
    ensures
        match r {
            Ok(bytes) => basex_decoded(alphabet@, text@) == Ok::<Seq<u8>, Seq<char>>(bytes@),
            Err(reason) => basex_decoded(alphabet@, text@) == Err::<Seq<u8>, Seq<char>>(reason@)
                && reason@ == "Failed to decode the given data"@,
        },
{
    match base_x::decode(alphabet, text) {
        Ok(bytes) => Ok(bytes),
        Err(e) => Err(e.to_string()),
    }
}

/// `base64::encode`, as `base64-url` hands it on: the standard alphabet
/// with padding.
#[verifier::external_body]
pub(crate) fn base64_encode(data: &[u8]) -> (text: String)
    ensures
        text@ == base64_text(data@),
{
    base64_url::base64::encode(data)
}

/// `base64::decode`, as `base64-url` hands it on.
#[verifier::external_body]
pub(crate) fn base64_decode(text: &str) -> (r: Result<Vec<u8>, String>)
    ensures
        match r {
            Ok(bytes) => base64_decoded(text@) == Ok::<Seq<u8>, Seq<char>>(bytes@),
            Err(reason) => base64_decoded(text@) == Err::<Seq<u8>, Seq<char>>(reason@),
        },
{
    match base64_url::base64::decode(text) {
        Ok(bytes) => Ok(bytes),
        Err(e) => Err(e.to_string()),
    }
}

/// `base64_url::encode`: the URL-safe alphabet without padding.
#[verifier::external_body]
pub(crate) fn base64url_encode(data: &[u8]) -> (text: String)
    ensures
        text@ == base64url_text(data@),
{
    base64_url::encode(data)
}

/// `base64_url::decode`.
#[verifier::external_body]
pub(crate) fn base64url_decode(text: &str) -> (r: Result<Vec<u8>, String>)
    ensures
        match r {
            Ok(bytes) => base64url_decoded(text@) == Ok::<Seq<u8>, Seq<char>>(bytes@),
            Err(reason) => base64url_decoded(text@) == Err::<Seq<u8>, Seq<char>>(reason@),
        },
{
    match base64_url::decode(text) {
        Ok(bytes) => Ok(bytes),
        Err(e) => Err(e.to_string()),
    }
}

/// `num_bigint::BigUint::from_bytes_be` followed by `to_str_radix`: the
/// numeral, in `radix`, of the number that `data` spells in base 256. Outside
/// the range from 2 to 36 the outside function panics.
#[verifier::external_body]
pub(crate) fn radix_encode(data: &[u8], radix: u32) -> (text: String)
    requires
        2 <= radix <= 36,
    ensures
        text@ == radix_text(be_value(data@), radix as nat),
{
    num_bigint::BigUint::from_bytes_be(data).to_str_radix(radix)
}

/// `num_traits::Num::from_str_radix` for `num_bigint::BigUint`, followed by
/// `to_bytes_be`: succeeds exactly on a numeral in `radix`, with the shortest
/// bytes that spell its value. Outside the range from 2 to 36 the outside
/// function panics.
#[verifier::external_body]
pub(crate) fn radix_decode(text: &str, radix: u32) -> (r: Option<Vec<u8>>)
    requires
        2 <= radix <= 36,
    ensures
        match r {
            Some(bytes) => is_numeral(text@, radix as nat) && bytes@ == numeral_bytes(
                text@,
                radix as nat,
            ),
            None => !is_numeral(text@, radix as nat),
        },
{
    match <num_bigint::BigUint as num_traits::Num>::from_str_radix(text, radix) {
        Ok(n) => Some(n.to_bytes_be()),
        Err(_) => None,
    }
}

/// The text of the error that `str::parse::<usize>` reports for `text`.
pub uninterp spec fn count_failure(text: Seq<char>) -> Seq<char>;

/// `str::parse::<usize>`: succeeds exactly on an optional plus sign followed
/// by decimal digits that spell a number within `usize`, with that number.
#[verifier::external_body]
pub(crate) fn parse_count(text: &str) -> (r: Result<usize, String>)
    ensures
        match r {
            Ok(n) => is_count(text@) && n == count_value(text@),
            Err(reason) => !is_count(text@) && reason@ == count_failure(text@),
        },
{
    match text.parse::<usize>() {
        Ok(n) => Ok(n),
        Err(e) => Err(e.to_string()),
    }
}

/// `String::from_utf8`: succeeds exactly on bytes that are UTF-8, with the
/// text they encode.
#[verifier::external_body]
pub(crate) fn utf8_text(data: &[u8]) -> (r: Option<String>)
    ensures
        match r {
            Some(text) => valid_utf8(data@) && text@ == decode_utf8(data@),
            None => !valid_utf8(data@),
        },
{
    match String::from_utf8(data.to_vec()) {
        Ok(text) => Some(text),
        Err(_) => None,
    }
}

/// `String::from_utf8_lossy`: bytes that are UTF-8 come back as the text
/// they encode.
#[verifier::external_body]
pub(crate) fn utf8_lossy(data: &[u8]) -> (text: String)
    ensures
        text@ == utf8_lossy_text(data@),
        valid_utf8(data@) ==> text@ == decode_utf8(data@),
{
    String::from_utf8_lossy(data).into_owned()
}

} // verus!

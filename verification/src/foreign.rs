//! The trusted boundary: every call into an outside crate that the protocol
//! logic needs is wrapped here, with the contract the callers rely on.
//!
//! A digest or keyed-digest value cannot be stated in a few lines, so each
//! gets an uninterpreted name; what can be stated exactly (hex writing,
//! percent-encoding, UTF-8 via vstd) is stated. The wrappers' contracts tie
//! each runtime result to these, and everything downstream is proved from
//! them.

use vstd::prelude::*;
use hmac::Hmac;
use hmac::KeyInit;
use hmac::Mac;
use sha1::Digest;
use sha1::Sha1;

verus! {

/// The 16-byte MD5 digest of a byte sequence.
pub uninterp spec fn md5_of(data: Seq<u8>) -> Seq<u8>;

/// The 20-byte SHA-1 digest of a byte sequence.
pub uninterp spec fn sha1_of(data: Seq<u8>) -> Seq<u8>;

/// The 20-byte HMAC-SHA1 tag of a message under a key.
pub uninterp spec fn hmac_sha1_of(key: Seq<u8>, msg: Seq<u8>) -> Seq<u8>;

/// The lowercase hex digit for a value below 16.
pub open spec fn lower_hex_digit(d: u8) -> char {
    if d < 10 {
        ((48 + d) as char)
    } else {
        ((87 + d) as char)
    }
}

/// A byte sequence written as lowercase hex, two digits per byte.
pub open spec fn lower_hex_of(bs: Seq<u8>) -> Seq<char>
    decreases bs.len(),
{
    if bs.len() == 0 {
        Seq::empty()
    } else {
        seq![lower_hex_digit(bs[0] / 16), lower_hex_digit(bs[0] % 16)] + lower_hex_of(
            bs.drop_first(),
        )
    }
}

/// The MD5 digest of a byte sequence, written as 32 lowercase hex characters.
pub open spec fn md5_hex_of(data: Seq<u8>) -> Seq<char> {
    lower_hex_of(md5_of(data))
}

/// The SHA-1 digest of a string's UTF-8 bytes, written as 40 lowercase hex
/// characters.
pub open spec fn sha1_hex_of(data: Seq<char>) -> Seq<char> {
    lower_hex_of(sha1_of(vstd::utf8::encode_utf8(data)))
}

/// The HMAC-SHA1 tag of a message under a key (both strings, keyed by their
/// UTF-8 bytes), written as 40 lowercase hex characters.
pub open spec fn hmac_sha1_hex_of(key: Seq<char>, msg: Seq<char>) -> Seq<char> {
    lower_hex_of(hmac_sha1_of(vstd::utf8::encode_utf8(key), vstd::utf8::encode_utf8(msg)))
}

/// Whether a byte passes through percent-encoding unchanged: ASCII
/// alphanumerics and `-`, `.`, `_`, `~`.
pub open spec fn is_unreserved_byte(b: u8) -> bool {
    ||| (48 <= b && b <= 57)
    ||| (65 <= b && b <= 90)
    ||| (97 <= b && b <= 122)
    ||| b == 45
    ||| b == 46
    ||| b == 95
    ||| b == 126
}

/// The uppercase hex digit for a value below 16.
pub open spec fn upper_hex_digit(d: u8) -> char {
    if d < 10 {
        ((48 + d) as char)
    } else {
        ((55 + d) as char)
    }
}

/// One byte's percent-encoded form: itself if unreserved, else `%` and two
/// uppercase hex digits.
pub open spec fn percent_encoded_byte(b: u8) -> Seq<char> {
    if is_unreserved_byte(b) {
        seq![b as char]
    } else {
        seq!['%', upper_hex_digit(b / 16), upper_hex_digit(b % 16)]
    }
}

/// A byte sequence's percent-encoded form.
pub open spec fn percent_encoded_bytes(bs: Seq<u8>) -> Seq<char>
    decreases bs.len(),
{
    if bs.len() == 0 {
        Seq::empty()
    } else {
        percent_encoded_byte(bs[0]) + percent_encoded_bytes(bs.drop_first())
    }
}

/// The percent-encoded form of a string: every byte of its UTF-8 form is
/// encoded except the unreserved ones.
pub open spec fn percent_encode_of(s: Seq<char>) -> Seq<char> {
    percent_encoded_bytes(vstd::utf8::encode_utf8(s))
}

/// The Unicode-lowercased form of a string.
pub uninterp spec fn lower_of(s: Seq<char>) -> Seq<char>;

/// Relies on md5::compute (a 16-byte digest) and the `LowerHex` impl of
/// md5::Digest, which writes each byte as exactly two lowercase hex digits.
/// The digest depends on the input bytes alone.
#[verifier::external_body]
pub(crate) fn md5_hex(data: &[u8]) -> (r: String)
    ensures
        r@ == lower_hex_of(md5_of(data@)),
        r@.len() == 32,
{
    let digest = md5::compute(data);
    format!("{:x}", digest)
}

/// Relies on sha1::Sha1 (a 20-byte digest over the input bytes alone) and
/// hex::encode, which writes each byte as two lowercase hex digits.
#[verifier::external_body]
pub(crate) fn sha1_hex(data: &str) -> (r: String)
    ensures
        r@ == lower_hex_of(sha1_of(vstd::utf8::encode_utf8(data@))),
        r@.len() == 40,
{
    let mut hasher = Sha1::new();
    hasher.update(data.as_bytes());
    hex::encode(hasher.finalize())
}

/// Relies on hmac::Hmac over sha1::Sha1 (a 20-byte tag; any key length is
/// accepted, so `new_from_slice` never fails) and hex::encode, which writes
/// each byte as two lowercase hex digits.
#[verifier::external_body]
pub(crate) fn hmac_sha1_hex(key: &str, data: &str) -> (r: String)
    ensures
        r@ == lower_hex_of(
            hmac_sha1_of(vstd::utf8::encode_utf8(key@), vstd::utf8::encode_utf8(data@)),
        ),
        r@.len() == 40,
{
    let mut mac: Hmac<Sha1> =
        Hmac::new_from_slice(key.as_bytes()).expect("HMAC accepts keys of any length");
    mac.update(data.as_bytes());
    hex::encode(mac.finalize().into_bytes())
}

/// Relies on urlencoding::encode: percent-encodes every byte of the string's
/// UTF-8 form except ASCII alphanumerics and `-`, `.`, `_`, `~`, written as
/// `%` and two uppercase hex digits.
#[verifier::external_body]
pub(crate) fn percent_encode(s: &str) -> (r: String)
    ensures
        r@ == percent_encode_of(s@),
{
    urlencoding::encode(s).into_owned()
}

/// Relies on str::to_lowercase: the result depends on the characters alone,
/// and an empty string stays empty.
#[verifier::external_body]
pub(crate) fn lowercase(s: &str) -> (r: String)
    ensures
        r@ == lower_of(s@),
        s@.len() == 0 ==> r@.len() == 0,
{
    s.to_lowercase()
}

/// Relies on chrono::Utc::now and DateTime::timestamp: seconds since the Unix
/// epoch. Nothing is promised of the clock's value.
#[verifier::external_body]
pub(crate) fn now_unix() -> i64 {
    chrono::Utc::now().timestamp()
}

} // verus!

//! The signature engine.
//!
//! A time-scoped signing key is derived from the secret by keyed-hashing the
//! window string; the request signature is the keyed hash of the string to
//! sign under that derived key; the authorization token assembles the
//! algorithm, access id, windows, key lists and signature in the fixed field
//! order the remote verifier expects.

use vstd::prelude::*;
use vstd::string::StringExecFns;
use crate::canonical::build_http_string;
use crate::canonical::build_string_to_sign;
use crate::canonical::http_string_of;
use crate::canonical::joined_pairs_str;
use crate::canonical::key_list;
use crate::canonical::key_list_str;
use crate::canonical::string_to_sign_of;
use crate::canonical::window_of;
use crate::canonical::window_str;
use crate::foreign::hmac_sha1_hex;
use crate::foreign::hmac_sha1_hex_of;
use crate::params::ParamMap;

verus! {

/// The two-level keyed-hash chain: the signing key is the keyed hash of the
/// window string under the secret; the signature is the keyed hash of the
/// string to sign under that key.
pub open spec fn signature_of(secret: Seq<char>, start: int, end: int, sts: Seq<char>) -> Seq<char> {
    hmac_sha1_hex_of(hmac_sha1_hex_of(secret, window_of(start, end)), sts)
}

/// The assembled authorization token, in the fixed field order the remote
/// verifier requires.
pub open spec fn auth_token_of(
    id: Seq<char>,
    secret: Seq<char>,
    method: Seq<char>,
    uri: Seq<char>,
    pkeys: Seq<Seq<char>>,
    pvals: Seq<Seq<char>>,
    hkeys: Seq<Seq<char>>,
    hvals: Seq<Seq<char>>,
    start: int,
    end: int,
) -> Seq<char> {
    "q-sign-algorithm=sha1&q-ak="@ + id + "&q-sign-time="@ + window_of(start, end)
        + "&q-key-time="@ + window_of(start, end) + "&q-header-list="@ + key_list(hkeys)
        + "&q-url-param-list="@ + key_list(pkeys) + "&q-signature="@ + signature_of(
        secret,
        start,
        end,
        string_to_sign_of(start, end, http_string_of(method, uri, pkeys, pvals, hkeys, hvals)),
    )
}

/// Compute the authorization token for one request.
pub fn calculate_signature(
    secret_id: &str,
    secret_key: &str,
    method: &str,
    uri: &str,
    params: &ParamMap,
    headers: &ParamMap,
    start: i64,
    end: i64,
) -> (t: String)
    requires
        params.wf(),
        headers.wf(),
    ensures
        t@ == auth_token_of(
            secret_id@,
            secret_key@,
            method@,
            uri@,
            params.key_seq(),
            params.val_seq(),
            headers.key_seq(),
            headers.val_seq(),
            start as int,
            end as int,
        ),
{
    let window = window_str(start, end);
    let http = build_http_string(method, uri, params, headers);
    let sts = build_string_to_sign(start, end, http.as_str());
    let sign_key = hmac_sha1_hex(secret_key, window.as_str());
    let signature = hmac_sha1_hex(sign_key.as_str(), sts.as_str());
    let header_names = key_list_str(headers);
    let param_names = key_list_str(params);
    let mut t = String::from_str("q-sign-algorithm=sha1&q-ak=");
    t.append(secret_id);
    t.append("&q-sign-time=");
    t.append(window.as_str());
    t.append("&q-key-time=");
    t.append(window.as_str());
    t.append("&q-header-list=");
    t.append(header_names.as_str());
    t.append("&q-url-param-list=");
    t.append(param_names.as_str());
    t.append("&q-signature=");
    t.append(signature.as_str());
    t
}

/// Signature reproducibility: signing is a pure function of the credentials,
/// the window and the canonical request, so two computations over identical
/// inputs yield the same token.
pub proof fn lemma_signature_reproducible(
    t1: Seq<char>,
    t2: Seq<char>,
    id: Seq<char>,
    secret: Seq<char>,
    method: Seq<char>,
    uri: Seq<char>,
    pkeys: Seq<Seq<char>>,
    pvals: Seq<Seq<char>>,
    hkeys: Seq<Seq<char>>,
    hvals: Seq<Seq<char>>,
    start: int,
    end: int,
)
    requires
        t1 == auth_token_of(id, secret, method, uri, pkeys, pvals, hkeys, hvals, start, end),
        t2 == auth_token_of(id, secret, method, uri, pkeys, pvals, hkeys, hvals, start, end),
    ensures
        t1 == t2,
{
}

} // verus!

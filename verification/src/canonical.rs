//! The canonical request builder.
//!
//! An HTTP request is flattened into a deterministic string: lower-cased
//! method, URI path, the sorted `key=value` pairs of the query parameters and
//! of the headers (values percent-encoded), each part followed by a newline.
//! The string to sign names the algorithm and the signing window and carries
//! a plain digest of that flattened string.

use vstd::prelude::*;
use vstd::string::StringExecFns;
use crate::foreign::lower_of;
use crate::foreign::lowercase;
use crate::foreign::percent_encode;
use crate::foreign::percent_encode_of;
use crate::foreign::sha1_hex;
use crate::foreign::sha1_hex_of;
use crate::params::ParamMap;
use crate::params::lemma_canonical_form;
use crate::params::pair_in;
use crate::text::dec_int;
use crate::text::format_i64;

verus! {

/// One canonical pair: lowercased key, `=`, percent-encoded value.
pub open spec fn pair_str(k: Seq<char>, v: Seq<char>) -> Seq<char> {
    k + "="@ + percent_encode_of(v)
}

/// The entries' canonical pairs joined with `&`.
pub open spec fn joined_pairs(keys: Seq<Seq<char>>, vals: Seq<Seq<char>>) -> Seq<char>
    decreases keys.len(),
{
    if keys.len() == 0 {
        Seq::empty()
    } else if keys.len() == 1 {
        pair_str(keys[0], vals[0])
    } else {
        joined_pairs(keys.drop_last(), vals.drop_last()) + "&"@ + pair_str(
            keys.last(),
            vals[keys.len() - 1],
        )
    }
}

/// The keys joined with `;`.
pub open spec fn key_list(keys: Seq<Seq<char>>) -> Seq<char>
    decreases keys.len(),
{
    if keys.len() == 0 {
        Seq::empty()
    } else if keys.len() == 1 {
        keys[0]
    } else {
        key_list(keys.drop_last()) + ";"@ + keys.last()
    }
}

/// The signing window written as `<start>;<end>`.
pub open spec fn window_of(start: int, end: int) -> Seq<char> {
    dec_int(start) + ";"@ + dec_int(end)
}

/// The flattened request: method (lowercased), path, query pairs, header
/// pairs, each followed by a newline. Empty maps leave empty parts, the
/// newlines stay.
pub open spec fn http_string_of(
    method: Seq<char>,
    uri: Seq<char>,
    pkeys: Seq<Seq<char>>,
    pvals: Seq<Seq<char>>,
    hkeys: Seq<Seq<char>>,
    hvals: Seq<Seq<char>>,
) -> Seq<char> {
    lower_of(method) + "\n"@ + uri + "\n"@ + joined_pairs(pkeys, pvals) + "\n"@ + joined_pairs(
        hkeys,
        hvals,
    ) + "\n"@
}

/// The string to sign: algorithm, window, digest of the flattened request,
/// one line each.
pub open spec fn string_to_sign_of(start: int, end: int, http: Seq<char>) -> Seq<char> {
    "sha1"@ + "\n"@ + window_of(start, end) + "\n"@ + sha1_hex_of(http) + "\n"@
}

/// Build the `&`-joined canonical pairs of a mapping.
pub fn joined_pairs_str(m: &ParamMap) -> (s: String)
    requires
        m.wf(),
    ensures
        s@ == joined_pairs(m.key_seq(), m.val_seq()),
{
    let n = m.len();
    let mut s = String::new();
    let mut i: usize = 0;
    while i < n
        invariant
            m.wf(),
            i <= n,
            n == m.key_seq().len(),
            n == m.val_seq().len(),
            s@ == joined_pairs(m.key_seq().take(i as int), m.val_seq().take(i as int)),
        decreases n - i,
    {
        if i > 0 {
            s.append("&");
        }
        s.append(m.key_at(i).as_str());
        s.append("=");
        let enc = percent_encode(m.val_at(i).as_str());
        s.append(enc.as_str());
        proof {
            let ks = m.key_seq();
            let vs = m.val_seq();
            assert(ks.take(i + 1).drop_last() =~= ks.take(i as int));
            assert(vs.take(i + 1).drop_last() =~= vs.take(i as int));
            assert(ks.take(i + 1).last() == ks[i as int]);
            assert(vs.take(i + 1)[i as int] == vs[i as int]);
            assert(s@ =~= joined_pairs(ks.take(i + 1), vs.take(i + 1)));
        }
        i += 1;
    }
    proof {
        assert(m.key_seq().take(n as int) =~= m.key_seq());
        assert(m.val_seq().take(n as int) =~= m.val_seq());
    }
    s
}

/// Build the `;`-joined key list of a mapping.
pub fn key_list_str(m: &ParamMap) -> (s: String)
    ensures
        s@ == key_list(m.key_seq()),
{
    let n = m.len();
    let mut s = String::new();
    let mut i: usize = 0;
    while i < n
        invariant
            i <= n,
            n == m.key_seq().len(),
            s@ == key_list(m.key_seq().take(i as int)),
        decreases n - i,
    {
        if i > 0 {
            s.append(";");
        }
        s.append(m.key_at(i).as_str());
        proof {
            let ks = m.key_seq();
            assert(ks.take(i + 1).drop_last() =~= ks.take(i as int));
            assert(ks.take(i + 1).last() == ks[i as int]);
            assert(s@ =~= key_list(ks.take(i + 1)));
        }
        i += 1;
    }
    proof {
        assert(m.key_seq().take(n as int) =~= m.key_seq());
    }
    s
}

/// Build the window string `<start>;<end>`.
pub fn window_str(start: i64, end: i64) -> (s: String)
    ensures
        s@ == window_of(start as int, end as int),
{
    let mut s = format_i64(start);
    s.append(";");
    let e = format_i64(end);
    s.append(e.as_str());
    s
}

/// Build the flattened request string.
pub fn build_http_string(method: &str, uri: &str, params: &ParamMap, headers: &ParamMap) -> (s:
    String)
    requires
        params.wf(),
        headers.wf(),
    ensures
        s@ == http_string_of(
            method@,
            uri@,
            params.key_seq(),
            params.val_seq(),
            headers.key_seq(),
            headers.val_seq(),
        ),
{
    let mut s = lowercase(method);
    s.append("\n");
    s.append(uri);
    s.append("\n");
    let p = joined_pairs_str(params);
    s.append(p.as_str());
    s.append("\n");
    let h = joined_pairs_str(headers);
    s.append(h.as_str());
    s.append("\n");
    s
}

/// Build the string to sign for a flattened request.
pub fn build_string_to_sign(start: i64, end: i64, http: &str) -> (s: String)
    ensures
        s@ == string_to_sign_of(start as int, end as int, http@),
{
    let mut s = String::from_str("sha1");
    s.append("\n");
    let w = window_str(start, end);
    s.append(w.as_str());
    s.append("\n");
    let d = sha1_hex(http);
    s.append(d.as_str());
    s.append("\n");
    s
}

/// Canonicalization is insertion-order independent: two well-formed mappings
/// holding the same pairs yield the same joined pairs and the same key list,
/// so every permutation of an insertion sequence canonicalizes identically.
pub proof fn lemma_canonicalization_stable(m1: ParamMap, m2: ParamMap)
    requires
        m1.wf(),
        m2.wf(),
        forall|k: Seq<char>, v: Seq<char>|
            pair_in(m1.key_seq(), m1.val_seq(), k, v) <==> pair_in(m2.key_seq(), m2.val_seq(), k, v),
    ensures
        joined_pairs(m1.key_seq(), m1.val_seq()) == joined_pairs(m2.key_seq(), m2.val_seq()),
        key_list(m1.key_seq()) == key_list(m2.key_seq()),
{
    lemma_canonical_form(m1.key_seq(), m1.val_seq(), m2.key_seq(), m2.val_seq());
}

} // verus!

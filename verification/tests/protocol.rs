//! Canonicalization and signing, checked against independently computed
//! expected values.

use cos_upload::canonical::build_http_string;
use cos_upload::canonical::build_string_to_sign;
use cos_upload::canonical::joined_pairs_str;
use cos_upload::canonical::key_list_str;
use cos_upload::canonical::window_str;
use cos_upload::params::ParamMap;
use cos_upload::sign::calculate_signature;

use hmac::Hmac;
use hmac::KeyInit;
use hmac::Mac;
use sha1::Digest;
use sha1::Sha1;

fn sha1_hex_ref(data: &str) -> String {
    let mut h = Sha1::new();
    h.update(data.as_bytes());
    hex::encode(h.finalize())
}

fn hmac_sha1_hex_ref(key: &str, data: &str) -> String {
    let mut mac: Hmac<Sha1> = Hmac::new_from_slice(key.as_bytes()).unwrap();
    mac.update(data.as_bytes());
    hex::encode(mac.finalize().into_bytes())
}

#[test]
fn window_string_format() {
    assert_eq!(window_str(1700000000, 1700000600), "1700000000;1700000600");
    assert_eq!(window_str(0, 600), "0;600");
    assert_eq!(window_str(-5, 5), "-5;5");
}

#[test]
fn empty_maps_keep_structural_newlines() {
    let params = ParamMap::new();
    let headers = ParamMap::new();
    let http = build_http_string("GET", "/", &params, &headers);
    assert_eq!(http, "get\n/\n\n\n");
}

#[test]
fn method_is_lowercased() {
    let params = ParamMap::new();
    let headers = ParamMap::new();
    let http = build_http_string("HEAD", "/a.png", &params, &headers);
    assert_eq!(http, "head\n/a.png\n\n\n");
}

#[test]
fn keys_are_lowercased_and_sorted() {
    let mut m = ParamMap::new();
    m.insert("Zeta", "1");
    m.insert("Alpha", "2");
    m.insert("Mu", "3");
    assert_eq!(m.len(), 3);
    assert_eq!(m.key_at(0).as_str(), "alpha");
    assert_eq!(m.key_at(1).as_str(), "mu");
    assert_eq!(m.key_at(2).as_str(), "zeta");
    assert_eq!(key_list_str(&m), "alpha;mu;zeta");
    assert_eq!(joined_pairs_str(&m), "alpha=2&mu=3&zeta=1");
}

#[test]
fn same_key_overwrites_case_insensitively() {
    let mut m = ParamMap::new();
    m.insert("Host", "first");
    m.insert("HOST", "second");
    assert_eq!(m.len(), 1);
    assert_eq!(m.key_at(0).as_str(), "host");
    assert_eq!(m.val_at(0).as_str(), "second");
}

#[test]
fn values_are_percent_encoded_conservatively() {
    let mut m = ParamMap::new();
    m.insert("K", "a b/c~d");
    // unreserved characters survive, everything else is encoded
    assert_eq!(joined_pairs_str(&m), "k=a%20b%2Fc~d");
}

#[test]
fn insertion_order_does_not_change_canonical_output() {
    let pairs = [("Host", "example.org"), ("X-Extra", "v1"), ("Accept", "a,b")];
    let mut forward = ParamMap::new();
    for (k, v) in pairs.iter() {
        forward.insert(k, v);
    }
    let mut backward = ParamMap::new();
    for (k, v) in pairs.iter().rev() {
        backward.insert(k, v);
    }
    assert_eq!(joined_pairs_str(&forward), joined_pairs_str(&backward));
    assert_eq!(key_list_str(&forward), key_list_str(&backward));
}

#[test]
fn string_to_sign_carries_digest_of_http_string() {
    let http = "head\n/x\n\n\n";
    let sts = build_string_to_sign(100, 700, http);
    let expected = format!("sha1\n100;700\n{}\n", sha1_hex_ref(http));
    assert_eq!(sts, expected);
}

#[test]
fn signature_token_matches_reference_chain() {
    let mut headers = ParamMap::new();
    headers.insert("Host", "bkt.cos.ap-x.myqcloud.com");
    let params = ParamMap::new();
    let token = calculate_signature(
        "AKIDexample",
        "secretvalue",
        "PUT",
        "/press/images/abc.png",
        &params,
        &headers,
        1700000000,
        1700000600,
    );
    let window = "1700000000;1700000600";
    let http = "put\n/press/images/abc.png\n\nhost=bkt.cos.ap-x.myqcloud.com\n";
    let sts = format!("sha1\n{}\n{}\n", window, sha1_hex_ref(http));
    let sign_key = hmac_sha1_hex_ref("secretvalue", window);
    let signature = hmac_sha1_hex_ref(&sign_key, &sts);
    let expected = format!(
        "q-sign-algorithm=sha1&q-ak=AKIDexample&q-sign-time={}&q-key-time={}&q-header-list=host&q-url-param-list=&q-signature={}",
        window, window, signature
    );
    assert_eq!(token, expected);
}

#[test]
fn signature_is_reproducible_and_key_sensitive() {
    let headers = ParamMap::new();
    let params = ParamMap::new();
    let t1 = calculate_signature("id", "secret", "GET", "/", &params, &headers, 1, 601);
    let t2 = calculate_signature("id", "secret", "GET", "/", &params, &headers, 1, 601);
    assert_eq!(t1, t2);
    let other_secret = calculate_signature("id", "secreu", "GET", "/", &params, &headers, 1, 601);
    assert_ne!(t1, other_secret);
    let other_window = calculate_signature("id", "secret", "GET", "/", &params, &headers, 2, 602);
    assert_ne!(t1, other_window);
    let other_uri = calculate_signature("id", "secret", "GET", "/x", &params, &headers, 1, 601);
    assert_ne!(t1, other_uri);
}

//! The probe-then-upload orchestration, with the transport mocked by feeding
//! outcomes in, and content addressing on exact digests.

use cos_upload::upload::ProbeDecision;
use cos_upload::upload::PutOutcome;
use cos_upload::upload::UploadConfig;
use cos_upload::upload::UploadError;
use cos_upload::upload::after_probe;
use cos_upload::upload::begin_upload;
use cos_upload::upload::digest_hex;
use cos_upload::upload::finish_upload;
use cos_upload::upload::fresh_window;
use cos_upload::upload::object_key;
use cos_upload::upload::public_url;
use cos_upload::upload::status_is_success;

fn config() -> UploadConfig {
    UploadConfig {
        secret_id: String::from("AKIDexample"),
        secret_key: String::from("secretvalue"),
        bucket: String::from("bkt-125"),
        region: String::from("ap-x"),
        prefix: String::from("press/"),
        cdn_domain: String::from("cdn.example.org"),
    }
}

#[test]
fn digest_is_stable_and_exact() {
    let d1 = digest_hex(b"hello");
    let d2 = digest_hex(b"hello");
    assert_eq!(d1, d2);
    assert_eq!(d1, "5d41402abc4b2a76b9719d911017c592");
}

#[test]
fn digest_of_empty_input() {
    assert_eq!(digest_hex(b""), "d41d8cd98f00b204e9800998ecf8427e");
}

#[test]
fn digest_differs_from_its_input() {
    assert_ne!(digest_hex(b"hello"), "hello");
}

#[test]
fn content_addressing_same_bytes_same_key() {
    let k1 = object_key("press/", b"hello", "png");
    let k2 = object_key("press/", b"hello", "png");
    assert_eq!(k1, k2);
    assert_eq!(k1, "press/images/5d41402abc4b2a76b9719d911017c592.png");
}

#[test]
fn content_addressing_different_bytes_different_key() {
    let k1 = object_key("press/", b"hello", "png");
    let k2 = object_key("press/", b"hello!", "png");
    assert_ne!(k1, k2);
}

#[test]
fn window_spans_fixed_horizon() {
    let w = fresh_window(1700000000);
    assert_eq!(w.start, 1700000000);
    assert_eq!(w.end, 1700000600);
    let saturated = fresh_window(i64::MAX - 10);
    assert_eq!(saturated.end, i64::MAX);
}

#[test]
fn status_classification() {
    assert!(status_is_success(200));
    assert!(status_is_success(204));
    assert!(status_is_success(299));
    assert!(!status_is_success(199));
    assert!(!status_is_success(300));
    assert!(!status_is_success(404));
    assert!(!status_is_success(500));
}

#[test]
fn empty_secret_fails_fast_with_configuration_error() {
    let mut cfg = config();
    cfg.secret_key = String::new();
    let r = begin_upload(&cfg, b"hello", "png", 1700000000);
    match r {
        Err(e) => assert_eq!(e, UploadError::ConfigurationMissing),
        Ok(_) => panic!("incomplete configuration must not produce a request"),
    }
    let r2 = after_probe(&cfg, b"hello", "png", false, 1700000000);
    assert!(r2.is_err());
}

#[test]
fn probe_request_is_head_without_body() {
    let cfg = config();
    let req = begin_upload(&cfg, b"hello", "png", 1700000000).unwrap();
    assert_eq!(req.method, "HEAD");
    assert!(!req.has_body);
    assert_eq!(req.host, "bkt-125.cos.ap-x.myqcloud.com");
    assert_eq!(
        req.url,
        "https://bkt-125.cos.ap-x.myqcloud.com/press/images/5d41402abc4b2a76b9719d911017c592.png"
    );
    assert!(req.authorization.starts_with("q-sign-algorithm=sha1&q-ak=AKIDexample&"));
}

#[test]
fn probe_hit_short_circuits_with_public_url() {
    let cfg = config();
    let decision = after_probe(&cfg, b"hello", "png", true, 1700000000).unwrap();
    match decision {
        ProbeDecision::AlreadyStored(url) => {
            assert_eq!(
                url,
                "https://cdn.example.org/press/images/5d41402abc4b2a76b9719d911017c592.png"
            );
        }
        ProbeDecision::Upload(_) => panic!("a probe hit must not lead to an upload"),
    }
}

#[test]
fn probe_miss_falls_through_to_one_upload() {
    let cfg = config();
    let decision = after_probe(&cfg, b"hello", "png", false, 1700000000).unwrap();
    match decision {
        ProbeDecision::Upload(req) => {
            assert_eq!(req.method, "PUT");
            assert!(req.has_body);
            assert_eq!(
                req.url,
                "https://bkt-125.cos.ap-x.myqcloud.com/press/images/5d41402abc4b2a76b9719d911017c592.png"
            );
        }
        ProbeDecision::AlreadyStored(_) => panic!("a probe miss must lead to an upload"),
    }
}

#[test]
fn upload_success_returns_public_url() {
    let cfg = config();
    let r = finish_upload(&cfg, b"hello", "png", PutOutcome::Delivered(200));
    assert_eq!(
        r.unwrap(),
        "https://cdn.example.org/press/images/5d41402abc4b2a76b9719d911017c592.png"
    );
}

#[test]
fn upload_rejection_carries_remote_status() {
    let cfg = config();
    let r = finish_upload(&cfg, b"hello", "png", PutOutcome::Delivered(403));
    assert_eq!(r.unwrap_err(), UploadError::RemoteRejection(403));
}

#[test]
fn upload_transport_failure_is_reported() {
    let cfg = config();
    let r = finish_upload(&cfg, b"hello", "png", PutOutcome::TransportFailed);
    assert_eq!(r.unwrap_err(), UploadError::TransportFailure);
}

#[test]
fn end_to_end_example_with_mocked_transport() {
    let cfg = config();
    let now: i64 = 1700000000;
    // probe request issued, mocked to miss
    let probe = begin_upload(&cfg, b"hello", "png", now).unwrap();
    assert_eq!(probe.method, "HEAD");
    let probe_found = false;
    // exactly one upload follows, mocked to succeed
    let mut uploads: u32 = 0;
    let result = match after_probe(&cfg, b"hello", "png", probe_found, now + 1).unwrap() {
        ProbeDecision::AlreadyStored(url) => Ok(url),
        ProbeDecision::Upload(req) => {
            assert_eq!(req.method, "PUT");
            uploads += 1;
            finish_upload(&cfg, b"hello", "png", PutOutcome::Delivered(200))
        }
    };
    assert_eq!(uploads, 1);
    assert_eq!(
        result.unwrap(),
        "https://cdn.example.org/press/images/5d41402abc4b2a76b9719d911017c592.png"
    );
}

#[test]
fn public_url_composition() {
    assert_eq!(public_url("cdn.example.org", "press/images/x.png"), "https://cdn.example.org/press/images/x.png");
}

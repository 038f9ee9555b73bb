//! The upload orchestrator.
//!
//! Raw bytes are addressed by their digest: the object key, storage URL and
//! public URL are pure functions of configuration, content and extension.
//! The protocol is probe-then-upload: a signed metadata-only request first;
//! on a hit the public URL is returned with no upload; on any miss exactly
//! one signed body-bearing upload follows. Each outbound request is signed
//! over a fresh window. The caller performs the transport and feeds each
//! outcome back in; every decision here is a verified pure function.

use vstd::prelude::*;
use vstd::string::StringExecFns;
use crate::foreign::lower_of;
use crate::foreign::md5_hex;
use crate::foreign::md5_hex_of;
use crate::foreign::now_unix;
use crate::params::ParamMap;
use crate::sign::auth_token_of;
use crate::sign::calculate_signature;

verus! {

/// Configuration and credentials for one upload invocation, resolved by the
/// caller; nothing here is cached between calls.
pub struct UploadConfig {
    pub secret_id: String,
    pub secret_key: String,
    pub bucket: String,
    pub region: String,
    pub prefix: String,
    pub cdn_domain: String,
}

impl UploadConfig {
    /// The fields that must be present before any network call is attempted.
    /// Prefix and CDN host have caller-side defaults and may be empty.
    pub open spec fn is_complete(self) -> bool {
        &&& self.secret_id@.len() > 0
        &&& self.secret_key@.len() > 0
        &&& self.bucket@.len() > 0
        &&& self.region@.len() > 0
    }
}

/// Why an upload invocation failed.
#[derive(Clone, Copy, Debug, PartialEq, Eq, Structural)]
pub enum UploadError {
    /// A required credential, bucket or region field was empty; no network
    /// call was attempted.
    ConfigurationMissing,
    /// The upload was delivered and the remote service answered with the
    /// carried non-success status.
    RemoteRejection(u16),
    /// The upload could not be delivered at all.
    TransportFailure,
}

/// The content digest, as lowercase hex: the name-giving fingerprint.
pub fn digest_hex(data: &[u8]) -> (h: String)
    ensures
        h@ == md5_hex_of(data@),
        h@.len() == 32,
{
    md5_hex(data)
}

/// The object key: prefix, fixed category, content digest, extension. No
/// caller-chosen name enters the key.
pub open spec fn object_key_of(prefix: Seq<char>, data: Seq<u8>, ext: Seq<char>) -> Seq<char> {
    prefix + "images/"@ + md5_hex_of(data) + "."@ + ext
}

/// Build the object key for a payload.
pub fn object_key(prefix: &str, data: &[u8], extension: &str) -> (k: String)
    ensures
        k@ == object_key_of(prefix@, data@, extension@),
{
    let mut k = String::from_str(prefix);
    k.append("images/");
    let h = digest_hex(data);
    k.append(h.as_str());
    k.append(".");
    k.append(extension);
    k
}

/// The storage host for a bucket and region.
pub open spec fn host_of(bucket: Seq<char>, region: Seq<char>) -> Seq<char> {
    bucket + ".cos."@ + region + ".myqcloud.com"@
}

/// The signed resource path.
pub open spec fn uri_of(key: Seq<char>) -> Seq<char> {
    "/"@ + key
}

/// The URL both outbound requests address.
pub open spec fn storage_url_of(bucket: Seq<char>, region: Seq<char>, key: Seq<char>) -> Seq<char> {
    "https://"@ + host_of(bucket, region) + uri_of(key)
}

/// The public URL returned on success: reads go through the CDN host, not
/// the storage host.
pub open spec fn public_url_of(cdn: Seq<char>, key: Seq<char>) -> Seq<char> {
    "https://"@ + cdn + "/"@ + key
}

/// The validity horizon of one signature, in seconds.
pub open spec fn spec_window_horizon() -> int {
    600
}

/// The window end for a window opened now (saturating at the largest
/// representable time).
pub open spec fn window_end_of(now: int) -> int {
    if now + spec_window_horizon() > i64::MAX {
        i64::MAX as int
    } else {
        now + spec_window_horizon()
    }
}

/// One signature's validity interval `[start, end)`, as Unix timestamps.
pub struct SigningWindow {
    pub start: i64,
    pub end: i64,
}

/// Open a fresh window starting at the given time.
pub fn fresh_window(now: i64) -> (w: SigningWindow)
    ensures
        w.start == now,
        w.end == window_end_of(now as int),
{
    let end: i64 = if now > i64::MAX - 600 {
        i64::MAX
    } else {
        now + 600
    };
    SigningWindow { start: now, end }
}

/// Open a fresh window starting at the present time.
pub fn current_window() -> (w: SigningWindow)
    ensures
        w.end == window_end_of(w.start as int),
{
    fresh_window(now_unix())
}

/// A fully signed outbound request, ready for a transport to carry.
pub struct OutboundRequest {
    pub method: String,
    pub url: String,
    pub host: String,
    pub authorization: String,
    pub has_body: bool,
}

/// The header names signed over: only the storage host.
pub open spec fn host_header_keys() -> Seq<Seq<char>> {
    seq![lower_of("Host"@)]
}

/// The header values signed over.
pub open spec fn host_header_vals(bucket: Seq<char>, region: Seq<char>) -> Seq<Seq<char>> {
    seq![host_of(bucket, region)]
}

/// The authorization token of one outbound request of this protocol: no
/// query parameters, the host as only header, a fresh window.
pub open spec fn request_auth_of(
    id: Seq<char>,
    secret: Seq<char>,
    method: Seq<char>,
    bucket: Seq<char>,
    region: Seq<char>,
    key: Seq<char>,
    start: int,
    end: int,
) -> Seq<char> {
    auth_token_of(
        id,
        secret,
        method,
        uri_of(key),
        Seq::empty(),
        Seq::empty(),
        host_header_keys(),
        host_header_vals(bucket, region),
        start,
        end,
    )
}

/// What a well-formed outbound request of this protocol looks like.
pub open spec fn request_wf(
    req: OutboundRequest,
    cfg: UploadConfig,
    data: Seq<u8>,
    ext: Seq<char>,
    method: Seq<char>,
    has_body: bool,
    now: int,
) -> bool {
    let key = object_key_of(cfg.prefix@, data, ext);
    &&& req.method@ == method
    &&& req.host@ == host_of(cfg.bucket@, cfg.region@)
    &&& req.url@ == storage_url_of(cfg.bucket@, cfg.region@, key)
    &&& req.authorization@ == request_auth_of(
        cfg.secret_id@,
        cfg.secret_key@,
        method,
        cfg.bucket@,
        cfg.region@,
        key,
        now,
        window_end_of(now),
    )
    &&& req.has_body == has_body
}

fn build_request(cfg: &UploadConfig, data: &[u8], extension: &str, method: &str, has_body: bool, now: i64) -> (req: OutboundRequest)
    ensures
        request_wf(req, *cfg, data@, extension@, method@, has_body, now as int),
{
    let key = object_key(cfg.prefix.as_str(), data, extension);
    let mut host = String::from_str(cfg.bucket.as_str());
    host.append(".cos.");
    host.append(cfg.region.as_str());
    host.append(".myqcloud.com");
    let mut uri = String::from_str("/");
    uri.append(key.as_str());
    let mut url = String::from_str("https://");
    url.append(host.as_str());
    url.append(uri.as_str());
    let window = fresh_window(now);
    let params = ParamMap::new();
    let mut headers = ParamMap::new();
    headers.insert("Host", host.as_str());
    proof {
        assert(headers.key_seq() =~= host_header_keys());
        assert(headers.val_seq() =~= host_header_vals(cfg.bucket@, cfg.region@));
    }
    let authorization = calculate_signature(
        cfg.secret_id.as_str(),
        cfg.secret_key.as_str(),
        method,
        uri.as_str(),
        &params,
        &headers,
        window.start,
        window.end,
    );
    OutboundRequest {
        method: String::from_str(method),
        url,
        host,
        authorization,
        has_body,
    }
}

/// Begin an upload invocation: validate the configuration and produce the
/// signed existence probe (a metadata-only request). No transport has
/// happened yet, so an incomplete configuration fails with zero network
/// calls.
pub fn begin_upload(cfg: &UploadConfig, data: &[u8], extension: &str, now: i64) -> (r: Result<
    OutboundRequest,
    UploadError,
>)
    ensures
        r is Ok <==> cfg.is_complete(),
        !cfg.is_complete() ==> (r matches Err(e) && e == UploadError::ConfigurationMissing),
        cfg.is_complete() ==> (r matches Ok(req) && request_wf(
            req,
            *cfg,
            data@,
            extension@,
            "HEAD"@,
            false,
            now as int,
        )),
{
    if cfg.secret_id.as_str().is_empty() || cfg.secret_key.as_str().is_empty()
        || cfg.bucket.as_str().is_empty() || cfg.region.as_str().is_empty() {
        return Err(UploadError::ConfigurationMissing);
    }
    Ok(build_request(cfg, data, extension, "HEAD", false, now))
}

/// What the probe decided.
pub enum ProbeDecision {
    /// The object already exists: its public URL, with no upload issued.
    AlreadyStored(String),
    /// The object is treated as absent: the signed body-bearing upload to
    /// issue next.
    Upload(OutboundRequest),
}

/// Continue after the existence probe. A successful probe short-circuits to
/// the public URL; any failure (a non-success status as well as a transport
/// error, which this protocol does not distinguish here) falls through to
/// exactly one upload, signed over a fresh window.
pub fn after_probe(cfg: &UploadConfig, data: &[u8], extension: &str, probe_found: bool, now: i64) -> (r:
    Result<ProbeDecision, UploadError>)
    ensures
        r is Ok <==> cfg.is_complete(),
        !cfg.is_complete() ==> (r matches Err(e) && e == UploadError::ConfigurationMissing),
        cfg.is_complete() && probe_found ==> (r matches Ok(d) && d matches
            ProbeDecision::AlreadyStored(u) && u@ == public_url_of(
            cfg.cdn_domain@,
            object_key_of(cfg.prefix@, data@, extension@),
        )),
        cfg.is_complete() && !probe_found ==> (r matches Ok(d) && d matches ProbeDecision::Upload(
            req,
        ) && request_wf(req, *cfg, data@, extension@, "PUT"@, true, now as int)),
{
    if cfg.secret_id.as_str().is_empty() || cfg.secret_key.as_str().is_empty()
        || cfg.bucket.as_str().is_empty() || cfg.region.as_str().is_empty() {
        return Err(UploadError::ConfigurationMissing);
    }
    if probe_found {
        let key = object_key(cfg.prefix.as_str(), data, extension);
        Ok(ProbeDecision::AlreadyStored(public_url(cfg.cdn_domain.as_str(), key.as_str())))
    } else {
        Ok(ProbeDecision::Upload(build_request(cfg, data, extension, "PUT", true, now)))
    }
}

/// How the upload attempt went, as reported by the transport.
pub enum PutOutcome {
    /// The request was delivered and answered with this status code.
    Delivered(u16),
    /// The request could not be delivered.
    TransportFailed,
}

/// Whether a status code counts as success.
pub fn status_is_success(status: u16) -> (b: bool)
    ensures
        b <==> (200 <= status < 300),
{
    200 <= status && status < 300
}

/// Finish the invocation after the upload attempt: a success status yields
/// the public URL, a non-success status the remote's rejection with its
/// code, an undelivered request a transport failure.
pub fn finish_upload(cfg: &UploadConfig, data: &[u8], extension: &str, outcome: PutOutcome) -> (r:
    Result<String, UploadError>)
    ensures
        outcome matches PutOutcome::Delivered(s) ==> (if 200 <= s < 300 {
            r matches Ok(u) && u@ == public_url_of(
                cfg.cdn_domain@,
                object_key_of(cfg.prefix@, data@, extension@),
            )
        } else {
            r matches Err(e) && e == UploadError::RemoteRejection(s)
        }),
        outcome is TransportFailed ==> (r matches Err(e) && e == UploadError::TransportFailure),
{
    match outcome {
        PutOutcome::Delivered(status) => {
            if status_is_success(status) {
                let key = object_key(cfg.prefix.as_str(), data, extension);
                Ok(public_url(cfg.cdn_domain.as_str(), key.as_str()))
            } else {
                Err(UploadError::RemoteRejection(status))
            }
        }
        PutOutcome::TransportFailed => Err(UploadError::TransportFailure),
    }
}

/// Build the public URL for an object key.
pub fn public_url(cdn: &str, key: &str) -> (u: String)
    ensures
        u@ == public_url_of(cdn@, key@),
{
    let mut u = String::from_str("https://");
    u.append(cdn);
    u.append("/");
    u.append(key);
    u
}

/// Digest determinism: the content fingerprint is a pure function of the
/// bytes, so byte-equal buffers fingerprint identically, in any call and any
/// process.
pub proof fn lemma_digest_deterministic(b1: Seq<u8>, b2: Seq<u8>)
    requires
        b1 == b2,
    ensures
        md5_hex_of(b1) == md5_hex_of(b2),
{
}

/// Content addressing: byte-equal payloads with the same extension resolve
/// to the same object key under the same prefix, so re-uploads are
/// idempotent by construction.
pub proof fn lemma_content_addressed(prefix: Seq<char>, b1: Seq<u8>, b2: Seq<u8>, ext: Seq<char>)
    requires
        b1 == b2,
    ensures
        object_key_of(prefix, b1, ext) == object_key_of(prefix, b2, ext),
{
}

} // verus!

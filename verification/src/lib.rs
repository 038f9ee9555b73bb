//! A verified core for a content-addressed object-storage upload protocol:
//! deterministic digest-based object keys, canonicalized request strings,
//! a two-level HMAC signing chain, and the probe-then-upload decision logic.
//!
//! Network transport and configuration storage are the caller's concern; the
//! functions here are pure decisions and string constructions with contracts.

pub mod canonical;
pub mod foreign;
pub mod params;
pub mod sign;
pub mod text;
pub mod upload;

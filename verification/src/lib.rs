//! Resolution-and-cache core for a CDN front that turns mutable source-repository
//! refs (branch or tag names) into immutable commit identifiers and redirects
//! clients to commit-pinned raw-file URLs.
//!
//! The crate holds the verified logic: the ref classifier, the time-to-live
//! resolution cache, the per-provider URL templates and resolution protocol,
//! the redirect orchestration and the cache-invalidation coordinator. Network
//! I/O, JSON decoding and HTTP serving live outside, in a thin shell that feeds
//! plain values into these functions and carries their decisions out.

use vstd::prelude::*;

pub mod cache;
pub mod cdn;
pub mod classify;
pub mod data;
pub mod redirect;
pub mod resolve;
pub mod service;

verus! {

/// How long a resolved commit stays fresh, and hence how long downstream
/// caches may hold a redirect: five minutes.
pub const REDIRECT_AGE_SECS: u32 = 300;

} // verus!

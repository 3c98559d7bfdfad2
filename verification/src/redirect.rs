//! Redirect orchestration: per request, classify the ref, consult the
//! resolution cache, and — after the provider strategy has run — store the
//! fresh resolution and shape the response.
//!
//! The cache is only ever written after a confirmed successful resolution; a
//! failed resolution never perturbs cache state for the key.

use vstd::prelude::*;
use crate::cache::{spec_ttl_secs, CacheResult};
use crate::classify::{classify, spec_classify, RefKind};
use crate::data::{lemma_key_obeys_deep_eq, FilePath, Provider, ResolutionCache};
use crate::resolve::ResolveOutcome;
use crate::service::{spec_raw_url, spec_redirect_url};

verus! {

/// The response the core emits, transport-agnostic.
#[derive(Debug, PartialEq)]
pub enum HttpReply {
    /// A redirect (303-equivalent) to `location`; downstream caches may hold
    /// it for `max_age` seconds.
    SeeOther { location: String, max_age: u32 },
    /// A passthrough of an upstream status code.
    Status { code: u16 },
    /// A transport failure, surfaced as a server-side error distinct from
    /// any upstream-reported status.
    ServerError,
}

/// What a classified request calls for.
#[derive(Debug, PartialEq)]
pub enum RequestPlan {
    /// The ref is an immutable commit identifier: hand off to the file-proxy
    /// collaborator, streaming from this raw URL.
    ProxyFile { url: String },
    /// The ref is mutable: go through cache and resolution.
    Resolve,
}

/// Classifies the request's ref and picks the path it takes: immutable
/// refs leave the core for the file proxy, mutable refs enter resolution.
pub fn plan_request(provider: Provider, path: &FilePath) -> (r: RequestPlan)
    ensures
        spec_classify(path.commit@) is Immutable ==> (r matches RequestPlan::ProxyFile { url }
            && url@ == spec_raw_url(provider, path.user@, path.repo@, path.commit@, path.file@)),
        spec_classify(path.commit@) is Mutable ==> r is Resolve,
{
    match classify(path.commit.as_str()) {
        RefKind::Immutable => {
            let url = provider.raw_url(
                path.user.as_str(),
                path.repo.as_str(),
                path.commit.as_str(),
                path.file.as_str(),
            );
            RequestPlan::ProxyFile { url }
        },
        RefKind::Mutable => RequestPlan::Resolve,
    }
}

/// What the cache said about a mutable ref, and what the orchestrator owes
/// next.
#[derive(Debug)]
pub enum CacheCheck {
    /// A live entry answered the request: respond with this redirect at
    /// once, no upstream call.
    Hit { reply: HttpReply },
    /// An entry exists but has expired: sweep the cache, then resolve
    /// upstream.
    MissExpired,
    /// The key was never stored (or was invalidated): resolve upstream.
    Miss,
}

/// Consults the cache for a mutable ref. On a hit the reply redirects to the
/// cached commit's immutable route, capped at the cache's time-to-live; on
/// `MissExpired` the caller owes a sweep before resolving; on `Miss` it
/// resolves directly.
pub fn check_cache(cache: &ResolutionCache, provider: Provider, path: &FilePath) -> (r:
    CacheCheck)
    requires
        cache.wf(),
    ensures
        ({
            let kd = (provider, path.user@, path.repo@, path.commit@);
            match r {
                CacheCheck::Hit { reply } => cache@.contains_key(kd) && (reply
                    matches HttpReply::SeeOther { location, max_age }
                    && location@ == spec_redirect_url(
                    provider,
                    path.user@,
                    path.repo@,
                    cache@[kd].value@,
                    path.file@,
                ) && max_age == spec_ttl_secs(cache.spec_ttl())),
                CacheCheck::MissExpired => cache@.contains_key(kd),
                CacheCheck::Miss => !cache@.contains_key(kd),
            }
        }),
{
    let key = path.to_key(provider);
    proof {
        lemma_key_obeys_deep_eq();
    }
    match cache.get(&key) {
        CacheResult::Cached(head) => {
            let location = provider.redirect_url(
                path.user.as_str(),
                path.repo.as_str(),
                head.as_str(),
                path.file.as_str(),
            );
            let max_age = cache.ttl_secs();
            CacheCheck::Hit { reply: HttpReply::SeeOther { location, max_age } }
        },
        CacheResult::Invalid => CacheCheck::MissExpired,
        CacheResult::Empty => CacheCheck::Miss,
    }
}

/// Takes the final outcome of the provider strategy and finishes the
/// request: a successful resolution is stored and answered with the same
/// redirect shape as a cache hit; an upstream rejection passes its status
/// through with the cache untouched; a transport failure surfaces as a
/// server error with the cache untouched. The two-step provider's
/// intermediate outcome never reaches this function: the caller loops it
/// back through the strategy instead.
pub fn finish_resolution(
    cache: &mut ResolutionCache,
    provider: Provider,
    path: &FilePath,
    outcome: ResolveOutcome,
) -> (r: HttpReply)
    requires
        old(cache).wf(),
        !(outcome is Next),
    ensures
        final(cache).wf(),
        final(cache).spec_ttl() == old(cache).spec_ttl(),
        match outcome {
            ResolveOutcome::Resolved { commit } => ({
                let kd = (provider, path.user@, path.repo@, path.commit@);
                &&& final(cache)@.contains_key(kd)
                &&& final(cache)@[kd].value == commit
                &&& final(cache)@.remove(kd) == old(cache)@.remove(kd)
                &&& r matches HttpReply::SeeOther { location, max_age } && location@
                    == spec_redirect_url(provider, path.user@, path.repo@, commit@, path.file@)
                    && max_age == spec_ttl_secs(old(cache).spec_ttl())
            }),
            ResolveOutcome::Rejected { status } => final(cache)@ == old(cache)@ && r == (
            HttpReply::Status { code: status }),
            ResolveOutcome::Malformed => final(cache)@ == old(cache)@ && r
                == HttpReply::ServerError,
            ResolveOutcome::Next { .. } => false,
        },
{
    match outcome {
        ResolveOutcome::Resolved { commit } => {
            let key = path.to_key(provider);
            proof {
                lemma_key_obeys_deep_eq();
            }
            let location = provider.redirect_url(
                path.user.as_str(),
                path.repo.as_str(),
                commit.as_str(),
                path.file.as_str(),
            );
            let max_age = cache.ttl_secs();
            cache.store(key, commit);
            HttpReply::SeeOther { location, max_age }
        },
        ResolveOutcome::Rejected { status } => HttpReply::Status { code: status },
        ResolveOutcome::Malformed => HttpReply::ServerError,
        ResolveOutcome::Next { .. } => HttpReply::ServerError,
    }
}

} // verus!

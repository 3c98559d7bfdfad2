//! Invalidation coordination and CDN purge targets.
//!
//! A purge request against a mutable ref removes the local cache entry and
//! always succeeds (invalidating an absent key is not an error). A purge
//! against an immutable ref targets a content-addressed URL that only the
//! downstream CDN may hold: the coordinator computes the purge target and
//! delegates the actual authenticated call to the outside collaborator.

use vstd::prelude::*;
use crate::classify::{classify, spec_classify, RefKind};
use crate::data::{lemma_key_obeys_deep_eq, spec_joined_path, FilePath, Provider, ResolutionCache};
use crate::service::spec_path_segment;

verus! {

/// The fully qualified URL the CDN caches a file under, and hence the target
/// of a CDN purge: `https://{hostname}/{provider}/{user}/{repo}/{commit}/{file}`.
pub open spec fn spec_purge_target(
    hostname: Seq<char>,
    p: Provider,
    user: Seq<char>,
    repo: Seq<char>,
    commit: Seq<char>,
    file: Seq<char>,
) -> Seq<char> {
    "https://"@ + hostname + "/"@ + spec_path_segment(p) + "/"@ + spec_joined_path(
        user,
        repo,
        commit,
        file,
    )
}

/// The CDN API endpoint that purges cached responses for the given zone.
pub open spec fn spec_purge_endpoint(zone: Seq<char>) -> Seq<char> {
    "https://api.cloudflare.com/client/v4/zones/"@ + zone + "/purge_cache"@
}

/// Builds the CDN purge endpoint for a zone identifier.
pub fn purge_endpoint(zone: &str) -> (r: String)
    ensures
        r@ == spec_purge_endpoint(zone@),
{
    let mut r = String::new();
    r.append("https://api.cloudflare.com/client/v4/zones/");
    r.append(zone);
    r.append("/purge_cache");
    proof {
        assert(r@ =~= spec_purge_endpoint(zone@));
    }
    r
}

/// The file list of a purge request: exactly one target, the CDN-cached URL
/// of the request path at the given host.
pub fn purge_targets(hostname: &str, provider: Provider, path: &FilePath) -> (r: Vec<String>)
    ensures
        r@.len() == 1,
        r@[0]@ == spec_purge_target(
            hostname@,
            provider,
            path.user@,
            path.repo@,
            path.commit@,
            path.file@,
        ),
{
    let mut target = String::new();
    target.append("https://");
    target.append(hostname);
    target.append("/");
    target.append(provider.path());
    target.append("/");
    let tail = path.path();
    target.append(tail.as_str());
    proof {
        assert(target@ =~= spec_purge_target(
            hostname@,
            provider,
            path.user@,
            path.repo@,
            path.commit@,
            path.file@,
        ));
    }
    let mut r: Vec<String> = Vec::new();
    r.push(target);
    r
}

/// What a purge request resolved to.
#[derive(Debug)]
pub enum PurgeAction {
    /// The ref is an immutable commit identifier: the response lives in the
    /// downstream CDN, so hand this target URL to the CDN-purge
    /// collaborator and report its outcome.
    PurgeCdn { target: String },
    /// The ref was mutable: the local cache entry, if any, is gone, and the
    /// request counts as succeeded either way.
    PurgedLocal { removed: bool },
}

/// Coordinates a purge of `{provider}/{user}/{repo}/{commit}/{file}`. A
/// mutable ref is removed from the local resolution cache, idempotently; an
/// immutable ref leaves the cache untouched and yields the CDN purge target
/// instead.
pub fn purge(
    cache: &mut ResolutionCache,
    provider: Provider,
    path: &FilePath,
    hostname: &str,
) -> (r: PurgeAction)
    requires
        old(cache).wf(),
    ensures
        final(cache).wf(),
        final(cache).spec_ttl() == old(cache).spec_ttl(),
        spec_classify(path.commit@) is Immutable ==> final(cache)@ == old(cache)@ && (r
            matches PurgeAction::PurgeCdn { target } && target@ == spec_purge_target(
            hostname@,
            provider,
            path.user@,
            path.repo@,
            path.commit@,
            path.file@,
        )),
        spec_classify(path.commit@) is Mutable ==> ({
            let kd = (provider, path.user@, path.repo@, path.commit@);
            &&& final(cache)@ == old(cache)@.remove(kd)
            &&& r == (PurgeAction::PurgedLocal { removed: old(cache)@.contains_key(kd) })
        }),
{
    match classify(path.commit.as_str()) {
        RefKind::Immutable => {
            let mut targets = purge_targets(hostname, provider, path);
            let target = targets.remove(0);
            PurgeAction::PurgeCdn { target }
        },
        RefKind::Mutable => {
            let key = path.to_key(provider);
            proof {
                lemma_key_obeys_deep_eq();
            }
            let removed = cache.invalidate(&key);
            PurgeAction::PurgedLocal { removed }
        },
    }
}

} // verus!

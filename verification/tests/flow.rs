use std::time::Duration;
use yagcdn::cdn::{purge, PurgeAction};
use yagcdn::data::{FilePath, Provider, ResolutionCache};
use yagcdn::redirect::{
    check_cache, finish_resolution, plan_request, CacheCheck, HttpReply, RequestPlan,
};
use yagcdn::resolve::{on_response, ResolveOutcome, ResolveStep, UpstreamPayload};

const COMMIT: &str = "f1b35e7c05b952be6de559051d7daad2ecf05369";

fn github_path() -> FilePath {
    FilePath {
        user: "vbrandl".to_string(),
        repo: "yagcdn".to_string(),
        commit: "master".to_string(),
        file: "Cargo.toml".to_string(),
    }
}

fn gitlab_path() -> FilePath {
    FilePath {
        user: "vbrandl".to_string(),
        repo: "hoc".to_string(),
        commit: "master".to_string(),
        file: "Cargo.toml".to_string(),
    }
}

fn fresh_cache() -> ResolutionCache {
    ResolutionCache::new(Duration::from_secs(300))
}

fn expect_miss(cache: &ResolutionCache, provider: Provider, path: &FilePath) {
    match check_cache(cache, provider, path) {
        CacheCheck::Miss => {}
        CacheCheck::MissExpired => panic!("expected a plain miss, found an expired entry"),
        CacheCheck::Hit { .. } => panic!("expected a miss, found a hit"),
    }
}

// A request for a mutable ref with no prior cache entry resolves upstream
// once and answers with a redirect to the commit-pinned route, cacheable for
// the 300-second time-to-live.
#[test]
fn first_request_resolves_and_redirects() {
    let mut cache = fresh_cache();
    let path = github_path();

    assert_eq!(RequestPlan::Resolve, plan_request(Provider::GitHub, &path));
    expect_miss(&cache, Provider::GitHub, &path);

    // the one upstream call this request makes
    assert_eq!(
        "https://api.github.com/repos/vbrandl/yagcdn/commits/master",
        Provider::GitHub.api_url(&path, "")
    );
    let outcome = on_response(
        Provider::GitHub,
        ResolveStep::First,
        &path,
        200,
        Some(UpstreamPayload::CommitText(COMMIT.to_string())),
    );
    assert_eq!(
        ResolveOutcome::Resolved { commit: COMMIT.to_string() },
        outcome
    );
    match finish_resolution(&mut cache, Provider::GitHub, &path, outcome) {
        HttpReply::SeeOther { location, max_age } => {
            assert_eq!(
                "/github/vbrandl/yagcdn/f1b35e7c05b952be6de559051d7daad2ecf05369/Cargo.toml",
                location
            );
            assert_eq!(300, max_age);
        }
        other => panic!("expected a redirect, found {:?}", other),
    }
}

// The same request repeated within the time-to-live is answered from the
// cache: no upstream call, identical redirect target.
#[test]
fn repeated_request_is_served_from_cache() {
    let mut cache = fresh_cache();
    let path = github_path();
    let outcome = on_response(
        Provider::GitHub,
        ResolveStep::First,
        &path,
        200,
        Some(UpstreamPayload::CommitText(COMMIT.to_string())),
    );
    finish_resolution(&mut cache, Provider::GitHub, &path, outcome);

    match check_cache(&cache, Provider::GitHub, &path) {
        CacheCheck::Hit { reply } => match reply {
            HttpReply::SeeOther { location, max_age } => {
                assert_eq!(
                    "/github/vbrandl/yagcdn/f1b35e7c05b952be6de559051d7daad2ecf05369/Cargo.toml",
                    location
                );
                assert_eq!(300, max_age);
            }
            other => panic!("expected a redirect, found {:?}", other),
        },
        _ => panic!("expected the second request to hit the cache"),
    }
}

// An entry whose lifetime has passed answers no request: the lookup reports
// it expired, which obliges the caller to sweep the cache and resolve
// upstream again; after the sweep the key reads as never stored.
#[test]
fn expired_entry_triggers_sweep_and_fresh_resolution() {
    let mut cache = fresh_cache();
    let path = github_path();
    let key = yagcdn::data::Key::new(
        Provider::GitHub,
        "vbrandl".to_string(),
        "yagcdn".to_string(),
        "master".to_string(),
    );
    // stored as of an instant long past: expired under any present wall clock
    cache.store_at(key, COMMIT.to_string(), 0);
    match check_cache(&cache, Provider::GitHub, &path) {
        CacheCheck::MissExpired => {}
        CacheCheck::Miss => panic!("the entry exists, it only expired"),
        CacheCheck::Hit { .. } => panic!("an expired entry must not answer"),
    }
    cache.clear();
    expect_miss(&cache, Provider::GitHub, &path);
}

// A purge of the same mutable path removes the cache entry, and the next
// request goes back upstream.
#[test]
fn purge_removes_entry_and_next_request_resolves_again() {
    let mut cache = fresh_cache();
    let path = github_path();
    let outcome = on_response(
        Provider::GitHub,
        ResolveStep::First,
        &path,
        200,
        Some(UpstreamPayload::CommitText(COMMIT.to_string())),
    );
    finish_resolution(&mut cache, Provider::GitHub, &path, outcome);

    match purge(&mut cache, Provider::GitHub, &path, "yagcdn.tk") {
        PurgeAction::PurgedLocal { removed } => assert!(removed),
        PurgeAction::PurgeCdn { .. } => panic!("a mutable ref purges locally"),
    }
    expect_miss(&cache, Provider::GitHub, &path);
}

// A purge of an immutable path leaves the local cache alone and targets the
// CDN-cached URL instead.
#[test]
fn purge_of_immutable_ref_targets_the_cdn() {
    let mut cache = fresh_cache();
    let path = FilePath {
        user: "vbrandl".to_string(),
        repo: "yagcdn".to_string(),
        commit: COMMIT.to_string(),
        file: "Cargo.toml".to_string(),
    };
    match purge(&mut cache, Provider::GitHub, &path, "yagcdn.tk") {
        PurgeAction::PurgeCdn { target } => assert_eq!(
            "https://yagcdn.tk/github/vbrandl/yagcdn/f1b35e7c05b952be6de559051d7daad2ecf05369/Cargo.toml",
            target
        ),
        PurgeAction::PurgedLocal { .. } => panic!("an immutable ref purges at the CDN"),
    }
}

// An upstream 404 for a nonexistent repository is reflected unchanged and
// leaves the cache untouched.
#[test]
fn upstream_rejection_passes_through_and_caches_nothing() {
    let mut cache = fresh_cache();
    let path = github_path();
    let outcome = on_response(Provider::GitHub, ResolveStep::First, &path, 404, None);
    assert_eq!(ResolveOutcome::Rejected { status: 404 }, outcome);
    match finish_resolution(&mut cache, Provider::GitHub, &path, outcome) {
        HttpReply::Status { code } => assert_eq!(404, code),
        other => panic!("expected the upstream status, found {:?}", other),
    }
    expect_miss(&cache, Provider::GitHub, &path);
}

// Two-step provider: the project lookup succeeds, the branch lookup answers
// 404; the final response is 404 and nothing is cached.
#[test]
fn two_step_provider_short_circuits_on_second_step() {
    let mut cache = fresh_cache();
    let path = gitlab_path();

    let first = on_response(
        Provider::GitLab,
        ResolveStep::First,
        &path,
        200,
        Some(UpstreamPayload::Project(42)),
    );
    match &first {
        ResolveOutcome::Next { url } => assert_eq!(
            "https://gitlab.com/api/v4/projects/42/repository/branches/master",
            url
        ),
        other => panic!("expected the second call, found {:?}", other),
    }

    let second = on_response(Provider::GitLab, ResolveStep::Second, &path, 404, None);
    assert_eq!(ResolveOutcome::Rejected { status: 404 }, second);
    match finish_resolution(&mut cache, Provider::GitLab, &path, second) {
        HttpReply::Status { code } => assert_eq!(404, code),
        other => panic!("expected the upstream status, found {:?}", other),
    }
    expect_miss(&cache, Provider::GitLab, &path);
}

// A shape-mismatched or missing payload is a transport failure, not a
// "ref not found": it surfaces as a server error and caches nothing.
#[test]
fn malformed_payload_is_a_server_error() {
    let mut cache = fresh_cache();
    let path = github_path();
    // success status, but no payload could be decoded
    let outcome = on_response(Provider::GitHub, ResolveStep::First, &path, 200, None);
    assert_eq!(ResolveOutcome::Malformed, outcome);
    assert_eq!(
        HttpReply::ServerError,
        finish_resolution(&mut cache, Provider::GitHub, &path, outcome)
    );
    expect_miss(&cache, Provider::GitHub, &path);

    // an empty commit page from the list provider is malformed too
    let outcome = on_response(
        Provider::Bitbucket,
        ResolveStep::First,
        &path,
        200,
        Some(UpstreamPayload::CommitList(Vec::new())),
    );
    assert_eq!(ResolveOutcome::Malformed, outcome);
}

// The list provider resolves to the newest commit's hash.
#[test]
fn list_provider_takes_the_first_hash() {
    let path = FilePath {
        user: "vbrandl".to_string(),
        repo: "vbrandl.net".to_string(),
        commit: "master".to_string(),
        file: "README.md".to_string(),
    };
    let outcome = on_response(
        Provider::Bitbucket,
        ResolveStep::First,
        &path,
        200,
        Some(UpstreamPayload::CommitList(vec![
            "aaaa".to_string(),
            "bbbb".to_string(),
        ])),
    );
    assert_eq!(ResolveOutcome::Resolved { commit: "aaaa".to_string() }, outcome);
}

// An immutable ref never enters resolution: it is handed to the file proxy.
#[test]
fn immutable_ref_is_proxied() {
    let path = FilePath {
        user: "vbrandl".to_string(),
        repo: "yagcdn".to_string(),
        commit: COMMIT.to_string(),
        file: "Cargo.toml".to_string(),
    };
    match plan_request(Provider::GitHub, &path) {
        RequestPlan::ProxyFile { url } => assert_eq!(
            "https://raw.githubusercontent.com/vbrandl/yagcdn/f1b35e7c05b952be6de559051d7daad2ecf05369/Cargo.toml",
            url
        ),
        RequestPlan::Resolve => panic!("an immutable ref must not be resolved"),
    }
}

//! Request-scoped data: the closed set of upstream providers, the resolution
//! cache key, and the parsed request path.

use vstd::prelude::*;
use vstd::laws_eq::obeys_deep_eq;
use crate::cache::Cache;

verus! {

/// The three supported upstream source-hosting services. The set is closed
/// and known at build time, so dispatch goes by variant rather than through
/// open-ended polymorphism.
#[derive(Clone, Copy, Debug, PartialEq, Eq, Hash, Structural)]
pub enum Provider {
    GitHub,
    GitLab,
    Bitbucket,
}

/// A resolution-cache key: provider, owner, repository and ref. Two keys are
/// equal exactly when all four components agree, so no two live cache entries
/// can share them.
#[derive(Debug)]
pub struct Key(pub Provider, pub String, pub String, pub String);

impl DeepView for Key {
    type V = (Provider, Seq<char>, Seq<char>, Seq<char>);

    open spec fn deep_view(&self) -> Self::V {
        (self.0, self.1@, self.2@, self.3@)
    }
}

impl vstd::std_specs::cmp::PartialEqSpecImpl for Key {
    open spec fn obeys_eq_spec() -> bool {
        true
    }

    open spec fn eq_spec(&self, other: &Key) -> bool {
        self.0 == other.0 && self.1@ == other.1@ && self.2@ == other.2@ && self.3@ == other.3@
    }
}

impl PartialEq for Key {
    fn eq(&self, other: &Key) -> (r: bool) {
        self.0 == other.0 && self.1 == other.1 && self.2 == other.2 && self.3 == other.3
    }
}

impl Key {
    /// Builds the key for one `(provider, owner, repository, ref)` tuple.
    pub fn new(service: Provider, user: String, repo: String, branch: String) -> (k: Self)
        ensures
            k.deep_view() == (service, user@, repo@, branch@),
    {
        Key(service, user, repo, branch)
    }
}

/// Key equality goes exactly by the key model (provider and the three
/// strings' contents), which lets the cache's contracts apply to `Key`.
pub proof fn lemma_key_obeys_deep_eq()
    ensures
        obeys_deep_eq::<Key>(),
{
    reveal(vstd::laws_eq::obeys_deep_eq);
}

/// The resolution cache as the rest of the crate uses it: keyed by
/// `(provider, owner, repository, ref)`, holding resolved commit identifiers.
pub type ResolutionCache = Cache<Key, String>;

/// A request path parsed from the inbound route: owner, repository, the
/// commit-like ref segment, and the file path below it.
#[derive(Debug)]
pub struct FilePath {
    pub user: String,
    pub repo: String,
    pub commit: String,
    pub file: String,
}

/// The four path segments joined with `/`.
pub open spec fn spec_joined_path(
    u: Seq<char>,
    r: Seq<char>,
    c: Seq<char>,
    f: Seq<char>,
) -> Seq<char> {
    u + "/"@ + r + "/"@ + c + "/"@ + f
}

impl FilePath {
    /// The joined `{user}/{repo}/{commit}/{file}` path, as it appears behind
    /// the provider segment of a route.
    pub fn path(&self) -> (r: String)
        ensures
            r@ == spec_joined_path(self.user@, self.repo@, self.commit@, self.file@),
    {
        let mut r = String::new();
        r.append(self.user.as_str());
        r.append("/");
        r.append(self.repo.as_str());
        r.append("/");
        r.append(self.commit.as_str());
        r.append("/");
        r.append(self.file.as_str());
        proof {
            assert(r@ =~= spec_joined_path(self.user@, self.repo@, self.commit@, self.file@));
        }
        r
    }

    /// The cache key this request resolves under: the provider and the
    /// mutable ref, without the file component.
    pub fn to_key(&self, provider: Provider) -> (k: Key)
        ensures
            k.deep_view() == (provider, self.user@, self.repo@, self.commit@),
    {
        Key::new(provider, self.user.clone(), self.repo.clone(), self.commit.clone())
    }
}

} // verus!

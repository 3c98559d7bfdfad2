//! Per-provider URL templates. Each upstream service exposes three
//! deterministic templates — the raw-file URL, the API URL for the first
//! resolution call, and the client-facing redirect path — plus, for the
//! two-step provider, the branch-metadata URL of the second call.

use vstd::prelude::*;
use crate::data::{FilePath, Provider};

verus! {

/// Relies on `String::push`: appends the given character at the end of the
/// string.
#[verifier::external_body]
fn push_char(s: &mut String, c: char)
    ensures
        final(s)@ == old(s)@.push(c),
{
    s.push(c);
}

/// The route segment naming a provider.
pub open spec fn spec_path_segment(p: Provider) -> Seq<char> {
    match p {
        Provider::GitHub => "github"@,
        Provider::GitLab => "gitlab"@,
        Provider::Bitbucket => "bitbucket"@,
    }
}

/// The raw-file URL for a commit-pinned file at a provider.
pub open spec fn spec_raw_url(
    p: Provider,
    user: Seq<char>,
    repo: Seq<char>,
    commit: Seq<char>,
    file: Seq<char>,
) -> Seq<char> {
    match p {
        Provider::GitHub => "https://raw.githubusercontent.com/"@ + user + "/"@ + repo + "/"@
            + commit + "/"@ + file,
        Provider::GitLab => "https://gitlab.com/"@ + user + "/"@ + repo + "/raw/"@ + commit + "/"@
            + file,
        Provider::Bitbucket => "https://bitbucket.org/"@ + user + "/"@ + repo + "/raw/"@ + commit
            + "/"@ + file,
    }
}

/// The client-facing redirect path: the immutable-file route for the
/// resolved commit.
pub open spec fn spec_redirect_url(
    p: Provider,
    user: Seq<char>,
    repo: Seq<char>,
    commit: Seq<char>,
    file: Seq<char>,
) -> Seq<char> {
    "/"@ + spec_path_segment(p) + "/"@ + user + "/"@ + repo + "/"@ + commit + "/"@ + file
}

/// `s` with every `/` replaced by its percent-encoding, so that an
/// owner/repository pair fits in a single path segment.
pub open spec fn spec_encode_slash(s: Seq<char>) -> Seq<char>
    decreases s.len(),
{
    if s.len() == 0 {
        Seq::empty()
    } else {
        (if s[0] == '/' {
            "%2F"@
        } else {
            seq![s[0]]
        }) + spec_encode_slash(s.drop_first())
    }
}

/// The API URL of the first (or only) resolution call for a mutable ref.
/// `auth` is the query string appended for the provider that supports an
/// optional client credential; the other providers ignore it.
pub open spec fn spec_api_url(
    p: Provider,
    user: Seq<char>,
    repo: Seq<char>,
    commit: Seq<char>,
    auth: Seq<char>,
) -> Seq<char> {
    match p {
        Provider::GitHub => "https://api.github.com/repos/"@ + user + "/"@ + repo + "/commits/"@
            + commit + auth,
        Provider::GitLab => "https://gitlab.com/api/v4/projects/"@ + spec_encode_slash(
            user + "/"@ + repo,
        ),
        Provider::Bitbucket => "https://api.bitbucket.org/2.0/repositories/"@ + user + "/"@ + repo
            + "/commits/"@ + commit + "?pagelen=1"@,
    }
}

/// The decimal digit character for `d` (which must be below ten).
pub open spec fn spec_digit_char(d: nat) -> char {
    ((48 + d) as u8) as char
}

/// The decimal rendering of `n`, most significant digit first, without
/// leading zeroes (a single `0` for zero).
pub open spec fn spec_u64_digits(n: nat) -> Seq<char>
    decreases n,
{
    if n < 10 {
        seq![spec_digit_char(n)]
    } else {
        spec_u64_digits(n / 10).push(spec_digit_char(n % 10))
    }
}

/// The branch-metadata URL of the second resolution call at the two-step
/// provider, for a numeric project id and a ref.
pub open spec fn spec_branch_api_url(project: nat, commit: Seq<char>) -> Seq<char> {
    "https://gitlab.com/api/v4/projects/"@ + spec_u64_digits(project) + "/repository/branches/"@
        + commit
}

/// The raw URL of a gist file.
pub open spec fn spec_gist_raw_url(
    user: Seq<char>,
    repo: Seq<char>,
    commit: Seq<char>,
    file: Seq<char>,
) -> Seq<char> {
    "https://gist.github.com/"@ + user + "/"@ + repo + "/raw/"@ + commit + "/"@ + file
}

/// The optional client-credential query string: present exactly when both
/// the client id and the client secret are configured.
pub open spec fn spec_auth_query(id: Seq<char>, secret: Seq<char>) -> Seq<char> {
    "?client_id="@ + id + "&client_secret="@ + secret
}

proof fn lemma_encode_push(s: Seq<char>, c: char)
    ensures
        spec_encode_slash(s.push(c)) == spec_encode_slash(s) + (if c == '/' {
            "%2F"@
        } else {
            seq![c]
        }),
    decreases s.len(),
{
    let enc1 = if c == '/' {
        "%2F"@
    } else {
        seq![c]
    };
    if s.len() == 0 {
        assert(s.push(c).len() == 1);
        assert(s.push(c)[0] == c);
        assert(s.push(c).drop_first() =~= Seq::<char>::empty());
        assert(s.push(c).drop_first().len() == 0);
        assert(spec_encode_slash(s.push(c).drop_first()) =~= Seq::<char>::empty());
        assert(spec_encode_slash(s.push(c)) == enc1 + spec_encode_slash(s.push(c).drop_first()));
        assert(spec_encode_slash(s) =~= Seq::<char>::empty());
        assert(spec_encode_slash(s.push(c)) =~= spec_encode_slash(s) + enc1);
    } else {
        let head = if s[0] == '/' {
            "%2F"@
        } else {
            seq![s[0]]
        };
        assert(s.push(c)[0] == s[0]);
        assert(s.push(c).len() == s.len() + 1);
        assert(s.push(c).drop_first() =~= s.drop_first().push(c));
        lemma_encode_push(s.drop_first(), c);
        assert(spec_encode_slash(s.push(c)) == head + spec_encode_slash(s.drop_first().push(c)));
        assert(spec_encode_slash(s) == head + spec_encode_slash(s.drop_first()));
        assert(spec_encode_slash(s.push(c)) =~= spec_encode_slash(s) + enc1);
    }
}

/// Replaces every `/` in `s` by `%2F`.
fn encode_slashes(s: &str) -> (r: String)
    ensures
        r@ == spec_encode_slash(s@),
{
    let n = s.unicode_len();
    let mut r = String::new();
    let mut i: usize = 0;
    proof {
        assert(s@.take(0) =~= Seq::<char>::empty());
    }
    while i < n
        invariant
            n == s@.len(),
            i <= n,
            r@ == spec_encode_slash(s@.take(i as int)),
        decreases n - i,
    {
        let ghost r0 = r@;
        let c = s.get_char(i);
        if c == '/' {
            r.append("%2F");
        } else {
            push_char(&mut r, c);
            proof {
                assert(r@ =~= r0 + seq![c]);
            }
        }
        proof {
            assert(s@.take(i + 1) =~= s@.take(i as int).push(s@[i as int]));
            lemma_encode_push(s@.take(i as int), s@[i as int]);
        }
        i += 1;
    }
    proof {
        assert(s@.take(n as int) =~= s@);
    }
    r
}

/// Renders `n` in decimal.
fn u64_to_string(n: u64) -> (r: String)
    ensures
        r@ == spec_u64_digits(n as nat),
    decreases n,
{
    let d = (n % 10) as u8;
    let c = (48 + d) as char;
    proof {
        assert(c == spec_digit_char((n % 10) as nat));
    }
    if n < 10 {
        let mut r = String::new();
        push_char(&mut r, c);
        proof {
            assert(r@ =~= seq![spec_digit_char(n as nat)]);
        }
        r
    } else {
        assert(n / 10 < n);
        let mut r = u64_to_string(n / 10);
        push_char(&mut r, c);
        r
    }
}

/// The branch-metadata URL of the second resolution call at the two-step
/// provider.
pub fn branch_api_url(project: u64, commit: &str) -> (r: String)
    ensures
        r@ == spec_branch_api_url(project as nat, commit@),
{
    let mut r = String::new();
    r.append("https://gitlab.com/api/v4/projects/");
    let digits = u64_to_string(project);
    r.append(digits.as_str());
    r.append("/repository/branches/");
    r.append(commit);
    proof {
        assert(r@ =~= spec_branch_api_url(project as nat, commit@));
    }
    r
}

/// The raw URL of a gist file.
pub fn gist_raw_url(user: &str, repo: &str, commit: &str, file: &str) -> (r: String)
    ensures
        r@ == spec_gist_raw_url(user@, repo@, commit@, file@),
{
    let mut r = String::new();
    r.append("https://gist.github.com/");
    r.append(user);
    r.append("/");
    r.append(repo);
    r.append("/raw/");
    r.append(commit);
    r.append("/");
    r.append(file);
    proof {
        assert(r@ =~= spec_gist_raw_url(user@, repo@, commit@, file@));
    }
    r
}

/// The optional client-credential query string for the provider that
/// supports one: `Some` exactly when both halves are configured.
pub fn github_auth_query(id: Option<&str>, secret: Option<&str>) -> (r: Option<String>)
    ensures
        match (id, secret) {
            (Some(i), Some(s)) => r matches Some(q) && q@ == spec_auth_query(i@, s@),
            _ => r is None,
        },
{
    match (id, secret) {
        (Some(i), Some(s)) => {
            let mut q = String::new();
            q.append("?client_id=");
            q.append(i);
            q.append("&client_secret=");
            q.append(s);
            proof {
                assert(q@ =~= spec_auth_query(i@, s@));
            }
            Some(q)
        },
        _ => None,
    }
}

impl Provider {
    /// The route segment naming this provider.
    pub fn path(&self) -> (r: &'static str)
        ensures
            r@ == spec_path_segment(*self),
    {
        match self {
            Provider::GitHub => "github",
            Provider::GitLab => "gitlab",
            Provider::Bitbucket => "bitbucket",
        }
    }

    /// The `Accept` header the first resolution call must carry, if any: the
    /// single-step text provider answers with a bare commit identifier only
    /// under its dedicated media type.
    pub fn api_accept(&self) -> (r: Option<&'static str>)
        ensures
            match r {
                Some(a) => *self is GitHub && a@ == "application/vnd.github.3.sha"@,
                None => !(*self is GitHub),
            },
    {
        match self {
            Provider::GitHub => Some("application/vnd.github.3.sha"),
            Provider::GitLab => None,
            Provider::Bitbucket => None,
        }
    }

    /// The raw-file URL for a commit-pinned file.
    pub fn raw_url(&self, user: &str, repo: &str, commit: &str, file: &str) -> (r: String)
        ensures
            r@ == spec_raw_url(*self, user@, repo@, commit@, file@),
    {
        let mut r = String::new();
        match self {
            Provider::GitHub => {
                r.append("https://raw.githubusercontent.com/");
                r.append(user);
                r.append("/");
                r.append(repo);
                r.append("/");
                r.append(commit);
                r.append("/");
                r.append(file);
            },
            Provider::GitLab => {
                r.append("https://gitlab.com/");
                r.append(user);
                r.append("/");
                r.append(repo);
                r.append("/raw/");
                r.append(commit);
                r.append("/");
                r.append(file);
            },
            Provider::Bitbucket => {
                r.append("https://bitbucket.org/");
                r.append(user);
                r.append("/");
                r.append(repo);
                r.append("/raw/");
                r.append(commit);
                r.append("/");
                r.append(file);
            },
        }
        proof {
            assert(r@ =~= spec_raw_url(*self, user@, repo@, commit@, file@));
        }
        r
    }

    /// The client-facing redirect path for the resolved commit.
    pub fn redirect_url(&self, user: &str, repo: &str, commit: &str, file: &str) -> (r: String)
        ensures
            r@ == spec_redirect_url(*self, user@, repo@, commit@, file@),
    {
        let mut r = String::new();
        r.append("/");
        r.append(self.path());
        r.append("/");
        r.append(user);
        r.append("/");
        r.append(repo);
        r.append("/");
        r.append(commit);
        r.append("/");
        r.append(file);
        proof {
            assert(r@ =~= spec_redirect_url(*self, user@, repo@, commit@, file@));
        }
        r
    }

    /// The API URL of the first resolution call for a mutable ref. `auth` is
    /// appended verbatim for the provider with optional client credentials
    /// (hand an empty string when none are configured); the other providers
    /// ignore it.
    pub fn api_url(&self, path: &FilePath, auth: &str) -> (r: String)
        ensures
            r@ == spec_api_url(*self, path.user@, path.repo@, path.commit@, auth@),
    {
        let mut r = String::new();
        match self {
            Provider::GitHub => {
                r.append("https://api.github.com/repos/");
                r.append(path.user.as_str());
                r.append("/");
                r.append(path.repo.as_str());
                r.append("/commits/");
                r.append(path.commit.as_str());
                r.append(auth);
            },
            Provider::GitLab => {
                let mut joined = String::new();
                joined.append(path.user.as_str());
                joined.append("/");
                joined.append(path.repo.as_str());
                let encoded = encode_slashes(joined.as_str());
                r.append("https://gitlab.com/api/v4/projects/");
                r.append(encoded.as_str());
            },
            Provider::Bitbucket => {
                r.append("https://api.bitbucket.org/2.0/repositories/");
                r.append(path.user.as_str());
                r.append("/");
                r.append(path.repo.as_str());
                r.append("/commits/");
                r.append(path.commit.as_str());
                r.append("?pagelen=1");
            },
        }
        proof {
            assert(r@ =~= spec_api_url(*self, path.user@, path.repo@, path.commit@, auth@));
        }
        r
    }
}

} // verus!

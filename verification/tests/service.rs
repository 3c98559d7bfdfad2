use yagcdn::cdn::{purge_endpoint, purge_targets};
use yagcdn::data::{FilePath, Provider};
use yagcdn::service::{branch_api_url, gist_raw_url, github_auth_query};

fn sample_path() -> FilePath {
    FilePath {
        user: "vbrandl".to_string(),
        repo: "yagcdn".to_string(),
        commit: "master".to_string(),
        file: "Cargo.toml".to_string(),
    }
}

#[test]
fn raw_urls_per_provider() {
    assert_eq!(
        "https://raw.githubusercontent.com/vbrandl/yagcdn/master/Cargo.toml",
        Provider::GitHub.raw_url("vbrandl", "yagcdn", "master", "Cargo.toml")
    );
    assert_eq!(
        "https://gitlab.com/vbrandl/hoc/raw/master/Cargo.toml",
        Provider::GitLab.raw_url("vbrandl", "hoc", "master", "Cargo.toml")
    );
    assert_eq!(
        "https://bitbucket.org/vbrandl/vbrandl.net/raw/master/README.md",
        Provider::Bitbucket.raw_url("vbrandl", "vbrandl.net", "master", "README.md")
    );
}

#[test]
fn redirect_urls_per_provider() {
    assert_eq!(
        "/github/vbrandl/yagcdn/f1b35e7c05b952be6de559051d7daad2ecf05369/Cargo.toml",
        Provider::GitHub.redirect_url(
            "vbrandl",
            "yagcdn",
            "f1b35e7c05b952be6de559051d7daad2ecf05369",
            "Cargo.toml"
        )
    );
    assert_eq!(
        "/gitlab/vbrandl/hoc/abc/Cargo.toml",
        Provider::GitLab.redirect_url("vbrandl", "hoc", "abc", "Cargo.toml")
    );
    assert_eq!(
        "/bitbucket/vbrandl/vbrandl.net/abc/README.md",
        Provider::Bitbucket.redirect_url("vbrandl", "vbrandl.net", "abc", "README.md")
    );
}

#[test]
fn api_urls_per_provider() {
    let path = sample_path();
    assert_eq!(
        "https://api.github.com/repos/vbrandl/yagcdn/commits/master",
        Provider::GitHub.api_url(&path, "")
    );
    assert_eq!(
        "https://api.github.com/repos/vbrandl/yagcdn/commits/master?client_id=i&client_secret=s",
        Provider::GitHub.api_url(&path, "?client_id=i&client_secret=s")
    );
    let bb = FilePath {
        user: "vbrandl".to_string(),
        repo: "vbrandl.net".to_string(),
        commit: "master".to_string(),
        file: "README.md".to_string(),
    };
    assert_eq!(
        "https://api.bitbucket.org/2.0/repositories/vbrandl/vbrandl.net/commits/master?pagelen=1",
        Provider::Bitbucket.api_url(&bb, "")
    );
    let gl = FilePath {
        user: "vbrandl".to_string(),
        repo: "hoc".to_string(),
        commit: "master".to_string(),
        file: "Cargo.toml".to_string(),
    };
    // the owner/repository slug is a single, percent-encoded path segment
    assert_eq!(
        "https://gitlab.com/api/v4/projects/vbrandl%2Fhoc",
        Provider::GitLab.api_url(&gl, "")
    );
}

#[test]
fn branch_api_url_renders_project_id() {
    assert_eq!(
        "https://gitlab.com/api/v4/projects/1234/repository/branches/master",
        branch_api_url(1234, "master")
    );
    assert_eq!(
        "https://gitlab.com/api/v4/projects/0/repository/branches/dev",
        branch_api_url(0, "dev")
    );
    assert_eq!(
        "https://gitlab.com/api/v4/projects/18446744073709551615/repository/branches/b",
        branch_api_url(u64::MAX, "b")
    );
}

#[test]
fn gist_url() {
    assert_eq!(
        "https://gist.github.com/u/r/raw/c/f.txt",
        gist_raw_url("u", "r", "c", "f.txt")
    );
}

#[test]
fn api_accept_only_for_github() {
    assert_eq!(Some("application/vnd.github.3.sha"), Provider::GitHub.api_accept());
    assert_eq!(None, Provider::GitLab.api_accept());
    assert_eq!(None, Provider::Bitbucket.api_accept());
}

#[test]
fn provider_path_segments() {
    assert_eq!("github", Provider::GitHub.path());
    assert_eq!("gitlab", Provider::GitLab.path());
    assert_eq!("bitbucket", Provider::Bitbucket.path());
}

#[test]
fn auth_query_needs_both_halves() {
    assert_eq!(None, github_auth_query(None, None));
    assert_eq!(None, github_auth_query(Some("id"), None));
    assert_eq!(None, github_auth_query(None, Some("secret")));
    assert_eq!(
        Some("?client_id=id&client_secret=secret".to_string()),
        github_auth_query(Some("id"), Some("secret"))
    );
}

#[test]
fn joined_path_and_key() {
    let path = sample_path();
    assert_eq!("vbrandl/yagcdn/master/Cargo.toml", path.path());
}

#[test]
fn purge_endpoint_url() {
    assert_eq!(
        "https://api.cloudflare.com/client/v4/zones/zone1/purge_cache",
        purge_endpoint("zone1")
    );
}

#[test]
fn purge_target_list_is_a_singleton() {
    let path = sample_path();
    let targets = purge_targets("yagcdn.tk", Provider::GitHub, &path);
    assert_eq!(1, targets.len());
    assert_eq!(
        "https://yagcdn.tk/github/vbrandl/yagcdn/master/Cargo.toml",
        targets[0]
    );
}

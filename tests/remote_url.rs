use git_clean::remote::parse_git_url;
use git_clean::run::repository_identity;
use git_clean::error::Error;

#[test]
fn parses_ssh_remote() {
    assert_eq!(parse_git_url("git@github.com:coriolinus/counter_rs.git"), Some(("coriolinus", "counter_rs")));
}

#[test]
fn parses_https_remote() {
    assert_eq!(parse_git_url("https://github.com/rust_lang/cargo.git"), Some(("rust_lang", "cargo")));
}

#[test]
fn parses_other_host() {
    assert_eq!(parse_git_url("git@gitlab.example.org:team_1/tool9.git"), Some(("team_1", "tool9")));
    assert_eq!(parse_git_url("https://git-host.example/a/b.git"), Some(("a", "b")));
}

#[test]
fn rejects_missing_git_suffix() {
    assert_eq!(parse_git_url("git@github.com:owner/repo"), None);
    assert_eq!(parse_git_url("https://github.com/owner/repo"), None);
    assert_eq!(parse_git_url("https://github.com/owner/repo.gi"), None);
}

#[test]
fn rejects_non_word_segments() {
    assert_eq!(parse_git_url("git@github.com:coriolinus/counter-rs.git"), None);
    assert_eq!(parse_git_url("https://github.com/some-owner/repo.git"), None);
    assert_eq!(parse_git_url("https://github.com/owner/re.po.git"), None);
}

#[test]
fn rejects_other_shapes() {
    assert_eq!(parse_git_url(""), None);
    assert_eq!(parse_git_url(".git"), None);
    assert_eq!(parse_git_url("http://github.com/owner/repo.git"), None);
    assert_eq!(parse_git_url("git@:owner/repo.git"), None);
    assert_eq!(parse_git_url("https:///owner/repo.git"), None);
    assert_eq!(parse_git_url("ssh://git@github.com/owner/repo.git"), None);
    assert_eq!(parse_git_url("git@github.com/owner/repo.git"), None);
    assert_eq!(parse_git_url("https://github.com:owner/repo.git"), None);
    assert_eq!(parse_git_url("https://host.example:8443/owner/repo.git"), None);
    assert_eq!(parse_git_url("https://github.com/x/owner/repo.git"), None);
}

#[test]
fn identity_from_url() {
    let id = repository_identity(Some("git@github.com:owner/repo.git")).unwrap();
    assert_eq!(id.owner, "owner");
    assert_eq!(id.name, "repo");
    assert!(matches!(repository_identity(None), Err(Error::RemoteUrlNotUtf8)));
    assert!(matches!(
        repository_identity(Some("https://github.com/owner/repo")),
        Err(Error::RemoteUrlNotGithub)
    ));
}

#[test]
fn parses_unicode_word_segments() {
    assert_eq!(parse_git_url("git@github.com:é/x.git"), Some(("é", "x")));
    assert_eq!(parse_git_url("https://github.com/é/x.git"), Some(("é", "x")));
    assert_eq!(parse_git_url("https://example.org/Łódź_2/данные.git"), Some(("Łódź_2", "данные")));
    assert_eq!(parse_git_url("https://example.org/a b/x.git"), None);
    assert_eq!(parse_git_url("https://example.org/a€/x.git"), None);
}

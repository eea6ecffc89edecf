use dothub::github::{parse_github_owner_repo, GithubRef};
use dothub::ranking::derive_repo_name;

fn gh(owner: &str, repo: &str) -> Option<GithubRef> {
    Some(GithubRef { owner: owner.to_string(), repo: repo.to_string() })
}

#[test]
fn https_url_resolves_to_owner_and_repo() {
    assert_eq!(parse_github_owner_repo("https://github.com/acme/tool"), gh("acme", "tool"));
}

#[test]
fn ssh_url_resolves_to_owner_and_repo() {
    assert_eq!(parse_github_owner_repo("git@github.com:acme/tool.git"), gh("acme", "tool"));
}

#[test]
fn ssh_url_is_read_in_lowercase() {
    assert_eq!(parse_github_owner_repo("git@GitHub.com:Acme/Tool.git"), gh("acme", "tool"));
}

#[test]
fn ssh_url_with_owner_only() {
    assert_eq!(parse_github_owner_repo("git@github.com:acme"), gh("acme", "acme"));
}

#[test]
fn owner_only_url_uses_owner_as_repo() {
    assert_eq!(parse_github_owner_repo("https://github.com/acme"), gh("acme", "acme"));
}

#[test]
fn non_github_url_resolves_to_none() {
    assert_eq!(parse_github_owner_repo("https://gitlab.com/acme/tool"), None);
}

#[test]
fn github_mentioned_on_other_host_resolves_to_none() {
    assert_eq!(parse_github_owner_repo("https://example.com/github.com/tool"), None);
}

#[test]
fn unparsable_non_ssh_url_resolves_to_none() {
    assert_eq!(parse_github_owner_repo("github.com/acme/tool"), None);
}

#[test]
fn resolution_is_deterministic() {
    let a = parse_github_owner_repo("https://github.com/acme/tool");
    let b = parse_github_owner_repo("https://github.com/acme/tool");
    assert_eq!(a, b);
}

#[test]
fn git_suffix_is_stripped() {
    assert_eq!(parse_github_owner_repo("https://github.com/acme/tool.git"), gh("acme", "tool"));
}

#[test]
fn one_trailing_dot_is_stripped() {
    assert_eq!(parse_github_owner_repo("https://github.com/acme/tool."), gh("acme", "tool"));
}

#[test]
fn extra_path_segments_are_ignored() {
    assert_eq!(parse_github_owner_repo("https://github.com/acme/tool/tree/main"), gh("acme", "tool"));
}

#[test]
fn https_url_keeps_case_of_path() {
    assert_eq!(parse_github_owner_repo("https://GitHub.com/Acme/Tool"), gh("Acme", "Tool"));
}

#[test]
fn repo_name_is_last_segment() {
    assert_eq!(derive_repo_name("https://github.com/acme/tool"), "tool");
}

#[test]
fn repo_name_drops_trailing_slash_and_git() {
    assert_eq!(derive_repo_name("https://github.com/acme/tool.git/"), "tool");
    assert_eq!(derive_repo_name("https://github.com/acme/tool.git.git"), "tool");
}

#[test]
fn repo_name_of_ssh_url() {
    assert_eq!(derive_repo_name("git@github.com:acme/tool.git"), "tool");
}

#[test]
fn repo_name_without_slash_is_whole_text() {
    assert_eq!(derive_repo_name("tool"), "tool");
    assert_eq!(derive_repo_name(""), "");
    assert_eq!(derive_repo_name("https://github.com/"), "github.com");
}

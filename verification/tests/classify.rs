use rust_digger::get_owner_and_repo;

#[test]
fn test_get_owner_and_repo() {
    assert_eq!(
        get_owner_and_repo("https://github.com/szabgab/rust-digger"),
        (
            "github".to_string(),
            "szabgab".to_string(),
            "rust-digger".to_string()
        )
    );
    assert_eq!(
        get_owner_and_repo("https://github.com/szabgab/rust-digger/"),
        (
            "github".to_string(),
            "szabgab".to_string(),
            "rust-digger".to_string()
        )
    );
    assert_eq!(
        get_owner_and_repo(
            "https://github.com/crypto-crawler/crypto-crawler-rs/tree/main/crypto-market-type"
        ),
        (
            "github".to_string(),
            "crypto-crawler".to_string(),
            "crypto-crawler-rs".to_string()
        )
    );
    assert_eq!(
        get_owner_and_repo("https://gitlab.com/szabgab/rust-digger"),
        (
            "gitlab".to_string(),
            "szabgab".to_string(),
            "rust-digger".to_string()
        )
    );
    assert_eq!(
        get_owner_and_repo("https://gitlab.com/Szabgab/Rust-digger/"),
        (
            "gitlab".to_string(),
            "szabgab".to_string(),
            "rust-digger".to_string()
        )
    );
}

fn empty_triple() -> (String, String, String) {
    (String::new(), String::new(), String::new())
}

fn triple(host: &str, owner: &str, repo: &str) -> (String, String, String) {
    (host.to_string(), owner.to_string(), repo.to_string())
}

#[test]
fn address_of_another_site_is_unclassified() {
    assert_eq!(get_owner_and_repo("https://zorg.com/foo/bar"), empty_triple());
    assert_eq!(get_owner_and_repo("https://codeberg.org/foo/bar"), empty_triple());
    assert_eq!(get_owner_and_repo(""), empty_triple());
    assert_eq!(get_owner_and_repo("github.com/foo/bar"), empty_triple());
}

#[test]
fn address_must_begin_with_the_site() {
    assert_eq!(get_owner_and_repo("http://github.com/foo/bar"), empty_triple());
    assert_eq!(get_owner_and_repo(" https://github.com/foo/bar"), empty_triple());
    assert_eq!(get_owner_and_repo("https://www.github.com/foo/bar"), empty_triple());
    assert_eq!(get_owner_and_repo("https://GitHub.com/foo/bar"), empty_triple());
    assert_eq!(get_owner_and_repo("https://githubxcom/foo/bar"), empty_triple());
}

#[test]
fn address_needs_owner_and_repository() {
    assert_eq!(get_owner_and_repo("https://github.com/"), empty_triple());
    assert_eq!(get_owner_and_repo("https://github.com/foo"), empty_triple());
    assert_eq!(get_owner_and_repo("https://github.com/foo/"), empty_triple());
    assert_eq!(get_owner_and_repo("https://github.com//bar"), empty_triple());
    assert_eq!(get_owner_and_repo("https://github.com/foo//bar"), empty_triple());
    assert_eq!(
        get_owner_and_repo("https://github.com/f/b"),
        triple("github", "f", "b")
    );
}

#[test]
fn what_follows_the_repository_is_left_out() {
    let expected = triple("gitlab", "foo", "bar");
    assert_eq!(get_owner_and_repo("https://gitlab.com/foo/bar"), expected);
    assert_eq!(get_owner_and_repo("https://gitlab.com/foo/bar/"), expected);
    assert_eq!(get_owner_and_repo("https://gitlab.com/foo/bar//"), expected);
    assert_eq!(
        get_owner_and_repo("https://gitlab.com/foo/bar/-/tree/main"),
        expected
    );
    assert_eq!(
        get_owner_and_repo("https://gitlab.com/foo/bar.git"),
        triple("gitlab", "foo", "bar.git")
    );
}

#[test]
fn owner_and_repository_are_lower_cased() {
    assert_eq!(
        get_owner_and_repo("https://github.com/FooBar/BAZ-Qux_1"),
        triple("github", "foobar", "baz-qux_1")
    );
    assert_eq!(
        get_owner_and_repo("https://github.com/ÄÖ/Ünïcode"),
        triple("github", "äö", "ünïcode")
    );
}

#[test]
fn classifier_agrees_with_the_pattern() {
    let pattern = regex::Regex::new("^https://(github|gitlab).com/([^/]+)/([^/]+)/?.*$").unwrap();
    let addresses = [
        "https://github.com/szabgab/rust-digger",
        "https://github.com/szabgab/rust-digger/",
        "https://github.com/Owner/Repo/tree/main/sub-dir",
        "https://gitlab.com/a/b",
        "https://gitlab.com/a/b/c/d/e",
        "https://gitlab.com/a",
        "https://gitlab.com/a/",
        "https://gitlab.com//b",
        "https://github.com/",
        "https://github.com",
        "https://example.com/x",
        "https://bitbucket.org/a/b",
        "http://github.com/a/b",
        "https://github.com/a b/c d",
        "https://github.com/a/b?tab=readme",
        "https://github.com/a/b#readme",
        "git@github.com:a/b.git",
        "",
    ];
    for address in addresses {
        let expected = match pattern.captures(address) {
            Some(found) => (
                found[1].to_lowercase(),
                found[2].to_lowercase(),
                found[3].to_lowercase(),
            ),
            None => empty_triple(),
        };
        assert_eq!(get_owner_and_repo(address), expected, "{}", address);
    }
}

use std::path::PathBuf;

use rust_digger::{build_path, get_details_path, repo_details_root};

#[test]
fn test_get_details_path() {
    let expected = PathBuf::from(repo_details_root())
        .join("github")
        .join("foo")
        .join("bar.json");
    assert_eq!(
        PathBuf::from(get_details_path("https://github.com/foo/bar").expect("X")).as_path(),
        expected
    );

    assert_eq!(
        PathBuf::from(get_details_path("https://github.com/foo/bar/baz").expect("X")).as_path(),
        expected
    );
    assert_eq!(get_details_path("https://zorg.com/foo/bar"), None);
}

#[test]
fn check_build_path() {
    let path = build_path(String::from("root"), &[], None);
    assert_eq!(PathBuf::from(path), PathBuf::from("root"));

    let path = build_path(String::from("root"), &[], Some("rs"));
    assert_eq!(PathBuf::from(path), PathBuf::from("root.rs"));

    let path = build_path(String::from("root"), &["one", "two"], None);
    let mut expected = PathBuf::from("root").join("one").join("two");
    assert_eq!(PathBuf::from(path), expected);

    let path = build_path(String::from("root"), &["one", "two"], Some("html"));
    expected.set_extension("html");
    assert_eq!(PathBuf::from(path), expected);
}

#[test]
fn folders_of_the_store() {
    assert_eq!(rust_digger::get_repos_folder(), "repos");
    assert_eq!(repo_details_root(), "repo-details");
    assert_eq!(rust_digger::collected_data_root(), "collected-data");
}

#[test]
fn details_path_is_written_out() {
    assert_eq!(
        get_details_path("https://github.com/foo/bar"),
        Some("repo-details/github/foo/bar.json".to_string())
    );
    assert_eq!(
        get_details_path("https://gitlab.com/Foo/Bar/-/issues"),
        Some("repo-details/gitlab/foo/bar.json".to_string())
    );
}

#[test]
fn details_path_keeps_points_in_the_name() {
    assert_eq!(
        get_details_path("https://github.com/foo/bar.rs"),
        Some("repo-details/github/foo/bar.rs.json".to_string())
    );
    assert_ne!(
        get_details_path("https://github.com/foo/bar.rs"),
        get_details_path("https://github.com/foo/bar")
    );
}

#[test]
fn unclassified_address_has_no_path() {
    assert_eq!(get_details_path("https://zorg.com/foo/bar"), None);
    assert_eq!(get_details_path("https://github.com/foo"), None);
    assert_eq!(get_details_path(""), None);
}

#[test]
fn different_repositories_have_different_paths() {
    let addresses = [
        "https://github.com/a/b",
        "https://gitlab.com/a/b",
        "https://github.com/b/a",
        "https://github.com/a/bb",
        "https://github.com/aa/b",
        "https://github.com/a/b.json",
    ];
    for (i, one) in addresses.iter().enumerate() {
        for (j, other) in addresses.iter().enumerate() {
            if i != j {
                assert_ne!(get_details_path(one), get_details_path(other));
            }
        }
    }
    assert_eq!(
        get_details_path("https://github.com/A/B/"),
        get_details_path("https://github.com/a/b")
    );
}

fn some_details() -> rust_digger::Details {
    rust_digger::Details {
        has_github_action: true,
        has_gitlab_pipeline: false,
        commit_count: 42,
        cargo_toml_in_root: true,
        cargo_fmt: "rustfmt 1.5".to_string(),
        git_clone_error: "".to_string(),
        has_rustfmt_toml: true,
        has_dot_rustfmt_toml: false,
        edition: "2021".to_string(),
        rust_version: "1.70".to_string(),
    }
}

fn assert_same_details(one: &rust_digger::Details, other: &rust_digger::Details) {
    assert_eq!(one.has_github_action, other.has_github_action);
    assert_eq!(one.has_gitlab_pipeline, other.has_gitlab_pipeline);
    assert_eq!(one.commit_count, other.commit_count);
    assert_eq!(one.cargo_toml_in_root, other.cargo_toml_in_root);
    assert_eq!(one.cargo_fmt, other.cargo_fmt);
    assert_eq!(one.git_clone_error, other.git_clone_error);
    assert_eq!(one.has_rustfmt_toml, other.has_rustfmt_toml);
    assert_eq!(one.has_dot_rustfmt_toml, other.has_dot_rustfmt_toml);
    assert_eq!(one.edition, other.edition);
    assert_eq!(one.rust_version, other.rust_version);
}

#[test]
fn save_plans_folders_and_file() {
    let plan = rust_digger::save_details("https://github.com/Foo/Bar/tree/main", &some_details());
    assert_eq!(
        plan.folders,
        vec![
            "repo-details".to_string(),
            "repo-details/github".to_string(),
            "repo-details/gitlab".to_string(),
            "repo-details/github/foo".to_string(),
        ]
    );
    assert_eq!(plan.file, Some("repo-details/github/foo/bar.json".to_string()));
    assert_same_details(&plan.record.into_details(), &some_details());
}

#[test]
fn save_of_unclassified_address_writes_nothing() {
    let plan = rust_digger::save_details("https://zorg.com/foo/bar", &some_details());
    assert_eq!(
        plan.folders,
        vec![
            "repo-details".to_string(),
            "repo-details/github".to_string(),
            "repo-details/gitlab".to_string(),
        ]
    );
    assert_eq!(plan.file, None);
}

#[test]
fn load_gives_back_what_was_saved() {
    let address = "https://gitlab.com/foo/bar";
    let plan = rust_digger::save_details(address, &some_details());
    assert_eq!(plan.file, get_details_path(address));
    let loaded = rust_digger::load_details(address, rust_digger::StoreEntry::Record(plan.record));
    assert_same_details(&loaded, &some_details());
}

#[test]
fn load_without_a_record_knows_nothing() {
    let address = "https://gitlab.com/foo/bar";
    let nothing = rust_digger::Details::new();
    assert_same_details(
        &rust_digger::load_details(address, rust_digger::StoreEntry::Missing),
        &nothing,
    );
    assert_same_details(
        &rust_digger::load_details(address, rust_digger::StoreEntry::Unreadable),
        &nothing,
    );
    assert_same_details(
        &rust_digger::load_details(address, rust_digger::StoreEntry::Malformed),
        &nothing,
    );
    let record = rust_digger::StoredDetails::from_details(&some_details());
    assert_same_details(
        &rust_digger::load_details(
            "https://zorg.com/foo/bar",
            rust_digger::StoreEntry::Record(record),
        ),
        &nothing,
    );
}

#[test]
fn load_fills_in_what_an_old_record_lacks() {
    let record = rust_digger::StoredDetails {
        has_github_action: true,
        has_gitlab_pipeline: true,
        commit_count: 7,
        cargo_toml_in_root: true,
        cargo_fmt: "fmt".to_string(),
        git_clone_error: None,
        has_rustfmt_toml: None,
        has_dot_rustfmt_toml: None,
        edition: None,
        rust_version: None,
    };
    let loaded = rust_digger::load_details(
        "https://github.com/foo/bar",
        rust_digger::StoreEntry::Record(record),
    );
    assert!(loaded.has_github_action);
    assert!(loaded.has_gitlab_pipeline);
    assert_eq!(loaded.commit_count, 7);
    assert!(loaded.cargo_toml_in_root);
    assert_eq!(loaded.cargo_fmt, "fmt");
    assert_eq!(loaded.git_clone_error, "");
    assert!(!loaded.has_rustfmt_toml);
    assert!(!loaded.has_dot_rustfmt_toml);
    assert_eq!(loaded.edition, "");
    assert_eq!(loaded.rust_version, "");
}

#[test]
fn load_keeps_the_later_fields_that_a_record_has() {
    let record = rust_digger::StoredDetails {
        has_github_action: false,
        has_gitlab_pipeline: false,
        commit_count: -1,
        cargo_toml_in_root: false,
        cargo_fmt: String::new(),
        git_clone_error: Some("timeout".to_string()),
        has_rustfmt_toml: Some(true),
        has_dot_rustfmt_toml: None,
        edition: Some("2018".to_string()),
        rust_version: None,
    };
    let loaded = record.into_details();
    assert_eq!(loaded.commit_count, -1);
    assert_eq!(loaded.git_clone_error, "timeout");
    assert!(loaded.has_rustfmt_toml);
    assert!(!loaded.has_dot_rustfmt_toml);
    assert_eq!(loaded.edition, "2018");
    assert_eq!(loaded.rust_version, "");
}

#[test]
fn defaults_of_missing_fields() {
    assert_eq!(rust_digger::empty_string(), "");
    assert!(!rust_digger::default_false());
    assert_eq!(rust_digger::get_zero(), 0);
    assert_same_details(&rust_digger::empty_details(), &rust_digger::Details::new());
    assert_same_details(&rust_digger::Details::default(), &rust_digger::Details::new());
    let nothing = rust_digger::Details::new();
    assert!(!nothing.has_github_action);
    assert!(!nothing.has_gitlab_pipeline);
    assert_eq!(nothing.commit_count, 0);
    assert!(!nothing.cargo_toml_in_root);
    assert_eq!(nothing.cargo_fmt, "");
    assert_eq!(nothing.git_clone_error, "");
    assert!(!nothing.has_rustfmt_toml);
    assert!(!nothing.has_dot_rustfmt_toml);
    assert_eq!(nothing.edition, "");
    assert_eq!(nothing.rust_version, "");
    assert_same_details(&some_details().clone(), &some_details());
}

fn joined_by_std(path: &str, parts: &[&str], extension: Option<&str>) -> PathBuf {
    let mut path = PathBuf::from(path);
    for part in parts {
        path = path.join(part);
    }
    if let Some(ext) = extension {
        path.set_extension(ext);
    }
    path
}

#[test]
fn build_path_joins_as_std_does() {
    assert_eq!(build_path("a".to_string(), &["b"], None), "a/b");
    assert_eq!(build_path("a".to_string(), &["b", "c", "d"], Some("txt")), "a/b/c/d.txt");
    assert_eq!(build_path("root".to_string(), &["/abs"], None), "/abs");
    assert_eq!(build_path("root".to_string(), &["a", "/abs", "b"], None), "/abs/b");
    assert_eq!(build_path(String::new(), &["a"], None), "a");
    assert_eq!(build_path("root/".to_string(), &["a"], None), "root/a");
    assert_eq!(build_path("root".to_string(), &[""], None), "root/");
    assert_eq!(build_path(String::new(), &[], None), "");
}

#[test]
fn build_path_sets_the_extension_as_std_does() {
    assert_eq!(build_path("root".to_string(), &[], Some("")), "root");
    assert_eq!(build_path("root.x".to_string(), &[], Some("")), "root");
    assert_eq!(build_path("a".to_string(), &["b.c"], Some("json")), "a/b.json");
    assert_eq!(build_path("a".to_string(), &["b.c.d"], Some("e")), "a/b.c.e");
    assert_eq!(build_path("a".to_string(), &[".hidden"], Some("e")), "a/.hidden.e");
    assert_eq!(build_path("a".to_string(), &[".."], Some("e")), "a/..");
    assert_eq!(build_path(String::new(), &[], Some("e")), "");
    assert_eq!(build_path("a.b".to_string(), &["c"], Some("e")), "a.b/c.e");
}

#[test]
fn build_path_agrees_with_std() {
    let bases = ["", "root", "root/", "/", "a/b", "a.b", ".", "..", "a//"];
    let parts: [&[&str]; 9] = [
        &[],
        &["a"],
        &["a", "b"],
        &["/abs"],
        &["a", "/abs"],
        &[""],
        &["a.b", "c.d.e"],
        &["..", "x"],
        &[".hidden"],
    ];
    let extensions = [None, Some(""), Some("rs"), Some("tar.gz"), Some(".x")];
    for base in bases {
        for list in parts {
            for extension in extensions {
                let built = build_path(base.to_string(), list, extension);
                assert_eq!(
                    PathBuf::from(&built),
                    joined_by_std(base, list, extension),
                    "{:?} {:?} {:?}",
                    base,
                    list,
                    extension
                );
                assert_eq!(
                    built,
                    joined_by_std(base, list, extension).to_string_lossy(),
                    "{:?} {:?} {:?}",
                    base,
                    list,
                    extension
                );
            }
        }
    }
}

#[test]
fn every_classified_address_has_a_path() {
    let addresses = [
        "https://github.com/a/b",
        "https://gitlab.com/A/B/",
        "https://github.com/a/b/c",
        "https://github.com/ /\t",
        "https://github.com/.../..",
        "https://gitlab.com/ÄÖ/Ü",
    ];
    for address in addresses {
        let (host, owner, repo) = rust_digger::get_owner_and_repo(address);
        assert_ne!(host, "", "{}", address);
        let path = get_details_path(address);
        assert_eq!(
            path,
            Some(format!("repo-details/{host}/{owner}/{repo}.json")),
            "{}",
            address
        );
        let plan = rust_digger::save_details(address, &some_details());
        assert_eq!(plan.file, path, "{}", address);
        assert_eq!(
            plan.folders.last(),
            Some(&format!("repo-details/{host}/{owner}")),
            "{}",
            address
        );
    }
}

#[test]
fn only_unclassified_addresses_have_no_path() {
    let addresses = [
        "",
        "https://zorg.com/foo/bar",
        "https://github.com/foo",
        "https://github.com//bar",
        "https://github.com/foo/",
        "https://github.com/foo/bar",
        "https://gitlab.com/foo/bar/baz",
    ];
    for address in addresses {
        let unclassified = rust_digger::get_owner_and_repo(address)
            == (String::new(), String::new(), String::new());
        assert_eq!(get_details_path(address).is_none(), unclassified, "{}", address);
        let plan = rust_digger::save_details(address, &some_details());
        assert_eq!(plan.file.is_none(), unclassified, "{}", address);
    }
}

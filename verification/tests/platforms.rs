use rust_digger::{
    collect_repos, crates_with, generate_pages, get_repo_types, github_with_www,
    has_homepage_no_repo, no_homepage_no_repo, Crate, Finding, Repo, RepoPlatform,
};

fn package(name: &str, homepage: &str, repository: &str) -> Crate {
    Crate {
        name: name.to_string(),
        homepage: homepage.to_string(),
        repository: repository.to_string(),
        ..Crate::new()
    }
}

fn group<'a>(repos: &'a [Repo], name: &str) -> &'a Repo {
    let found: Vec<&Repo> = repos.iter().filter(|repo| repo.name == name).collect();
    assert_eq!(found.len(), 1, "{}", name);
    found[0]
}

fn names(crates: &[Crate]) -> Vec<String> {
    crates.iter().map(|krate| krate.name.clone()).collect()
}

#[test]
fn repo_types_are_the_known_sites() {
    let repos = get_repo_types();
    let listed: Vec<(&str, &str, &str)> = repos
        .iter()
        .map(|repo| (repo.display.as_str(), repo.name.as_str(), repo.url.as_str()))
        .collect();
    assert_eq!(
        listed,
        vec![
            ("GitHub", "github", "https://github.com/"),
            ("GitLab", "gitlab", "https://gitlab.com/"),
            ("Codeberg", "codeberg", "https://codeberg.org/"),
            ("Gitee", "gitee", "https://gitee.com/"),
            ("Tor Project (GitLab)", "torproject", "https://gitlab.torproject.org/"),
            ("Free Desktop (GitLab)", "freedesktop", "https://gitlab.freedesktop.org/"),
            ("Wikimedia (GitLab)", "wikimedia", "https://gitlab.wikimedia.org/"),
            ("e3t", "e3t", "https://git.e3t.cc/"),
            ("srht", "srht", "https://git.sr.ht/"),
            ("Open Privacy", "openprivacy", "https://git.openprivacy.ca/"),
            ("Cronce (GitLab)", "cronce", "https://gitlab.cronce.io/"),
            ("Gnome (GitLab)", "gnome", "https://gitlab.gnome.org/"),
            ("Repo with http", "repo-with-http", "http://"),
        ]
    );
    for repo in &repos {
        assert_eq!(repo.count, 0);
        assert_eq!(repo.percentage, "0");
        assert!(!repo.bold);
        assert!(repo.crates.is_empty());
    }
    for repo in &repos {
        assert_eq!(repo.platform, None);
    }
}

#[test]
fn defaults_of_a_group() {
    assert!(!rust_digger::get_default_bold());
    assert_eq!(rust_digger::get_default_count(), 0);
    assert_eq!(rust_digger::get_default_percentage(), "0");
}

#[test]
fn three_packages_three_groups() {
    let crates = vec![
        package("widget", "", "https://github.com/acme/widget"),
        package("bare", "", ""),
        package("elsewhere", "", "https://example.com/x"),
    ];
    let repos = collect_repos(&crates);
    assert_eq!(repos.len(), 15);
    let github = group(&repos, "github");
    assert_eq!(github.count, 1);
    assert_eq!(github.percentage, "33.33");
    assert_eq!(names(&github.crates), vec!["widget"]);
    let no_repo = group(&repos, "no-repo");
    assert_eq!(no_repo.display, "Has no repository");
    assert_eq!(no_repo.count, 1);
    assert_eq!(no_repo.percentage, "33.33");
    assert_eq!(names(&no_repo.crates), vec!["bare"]);
    let other = group(&repos, "other-repos");
    assert_eq!(other.display, "Other repositories we don't recognize");
    assert_eq!(other.count, 1);
    assert_eq!(other.percentage, "33.33");
    assert_eq!(names(&other.crates), vec!["elsewhere"]);
    for repo in &repos {
        if repo.name != "github" && repo.name != "no-repo" && repo.name != "other-repos" {
            assert_eq!(repo.count, 0, "{}", repo.name);
            assert_eq!(repo.percentage, "0", "{}", repo.name);
            assert!(repo.crates.is_empty());
        }
    }
}

#[test]
fn groups_come_in_the_order_of_the_sites() {
    let repos = collect_repos(&vec![package("a", "", "")]);
    let listed: Vec<&str> = repos.iter().map(|repo| repo.name.as_str()).collect();
    assert_eq!(
        listed,
        vec![
            "github",
            "gitlab",
            "codeberg",
            "gitee",
            "torproject",
            "freedesktop",
            "wikimedia",
            "e3t",
            "srht",
            "openprivacy",
            "cronce",
            "gnome",
            "repo-with-http",
            "no-repo",
            "other-repos",
        ]
    );
    let mut sorted = listed.clone();
    sorted.sort();
    sorted.dedup();
    assert_eq!(sorted.len(), listed.len());
    assert_eq!(repos[13].url, "");
    assert_eq!(repos[14].url, "");
    assert_eq!(repos[13].platform, None);
    assert!(!repos[14].bold);
}

#[test]
fn every_package_is_in_a_group() {
    let crates = vec![
        package("a", "", "https://github.com/x/a"),
        package("b", "", "https://gitlab.com/x/b"),
        package("c", "", "http://example.com/c"),
        package("d", "", ""),
        package("e", "", "https://GITHUB.com/x/e"),
        package("f", "", "https://github.com/x/f"),
        package("g", "", "https://codeberg.org/x/g"),
        package("h", "", "https://git.sr.ht/~x/h"),
        package("i", "", "https://gitlab.gnome.org/x/i"),
        package("j", "", ""),
        package("k", "", "git://github.com/x/k"),
    ];
    let repos = collect_repos(&crates);
    let memberships: usize = repos.iter().map(|repo| repo.crates.len()).sum();
    assert_eq!(memberships, crates.len());
    for repo in &repos {
        assert_eq!(repo.count, repo.crates.len());
        assert_eq!(
            repo.percentage,
            rust_digger::percentage(repo.count, crates.len())
        );
    }
    assert_eq!(names(&group(&repos, "github").crates), vec!["a", "f"]);
    assert_eq!(group(&repos, "github").percentage, "18.18");
    assert_eq!(names(&group(&repos, "gitlab").crates), vec!["b"]);
    assert_eq!(names(&group(&repos, "repo-with-http").crates), vec!["c"]);
    assert_eq!(names(&group(&repos, "codeberg").crates), vec!["g"]);
    assert_eq!(names(&group(&repos, "srht").crates), vec!["h"]);
    assert_eq!(names(&group(&repos, "gnome").crates), vec!["i"]);
    assert_eq!(names(&group(&repos, "no-repo").crates), vec!["d", "j"]);
    assert_eq!(names(&group(&repos, "other-repos").crates), vec!["e", "k"]);
}

#[test]
fn package_without_repository_is_in_one_group_only() {
    let crates = vec![
        package("with", "https://example.com", "https://github.com/x/with"),
        package("without", "https://github.com/x/without", ""),
    ];
    let repos = collect_repos(&crates);
    for repo in &repos {
        let holds = repo.crates.iter().any(|krate| krate.name == "without");
        assert_eq!(holds, repo.name == "no-repo", "{}", repo.name);
    }
}

#[test]
fn no_packages_no_shares() {
    let repos = collect_repos(&Vec::new());
    assert_eq!(repos.len(), 15);
    for repo in &repos {
        assert_eq!(repo.count, 0);
        assert_eq!(repo.percentage, "NaN");
        assert!(repo.crates.is_empty());
    }
}

#[test]
fn members_are_whole_copies() {
    let mut krate = package("widget", "https://acme.example", "https://github.com/acme/widget");
    krate.id = "17".to_string();
    krate.description = "a widget".to_string();
    krate.updated_at = "2023-05-01".to_string();
    krate.owner_name = "Acme".to_string();
    krate.details.commit_count = 5;
    krate.details.edition = "2021".to_string();
    let repos = collect_repos(&vec![krate]);
    let member = &group(&repos, "github").crates[0];
    assert_eq!(member.id, "17");
    assert_eq!(member.name, "widget");
    assert_eq!(member.description, "a widget");
    assert_eq!(member.homepage, "https://acme.example");
    assert_eq!(member.repository, "https://github.com/acme/widget");
    assert_eq!(member.updated_at, "2023-05-01");
    assert_eq!(member.owner_name, "Acme");
    assert_eq!(member.details.commit_count, 5);
    assert_eq!(member.details.edition, "2021");
}

#[test]
fn packages_that_stand_out() {
    let with_homepage = package("a", "https://a.example", "");
    let with_neither = package("b", "", "");
    let with_www = package("c", "", "https://www.github.com/x/c");
    let plain = package("d", "https://d.example", "https://github.com/x/d");
    assert!(has_homepage_no_repo(&with_homepage));
    assert!(!has_homepage_no_repo(&with_neither));
    assert!(!has_homepage_no_repo(&plain));
    assert!(no_homepage_no_repo(&with_neither));
    assert!(!no_homepage_no_repo(&with_homepage));
    assert!(!no_homepage_no_repo(&with_www));
    assert!(github_with_www(&with_www));
    assert!(!github_with_www(&plain));
    assert!(!github_with_www(&with_neither));
    assert!(github_with_www(&package("e", "", "http://www.github.com")));
    assert!(!github_with_www(&package("f", "", "https://www.github.co")));
}

#[test]
fn report_of_five_packages() {
    let crates = vec![
        package("a", "https://a.example", ""),
        package("b", "", ""),
        package("c", "", "https://www.github.com/x/c"),
        package("d", "https://d.example", "https://github.com/x/d"),
        package("e", "https://e.example", ""),
    ];
    let report = generate_pages(&crates);
    assert_eq!(report.total, 5);
    assert_eq!(names(&report.home_page_but_no_repo), vec!["a", "e"]);
    assert_eq!(report.home_page_but_no_repo_percentage, "40");
    assert_eq!(names(&report.no_homepage_no_repo_crates), vec!["b"]);
    assert_eq!(report.no_homepage_no_repo_crates_percentage, "20");
    assert_eq!(names(&report.github_with_www), vec!["c"]);
    assert_eq!(report.github_with_www_percentage, "20");
    assert_eq!(report.repos.len(), 15);
    assert_eq!(group(&report.repos, "github").count, 1);
    assert_eq!(group(&report.repos, "no-repo").count, 3);
    assert_eq!(group(&report.repos, "no-repo").percentage, "60");
    assert_eq!(group(&report.repos, "other-repos").count, 1);
    assert_eq!(
        names(&crates_with(&crates, Finding::HomepageButNoRepo)),
        vec!["a", "e"]
    );
}

#[test]
fn group_can_carry_a_platform() {
    let mut repos = get_repo_types();
    repos[0].platform = Some(RepoPlatform::GitHub);
    repos[1].platform = Some(RepoPlatform::GitLab);
    assert_ne!(repos[0].platform, repos[1].platform);
    assert_eq!(repos[0].platform, Some(RepoPlatform::GitHub));
    assert_eq!(format!("{:?}", RepoPlatform::Forgejo), "Forgejo");
}

//! The hosting platforms: the groups that packages fall into by the
//! address of their repository, and the share of each group.

use vstd::prelude::*;
use crate::percent::{percentage, percentage_text};
use crate::records::{crate_views, Crate, CrateView};
use crate::text::starts_with;

verus! {

/// The software that a hosting site runs.
#[derive(Debug, Clone, Copy, PartialEq, Eq, Structural)]
#[non_exhaustive]
pub enum RepoPlatform {
    GitHub,
    GitLab,
    Gitea,
    Cgit,
    Forgejo,
    Fossil,
    Mercurial,
    Gogs,
}

/// One group of packages: those whose repository address begins with
/// `url`, or one of the two groups for the packages that no such group
/// takes.
#[derive(Debug)]
pub struct Repo {
    pub display: String,
    pub name: String,
    pub url: String,
    pub count: usize,
    pub percentage: String,
    pub platform: Option<RepoPlatform>,
    pub bold: bool,
    pub crates: Vec<Crate>,
}

/// The mathematical value of a [`Repo`].
pub struct RepoView {
    pub display: Seq<char>,
    pub name: Seq<char>,
    pub url: Seq<char>,
    pub count: nat,
    pub percentage: Seq<char>,
    pub platform: Option<RepoPlatform>,
    pub bold: bool,
    pub crates: Seq<CrateView>,
}

impl View for Repo {
    type V = RepoView;

    open spec fn view(&self) -> RepoView {
        RepoView {
            display: self.display@,
            name: self.name@,
            url: self.url@,
            count: self.count as nat,
            percentage: self.percentage@,
            platform: self.platform,
            bold: self.bold,
            crates: crate_views(self.crates@),
        }
    }
}

/// The values of the groups of a list, in its order.
pub open spec fn repo_views(repos: Seq<Repo>) -> Seq<RepoView> {
    repos.map_values(|repo: Repo| repo@)
}

/// Whether a group is shown in bold where nothing says so.
pub fn get_default_bold() -> (bold: bool)
    ensures
        !bold,
{
    false
}

/// The number of packages in a group that has taken none yet.
pub fn get_default_count() -> (count: usize)
    ensures
        count == 0,
{
    0
}

/// The share of a group that has taken no package yet.
pub fn get_default_percentage() -> (text: String)
    ensures
        text@ == "0"@,
{
    "0".to_owned()
}

/// A group that has taken no package yet.
pub open spec fn empty_group(
    display: Seq<char>,
    name: Seq<char>,
    url: Seq<char>,
    platform: Option<RepoPlatform>,
) -> RepoView {
    RepoView {
        display,
        name,
        url,
        count: 0,
        percentage: "0"@,
        platform,
        bold: false,
        crates: Seq::empty(),
    }
}

fn new_group(display: &str, name: &str, url: &str) -> (repo: Repo)
    ensures
        repo@ == empty_group(display@, name@, url@, None),
{
    let repo = Repo {
        display: display.to_owned(),
        name: name.to_owned(),
        url: url.to_owned(),
        count: get_default_count(),
        percentage: get_default_percentage(),
        platform: None,
        bold: get_default_bold(),
        crates: Vec::new(),
    };
    assert(crate_views(repo.crates@) =~= Seq::<CrateView>::empty());
    repo
}

/// The groups of the known hosting sites, each with the beginning of the
/// addresses that it takes, in the order in which they are reported. The
/// last takes every address that is not encrypted. None of them is
/// tagged with the software that its site runs.
pub open spec fn catalog() -> Seq<RepoView> {
    seq![
        empty_group("GitHub"@, "github"@, "https://github.com/"@, None),
        empty_group("GitLab"@, "gitlab"@, "https://gitlab.com/"@, None),
        empty_group("Codeberg"@, "codeberg"@, "https://codeberg.org/"@, None),
        empty_group("Gitee"@, "gitee"@, "https://gitee.com/"@, None),
        empty_group(
            "Tor Project (GitLab)"@,
            "torproject"@,
            "https://gitlab.torproject.org/"@,
            None,
        ),
        empty_group(
            "Free Desktop (GitLab)"@,
            "freedesktop"@,
            "https://gitlab.freedesktop.org/"@,
            None,
        ),
        empty_group("Wikimedia (GitLab)"@, "wikimedia"@, "https://gitlab.wikimedia.org/"@, None),
        empty_group("e3t"@, "e3t"@, "https://git.e3t.cc/"@, None),
        empty_group("srht"@, "srht"@, "https://git.sr.ht/"@, None),
        empty_group("Open Privacy"@, "openprivacy"@, "https://git.openprivacy.ca/"@, None),
        empty_group("Cronce (GitLab)"@, "cronce"@, "https://gitlab.cronce.io/"@, None),
        empty_group("Gnome (GitLab)"@, "gnome"@, "https://gitlab.gnome.org/"@, None),
        empty_group("Repo with http"@, "repo-with-http"@, "http://"@, None),
    ]
}

/// The group of the packages that name no repository.
pub open spec fn no_repo_group() -> RepoView {
    empty_group("Has no repository"@, "no-repo"@, ""@, None)
}

/// The group of the packages whose repository no known site takes.
pub open spec fn other_group() -> RepoView {
    empty_group("Other repositories we don't recognize"@, "other-repos"@, ""@, None)
}

/// Makes the groups of the known hosting sites, none of them with a
/// package yet.
pub fn get_repo_types() -> (repos: Vec<Repo>)
    ensures
        repo_views(repos@) == catalog(),
{
    let mut repos: Vec<Repo> = Vec::new();
    repos.push(new_group("GitHub", "github", "https://github.com/"));
    repos.push(new_group("GitLab", "gitlab", "https://gitlab.com/"));
    repos.push(new_group("Codeberg", "codeberg", "https://codeberg.org/"));
    repos.push(new_group("Gitee", "gitee", "https://gitee.com/"));
    repos.push(new_group("Tor Project (GitLab)", "torproject", "https://gitlab.torproject.org/"));
    repos.push(
        new_group("Free Desktop (GitLab)", "freedesktop", "https://gitlab.freedesktop.org/"),
    );
    repos.push(new_group("Wikimedia (GitLab)", "wikimedia", "https://gitlab.wikimedia.org/"));
    repos.push(new_group("e3t", "e3t", "https://git.e3t.cc/"));
    repos.push(new_group("srht", "srht", "https://git.sr.ht/"));
    repos.push(new_group("Open Privacy", "openprivacy", "https://git.openprivacy.ca/"));
    repos.push(new_group("Cronce (GitLab)", "cronce", "https://gitlab.cronce.io/"));
    repos.push(new_group("Gnome (GitLab)", "gnome", "https://gitlab.gnome.org/"));
    repos.push(new_group("Repo with http", "repo-with-http", "http://"));
    assert(repo_views(repos@) =~= catalog());
    repos
}

/// The group takes the package: the package names a repository, and its
/// address begins as the group's addresses do.
pub open spec fn group_takes(group: RepoView, krate: CrateView) -> bool {
    krate.repository.len() > 0 && group.url.is_prefix_of(krate.repository)
}

/// At least one group of the list takes the package.
pub open spec fn recognized(groups: Seq<RepoView>, krate: CrateView) -> bool {
    exists|g: int| 0 <= g < groups.len() && group_takes(#[trigger] groups[g], krate)
}

/// The rule of a site's group, as a predicate on packages.
pub open spec fn takes(group: RepoView) -> spec_fn(CrateView) -> bool {
    |krate: CrateView| group_takes(group, krate)
}

/// The rule of the group of packages without a repository.
pub open spec fn lacks_repository() -> spec_fn(CrateView) -> bool {
    |krate: CrateView| krate.repository.len() == 0
}

/// The rule of the group of packages whose repository no site's group
/// takes.
pub open spec fn unrecognized(groups: Seq<RepoView>) -> spec_fn(CrateView) -> bool {
    |krate: CrateView| krate.repository.len() > 0 && !recognized(groups, krate)
}

/// The rule by which group `g` of the report takes packages: the sites'
/// groups come first, then the group without a repository, then the group
/// of the unrecognized.
pub open spec fn rule(sites: Seq<RepoView>, g: int) -> spec_fn(CrateView) -> bool {
    if g < sites.len() {
        takes(sites[g])
    } else if g == sites.len() {
        lacks_repository()
    } else {
        unrecognized(sites)
    }
}

/// Group `g` of the report before it has taken any package.
pub open spec fn shell(sites: Seq<RepoView>, g: int) -> RepoView {
    if g < sites.len() {
        sites[g]
    } else if g == sites.len() {
        no_repo_group()
    } else {
        other_group()
    }
}

/// A group with its members and their number.
pub open spec fn gathered(group: RepoView, members: Seq<CrateView>) -> RepoView {
    RepoView { count: members.len(), crates: members, ..group }
}

/// A group with its members, their number, and their share of `total`
/// packages.
pub open spec fn filled(group: RepoView, members: Seq<CrateView>, total: nat) -> RepoView {
    RepoView { percentage: percentage_text(members.len(), total), ..gathered(group, members) }
}

/// The report over the groups of `sites`: each site's group with the
/// packages that it takes, then the group of the packages without a
/// repository, then the group of those that no site's group takes. The
/// members of each group stand in the order of the list, and each share
/// is taken of the whole list.
pub open spec fn collected_from(sites: Seq<RepoView>, crates: Seq<CrateView>) -> Seq<RepoView> {
    Seq::new(
        sites.len() + 2,
        |g: int| filled(shell(sites, g), crates.filter(rule(sites, g)), crates.len()),
    )
}

/// The report over the known hosting sites.
pub open spec fn collected(crates: Seq<CrateView>) -> Seq<RepoView> {
    collected_from(catalog(), crates)
}

proof fn lemma_next_crate(crates: Seq<Crate>, i: int)
    requires
        0 <= i < crates.len(),
    ensures
        crate_views(crates).take(i + 1) == crate_views(crates).take(i).push(crates[i]@),
{
    assert(crate_views(crates).take(i + 1) =~= crate_views(crates).take(i).push(crates[i]@));
}

proof fn lemma_member_pushed(members: Seq<Crate>, krate: Crate)
    ensures
        crate_views(members.push(krate)) == crate_views(members).push(krate@),
{
    assert(crate_views(members.push(krate)) =~= crate_views(members).push(krate@));
}

/// Sorts the packages into the groups of the known hosting sites. A
/// package without a repository goes to the group of those; any other
/// goes to every group whose addresses begin as its repository's address
/// does, and to the group of the unrecognized where there is none. Each
/// group gets the number of its packages and their share of all packages.
pub fn collect_repos(crates: &Vec<Crate>) -> (repos: Vec<Repo>)
    ensures
        repo_views(repos@) == collected(crate_views(crates@)),
        repos.len() == catalog().len() + 2,
        forall|g: int|
            0 <= g < repos.len() ==> (#[trigger] repos[g])@ == filled(
                shell(catalog(), g),
                crate_views(crates@).filter(rule(catalog(), g)),
                crates.len() as nat,
            ),
        memberships(repo_views(repos@), repos.len() as int) == crates.len(),
{
    proof {
        lemma_groups_part_packages(crate_views(crates@));
    }
    let mut repos: Vec<Repo> = get_repo_types();
    let ghost sites = repo_views(repos@);
    let ghost all = crate_views(crates@);
    let mut no_repo: Vec<Crate> = Vec::new();
    let mut other_repo: Vec<Crate> = Vec::new();
    assert(crate_views(no_repo@) =~= all.take(0).filter(lacks_repository()));
    assert(crate_views(other_repo@) =~= all.take(0).filter(unrecognized(sites)));
    assert forall|g: int| 0 <= g < repos.len() implies #[trigger] repos[g]@ == gathered(
        sites[g],
        all.take(0).filter(takes(sites[g])),
    ) by {
        assert(repos[g]@.crates =~= all.take(0).filter(takes(sites[g])));
    }
    let mut i: usize = 0;
    while i < crates.len()
        invariant
            i <= crates.len(),
            all == crate_views(crates@),
            sites == catalog(),
            repos.len() == sites.len(),
            forall|g: int|
                0 <= g < repos.len() ==> #[trigger] repos[g]@ == gathered(
                    sites[g],
                    all.take(i as int).filter(takes(sites[g])),
                ),
            crate_views(no_repo@) == all.take(i as int).filter(lacks_repository()),
            crate_views(other_repo@) == all.take(i as int).filter(unrecognized(sites)),
        decreases crates.len() - i,
    {
        let krate = &crates[i];
        let ghost seen = all.take(i as int);
        proof {
            lemma_next_crate(crates@, i as int);
            seen.lemma_filter_push(krate@, lacks_repository());
            seen.lemma_filter_push(krate@, unrecognized(sites));
            seen.lemma_filter_len(lacks_repository());
            seen.lemma_filter_len(unrecognized(sites));
        }
        if krate.repository.as_str().is_empty() {
            proof {
                lemma_member_pushed(no_repo@, *krate);
                assert forall|g: int| 0 <= g < repos.len() implies #[trigger] repos[g]@
                    == gathered(sites[g], seen.push(krate@).filter(takes(sites[g]))) by {
                    seen.lemma_filter_push(krate@, takes(sites[g]));
                }
            }
            no_repo.push(krate.clone());
        } else {
            let mut matched = false;
            let mut g: usize = 0;
            while g < repos.len()
                invariant
                    g <= repos.len(),
                    i < crates.len(),
                    all == crate_views(crates@),
                    seen == all.take(i as int),
                    krate@ == all[i as int],
                    krate@.repository.len() > 0,
                    repos.len() == sites.len(),
                    forall|h: int|
                        0 <= h < g ==> #[trigger] repos[h]@ == gathered(
                            sites[h],
                            seen.push(krate@).filter(takes(sites[h])),
                        ),
                    forall|h: int|
                        g <= h < repos.len() ==> #[trigger] repos[h]@ == gathered(
                            sites[h],
                            seen.filter(takes(sites[h])),
                        ),
                    matched <==> exists|h: int|
                        0 <= h < g && group_takes(#[trigger] sites[h], krate@),
                decreases repos.len() - g,
            {
                proof {
                    seen.lemma_filter_push(krate@, takes(sites[g as int]));
                    seen.lemma_filter_len(takes(sites[g as int]));
                    assert(repos[g as int]@ == gathered(
                        sites[g as int],
                        seen.filter(takes(sites[g as int])),
                    ));
                }
                if starts_with(krate.repository.as_str(), repos[g].url.as_str()) {
                    let member = krate.clone();
                    proof {
                        lemma_member_pushed(repos[g as int].crates@, member);
                    }
                    repos[g].count += 1;
                    matched = true;
                    repos[g].crates.push(member);
                    assert(group_takes(sites[g as int], krate@));
                    assert(repos[g as int]@ == gathered(
                        sites[g as int],
                        seen.push(krate@).filter(takes(sites[g as int])),
                    ));
                } else {
                    assert(!group_takes(sites[g as int], krate@));
                }
                g += 1;
            }
            if !matched {
                proof {
                    lemma_member_pushed(other_repo@, *krate);
                    assert(!recognized(sites, krate@));
                }
                other_repo.push(krate.clone());
            } else {
                assert(recognized(sites, krate@));
            }
        }
        i += 1;
    }
    assert(all.take(i as int) =~= all);
    proof {
        all.lemma_filter_len(lacks_repository());
        all.lemma_filter_len(unrecognized(sites));
    }
    repos.push(
        Repo {
            display: "Has no repository".to_owned(),
            name: "no-repo".to_owned(),
            url: "".to_owned(),
            count: no_repo.len(),
            percentage: "0".to_owned(),
            platform: None,
            bold: false,
            crates: no_repo,
        },
    );
    repos.push(
        Repo {
            display: "Other repositories we don't recognize".to_owned(),
            name: "other-repos".to_owned(),
            url: "".to_owned(),
            count: other_repo.len(),
            percentage: "0".to_owned(),
            platform: None,
            bold: false,
            crates: other_repo,
        },
    );
    assert forall|g: int| 0 <= g < repos.len() implies #[trigger] repos[g]@ == gathered(
        shell(sites, g),
        all.filter(rule(sites, g)),
    ) by {}
    let mut g: usize = 0;
    while g < repos.len()
        invariant
            g <= repos.len(),
            repos.len() == sites.len() + 2,
            all == crate_views(crates@),
            forall|h: int|
                0 <= h < g ==> #[trigger] repos[h]@ == filled(
                    shell(sites, h),
                    all.filter(rule(sites, h)),
                    all.len(),
                ),
            forall|h: int|
                g <= h < repos.len() ==> #[trigger] repos[h]@ == gathered(
                    shell(sites, h),
                    all.filter(rule(sites, h)),
                ),
        decreases repos.len() - g,
    {
        let ghost before = repos[g as int]@;
        repos[g].percentage = percentage(repos[g].count, crates.len());
        assert(repos[g as int]@ == RepoView { percentage: repos[g as int]@.percentage, ..before });
        g += 1;
    }
    assert(repo_views(repos@) =~= collected(all));
    repos
}

/// The names of the groups of the report, in its order.
pub open spec fn group_names() -> Seq<Seq<char>> {
    Seq::new(catalog().len() + 2, |g: int| shell(catalog(), g).name)
}

/// No two groups of the report have the same name.
pub proof fn lemma_group_names_differ()
    ensures
        group_names().len() == 15,
        forall|g: int, h: int|
            0 <= g < h < group_names().len() ==> group_names()[g] != group_names()[h],
{
    reveal_strlit("github");
    reveal_strlit("gitlab");
    reveal_strlit("codeberg");
    reveal_strlit("gitee");
    reveal_strlit("torproject");
    reveal_strlit("freedesktop");
    reveal_strlit("wikimedia");
    reveal_strlit("e3t");
    reveal_strlit("srht");
    reveal_strlit("openprivacy");
    reveal_strlit("cronce");
    reveal_strlit("gnome");
    reveal_strlit("repo-with-http");
    reveal_strlit("no-repo");
    reveal_strlit("other-repos");
    let names = group_names();
    assert(names =~= seq![
        "github"@,
        "gitlab"@,
        "codeberg"@,
        "gitee"@,
        "torproject"@,
        "freedesktop"@,
        "wikimedia"@,
        "e3t"@,
        "srht"@,
        "openprivacy"@,
        "cronce"@,
        "gnome"@,
        "repo-with-http"@,
        "no-repo"@,
        "other-repos"@,
    ]);
    assert forall|g: int, h: int| 0 <= g < h < names.len() implies names[g] != names[h] by {
        if names[g].len() == names[h].len() {
            if names[g].len() == 6 {
                assert(g == 0 || g == 1 || g == 10);
                assert(h == 0 || h == 1 || h == 10);
                assert(names[0][3] != names[1][3]);
                assert(names[0][0] != names[10][0]);
                assert(names[1][0] != names[10][0]);
            } else if names[g].len() == 5 {
                assert(g == 3 || g == 11);
                assert(h == 3 || h == 11);
                assert(names[3][1] != names[11][1]);
            } else {
                assert(names[g].len() == 11);
                assert(g == 5 || g == 9 || g == 14);
                assert(h == 5 || h == 9 || h == 14);
                assert(names[5][0] != names[9][0]);
                assert(names[5][0] != names[14][0]);
                assert(names[9][1] != names[14][1]);
            }
        }
    }
}

/// The number of memberships in the first `k` groups of a report: a
/// package counts once for each group that holds it.
pub open spec fn memberships(groups: Seq<RepoView>, k: int) -> nat
    decreases k,
{
    if k <= 0 {
        0
    } else {
        memberships(groups, k - 1) + groups[k - 1].crates.len()
    }
}

/// The number of groups among the first `k` of the report that take the
/// package.
pub open spec fn hits(sites: Seq<RepoView>, krate: CrateView, k: int) -> nat
    decreases k,
{
    if k <= 0 {
        0
    } else {
        hits(sites, krate, k - 1) + if rule(sites, k - 1)(krate) {
            1nat
        } else {
            0nat
        }
    }
}

/// Two groups of the list take the package.
pub open spec fn overlapping(sites: Seq<RepoView>, krate: CrateView) -> bool {
    exists|g: int, h: int|
        0 <= g < h < sites.len() && group_takes(#[trigger] sites[g], krate) && group_takes(
            #[trigger] sites[h],
            krate,
        )
}

proof fn lemma_prefix_chars(prefix: Seq<char>, text: Seq<char>)
    requires
        prefix.is_prefix_of(text),
    ensures
        prefix.len() <= text.len(),
        forall|i: int| 0 <= i < prefix.len() ==> #[trigger] text[i] == prefix[i],
{
    assert forall|i: int| 0 <= i < prefix.len() implies #[trigger] text[i] == prefix[i] by {
        assert(text.subrange(0, prefix.len() as int)[i] == text[i]);
    }
}

/// No address begins as the addresses of two of the known sites do: no
/// package is taken by two sites' groups.
pub proof fn lemma_sites_do_not_overlap(krate: CrateView)
    ensures
        !overlapping(catalog(), krate),
{
    reveal_strlit("https://github.com/");
    reveal_strlit("https://gitlab.com/");
    reveal_strlit("https://codeberg.org/");
    reveal_strlit("https://gitee.com/");
    reveal_strlit("https://gitlab.torproject.org/");
    reveal_strlit("https://gitlab.freedesktop.org/");
    reveal_strlit("https://gitlab.wikimedia.org/");
    reveal_strlit("https://git.e3t.cc/");
    reveal_strlit("https://git.sr.ht/");
    reveal_strlit("https://git.openprivacy.ca/");
    reveal_strlit("https://gitlab.cronce.io/");
    reveal_strlit("https://gitlab.gnome.org/");
    reveal_strlit("http://");
    let sites = catalog();
    let text = krate.repository;
    if overlapping(sites, krate) {
        let (g, h) = choose|g: int, h: int|
            0 <= g < h < sites.len() && group_takes(#[trigger] sites[g], krate) && group_takes(
                #[trigger] sites[h],
                krate,
            );
        let one = sites[g].url;
        let other = sites[h].url;
        lemma_prefix_chars(one, text);
        lemma_prefix_chars(other, text);
        assert(g == 0 || g == 1 || g == 2 || g == 3 || g == 4 || g == 5 || g == 6 || g == 7 || g
            == 8 || g == 9 || g == 10 || g == 11);
        assert(h == 1 || h == 2 || h == 3 || h == 4 || h == 5 || h == 6 || h == 7 || h == 8 || h
            == 9 || h == 10 || h == 11 || h == 12);
        assert(text[4] == one[4] && text[4] == other[4]);
        if h != 12 {
            assert(text[8] == one[8] && text[8] == other[8]);
            assert(text[11] == one[11] && text[11] == other[11]);
            assert(text[12] == one[12] && text[12] == other[12]);
            assert(text[15] == one[15] && text[15] == other[15]);
            assert(text[16] == one[16] && text[16] == other[16]);
        }
    }
}

/// The groups of the known sites hold every package exactly once: over
/// all groups of the report there are as many memberships as packages.
pub proof fn lemma_groups_part_packages(crates: Seq<CrateView>)
    ensures
        memberships(collected(crates), collected(crates).len() as int) == crates.len(),
{
    assert forall|i: int| 0 <= i < crates.len() implies !overlapping(
        catalog(),
        #[trigger] crates[i],
    ) by {
        lemma_sites_do_not_overlap(crates[i]);
    }
    lemma_groups_cover_packages(catalog(), crates);
}

proof fn lemma_site_hits(sites: Seq<RepoView>, krate: CrateView, k: int)
    requires
        0 <= k <= sites.len(),
    ensures
        hits(sites, krate, k) >= 1 <==> exists|g: int|
            0 <= g < k && group_takes(#[trigger] sites[g], krate),
        hits(sites, krate, k) >= 2 ==> exists|g: int, h: int|
            0 <= g < h < k && group_takes(#[trigger] sites[g], krate) && group_takes(
                #[trigger] sites[h],
                krate,
            ),
    decreases k,
{
    if k > 0 {
        lemma_site_hits(sites, krate, k - 1);
        assert(rule(sites, k - 1)(krate) == group_takes(sites[k - 1], krate));
        if hits(sites, krate, k) >= 2 {
            if hits(sites, krate, k - 1) >= 2 {
                let (g, h) = choose|g: int, h: int|
                    0 <= g < h < k - 1 && group_takes(#[trigger] sites[g], krate) && group_takes(
                        #[trigger] sites[h],
                        krate,
                    );
                assert(0 <= g < h < k && group_takes(sites[g], krate) && group_takes(
                    sites[h],
                    krate,
                ));
            } else {
                let g = choose|g: int| 0 <= g < k - 1 && group_takes(#[trigger] sites[g], krate);
                assert(0 <= g < k - 1 < k && group_takes(sites[g], krate) && group_takes(
                    sites[k - 1],
                    krate,
                ));
            }
        }
    }
}

/// Every package is taken by at least one group of the report, and by
/// exactly one unless two sites' groups take it.
pub proof fn lemma_package_has_a_group(sites: Seq<RepoView>, krate: CrateView)
    ensures
        hits(sites, krate, sites.len() as int + 2) >= 1,
        !overlapping(sites, krate) ==> hits(sites, krate, sites.len() as int + 2) == 1,
        krate.repository.len() == 0 ==> hits(sites, krate, sites.len() as int + 2) == 1,
{
    let n = sites.len() as int;
    lemma_site_hits(sites, krate, n);
    assert(hits(sites, krate, n + 2) == hits(sites, krate, n + 1) + if rule(sites, n + 1)(
        krate,
    ) {
        1nat
    } else {
        0nat
    });
    assert(hits(sites, krate, n + 1) == hits(sites, krate, n) + if rule(sites, n)(krate) {
        1nat
    } else {
        0nat
    });
    assert(rule(sites, n)(krate) == (krate.repository.len() == 0));
    assert(rule(sites, n + 1)(krate) == (krate.repository.len() > 0 && !recognized(
        sites,
        krate,
    )));
}

proof fn lemma_memberships_of_none(sites: Seq<RepoView>, k: int)
    requires
        0 <= k <= sites.len() + 2,
    ensures
        memberships(collected_from(sites, Seq::empty()), k) == 0,
    decreases k,
{
    if k > 0 {
        lemma_memberships_of_none(sites, k - 1);
        assert(Seq::<CrateView>::empty().filter(rule(sites, k - 1)).len() == 0) by {
            Seq::<CrateView>::empty().lemma_filter_len(rule(sites, k - 1));
        }
    }
}

proof fn lemma_memberships_push(
    sites: Seq<RepoView>,
    crates: Seq<CrateView>,
    krate: CrateView,
    k: int,
)
    requires
        0 <= k <= sites.len() + 2,
    ensures
        memberships(collected_from(sites, crates.push(krate)), k) == memberships(
            collected_from(sites, crates),
            k,
        ) + hits(sites, krate, k),
    decreases k,
{
    if k > 0 {
        lemma_memberships_push(sites, crates, krate, k - 1);
        crates.lemma_filter_push(krate, rule(sites, k - 1));
    }
}

/// The groups of a report leave no package out: there are at least as
/// many memberships as packages, and exactly as many where no package is
/// taken by two sites' groups.
pub proof fn lemma_groups_cover_packages(sites: Seq<RepoView>, crates: Seq<CrateView>)
    ensures
        memberships(collected_from(sites, crates), sites.len() as int + 2) >= crates.len(),
        (forall|i: int| 0 <= i < crates.len() ==> !overlapping(sites, #[trigger] crates[i]))
            ==> memberships(collected_from(sites, crates), sites.len() as int + 2) == crates.len(),
    decreases crates.len(),
{
    let n = sites.len() as int;
    if crates.len() == 0 {
        assert(crates =~= Seq::empty());
        lemma_memberships_of_none(sites, n + 2);
    } else {
        let rest = crates.drop_last();
        let last = crates.last();
        assert(crates =~= rest.push(last));
        lemma_groups_cover_packages(sites, rest);
        lemma_memberships_push(sites, rest, last, n + 2);
        lemma_package_has_a_group(sites, last);
        if forall|i: int| 0 <= i < crates.len() ==> !overlapping(sites, #[trigger] crates[i]) {
            assert forall|i: int| 0 <= i < rest.len() implies !overlapping(
                sites,
                #[trigger] rest[i],
            ) by {
                assert(rest[i] == crates[i]);
            }
            assert(!overlapping(sites, crates[crates.len() - 1]));
        }
    }
}

/// A package without a repository is in the group of those and in no
/// other group of the report.
pub proof fn lemma_package_without_repository(
    sites: Seq<RepoView>,
    crates: Seq<CrateView>,
    i: int,
)
    requires
        0 <= i < crates.len(),
        crates[i].repository.len() == 0,
    ensures
        collected_from(sites, crates)[sites.len() as int].crates.contains(crates[i]),
        forall|g: int|
            0 <= g < sites.len() + 2 && g != sites.len() ==> !(#[trigger] collected_from(
                sites,
                crates,
            )[g]).crates.contains(crates[i]),
{
    let n = sites.len() as int;
    crates.lemma_filter_contains(rule(sites, n), i);
    assert forall|g: int| 0 <= g < n + 2 && g != n implies !(#[trigger] collected_from(
        sites,
        crates,
    )[g]).crates.contains(crates[i]) by {
        let members = crates.filter(rule(sites, g));
        if members.contains(crates[i]) {
            let at = choose|at: int| 0 <= at < members.len() && members[at] == crates[i];
            crates.lemma_filter_pred(rule(sites, g), at);
        }
    }
}

} // verus!

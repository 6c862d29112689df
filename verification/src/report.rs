//! What the pages of the report show: the lists of packages that stand
//! out, the groups by hosting site, and the share of each.

use vstd::prelude::*;
use crate::percent::{percentage, percentage_text};
use crate::platforms::{collect_repos, collected, repo_views, Repo, RepoView};
use crate::records::{crate_views, Crate, CrateView};
use crate::text::{contains, occurs_in};

verus! {

/// The package names a homepage and no repository.
pub open spec fn homepage_without_repo(krate: CrateView) -> bool {
    krate.homepage.len() > 0 && krate.repository.len() == 0
}

/// The package names neither a homepage nor a repository.
pub open spec fn neither_homepage_nor_repo(krate: CrateView) -> bool {
    krate.homepage.len() == 0 && krate.repository.len() == 0
}

/// The address of the package's repository holds `www.github.com`.
pub open spec fn repo_on_www_github(krate: CrateView) -> bool {
    krate.repository.len() > 0 && occurs_in("www.github.com"@, krate.repository)
}

/// Whether the package names a homepage and no repository.
pub fn has_homepage_no_repo(krate: &Crate) -> (found: bool)
    ensures
        found == homepage_without_repo(krate@),
{
    !krate.homepage.as_str().is_empty() && krate.repository.as_str().is_empty()
}

/// Whether the package names neither a homepage nor a repository.
pub fn no_homepage_no_repo(krate: &Crate) -> (found: bool)
    ensures
        found == neither_homepage_nor_repo(krate@),
{
    krate.homepage.as_str().is_empty() && krate.repository.as_str().is_empty()
}

/// Whether the address of the package's repository holds
/// `www.github.com`.
pub fn github_with_www(krate: &Crate) -> (found: bool)
    ensures
        found == repo_on_www_github(krate@),
{
    !krate.repository.as_str().is_empty() && contains(
        krate.repository.as_str(),
        "www.github.com",
    )
}

/// One of the lists of packages that stand out.
#[derive(Debug, Clone, Copy, PartialEq, Eq, Structural)]
pub enum Finding {
    HomepageButNoRepo,
    NoHomepageNoRepo,
    GithubWithWww,
}

/// The rule of a list, as a predicate on packages.
pub open spec fn shows(finding: Finding) -> spec_fn(CrateView) -> bool {
    |krate: CrateView|
        match finding {
            Finding::HomepageButNoRepo => homepage_without_repo(krate),
            Finding::NoHomepageNoRepo => neither_homepage_nor_repo(krate),
            Finding::GithubWithWww => repo_on_www_github(krate),
        }
}

/// Picks the packages of one list, in the order in which they stand.
pub fn crates_with(crates: &Vec<Crate>, finding: Finding) -> (found: Vec<Crate>)
    ensures
        crate_views(found@) == crate_views(crates@).filter(shows(finding)),
{
    let ghost all = crate_views(crates@);
    let mut found: Vec<Crate> = Vec::new();
    assert(crate_views(found@) =~= all.take(0).filter(shows(finding)));
    let mut i: usize = 0;
    while i < crates.len()
        invariant
            i <= crates.len(),
            all == crate_views(crates@),
            crate_views(found@) == all.take(i as int).filter(shows(finding)),
        decreases crates.len() - i,
    {
        let krate = &crates[i];
        let listed = match finding {
            Finding::HomepageButNoRepo => has_homepage_no_repo(krate),
            Finding::NoHomepageNoRepo => no_homepage_no_repo(krate),
            Finding::GithubWithWww => github_with_www(krate),
        };
        proof {
            assert(all.take(i as int + 1) =~= all.take(i as int).push(krate@));
            all.take(i as int).lemma_filter_push(krate@, shows(finding));
        }
        if listed {
            let member = krate.clone();
            assert(crate_views(found@.push(member)) =~= crate_views(found@).push(krate@));
            found.push(member);
        }
        i += 1;
    }
    assert(all.take(i as int) =~= all);
    found
}

/// What the pages of the report show.
#[derive(Debug)]
pub struct Report {
    /// The number of packages.
    pub total: usize,
    /// The packages with a homepage and no repository, and their share.
    pub home_page_but_no_repo: Vec<Crate>,
    pub home_page_but_no_repo_percentage: String,
    /// The packages with neither, and their share.
    pub no_homepage_no_repo_crates: Vec<Crate>,
    pub no_homepage_no_repo_crates_percentage: String,
    /// The packages with a repository on `www.github.com`, and their share.
    pub github_with_www: Vec<Crate>,
    pub github_with_www_percentage: String,
    /// The groups by hosting site.
    pub repos: Vec<Repo>,
}

/// The mathematical value of a [`Report`].
pub struct ReportView {
    pub total: nat,
    pub home_page_but_no_repo: Seq<CrateView>,
    pub home_page_but_no_repo_percentage: Seq<char>,
    pub no_homepage_no_repo_crates: Seq<CrateView>,
    pub no_homepage_no_repo_crates_percentage: Seq<char>,
    pub github_with_www: Seq<CrateView>,
    pub github_with_www_percentage: Seq<char>,
    pub repos: Seq<RepoView>,
}

impl View for Report {
    type V = ReportView;

    open spec fn view(&self) -> ReportView {
        ReportView {
            total: self.total as nat,
            home_page_but_no_repo: crate_views(self.home_page_but_no_repo@),
            home_page_but_no_repo_percentage: self.home_page_but_no_repo_percentage@,
            no_homepage_no_repo_crates: crate_views(self.no_homepage_no_repo_crates@),
            no_homepage_no_repo_crates_percentage: self.no_homepage_no_repo_crates_percentage@,
            github_with_www: crate_views(self.github_with_www@),
            github_with_www_percentage: self.github_with_www_percentage@,
            repos: repo_views(self.repos@),
        }
    }
}

/// The report over a list of packages: each of the three lists with the
/// share of its packages among all, and the groups by hosting site.
pub open spec fn report_of(crates: Seq<CrateView>) -> ReportView {
    let with_homepage = crates.filter(shows(Finding::HomepageButNoRepo));
    let with_neither = crates.filter(shows(Finding::NoHomepageNoRepo));
    let with_www = crates.filter(shows(Finding::GithubWithWww));
    ReportView {
        total: crates.len(),
        home_page_but_no_repo: with_homepage,
        home_page_but_no_repo_percentage: percentage_text(with_homepage.len(), crates.len()),
        no_homepage_no_repo_crates: with_neither,
        no_homepage_no_repo_crates_percentage: percentage_text(with_neither.len(), crates.len()),
        github_with_www: with_www,
        github_with_www_percentage: percentage_text(with_www.len(), crates.len()),
        repos: collected(crates),
    }
}

/// Works out what the pages of the report show for a list of packages.
pub fn generate_pages(crates: &Vec<Crate>) -> (report: Report)
    ensures
        report@ == report_of(crate_views(crates@)),
{
    let home_page_but_no_repo = crates_with(crates, Finding::HomepageButNoRepo);
    let no_homepage_no_repo_crates = crates_with(crates, Finding::NoHomepageNoRepo);
    let github_with_www = crates_with(crates, Finding::GithubWithWww);
    let repos = collect_repos(crates);
    let total = crates.len();
    Report {
        total,
        home_page_but_no_repo_percentage: percentage(home_page_but_no_repo.len(), total),
        home_page_but_no_repo,
        no_homepage_no_repo_crates_percentage: percentage(no_homepage_no_repo_crates.len(), total),
        no_homepage_no_repo_crates,
        github_with_www_percentage: percentage(github_with_www.len(), total),
        github_with_www,
        repos,
    }
}

} // verus!

//! The store of repository details: where the record of a repository
//! lies, what a lookup yields, and what a save has to write.

use vstd::prelude::*;
use vstd::string::StringExecFns;
use crate::details::{Details, DetailsView, StoredDetails};
use crate::url::{address_parts, classified, get_owner_and_repo, lemma_site_decides};

verus! {

/// The folder that holds the clones of the repositories.
pub fn get_repos_folder() -> (path: String)
    ensures
        path@ == "repos"@,
{
    "repos".to_owned()
}

/// The folder that holds the stored details, one record for each
/// repository.
pub fn repo_details_root() -> (path: String)
    ensures
        path@ == "repo-details"@,
{
    "repo-details".to_owned()
}

/// The folder that holds the collected data.
pub fn collected_data_root() -> (path: String)
    ensures
        path@ == "collected-data"@,
{
    "collected-data".to_owned()
}

/// The name `name` in the folder `folder`: the two with a slash between
/// them, each as it stands.
pub open spec fn below(folder: Seq<char>, name: Seq<char>) -> Seq<char> {
    folder + seq!['/'] + name
}

/// The folder of the records of one site: `repo-details/<host>`.
pub open spec fn site_folder(host: Seq<char>) -> Seq<char> {
    below("repo-details"@, host)
}

/// The folder of the records of one owner: `repo-details/<host>/<owner>`.
pub open spec fn owner_folder(host: Seq<char>, owner: Seq<char>) -> Seq<char> {
    below(site_folder(host), owner)
}

/// The path of the record of the repository `repo` of `owner` on `host`:
/// `repo-details/<host>/<owner>/<repo>.json`. The whole name of the
/// repository stands before `.json`, whatever points it holds, so that
/// names that differ give paths that differ.
pub open spec fn record_path(host: Seq<char>, owner: Seq<char>, repo: Seq<char>) -> Seq<char> {
    below(owner_folder(host, owner), repo) + seq!['.'] + "json"@
}

fn name_below(folder: String, name: &str) -> (path: String)
    ensures
        path@ == below(folder@, name@),
{
    proof {
        reveal_strlit("/");
    }
    let mut path = folder;
    path.append("/");
    path.append(name);
    assert(path@ =~= below(folder@, name@));
    path
}

/// Where the record of the repository at `address` lies: at the path of
/// the site, owner and repository that the address names, owner and
/// repository in lower case. An address that names no repository has no
/// path, and no other address has none.
pub open spec fn details_path(address: Seq<char>) -> Option<Seq<char>> {
    match address_parts(address) {
        Some(_) => Some(
            record_path(classified(address).0, classified(address).1, classified(address).2),
        ),
        None => None,
    }
}

/// The path of a record, written out.
pub proof fn lemma_record_path(host: Seq<char>, owner: Seq<char>, repo: Seq<char>)
    ensures
        record_path(host, owner, repo) == "repo-details"@ + seq!['/'] + host + seq!['/'] + owner
            + seq!['/'] + repo + seq!['.'] + "json"@,
        owner_folder(host, owner) == "repo-details"@ + seq!['/'] + host + seq!['/'] + owner,
{
    assert(record_path(host, owner, repo) =~= "repo-details"@ + seq!['/'] + host + seq!['/']
        + owner + seq!['/'] + repo + seq!['.'] + "json"@);
}

/// No text without a slash has a slash in it.
pub open spec fn slash_free(text: Seq<char>) -> bool {
    forall|i: int| 0 <= i < text.len() ==> text[i] != '/'
}

/// Two repositories have their records at one path only if they are the
/// same repository of the same owner on the same host, as long as no host
/// or owner has a slash in its name.
pub proof fn lemma_record_path_injective(
    host: Seq<char>,
    owner: Seq<char>,
    repo: Seq<char>,
    other_host: Seq<char>,
    other_owner: Seq<char>,
    other_repo: Seq<char>,
)
    requires
        slash_free(host),
        slash_free(owner),
        slash_free(other_host),
        slash_free(other_owner),
        record_path(host, owner, repo) == record_path(other_host, other_owner, other_repo),
    ensures
        host == other_host,
        owner == other_owner,
        repo == other_repo,
{
    lemma_record_path(host, owner, repo);
    lemma_record_path(other_host, other_owner, other_repo);
    let root = "repo-details"@ + seq!['/'];
    let path = record_path(host, owner, repo);
    let tail = owner + seq!['/'] + repo + seq!['.'] + "json"@;
    let other_tail = other_owner + seq!['/'] + other_repo + seq!['.'] + "json"@;
    assert(path =~= root + (host + seq!['/'] + tail));
    assert(path =~= root + (other_host + seq!['/'] + other_tail));
    lemma_cut_at_slash(host, tail, other_host, other_tail, path.skip(root.len() as int));
    let rest = repo + seq!['.'] + "json"@;
    let other_rest = other_repo + seq!['.'] + "json"@;
    assert(tail =~= owner + seq!['/'] + rest);
    assert(other_tail =~= other_owner + seq!['/'] + other_rest);
    lemma_cut_at_slash(owner, rest, other_owner, other_rest, tail);
    assert(repo =~= rest.take(rest.len() - 5)) by {
        reveal_strlit("json");
    }
    assert(other_repo =~= other_rest.take(other_rest.len() - 5)) by {
        reveal_strlit("json");
    }
}

/// Two addresses have their records at one path only if they name the
/// same repository of the same owner on the same site, as long as no
/// owner has a slash in its lower-case name.
pub proof fn lemma_details_path_injective(one: Seq<char>, other: Seq<char>)
    requires
        details_path(one) is Some,
        details_path(one) == details_path(other),
        slash_free(classified(one).1),
        slash_free(classified(other).1),
    ensures
        classified(one) == classified(other),
{
    reveal_strlit("github");
    reveal_strlit("gitlab");
    let (host, owner, repo) = classified(one);
    let (other_host, other_owner, other_repo) = classified(other);
    assert(slash_free(host));
    assert(slash_free(other_host));
    lemma_record_path_injective(host, owner, repo, other_host, other_owner, other_repo);
}

proof fn lemma_cut_at_slash(
    head: Seq<char>,
    tail: Seq<char>,
    other_head: Seq<char>,
    other_tail: Seq<char>,
    whole: Seq<char>,
)
    requires
        slash_free(head),
        slash_free(other_head),
        whole =~= head + seq!['/'] + tail,
        whole =~= other_head + seq!['/'] + other_tail,
    ensures
        head == other_head,
        tail == other_tail,
{
    if head.len() < other_head.len() {
        assert(whole[head.len() as int] == '/');
        assert(whole[head.len() as int] == other_head[head.len() as int]);
    }
    if other_head.len() < head.len() {
        assert(whole[other_head.len() as int] == '/');
        assert(whole[other_head.len() as int] == head[other_head.len() as int]);
    }
    assert(head =~= whole.take(head.len() as int));
    assert(other_head =~= whole.take(head.len() as int));
    assert(tail =~= whole.skip(head.len() as int + 1));
    assert(other_tail =~= whole.skip(head.len() as int + 1));
}

/// Finds where the record of a repository lies: at
/// `repo-details/<host>/<owner>/<repo>.json`, host, owner and repository
/// as the address names them. Every address that names a repository has
/// such a path; an address that names none has no record and no path.
pub fn get_details_path(repository: &str) -> (path: Option<String>)
    ensures
        path is Some <==> address_parts(repository@) is Some,
        path is None <==> classified(repository@) == (
            Seq::<char>::empty(),
            Seq::<char>::empty(),
            Seq::<char>::empty(),
        ),
        match path {
            Some(text) => details_path(repository@) == Some(text@),
            None => details_path(repository@) is None,
        },
{
    let (host, owner, repo) = get_owner_and_repo(repository);
    proof {
        lemma_site_decides(repository@);
    }
    if host.as_str().is_empty() {
        return None;
    }
    Some(record_file(host.as_str(), owner.as_str(), repo.as_str()))
}

fn owner_folder_of(host: &str, owner: &str) -> (path: String)
    ensures
        path@ == owner_folder(host@, owner@),
{
    name_below(name_below(repo_details_root(), host), owner)
}

fn record_file(host: &str, owner: &str, repo: &str) -> (path: String)
    ensures
        path@ == record_path(host@, owner@, repo@),
{
    proof {
        reveal_strlit(".");
    }
    let mut path = name_below(owner_folder_of(host, owner), repo);
    path.append(".");
    path.append("json");
    assert(path@ =~= record_path(host@, owner@, repo@));
    path
}

/// What the store holds at the path of a record.
#[derive(Debug)]
pub enum StoreEntry {
    /// There is no file at the path, or the repository has no path.
    Missing,
    /// There is a file, and it cannot be opened.
    Unreadable,
    /// The file does not hold a record.
    Malformed,
    /// The file holds this record.
    Record(StoredDetails),
}

/// The details that a lookup yields: those of the record, where the
/// repository has a path and there is a record at it; nothing known else.
pub open spec fn loaded(address: Seq<char>, entry: StoreEntry) -> DetailsView {
    if details_path(address) is None {
        DetailsView::empty()
    } else {
        match entry {
            StoreEntry::Record(record) => record.filled(),
            _ => DetailsView::empty(),
        }
    }
}

/// Gives the details of a repository from what the store holds at its
/// path. A repository without a path, a missing file, a file that cannot
/// be opened and one that holds no record all give the details of which
/// nothing is known; a record that lacks later fields is read with their
/// defaults.
pub fn load_details(repository: &str, entry: StoreEntry) -> (details: Details)
    ensures
        details@ == loaded(repository@, entry),
{
    match get_details_path(repository) {
        None => Details::new(),
        Some(_) => match entry {
            StoreEntry::Record(record) => record.into_details(),
            StoreEntry::Missing => Details::new(),
            StoreEntry::Unreadable => Details::new(),
            StoreEntry::Malformed => Details::new(),
        },
    }
}

/// What a save has to do: the folders to make sure of, in this order, and
/// then the file to write the record to. Without a file nothing is
/// written.
#[derive(Debug)]
pub struct SavePlan {
    pub folders: Vec<String>,
    pub file: Option<String>,
    pub record: StoredDetails,
}

/// The folders that every save makes sure of: the root of the store and
/// one folder for each known site.
pub open spec fn site_folders() -> Seq<Seq<char>> {
    seq![
        "repo-details"@,
        site_folder("github"@),
        site_folder("gitlab"@),
    ]
}

/// The folders that a save for the address makes sure of: those of the
/// sites, and the owner's where the address names a repository.
pub open spec fn save_folders(address: Seq<char>) -> Seq<Seq<char>> {
    match address_parts(address) {
        Some(_) => site_folders().push(
            owner_folder(classified(address).0, classified(address).1),
        ),
        None => site_folders(),
    }
}

/// The file that a save for the address writes: the one at which a lookup
/// for the address reads. Only for an address that names no repository
/// there is none, and nothing is written.
pub open spec fn save_path(address: Seq<char>) -> Option<Seq<char>> {
    details_path(address)
}

/// The views of the texts of a list.
pub open spec fn path_views(paths: Seq<String>) -> Seq<Seq<char>> {
    paths.map_values(|path: String| path@)
}

/// The view of a path that may be missing.
pub open spec fn path_view(path: Option<String>) -> Option<Seq<char>> {
    match path {
        Some(text) => Some(text@),
        None => None,
    }
}

/// Plans the save of the details of a repository: the folders of the
/// sites and of the owner, the file `<host>/<owner>/<repo>.json` below the
/// root, and the record with every field. Only where the address names no
/// repository there is no file, and nothing is to be written.
pub fn save_details(repository: &str, details: &Details) -> (plan: SavePlan)
    ensures
        path_views(plan.folders@) == save_folders(repository@),
        plan.file is Some <==> address_parts(repository@) is Some,
        path_view(plan.file) == save_path(repository@),
        plan.record.complete(),
        plan.record.filled() == details@,
{
    let mut folders: Vec<String> = Vec::new();
    folders.push(repo_details_root());
    folders.push(name_below(repo_details_root(), "github"));
    folders.push(name_below(repo_details_root(), "gitlab"));
    assert(path_views(folders@) =~= site_folders());
    let record = StoredDetails::from_details(details);
    let (host, owner, repo) = get_owner_and_repo(repository);
    proof {
        lemma_site_decides(repository@);
    }
    if host.as_str().is_empty() {
        return SavePlan { folders, file: None, record };
    }
    folders.push(owner_folder_of(host.as_str(), owner.as_str()));
    let file = record_file(host.as_str(), owner.as_str(), repo.as_str());
    assert(path_views(folders@) =~= save_folders(repository@));
    SavePlan { folders, file: Some(file), record }
}

/// Exactly the addresses that name no repository have no path in the
/// store: they are the addresses for which the three texts are empty.
/// Nothing is loaded for them, and nothing is written for them.
pub proof fn lemma_only_unclassified_has_no_path(address: Seq<char>, entry: StoreEntry)
    ensures
        details_path(address) is None <==> address_parts(address) is None,
        details_path(address) is None <==> classified(address) == (
            Seq::<char>::empty(),
            Seq::<char>::empty(),
            Seq::<char>::empty(),
        ),
        save_path(address) is None <==> address_parts(address) is None,
        address_parts(address) is None ==> loaded(address, entry) == DetailsView::empty(),
{
    lemma_site_decides(address);
}

/// What is saved for a repository is what is loaded for it again: for
/// every address that names a repository, a save writes to the path at
/// which a lookup reads, and its record reads back as the details that
/// were saved, equal in every field.
pub proof fn lemma_load_after_save(address: Seq<char>, record: StoredDetails, details: DetailsView)
    requires
        record.filled() == details,
        address_parts(address) is Some,
    ensures
        save_path(address) is Some,
        save_path(address) == details_path(address),
        loaded(address, StoreEntry::Record(record)) == details,
{
}

} // verus!

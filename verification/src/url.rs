//! Repository addresses: which hosting site, owner and repository an
//! address of one of the two known sites names.

use vstd::prelude::*;
use vstd::string::StrSliceExecFns;
use crate::text::{lowercased, starts_with, to_lowercase};

verus! {

/// How an address on the first known site begins.
pub open spec fn github_prefix() -> Seq<char> {
    "https://github.com/"@
}

/// How an address on the second known site begins.
pub open spec fn gitlab_prefix() -> Seq<char> {
    "https://gitlab.com/"@
}

/// Where the path segment that starts at `from` ends: at the first slash
/// at or after `from`, or at the end of the text.
pub open spec fn segment_end(text: Seq<char>, from: int) -> int
    decreases text.len() - from,
{
    if from < 0 || from >= text.len() {
        text.len() as int
    } else if text[from] == '/' {
        from
    } else {
        segment_end(text, from + 1)
    }
}

/// The owner and the repository that follow a site's prefix of `start`
/// characters: the first two path segments, neither of them empty, the
/// first closed by a slash. What follows the second is not looked at.
pub open spec fn owner_and_repo_from(address: Seq<char>, start: int) -> Option<
    (Seq<char>, Seq<char>),
> {
    let owner_end = segment_end(address, start);
    let repo_end = segment_end(address, owner_end + 1);
    if start < owner_end < address.len() && owner_end + 1 < repo_end {
        Some((address.subrange(start, owner_end), address.subrange(owner_end + 1, repo_end)))
    } else {
        None
    }
}

/// The site, owner and repository that an address names, as written in
/// it, or `None` where it is no address of a repository on a known site.
pub open spec fn address_parts(address: Seq<char>) -> Option<(Seq<char>, Seq<char>, Seq<char>)> {
    if github_prefix().is_prefix_of(address) {
        match owner_and_repo_from(address, github_prefix().len() as int) {
            Some((owner, repo)) => Some(("github"@, owner, repo)),
            None => None,
        }
    } else if gitlab_prefix().is_prefix_of(address) {
        match owner_and_repo_from(address, gitlab_prefix().len() as int) {
            Some((owner, repo)) => Some(("gitlab"@, owner, repo)),
            None => None,
        }
    } else {
        None
    }
}

/// The site, owner and repository of an address, owner and repository in
/// lower case; three empty texts where the address names none.
pub open spec fn classified(address: Seq<char>) -> (Seq<char>, Seq<char>, Seq<char>) {
    match address_parts(address) {
        Some((host, owner, repo)) => (host, lowercased(owner), lowercased(repo)),
        None => (Seq::empty(), Seq::empty(), Seq::empty()),
    }
}

/// A text that can stand as one path segment: not empty, no slash in it.
pub open spec fn is_segment(text: Seq<char>) -> bool {
    text.len() > 0 && forall|i: int| 0 <= i < text.len() ==> text[i] != '/'
}

/// What may follow the repository in an address: nothing, or a slash and
/// anything after it.
pub open spec fn is_trailer(text: Seq<char>) -> bool {
    text.len() == 0 || text[0] == '/'
}

/// The address of a repository: `https://<host>.com/<owner>/<repo>` and
/// what follows.
pub open spec fn repo_address(
    host: Seq<char>,
    owner: Seq<char>,
    repo: Seq<char>,
    trailer: Seq<char>,
) -> Seq<char> {
    "https://"@ + host + ".com/"@ + owner + seq!['/'] + repo + trailer
}

/// The two sites that are known.
pub open spec fn is_known_host(host: Seq<char>) -> bool {
    host == "github"@ || host == "gitlab"@
}

/// `address` is the address of the repository `repo` of `owner` on the
/// known site `host`, followed by `trailer`.
pub open spec fn names_repo(
    address: Seq<char>,
    host: Seq<char>,
    owner: Seq<char>,
    repo: Seq<char>,
    trailer: Seq<char>,
) -> bool {
    &&& is_known_host(host)
    &&& is_segment(owner)
    &&& is_segment(repo)
    &&& is_trailer(trailer)
    &&& address == repo_address(host, owner, repo, trailer)
}

proof fn lemma_prefixes()
    ensures
        github_prefix().len() == 19,
        gitlab_prefix().len() == 19,
        github_prefix() == "https://"@ + "github"@ + ".com/"@,
        gitlab_prefix() == "https://"@ + "gitlab"@ + ".com/"@,
        github_prefix()[11] == 'h',
        gitlab_prefix()[11] == 'l',
        "github"@.len() == 6,
        "gitlab"@.len() == 6,
        "github"@ != "gitlab"@,
{
    reveal_strlit("https://github.com/");
    reveal_strlit("https://gitlab.com/");
    reveal_strlit("https://");
    reveal_strlit("github");
    reveal_strlit("gitlab");
    reveal_strlit(".com/");
    assert(github_prefix() =~= "https://"@ + "github"@ + ".com/"@);
    assert(gitlab_prefix() =~= "https://"@ + "gitlab"@ + ".com/"@);
    assert("github"@[3] == 'h');
    assert("gitlab"@[3] == 'l');
}

/// A segment ends where the first slash stands, or where the text ends.
pub proof fn lemma_segment_end(text: Seq<char>, from: int)
    requires
        0 <= from <= text.len(),
    ensures
        from <= segment_end(text, from) <= text.len(),
        forall|i: int| from <= i < segment_end(text, from) ==> text[i] != '/',
        segment_end(text, from) < text.len() ==> text[segment_end(text, from)] == '/',
    decreases text.len() - from,
{
    if from < text.len() && text[from] != '/' {
        lemma_segment_end(text, from + 1);
    }
}

/// A stretch without a slash, closed by a slash or by the end of the text,
/// is a segment.
pub proof fn lemma_segment_end_at(text: Seq<char>, from: int, end: int)
    requires
        0 <= from <= end <= text.len(),
        forall|i: int| from <= i < end ==> text[i] != '/',
        end == text.len() || text[end] == '/',
    ensures
        segment_end(text, from) == end,
    decreases end - from,
{
    if from < end {
        lemma_segment_end_at(text, from + 1, end);
    }
}

/// Every address made of a known site, an owner, a repository and a
/// trailer names exactly these, whatever the trailer holds.
pub proof fn lemma_repo_address_is_classified(
    host: Seq<char>,
    owner: Seq<char>,
    repo: Seq<char>,
    trailer: Seq<char>,
)
    requires
        is_known_host(host),
        is_segment(owner),
        is_segment(repo),
        is_trailer(trailer),
    ensures
        address_parts(repo_address(host, owner, repo, trailer)) == Some((host, owner, repo)),
        classified(repo_address(host, owner, repo, trailer)) == (
            host,
            lowercased(owner),
            lowercased(repo),
        ),
{
    lemma_prefixes();
    let address = repo_address(host, owner, repo, trailer);
    let prefix = "https://"@ + host + ".com/"@;
    assert(prefix.len() == 19);
    assert(prefix.is_prefix_of(address)) by {
        assert(address.subrange(0, 19) =~= prefix);
    }
    let owner_end: int = 19 + owner.len() as int;
    let repo_end: int = owner_end + 1 + repo.len();
    assert(address.len() == repo_end + trailer.len());
    assert forall|i: int| 19 <= i < owner_end implies address[i] != '/' by {
        assert(address[i] == owner[i - 19]);
    }
    assert(address[owner_end] == '/');
    lemma_segment_end_at(address, 19, owner_end);
    assert forall|i: int| owner_end + 1 <= i < repo_end implies address[i] != '/' by {
        assert(address[i] == repo[i - owner_end - 1]);
    }
    if trailer.len() > 0 {
        assert(address[repo_end] == trailer[0]);
    }
    lemma_segment_end_at(address, owner_end + 1, repo_end);
    assert(address.subrange(19, owner_end) =~= owner);
    assert(address.subrange(owner_end + 1, repo_end) =~= repo);
    if host == "github"@ {
        assert(github_prefix().is_prefix_of(address));
    } else {
        assert(gitlab_prefix().is_prefix_of(address));
        assert(!github_prefix().is_prefix_of(address)) by {
            if github_prefix().is_prefix_of(address) {
                assert(address[11] == github_prefix()[11]);
                assert(address[11] == gitlab_prefix()[11]);
            }
        }
    }
}

/// An address that names a repository is made of a known site, an owner, a
/// repository and a trailer.
pub proof fn lemma_classified_address_is_repo_address(address: Seq<char>)
    requires
        address_parts(address) is Some,
    ensures
        exists|trailer: Seq<char>| #[trigger]
            names_repo(
                address,
                address_parts(address).unwrap().0,
                address_parts(address).unwrap().1,
                address_parts(address).unwrap().2,
                trailer,
            ),
{
    lemma_prefixes();
    let (host, owner, repo) = address_parts(address).unwrap();
    let prefix = "https://"@ + host + ".com/"@;
    assert(prefix.is_prefix_of(address));
    let owner_end = segment_end(address, 19);
    lemma_segment_end(address, 19);
    let repo_end = segment_end(address, owner_end + 1);
    lemma_segment_end(address, owner_end + 1);
    let trailer = address.subrange(repo_end, address.len() as int);
    assert(address =~= repo_address(host, owner, repo, trailer));
    assert(is_segment(owner));
    assert(is_segment(repo));
    assert(is_trailer(trailer));
    assert(names_repo(address, host, owner, repo, trailer));
}

/// An address that is not made of a known site, an owner, a repository
/// and a trailer names nothing: the three texts are empty.
pub proof fn lemma_other_address_is_unclassified(address: Seq<char>)
    requires
        forall|host: Seq<char>, owner: Seq<char>, repo: Seq<char>, trailer: Seq<char>|
            !#[trigger] names_repo(address, host, owner, repo, trailer),
    ensures
        address_parts(address) is None,
        classified(address) == (Seq::<char>::empty(), Seq::<char>::empty(), Seq::<char>::empty()),
{
    if address_parts(address) is Some {
        lemma_classified_address_is_repo_address(address);
    }
}

/// The site of an address is empty exactly where the address names
/// nothing, and then owner and repository are empty too; where it names a
/// repository the site is one of the two known ones.
pub proof fn lemma_site_decides(address: Seq<char>)
    ensures
        address_parts(address) is None <==> classified(address).0.len() == 0,
        address_parts(address) is None <==> classified(address) == (
            Seq::<char>::empty(),
            Seq::<char>::empty(),
            Seq::<char>::empty(),
        ),
        address_parts(address) is Some ==> is_known_host(classified(address).0),
{
    lemma_prefixes();
}

fn find_segment_end(text: &str, from: usize, len: usize) -> (end: usize)
    requires
        len == text@.len(),
        from <= len,
    ensures
        end == segment_end(text@, from as int),
        from <= end <= len,
{
    let mut at = from;
    while at < len && text.get_char(at) != '/'
        invariant
            from <= at <= len,
            len == text@.len(),
            segment_end(text@, at as int) == segment_end(text@, from as int),
        decreases len - at,
    {
        at += 1;
    }
    at
}

fn unclassified() -> (parts: (String, String, String))
    ensures
        parts.0@ == Seq::<char>::empty(),
        parts.1@ == Seq::<char>::empty(),
        parts.2@ == Seq::<char>::empty(),
{
    (String::new(), String::new(), String::new())
}

/// Finds the hosting site, the owner and the repository that an address
/// names. The site is `github` or `gitlab`; owner and repository are the
/// first two path segments in lower case, and what follows them is left
/// out. An address of another shape gives three empty texts.
pub fn get_owner_and_repo(repository: &str) -> (parts: (String, String, String))
    ensures
        (parts.0@, parts.1@, parts.2@) == classified(repository@),
{
    proof {
        lemma_prefixes();
    }
    let host = if starts_with(repository, "https://github.com/") {
        "github"
    } else if starts_with(repository, "https://gitlab.com/") {
        "gitlab"
    } else {
        return unclassified();
    };
    let len = repository.unicode_len();
    let start: usize = 19;
    let owner_end = find_segment_end(repository, start, len);
    if owner_end == start || owner_end == len {
        return unclassified();
    }
    let repo_start = owner_end + 1;
    let repo_end = find_segment_end(repository, repo_start, len);
    if repo_end == repo_start {
        return unclassified();
    }
    let owner = to_lowercase(repository.substring_char(start, owner_end));
    let repo = to_lowercase(repository.substring_char(repo_start, repo_end));
    (host.to_owned(), owner, repo)
}

} // verus!

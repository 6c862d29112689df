//! The records of the registry: packages, their owners, and the links
//! between the two.

use vstd::prelude::*;
use crate::details::{Details, DetailsView};

verus! {

/// One package of the registry. The first eleven fields come from the
/// registry's table; the owner's fields are filled in when the owner is
/// found, and the details when they are looked up.
#[derive(Debug)]
pub struct Crate {
    pub created_at: String,
    pub description: String,
    pub documentation: String,
    pub downloads: String,
    pub homepage: String,
    pub id: String,
    pub max_upload_size: String,
    pub name: String,
    pub readme: String,
    pub repository: String,
    pub updated_at: String,
    pub owner_gh_login: String,
    pub owner_name: String,
    pub owner_gh_avatar: String,
    pub details: Details,
}

/// The mathematical value of a [`Crate`].
pub struct CrateView {
    pub created_at: Seq<char>,
    pub description: Seq<char>,
    pub documentation: Seq<char>,
    pub downloads: Seq<char>,
    pub homepage: Seq<char>,
    pub id: Seq<char>,
    pub max_upload_size: Seq<char>,
    pub name: Seq<char>,
    pub readme: Seq<char>,
    pub repository: Seq<char>,
    pub updated_at: Seq<char>,
    pub owner_gh_login: Seq<char>,
    pub owner_name: Seq<char>,
    pub owner_gh_avatar: Seq<char>,
    pub details: DetailsView,
}

impl CrateView {
    /// A package of which nothing is known: every text empty.
    pub open spec fn empty() -> CrateView {
        CrateView {
            created_at: Seq::empty(),
            description: Seq::empty(),
            documentation: Seq::empty(),
            downloads: Seq::empty(),
            homepage: Seq::empty(),
            id: Seq::empty(),
            max_upload_size: Seq::empty(),
            name: Seq::empty(),
            readme: Seq::empty(),
            repository: Seq::empty(),
            updated_at: Seq::empty(),
            owner_gh_login: Seq::empty(),
            owner_name: Seq::empty(),
            owner_gh_avatar: Seq::empty(),
            details: DetailsView::empty(),
        }
    }
}

impl View for Crate {
    type V = CrateView;

    open spec fn view(&self) -> CrateView {
        CrateView {
            created_at: self.created_at@,
            description: self.description@,
            documentation: self.documentation@,
            downloads: self.downloads@,
            homepage: self.homepage@,
            id: self.id@,
            max_upload_size: self.max_upload_size@,
            name: self.name@,
            readme: self.readme@,
            repository: self.repository@,
            updated_at: self.updated_at@,
            owner_gh_login: self.owner_gh_login@,
            owner_name: self.owner_name@,
            owner_gh_avatar: self.owner_gh_avatar@,
            details: self.details@,
        }
    }
}

impl Crate {
    /// A package of which nothing is known.
    pub fn new() -> (krate: Self)
        ensures
            krate@ == CrateView::empty(),
    {
        Self {
            created_at: String::new(),
            description: String::new(),
            documentation: String::new(),
            downloads: String::new(),
            homepage: String::new(),
            id: String::new(),
            max_upload_size: String::new(),
            name: String::new(),
            readme: String::new(),
            repository: String::new(),
            updated_at: String::new(),
            owner_gh_avatar: String::new(),
            owner_gh_login: String::new(),
            owner_name: String::new(),
            details: Details::new(),
        }
    }
}

impl Default for Crate {
    fn default() -> (krate: Self)
        ensures
            krate@ == CrateView::empty(),
    {
        Self::new()
    }
}

impl Clone for Crate {
    fn clone(&self) -> (copy: Self)
        ensures
            copy@ == self@,
    {
        Self {
            created_at: self.created_at.clone(),
            description: self.description.clone(),
            documentation: self.documentation.clone(),
            downloads: self.downloads.clone(),
            homepage: self.homepage.clone(),
            id: self.id.clone(),
            max_upload_size: self.max_upload_size.clone(),
            name: self.name.clone(),
            readme: self.readme.clone(),
            repository: self.repository.clone(),
            updated_at: self.updated_at.clone(),
            owner_gh_login: self.owner_gh_login.clone(),
            owner_name: self.owner_name.clone(),
            owner_gh_avatar: self.owner_gh_avatar.clone(),
            details: self.details.clone(),
        }
    }
}

/// The values of the packages of a list, in its order.
pub open spec fn crate_views(crates: Seq<Crate>) -> Seq<CrateView> {
    crates.map_values(|krate: Crate| krate@)
}

/// One owner of packages: a person, or a team that stands as one.
#[derive(Debug)]
pub struct User {
    pub gh_avatar: String,
    pub gh_id: String,
    pub gh_login: String,
    pub id: String,
    pub name: String,
    pub count: usize,
}

/// The mathematical value of a [`User`].
pub struct UserView {
    pub gh_avatar: Seq<char>,
    pub gh_id: Seq<char>,
    pub gh_login: Seq<char>,
    pub id: Seq<char>,
    pub name: Seq<char>,
    pub count: nat,
}

impl View for User {
    type V = UserView;

    open spec fn view(&self) -> UserView {
        UserView {
            gh_avatar: self.gh_avatar@,
            gh_id: self.gh_id@,
            gh_login: self.gh_login@,
            id: self.id@,
            name: self.name@,
            count: self.count as nat,
        }
    }
}

/// A team that owns packages.
#[derive(Debug)]
pub struct Team {
    pub avatar: String,
    pub github_id: String,
    pub login: String,
    pub id: String,
    pub name: String,
    pub org_id: String,
}

impl Team {
    /// The owner that the team stands as: its avatar, account and name
    /// under its own id, with no packages counted yet.
    pub open spec fn as_owner(&self) -> UserView {
        UserView {
            gh_avatar: self.avatar@,
            gh_id: self.github_id@,
            gh_login: self.login@,
            id: self.id@,
            name: self.name@,
            count: 0,
        }
    }

    /// Makes the team an owner among the users, under its own id.
    pub fn into_user(self) -> (user: User)
        ensures
            user@ == self.as_owner(),
    {
        User {
            gh_avatar: self.avatar,
            gh_id: self.github_id,
            gh_login: self.login,
            id: self.id,
            name: self.name,
            count: 0,
        }
    }
}

/// One link of the ownership table: the package `crate_id` belongs to the
/// owner `owner_id`.
#[derive(Debug)]
pub struct CrateOwner {
    pub crate_id: String,
    pub created_at: String,
    pub created_by: String,
    pub owner_id: String,
    pub owner_kind: String,
}

} // verus!

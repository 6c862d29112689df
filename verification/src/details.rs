//! What is known of one repository, and how a stored record of it is read
//! back when the format has grown since it was written.

use vstd::prelude::*;

verus! {

/// What was found out about one repository.
#[derive(Debug)]
pub struct Details {
    pub has_github_action: bool,
    pub has_gitlab_pipeline: bool,
    pub commit_count: i32,
    pub cargo_toml_in_root: bool,
    pub cargo_fmt: String,
    pub git_clone_error: String,
    pub has_rustfmt_toml: bool,
    pub has_dot_rustfmt_toml: bool,
    pub edition: String,
    pub rust_version: String,
}

/// The mathematical value of a [`Details`].
pub struct DetailsView {
    pub has_github_action: bool,
    pub has_gitlab_pipeline: bool,
    pub commit_count: int,
    pub cargo_toml_in_root: bool,
    pub cargo_fmt: Seq<char>,
    pub git_clone_error: Seq<char>,
    pub has_rustfmt_toml: bool,
    pub has_dot_rustfmt_toml: bool,
    pub edition: Seq<char>,
    pub rust_version: Seq<char>,
}

impl DetailsView {
    /// Nothing known: every flag off, no commits, every text empty.
    pub open spec fn empty() -> DetailsView {
        DetailsView {
            has_github_action: false,
            has_gitlab_pipeline: false,
            commit_count: 0,
            cargo_toml_in_root: false,
            cargo_fmt: Seq::empty(),
            git_clone_error: Seq::empty(),
            has_rustfmt_toml: false,
            has_dot_rustfmt_toml: false,
            edition: Seq::empty(),
            rust_version: Seq::empty(),
        }
    }
}

impl View for Details {
    type V = DetailsView;

    open spec fn view(&self) -> DetailsView {
        DetailsView {
            has_github_action: self.has_github_action,
            has_gitlab_pipeline: self.has_gitlab_pipeline,
            commit_count: self.commit_count as int,
            cargo_toml_in_root: self.cargo_toml_in_root,
            cargo_fmt: self.cargo_fmt@,
            git_clone_error: self.git_clone_error@,
            has_rustfmt_toml: self.has_rustfmt_toml,
            has_dot_rustfmt_toml: self.has_dot_rustfmt_toml,
            edition: self.edition@,
            rust_version: self.rust_version@,
        }
    }
}

impl Details {
    /// The details of a repository of which nothing is known.
    pub fn new() -> (details: Self)
        ensures
            details@ == DetailsView::empty(),
    {
        Self {
            has_github_action: false,
            has_gitlab_pipeline: false,
            commit_count: 0,
            cargo_toml_in_root: false,
            cargo_fmt: String::new(),
            has_rustfmt_toml: false,
            has_dot_rustfmt_toml: false,
            git_clone_error: String::new(),
            edition: String::new(),
            rust_version: String::new(),
        }
    }
}

impl Default for Details {
    fn default() -> (details: Self)
        ensures
            details@ == DetailsView::empty(),
    {
        Self::new()
    }
}

impl Clone for Details {
    fn clone(&self) -> (copy: Self)
        ensures
            copy@ == self@,
    {
        Self {
            has_github_action: self.has_github_action,
            has_gitlab_pipeline: self.has_gitlab_pipeline,
            commit_count: self.commit_count,
            cargo_toml_in_root: self.cargo_toml_in_root,
            cargo_fmt: self.cargo_fmt.clone(),
            git_clone_error: self.git_clone_error.clone(),
            has_rustfmt_toml: self.has_rustfmt_toml,
            has_dot_rustfmt_toml: self.has_dot_rustfmt_toml,
            edition: self.edition.clone(),
            rust_version: self.rust_version.clone(),
        }
    }
}

/// The text that a record has where it holds none.
pub fn empty_string() -> (text: String)
    ensures
        text@ == Seq::<char>::empty(),
{
    String::new()
}

/// The flag that a record has where it holds none.
pub fn default_false() -> (flag: bool)
    ensures
        !flag,
{
    false
}

/// The number that a record has where it holds none.
pub fn get_zero() -> (count: usize)
    ensures
        count == 0,
{
    0
}

/// The details that a package has where its record holds none.
pub fn empty_details() -> (details: Details)
    ensures
        details@ == DetailsView::empty(),
{
    Details::new()
}

/// One record as the store holds it. The first five fields are in every
/// record; the others came later, and a record written before them lacks
/// them.
#[derive(Debug)]
pub struct StoredDetails {
    pub has_github_action: bool,
    pub has_gitlab_pipeline: bool,
    pub commit_count: i32,
    pub cargo_toml_in_root: bool,
    pub cargo_fmt: String,
    pub git_clone_error: Option<String>,
    pub has_rustfmt_toml: Option<bool>,
    pub has_dot_rustfmt_toml: Option<bool>,
    pub edition: Option<String>,
    pub rust_version: Option<String>,
}

/// The text of a field that may be missing: empty where it is.
pub open spec fn text_or_empty(field: Option<String>) -> Seq<char> {
    match field {
        Some(text) => text@,
        None => Seq::empty(),
    }
}

/// The flag of a field that may be missing: off where it is.
pub open spec fn flag_or_false(field: Option<bool>) -> bool {
    match field {
        Some(flag) => flag,
        None => false,
    }
}

impl StoredDetails {
    /// The details that the record stands for: each field that it holds as
    /// it is, each field that it lacks empty or off.
    pub open spec fn filled(&self) -> DetailsView {
        DetailsView {
            has_github_action: self.has_github_action,
            has_gitlab_pipeline: self.has_gitlab_pipeline,
            commit_count: self.commit_count as int,
            cargo_toml_in_root: self.cargo_toml_in_root,
            cargo_fmt: self.cargo_fmt@,
            git_clone_error: text_or_empty(self.git_clone_error),
            has_rustfmt_toml: flag_or_false(self.has_rustfmt_toml),
            has_dot_rustfmt_toml: flag_or_false(self.has_dot_rustfmt_toml),
            edition: text_or_empty(self.edition),
            rust_version: text_or_empty(self.rust_version),
        }
    }

    /// The record has every field of the format.
    pub open spec fn complete(&self) -> bool {
        &&& self.git_clone_error is Some
        &&& self.has_rustfmt_toml is Some
        &&& self.has_dot_rustfmt_toml is Some
        &&& self.edition is Some
        &&& self.rust_version is Some
    }

    /// Reads the record, giving each field that it lacks its default.
    pub fn into_details(self) -> (details: Details)
        ensures
            details@ == self.filled(),
    {
        Details {
            has_github_action: self.has_github_action,
            has_gitlab_pipeline: self.has_gitlab_pipeline,
            commit_count: self.commit_count,
            cargo_toml_in_root: self.cargo_toml_in_root,
            cargo_fmt: self.cargo_fmt,
            git_clone_error: match self.git_clone_error {
                Some(text) => text,
                None => empty_string(),
            },
            has_rustfmt_toml: match self.has_rustfmt_toml {
                Some(flag) => flag,
                None => default_false(),
            },
            has_dot_rustfmt_toml: match self.has_dot_rustfmt_toml {
                Some(flag) => flag,
                None => default_false(),
            },
            edition: match self.edition {
                Some(text) => text,
                None => empty_string(),
            },
            rust_version: match self.rust_version {
                Some(text) => text,
                None => empty_string(),
            },
        }
    }

    /// The record to store for `details`: it has every field.
    pub fn from_details(details: &Details) -> (record: Self)
        ensures
            record.complete(),
            record.filled() == details@,
    {
        Self {
            has_github_action: details.has_github_action,
            has_gitlab_pipeline: details.has_gitlab_pipeline,
            commit_count: details.commit_count,
            cargo_toml_in_root: details.cargo_toml_in_root,
            cargo_fmt: details.cargo_fmt.clone(),
            git_clone_error: Some(details.git_clone_error.clone()),
            has_rustfmt_toml: Some(details.has_rustfmt_toml),
            has_dot_rustfmt_toml: Some(details.has_dot_rustfmt_toml),
            edition: Some(details.edition.clone()),
            rust_version: Some(details.rust_version.clone()),
        }
    }
}

/// A record from before the later fields reads as its five old fields
/// with nothing known of what came later.
pub proof fn lemma_old_record_reads_with_defaults(record: StoredDetails)
    requires
        record.git_clone_error is None,
        record.has_rustfmt_toml is None,
        record.has_dot_rustfmt_toml is None,
        record.edition is None,
        record.rust_version is None,
    ensures
        record.filled() == (DetailsView {
            has_github_action: record.has_github_action,
            has_gitlab_pipeline: record.has_gitlab_pipeline,
            commit_count: record.commit_count as int,
            cargo_toml_in_root: record.cargo_toml_in_root,
            cargo_fmt: record.cargo_fmt@,
            ..DetailsView::empty()
        }),
{
}

/// A missing field changes nothing but itself: whatever a record holds of
/// the later fields, the older fields and the other later fields read as
/// they were stored.
pub proof fn lemma_missing_field_is_its_default(record: StoredDetails)
    ensures
        record.edition is None ==> record.filled().edition == Seq::<char>::empty(),
        record.rust_version is None ==> record.filled().rust_version == Seq::<char>::empty(),
        record.git_clone_error is None ==> record.filled().git_clone_error == Seq::<
            char,
        >::empty(),
        record.has_rustfmt_toml is None ==> !record.filled().has_rustfmt_toml,
        record.has_dot_rustfmt_toml is None ==> !record.filled().has_dot_rustfmt_toml,
        record.edition matches Some(text) ==> record.filled().edition == text@,
        record.rust_version matches Some(text) ==> record.filled().rust_version == text@,
        record.git_clone_error matches Some(text) ==> record.filled().git_clone_error == text@,
        record.has_rustfmt_toml matches Some(flag) ==> record.filled().has_rustfmt_toml == flag,
        record.has_dot_rustfmt_toml matches Some(flag) ==> record.filled().has_dot_rustfmt_toml
            == flag,
{
}

} // verus!

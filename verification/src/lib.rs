//! Classification and aggregation core of a package-registry report.

pub mod details;
pub mod loader;
pub mod owners;
pub mod paths;
pub mod percent;
pub mod platforms;
pub mod records;
pub mod report;
pub mod store;
pub mod text;
pub mod url;

pub use details::{default_false, empty_details, empty_string, get_zero, Details, StoredDetails};
pub use loader::{read_crates, rows_to_read, sort_newest_first};
pub use owners::{
    add_owners_to_crates, count_owned_crates, index_crate_owners, CratesByOwner, Owners,
};
pub use paths::build_path;
pub use percent::percentage;
pub use platforms::{
    collect_repos, get_default_bold, get_default_count, get_default_percentage, get_repo_types,
    Repo, RepoPlatform,
};
pub use records::{Crate, CrateOwner, Team, User};
pub use report::{
    crates_with, generate_pages, github_with_www, has_homepage_no_repo, no_homepage_no_repo,
    Finding, Report,
};
pub use store::{
    collected_data_root, get_details_path, get_repos_folder, load_details, repo_details_root,
    save_details, SavePlan, StoreEntry,
};
pub use url::get_owner_and_repo;

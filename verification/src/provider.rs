//! The release-provider boundary: what to fetch for a desired version, and
//! the URLs of the release endpoints.

use vstd::prelude::*;
use crate::text::{concat3, trim_start_matches, trim_start_spec};
use crate::version::{render_spec, Version};

verus! {

/// What to ask the release provider for: the repository, and a tag when a
/// specific version is desired (else the latest release).
#[derive(Debug)]
pub struct ReleaseQuery {
    pub repo: String,
    pub tag: Option<String>,
}

/// Builds the query for a repository and an optional desired version: the
/// version is rendered to its tag string; with none, the latest release is
/// asked for.
pub fn release_query(repo: &str, desired: &Option<Version>) -> (r: ReleaseQuery)
    ensures
        r.repo@ == repo@,
        match desired {
            Some(v) => r.tag matches Some(t) && t@ == render_spec(v@),
            None => r.tag is None,
        },
{
    let tag = match desired {
        Some(v) => Some(v.render()),
        None => None,
    };
    ReleaseQuery { repo: repo.to_owned(), tag }
}

/// The repository's API path: the repo identifier with any leading
/// `https://github.com/` removed.
pub open spec fn repo_path_spec(repo: Seq<char>) -> Seq<char> {
    trim_start_spec(repo, "https://github.com/"@)
}

/// Strips a leading `https://github.com/` from the repository identifier.
pub fn repo_path(repo: &str) -> (r: String)
    ensures
        r@ == repo_path_spec(repo@),
{
    trim_start_matches(repo, "https://github.com/")
}

/// The URL asking for the latest release of the repository.
pub open spec fn latest_release_url_spec(base: Seq<char>, repo: Seq<char>) -> Seq<char> {
    base + "/repos/"@ + repo_path_spec(repo) + "/releases/latest"@
}

pub fn latest_release_url(base: &str, repo: &str) -> (r: String)
    ensures
        r@ == latest_release_url_spec(base@, repo@),
{
    let path = repo_path(repo);
    let mut r = concat3(base, "/repos/", path.as_str());
    r.append("/releases/latest");
    proof {
        assert(r@ =~= latest_release_url_spec(base@, repo@));
    }
    r
}

/// The URL asking for the release bearing the given tag.
pub open spec fn tag_release_url_spec(base: Seq<char>, repo: Seq<char>, tag: Seq<char>) -> Seq<
    char,
> {
    base + "/repos/"@ + repo_path_spec(repo) + "/releases/tags/"@ + tag
}

pub fn tag_release_url(base: &str, repo: &str, tag: &str) -> (r: String)
    ensures
        r@ == tag_release_url_spec(base@, repo@, tag@),
{
    let path = repo_path(repo);
    let mut r = concat3(base, "/repos/", path.as_str());
    r.append("/releases/tags/");
    r.append(tag);
    proof {
        assert(r@ =~= tag_release_url_spec(base@, repo@, tag@));
    }
    r
}

/// The API base URL of the release provider.
pub fn api_base() -> (r: String)
    ensures
        r@ == "https://api.github.com"@,
{
    "https://api.github.com".to_owned()
}

} // verus!

//! Web addresses read off the remote alone: the repository's page, and
//! under it the pages of a branch and of a commit.
use crate::error::{outcome, Error, ErrorView};
use crate::grammar::web_url_spec;
use crate::remote::normalize;
use vstd::prelude::*;
use vstd::string::StringExecFns;

verus! {

/// The address of a page under the repository's page: the repository's
/// address, what sets the kind of page off, and the page's own name.
pub open spec fn page_url_spec(
    web: Result<Seq<char>, ErrorView>,
    kind: Seq<char>,
    leaf: Seq<char>,
) -> Result<Seq<char>, ErrorView> {
    match web {
        Ok(url) => Ok(url + kind + leaf),
        Err(error) => Err(error),
    }
}

/// The address of a branch's page: `{repository}/tree/{branch}`.
pub open spec fn branch_url_spec(remote: Seq<char>, branch: Seq<char>) -> Result<
    Seq<char>,
    ErrorView,
> {
    page_url_spec(web_url_spec(remote), "/tree/"@, branch)
}

/// The address of a commit's page: `{repository}/commit/{commit}`.
pub open spec fn commit_url_spec(remote: Seq<char>, commit: Seq<char>) -> Result<
    Seq<char>,
    ErrorView,
> {
    page_url_spec(web_url_spec(remote), "/commit/"@, commit)
}

/// The address of a page under the repository's page.
pub fn page_url(web: Result<String, Error>, kind: &str, leaf: &str) -> (res: Result<String, Error>)
    ensures
        outcome(res) == page_url_spec(outcome(web), kind@, leaf@),
{
    match web {
        Ok(url) => Ok(url.concat(kind).concat(leaf)),
        Err(error) => Err(error),
    }
}

/// A hosting service, as far as its addresses follow from the remote.
pub trait Provider {
    /// The address of the page of a branch.
    fn branch_url(&self, remote: &str, branch: &str) -> (res: Result<String, Error>)
        ensures
            outcome(res) == branch_url_spec(remote@, branch@),
    ;

    /// The address of the page of a commit.
    fn commit_url(&self, remote: &str, commit: &str) -> (res: Result<String, Error>)
        ensures
            outcome(res) == commit_url_spec(remote@, commit@),
    ;

    /// The address of the repository's page, for a remote in either of
    /// the two shapes:
    /// - `git@github.com:jsgv/git-open.git`
    /// - `git@github.com:jsgv/git-open`
    /// - `https://github.example.com/jsgv/git-open.git`
    /// - `https://github.example.com/jsgv/git-open`
    fn repository_url(&self, remote: &str) -> (res: Result<String, Error>)
        ensures
            outcome(res) == web_url_spec(remote@),
    {
        match normalize(remote) {
            Ok(url) => Ok(url.web_url()),
            Err(error) => Err(error),
        }
    }
}

pub struct GitHub {}

impl Provider for GitHub {
    fn branch_url(&self, remote: &str, branch: &str) -> (res: Result<String, Error>) {
        page_url(self.repository_url(remote), "/tree/", branch)
    }

    fn commit_url(&self, remote: &str, commit: &str) -> (res: Result<String, Error>) {
        page_url(self.repository_url(remote), "/commit/", commit)
    }
}

} // verus!

//! Web addresses for a checkout: the page of its repository, of its
//! branch, of its commit or of the branch's open pull request on the
//! hosting service.
//!
//! - [`grammar`] says in which shapes a remote is recognised, and proves
//!   what holds of them.
//! - [`remote`] holds the normaliser that reads a remote in these shapes.
//! - [`provider`] gives the addresses that follow from the remote alone.
//! - [`providers`] gives the addresses of a hosting service, and for GitHub
//!   the lookup of a branch's open pull request, step by step.
//! - [`error`] holds the failures.
use crate::error::{Error, ErrorView};
use crate::provider::page_url_spec;
use crate::providers::github::{GitHub, Resolver, ResolverView};
use crate::providers::{web_url_spec, Provider};
use vstd::prelude::*;
use vstd::string::StringExecFns;

pub mod error;
pub mod grammar;
pub mod provider;
pub mod providers;
pub mod remote;

verus! {

/// The kind of thing a web address is wanted for.
#[derive(Clone, Copy, Debug, PartialEq, Eq, Structural)]
pub enum Entity {
    Repository,
    Branch,
    Commit,
    PullRequest,
}

impl Entity {
    /// The entity that a choice of flags asks for: the branch before the
    /// commit, the commit before the pull request, and the repository
    /// where no flag is set.
    pub open spec fn select_spec(branch: bool, commit: bool, pull_request: bool) -> Entity {
        if branch {
            Entity::Branch
        } else if commit {
            Entity::Commit
        } else if pull_request {
            Entity::PullRequest
        } else {
            Entity::Repository
        }
    }

    /// Whether the address of this entity depends on the branch that is
    /// checked out.
    pub open spec fn needs_branch_spec(self) -> bool {
        self == Entity::Branch || self == Entity::PullRequest
    }

    /// Whether the address of this entity depends on the commit that is
    /// checked out.
    pub open spec fn needs_commit_spec(self) -> bool {
        self == Entity::Commit
    }

    /// Whether the address of this entity depends on the branch that is
    /// checked out.
    pub fn needs_branch(self) -> (yes: bool)
        ensures
            yes == self.needs_branch_spec(),
    {
        match self {
            Entity::Branch | Entity::PullRequest => true,
            _ => false,
        }
    }

    /// Whether the address of this entity depends on the commit that is
    /// checked out.
    pub fn needs_commit(self) -> (yes: bool)
        ensures
            yes == self.needs_commit_spec(),
    {
        match self {
            Entity::Commit => true,
            _ => false,
        }
    }

    /// The entity that a choice of flags asks for.
    pub fn select(branch: bool, commit: bool, pull_request: bool) -> (entity: Entity)
        ensures
            entity == Entity::select_spec(branch, commit, pull_request),
    {
        if branch {
            Entity::Branch
        } else if commit {
            Entity::Commit
        } else if pull_request {
            Entity::PullRequest
        } else {
            Entity::Repository
        }
    }
}

/// What is known of a web address: the address itself, or, for a pull
/// request, the lookup that will give it.
#[derive(Debug, PartialEq, Eq)]
pub enum Resolution {
    Url(String),
    Lookup(Resolver),
}

/// [`Resolution`] over character sequences.
pub enum ResolutionView {
    Url(Seq<char>),
    Lookup(ResolverView),
}

impl View for Resolution {
    type V = ResolutionView;

    open spec fn view(&self) -> ResolutionView {
        match self {
            Resolution::Url(url) => ResolutionView::Url(url@),
            Resolution::Lookup(lookup) => ResolutionView::Lookup(lookup@),
        }
    }
}

/// A resolution or a failure, each by its view.
pub open spec fn resolved(result: Result<Resolution, Error>) -> Result<ResolutionView, ErrorView> {
    match result {
        Ok(resolution) => Ok(resolution@),
        Err(error) => Err(error@),
    }
}

/// An address as a resolution.
pub open spec fn located(url: Result<Seq<char>, ErrorView>) -> Result<ResolutionView, ErrorView> {
    match url {
        Ok(url) => Ok(ResolutionView::Url(url)),
        Err(error) => Err(error),
    }
}

/// What a checkout with the given remote, branch and commit resolves to
/// for each kind of entity.
pub open spec fn url_spec(
    remote: Seq<char>,
    branch: Seq<char>,
    commit: Seq<char>,
    entity: Entity,
) -> Result<ResolutionView, ErrorView> {
    match entity {
        Entity::Repository => located(web_url_spec(remote)),
        Entity::Branch => located(page_url_spec(web_url_spec(remote), "/tree/"@, branch)),
        Entity::Commit => located(page_url_spec(web_url_spec(remote), "/commit/"@, commit)),
        Entity::PullRequest => Ok(
            ResolutionView::Lookup(ResolverView::BuildQuery { remote, branch }),
        ),
    }
}

/// What an entity resolves to depends on the branch and the commit only
/// where the entity needs them.
pub proof fn lemma_url_needs(
    remote: Seq<char>,
    branch: Seq<char>,
    commit: Seq<char>,
    other_branch: Seq<char>,
    other_commit: Seq<char>,
    entity: Entity,
)
    requires
        entity.needs_branch_spec() ==> branch == other_branch,
        entity.needs_commit_spec() ==> commit == other_commit,
    ensures
        url_spec(remote, branch, commit, entity) == url_spec(
            remote,
            other_branch,
            other_commit,
            entity,
        ),
{
}

/// A checkout, as far as web addresses depend on it.
pub struct GitOpen {
    /// The address of the remote we are interested in. Usually that of `origin`.
    remote_url: String,
    /// The branch that is checked out.
    branch: String,
    /// The commit that is checked out.
    commit: String,
    provider: GitHub,
}

impl GitOpen {
    /// The address of the remote.
    pub closed spec fn remote_url(&self) -> Seq<char> {
        self.remote_url@
    }

    /// The branch that is checked out.
    pub closed spec fn branch(&self) -> Seq<char> {
        self.branch@
    }

    /// The commit that is checked out.
    pub closed spec fn commit(&self) -> Seq<char> {
        self.commit@
    }

    /// A checkout with the given remote, at the given branch and commit.
    pub fn new(remote_url: &str, branch: &str, commit: &str) -> (checkout: Self)
        ensures
            checkout.remote_url() == remote_url@,
            checkout.branch() == branch@,
            checkout.commit() == commit@,
    {
        GitOpen {
            remote_url: String::from_str(remote_url),
            branch: String::from_str(branch),
            commit: String::from_str(commit),
            provider: GitHub {  },
        }
    }

    /// The web address of an entity of this checkout; for a pull request,
    /// the lookup that gives it once it is carried out.
    pub fn url(&self, entity: Entity) -> (res: Result<Resolution, Error>)
        ensures
            resolved(res) == url_spec(self.remote_url(), self.branch(), self.commit(), entity),
    {
        let remote = self.remote_url.as_str();
        let url = match entity {
            Entity::Repository => self.provider.web_url(remote),
            Entity::Branch => self.provider.branch_url(remote, self.branch.as_str()),
            Entity::Commit => self.provider.commit_url(remote, self.commit.as_str()),
            Entity::PullRequest => {
                return Ok(Resolution::Lookup(Resolver::new(remote, self.branch.as_str())));
            },
        };
        match url {
            Ok(url) => Ok(Resolution::Url(url)),
            Err(error) => Err(error),
        }
    }
}

} // verus!

use vstd::prelude::*;
use vstd::string::StringExecFns;

verus! {

/// Why no web address could be given.
#[derive(Debug, Clone, PartialEq, Eq)]
pub enum Error {
    /// The remote has neither of the supported shapes; carries the remote.
    UnrecognizedRemoteFormat(String),
    /// A pull request was asked for and no access token was supplied.
    MissingCredentials,
    /// The provider's API could not be reached or its answer could not be
    /// read; carries the cause.
    TransportError(String),
    /// The provider's API answered with a status other than success;
    /// carries the body of the answer.
    ProviderApiError(String),
    /// The provider's API answered, and named no pull request for the
    /// branch; carries the branch.
    NoMatchingPullRequest(String),
}

/// What an [`Error`] is in contracts: the same cases over character sequences.
pub enum ErrorView {
    UnrecognizedRemoteFormat(Seq<char>),
    MissingCredentials,
    TransportError(Seq<char>),
    ProviderApiError(Seq<char>),
    NoMatchingPullRequest(Seq<char>),
}

impl View for Error {
    type V = ErrorView;

    open spec fn view(&self) -> ErrorView {
        match self {
            Error::UnrecognizedRemoteFormat(remote) => ErrorView::UnrecognizedRemoteFormat(remote@),
            Error::MissingCredentials => ErrorView::MissingCredentials,
            Error::TransportError(cause) => ErrorView::TransportError(cause@),
            Error::ProviderApiError(body) => ErrorView::ProviderApiError(body@),
            Error::NoMatchingPullRequest(branch) => ErrorView::NoMatchingPullRequest(branch@),
        }
    }
}

impl ErrorView {
    /// The line shown to the user for this failure.
    pub open spec fn message(self) -> Seq<char> {
        match self {
            ErrorView::UnrecognizedRemoteFormat(remote) => {
                "Did not match any patterns for remote: "@ + remote
            },
            ErrorView::MissingCredentials => "Missing GITHUB_API_TOKEN"@,
            ErrorView::TransportError(cause) => cause,
            ErrorView::ProviderApiError(body) => body,
            ErrorView::NoMatchingPullRequest(branch) => {
                "No pull request found for branch '"@ + branch + "'"@
            },
        }
    }
}

/// A result as contracts speak of it: the value or the failure, each by its view.
pub open spec fn outcome<T: View>(result: Result<T, Error>) -> Result<T::V, ErrorView> {
    match result {
        Ok(value) => Ok(value@),
        Err(error) => Err(error@),
    }
}

impl Error {
    /// The line shown to the user for this failure.
    pub fn message(&self) -> (text: String)
        ensures
            text@ == self@.message(),
    {
        match self {
            Error::UnrecognizedRemoteFormat(remote) => {
                String::from_str("Did not match any patterns for remote: ").concat(remote.as_str())
            },
            Error::MissingCredentials => String::from_str("Missing GITHUB_API_TOKEN"),
            Error::TransportError(cause) => cause.clone(),
            Error::ProviderApiError(body) => body.clone(),
            Error::NoMatchingPullRequest(branch) => {
                String::from_str("No pull request found for branch '").concat(
                    branch.as_str(),
                ).concat("'")
            },
        }
    }
}

} // verus!

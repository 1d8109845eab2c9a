//! GitHub: the addresses of a repository's pages by the shared rules, and
//! the address of a branch's open pull request from the GraphQL API.
use crate::error::{outcome, Error, ErrorView};
use crate::providers::{git_url_spec, Provider};
use vstd::prelude::*;
use vstd::string::StringExecFns;

verus! {

/// The name of the environment variable that holds the access token.
pub const TOKEN_VARIABLE: &'static str = "GITHUB_API_TOKEN";

/// Where the GraphQL API is served.
pub const ENDPOINT: &'static str = "https://api.github.com/graphql";

/// What requests name as their sender.
pub const USER_AGENT: &'static str = "cargo-git-open: 0.1.0";

/// The name of the query for a branch's open pull requests.
pub const OPERATION_NAME: &'static str = "PullRequests";

/// The query for the open pull requests of a repository whose head is a
/// given branch; the newest comes first.
pub const QUERY: &'static str =
    "query PullRequests($owner: String!, $name: String!, $headRefName: String!) { \
     repository(owner: $owner, name: $name) { \
     pullRequests(headRefName: $headRefName, states: OPEN, first: 1, \
     orderBy: {field: CREATED_AT, direction: DESC}) { edges { node { url } } } } }";

pub struct GitHub {}

/// What the query is asked about.
#[derive(Debug, PartialEq, Eq)]
pub struct Variables {
    pub owner: String,
    pub name: String,
    pub head_ref_name: String,
}

/// A query with what it is asked about, as the API takes it.
#[derive(Debug, PartialEq, Eq)]
pub struct QueryBody {
    pub variables: Variables,
    pub query: String,
    pub operation_name: String,
}

/// The query for a branch's open pull requests.
#[derive(Clone, Copy, Debug)]
pub struct PullRequests;

impl PullRequests {
    /// The query, asked about the given repository and branch.
    pub fn build_query(variables: Variables) -> (body: QueryBody)
        ensures
            body.variables == variables,
            body.query@ == QUERY@,
            body.operation_name@ == OPERATION_NAME@,
    {
        QueryBody {
            variables,
            query: String::from_str(QUERY),
            operation_name: String::from_str(OPERATION_NAME),
        }
    }
}

/// A pull request, as far as the query asks for it.
#[derive(Debug, PartialEq, Eq)]
pub struct PullRequest {
    pub url: String,
}

#[derive(Debug, PartialEq, Eq)]
pub struct PullRequestEdge {
    pub node: Option<PullRequest>,
}

#[derive(Debug, PartialEq, Eq)]
pub struct PullRequestConnection {
    pub edges: Option<Vec<Option<PullRequestEdge>>>,
}

#[derive(Debug, PartialEq, Eq)]
pub struct Repository {
    pub pull_requests: PullRequestConnection,
}

#[derive(Debug, PartialEq, Eq)]
pub struct ResponseData {
    pub repository: Option<Repository>,
}

/// What the API answers to the query. Any level may be missing.
#[derive(Debug, PartialEq, Eq)]
pub struct Response {
    pub data: Option<ResponseData>,
}

/// The address in the first edge of an answer, where every level down to
/// it is there.
pub open spec fn first_url_spec(response: Response) -> Option<Seq<char>> {
    match response.data {
        Some(
            ResponseData {
                repository: Some(
                    Repository { pull_requests: PullRequestConnection { edges: Some(edges) } },
                ),
            },
        ) => if edges@.len() > 0 {
            match edges@[0] {
                Some(PullRequestEdge { node: Some(pull_request) }) => Some(pull_request.url@),
                _ => None,
            }
        } else {
            None
        },
        _ => None,
    }
}

/// The address in the first edge of an answer.
pub fn first_url(response: &Response) -> (url: Option<&str>)
    ensures
        match url {
            Some(url) => first_url_spec(*response) == Some(url@),
            None => first_url_spec(*response) is None,
        },
{
    let data = response.data.as_ref()?;
    let repository = data.repository.as_ref()?;
    let edges = repository.pull_requests.edges.as_ref()?;
    if edges.len() == 0 {
        return None;
    }
    let edge = edges[0].as_ref()?;
    let pull_request = edge.node.as_ref()?;
    Some(pull_request.url.as_str())
}

/// The address of the pull request in an answer, or the branch as the one
/// that has none.
pub open spec fn found_spec(head: Seq<char>, first_url: Option<Seq<char>>) -> Result<
    Seq<char>,
    ErrorView,
> {
    match first_url {
        Some(url) => Ok(url),
        None => Err(ErrorView::NoMatchingPullRequest(head)),
    }
}

impl Provider for GitHub {
    type Reply = Response;

    /// A remote that is not recognised fails as such; for any other, the
    /// address is the one in the first edge of the reply, and where there is
    /// none the branch has no pull request.
    open spec fn pull_request_url_spec(
        &self,
        remote: Seq<char>,
        head: Seq<char>,
        reply: Response,
    ) -> Result<Seq<char>, ErrorView> {
        match git_url_spec(remote) {
            Ok(_) => found_spec(head, first_url_spec(reply)),
            Err(error) => Err(error),
        }
    }

    fn pull_request_url(&self, remote: &str, head: &str, reply: &Response) -> (res: Result<
        String,
        Error,
    >) {
        match self.git_url(remote) {
            Ok(_) => match first_url(reply) {
                Some(url) => Ok(String::from_str(url)),
                None => Err(Error::NoMatchingPullRequest(String::from_str(head))),
            },
            Err(error) => Err(error),
        }
    }
}

/// A character that a header's value may hold: a tab, or anything from
/// the space on but for the delete character.
pub open spec fn is_header_char(c: char) -> bool {
    c == '\t' || (' ' <= c && c != '\u{7f}')
}

/// A text that can be a header's value.
pub open spec fn is_header_text(text: Seq<char>) -> bool {
    forall|i: int| 0 <= i < text.len() ==> is_header_char(#[trigger] text[i])
}

/// What `reqwest::header::HeaderValue::from_str` says of a text that it
/// refuses.
pub open spec fn invalid_header() -> Seq<char> {
    "failed to parse header value"@
}

/// Calls `reqwest::header::HeaderValue::from_str` and hands back what its
/// error says, where it gives one. The contract claims that it makes a
/// value just where every byte of the text is a tab or is at least 32 and
/// not 127, which for the text's characters is `is_header_text`, and that
/// its error always prints the same words.
#[verifier::external_body]
fn header_value_refusal(text: &str) -> (refusal: Option<String>)
    ensures
        refusal is None == is_header_text(text@),
        refusal matches Some(cause) ==> cause@ == invalid_header(),
{
    match reqwest::header::HeaderValue::from_str(text) {
        Ok(_) => None,
        Err(error) => Some(error.to_string()),
    }
}

/// What a JSON text is when `serde_json` has read it as a value and
/// written the value out again, or what `serde_json` says of a text that
/// it cannot read.
pub uninterp spec fn json_value_text(text: Seq<char>) -> Result<Seq<char>, Seq<char>>;

/// Calls `serde_json::from_str` for a `serde_json::Value` and writes the
/// value out by its `Display`; an error is given by its `Display` too.
/// The contract claims that both depend on the text alone.
#[verifier::external_body]
fn read_json_value(text: &str) -> (value: Result<String, String>)
    ensures
        match value {
            Ok(compact) => json_value_text(text@) == Ok::<Seq<char>, Seq<char>>(compact@),
            Err(cause) => json_value_text(text@) == Err::<Seq<char>, Seq<char>>(cause@),
        },
{
    match serde_json::from_str::<serde_json::Value>(text) {
        Ok(value) => Ok(value.to_string()),
        Err(error) => Err(error.to_string()),
    }
}

/// Where a request goes and the two headers it carries.
#[derive(Debug, PartialEq, Eq)]
pub struct RequestHead {
    pub endpoint: String,
    pub user_agent: String,
    pub authorization: String,
}

/// [`RequestHead`] over character sequences.
pub struct RequestHeadView {
    pub endpoint: Seq<char>,
    pub user_agent: Seq<char>,
    pub authorization: Seq<char>,
}

impl View for RequestHead {
    type V = RequestHeadView;

    open spec fn view(&self) -> RequestHeadView {
        RequestHeadView {
            endpoint: self.endpoint@,
            user_agent: self.user_agent@,
            authorization: self.authorization@,
        }
    }
}

/// A request to the API: its head and the query it carries.
#[derive(Debug, PartialEq, Eq)]
pub struct ApiRequest {
    pub head: RequestHead,
    pub body: QueryBody,
}

/// [`ApiRequest`] over character sequences.
pub struct ApiRequestView {
    pub head: RequestHeadView,
    pub owner: Seq<char>,
    pub name: Seq<char>,
    pub head_ref_name: Seq<char>,
    pub query: Seq<char>,
    pub operation_name: Seq<char>,
}

impl View for ApiRequest {
    type V = ApiRequestView;

    open spec fn view(&self) -> ApiRequestView {
        ApiRequestView {
            head: self.head@,
            owner: self.body.variables.owner@,
            name: self.body.variables.name@,
            head_ref_name: self.body.variables.head_ref_name@,
            query: self.body.query@,
            operation_name: self.body.operation_name@,
        }
    }
}

/// The value of the header that carries the access token.
pub open spec fn authorization_spec(token: Seq<char>) -> Seq<char> {
    "Bearer "@ + token
}

/// An optional text over character sequences.
pub open spec fn text_of(text: Option<&str>) -> Option<Seq<char>> {
    match text {
        Some(text) => Some(text@),
        None => None,
    }
}

/// The head of a request. Without an access token there is none, nor
/// with one that cannot stand in a header.
pub open spec fn request_head_spec(token: Option<Seq<char>>) -> Result<RequestHeadView, ErrorView> {
    match token {
        None => Err(ErrorView::MissingCredentials),
        Some(token) => if is_header_text(token) {
            Ok(
                RequestHeadView {
                    endpoint: ENDPOINT@,
                    user_agent: USER_AGENT@,
                    authorization: authorization_spec(token),
                },
            )
        } else {
            Err(ErrorView::TransportError(invalid_header()))
        },
    }
}

/// The request for the open pull requests of a branch. A remote that is
/// not recognised is found before the token is looked at.
pub open spec fn request_spec(
    remote: Seq<char>,
    head: Seq<char>,
    token: Option<Seq<char>>,
) -> Result<ApiRequestView, ErrorView> {
    match git_url_spec(remote) {
        Err(error) => Err(error),
        Ok(url) => match request_head_spec(token) {
            Err(error) => Err(error),
            Ok(request_head) => Ok(
                ApiRequestView {
                    head: request_head,
                    owner: url.owner,
                    name: url.name,
                    head_ref_name: head,
                    query: QUERY@,
                    operation_name: OPERATION_NAME@,
                },
            ),
        },
    }
}

/// The text of the sender's name can stand in a header.
proof fn lemma_user_agent()
    ensures
        is_header_text(USER_AGENT@),
{
    reveal_strlit("cargo-git-open: 0.1.0");
    let text = USER_AGENT@;
    assert(text.len() == 21);
    assert forall|i: int| 0 <= i < text.len() implies is_header_char(#[trigger] text[i]) by {
        assert(text[0] == 'c' && text[1] == 'a' && text[2] == 'r' && text[3] == 'g' && text[4]
            == 'o' && text[5] == '-' && text[6] == 'g');
        assert(text[7] == 'i' && text[8] == 't' && text[9] == '-' && text[10] == 'o' && text[11]
            == 'p' && text[12] == 'e' && text[13] == 'n');
        assert(text[14] == ':' && text[15] == ' ' && text[16] == '0' && text[17] == '.'
            && text[18] == '1' && text[19] == '.' && text[20] == '0');
    }
}

/// The header with a token can be a header's value just where the token
/// can.
proof fn lemma_authorization(token: Seq<char>)
    ensures
        is_header_text(authorization_spec(token)) == is_header_text(token),
{
    reveal_strlit("Bearer ");
    let word = "Bearer "@;
    let text = authorization_spec(token);
    assert(word.len() == 7);
    assert(word[0] == 'B' && word[1] == 'e' && word[2] == 'a' && word[3] == 'r' && word[4] == 'e'
        && word[5] == 'r' && word[6] == ' ');
    if is_header_text(token) {
        assert forall|i: int| 0 <= i < text.len() implies is_header_char(#[trigger] text[i]) by {
            if i >= 7 {
                assert(text[i] == token[i - 7]);
            } else {
                assert(text[i] == word[i]);
            }
        }
    }
    if is_header_text(text) {
        assert forall|i: int| 0 <= i < token.len() implies is_header_char(#[trigger] token[i]) by {
            assert(text[i + 7] == token[i]);
        }
    }
}

impl GitHub {
    /// Where a request goes and the two headers it carries: the sender's
    /// name and the access token. Without a token there is no request.
    pub fn graphql_request(&self, token: Option<&str>) -> (res: Result<RequestHead, Error>)
        ensures
            outcome(res) == request_head_spec(text_of(token)),
    {
        let token = match token {
            Some(token) => token,
            None => return Err(Error::MissingCredentials),
        };
        let user_agent = String::from_str(USER_AGENT);
        let authorization = String::from_str("Bearer ").concat(token);
        proof {
            lemma_user_agent();
            lemma_authorization(token@);
        }
        if let Some(cause) = header_value_refusal(user_agent.as_str()) {
            return Err(Error::TransportError(cause));
        }
        if let Some(cause) = header_value_refusal(authorization.as_str()) {
            return Err(Error::TransportError(cause));
        }
        Ok(RequestHead { endpoint: String::from_str(ENDPOINT), user_agent, authorization })
    }

    /// The request for the open pull requests of the branch `head` of the
    /// repository that `remote` names.
    pub fn pull_request_request(&self, remote: &str, head: &str, token: Option<&str>) -> (res:
        Result<ApiRequest, Error>)
        ensures
            outcome(res) == request_spec(remote@, head@, text_of(token)),
    {
        let url = match self.git_url(remote) {
            Ok(url) => url,
            Err(error) => return Err(error),
        };
        let variables = Variables {
            owner: String::from_str(url.owner()),
            name: String::from_str(url.name()),
            head_ref_name: String::from_str(head),
        };
        let body = PullRequests::build_query(variables);
        match self.graphql_request(token) {
            Ok(head) => Ok(ApiRequest { head, body }),
            Err(error) => Err(error),
        }
    }
}

/// Where a lookup stands.
#[derive(Debug, PartialEq, Eq)]
pub enum Resolver {
    /// Nothing is done yet; the access token is awaited.
    BuildQuery { remote: String, branch: String },
    /// The request is out; its answer is awaited.
    Send { branch: String },
    /// The answer came with success; its body is being decoded.
    Decode { branch: String },
    /// The end: the pull request's address.
    Found(String),
    /// The end: the branch has no open pull request.
    NotFound(String),
    /// The end: the lookup failed.
    Failed(Error),
}

/// [`Resolver`] over character sequences.
pub enum ResolverView {
    BuildQuery { remote: Seq<char>, branch: Seq<char> },
    Send { branch: Seq<char> },
    Decode { branch: Seq<char> },
    Found(Seq<char>),
    NotFound(Seq<char>),
    Failed(ErrorView),
}

impl View for Resolver {
    type V = ResolverView;

    open spec fn view(&self) -> ResolverView {
        match self {
            Resolver::BuildQuery { remote, branch } => ResolverView::BuildQuery {
                remote: remote@,
                branch: branch@,
            },
            Resolver::Send { branch } => ResolverView::Send { branch: branch@ },
            Resolver::Decode { branch } => ResolverView::Decode { branch: branch@ },
            Resolver::Found(url) => ResolverView::Found(url@),
            Resolver::NotFound(branch) => ResolverView::NotFound(branch@),
            Resolver::Failed(error) => ResolverView::Failed(error@),
        }
    }
}

/// What has happened outside since the last step.
#[derive(Debug, PartialEq, Eq)]
pub enum Event {
    /// The access token was looked for.
    Credentials(Option<String>),
    /// The request could not be carried out, or its answer not be read.
    Unreachable(String),
    /// The API answered.
    Answered { status: u16, body: String },
    /// The body of the answer was decoded.
    Decoded(Response),
    /// The body of the answer is no answer to the query.
    Undecodable(String),
}

/// [`Event`] as a step reads it: texts as character sequences, and of a
/// decoded answer the address in its first edge.
pub enum EventView {
    Credentials(Option<Seq<char>>),
    Unreachable(Seq<char>),
    Answered { status: u16, body: Seq<char> },
    Decoded(Option<Seq<char>>),
    Undecodable(Seq<char>),
}

impl View for Event {
    type V = EventView;

    open spec fn view(&self) -> EventView {
        match self {
            Event::Credentials(Some(token)) => EventView::Credentials(Some(token@)),
            Event::Credentials(None) => EventView::Credentials(None),
            Event::Unreachable(cause) => EventView::Unreachable(cause@),
            Event::Answered { status, body } => EventView::Answered {
                status: *status,
                body: body@,
            },
            Event::Decoded(response) => EventView::Decoded(first_url_spec(*response)),
            Event::Undecodable(cause) => EventView::Undecodable(cause@),
        }
    }
}

/// What is to be done outside before the next step.
#[derive(Debug, PartialEq, Eq)]
pub enum Action {
    /// Send the request; answer with `Answered` or `Unreachable`.
    Post(ApiRequest),
    /// Decode the body as an answer to the query; answer with `Decoded`
    /// or `Undecodable`.
    Decode(String),
    /// Nothing: the lookup is at its end.
    Stop,
}

/// [`Action`] over character sequences.
pub enum ActionView {
    Post(ApiRequestView),
    Decode(Seq<char>),
    Stop,
}

impl View for Action {
    type V = ActionView;

    open spec fn view(&self) -> ActionView {
        match self {
            Action::Post(request) => ActionView::Post(request@),
            Action::Decode(body) => ActionView::Decode(body@),
            Action::Stop => ActionView::Stop,
        }
    }
}

/// Whether a status is one of success: 200 to 299.
pub open spec fn is_success(status: u16) -> bool {
    200 <= status < 300
}

/// What is said of an event that does not answer what was asked for.
pub open spec fn out_of_turn() -> Seq<char> {
    "event out of turn"@
}

/// The failure that an answer without success stands for: the API's own
/// words, where the body is JSON, written out again by `serde_json`.
pub open spec fn rejection_spec(body: Result<Seq<char>, Seq<char>>) -> ErrorView {
    match body {
        Ok(detail) => ErrorView::ProviderApiError(detail),
        Err(cause) => ErrorView::TransportError(cause),
    }
}

/// The state that a lookup ends in.
pub open spec fn end_spec(result: Result<Seq<char>, ErrorView>) -> ResolverView {
    match result {
        Ok(url) => ResolverView::Found(url),
        Err(ErrorView::NoMatchingPullRequest(branch)) => ResolverView::NotFound(branch),
        Err(error) => ResolverView::Failed(error),
    }
}

impl ResolverView {
    /// Whether the lookup is at its end.
    pub open spec fn is_terminal(self) -> bool {
        self is Found || self is NotFound || self is Failed
    }

    /// How many steps the lookup can still take.
    pub open spec fn steps_left(self) -> nat {
        match self {
            ResolverView::BuildQuery { .. } => 3,
            ResolverView::Send { .. } => 2,
            ResolverView::Decode { .. } => 1,
            _ => 0,
        }
    }

    /// What the lookup gave, once it is at its end.
    pub open spec fn result(self) -> Option<Result<Seq<char>, ErrorView>> {
        match self {
            ResolverView::Found(url) => Some(Ok(url)),
            ResolverView::NotFound(branch) => Some(Err(ErrorView::NoMatchingPullRequest(branch))),
            ResolverView::Failed(error) => Some(Err(error)),
            _ => None,
        }
    }

    /// The state after an event, and what is to be done next.
    pub open spec fn step(self, event: EventView) -> (ResolverView, ActionView) {
        match (self, event) {
            (ResolverView::BuildQuery { remote, branch }, EventView::Credentials(token)) => {
                match request_spec(remote, branch, token) {
                    Ok(request) => (ResolverView::Send { branch }, ActionView::Post(request)),
                    Err(error) => (ResolverView::Failed(error), ActionView::Stop),
                }
            },
            (ResolverView::Send { branch }, EventView::Unreachable(cause)) => (
                ResolverView::Failed(ErrorView::TransportError(cause)),
                ActionView::Stop,
            ),
            (ResolverView::Send { branch }, EventView::Answered { status, body }) => {
                if is_success(status) {
                    (ResolverView::Decode { branch }, ActionView::Decode(body))
                } else {
                    (
                        ResolverView::Failed(rejection_spec(json_value_text(body))),
                        ActionView::Stop,
                    )
                }
            },
            (ResolverView::Decode { branch }, EventView::Decoded(first_url)) => (
                end_spec(found_spec(branch, first_url)),
                ActionView::Stop,
            ),
            (ResolverView::Decode { branch }, EventView::Undecodable(cause)) => (
                ResolverView::Failed(ErrorView::TransportError(cause)),
                ActionView::Stop,
            ),
            (state, _) => if state.is_terminal() {
                (state, ActionView::Stop)
            } else {
                (ResolverView::Failed(ErrorView::TransportError(out_of_turn())), ActionView::Stop)
            },
        }
    }
}

/// Whether a status is one of success.
pub fn check_success(status: u16) -> (yes: bool)
    ensures
        yes == is_success(status),
{
    200 <= status && status < 300
}

/// The failure that an answer without success stands for.
pub fn rejection(body: Result<String, String>) -> (error: Error)
    ensures
        error@ == rejection_spec(
            match body {
                Ok(detail) => Ok(detail@),
                Err(cause) => Err(cause@),
            },
        ),
{
    match body {
        Ok(detail) => Error::ProviderApiError(detail),
        Err(cause) => Error::TransportError(cause),
    }
}

impl Resolver {
    /// The lookup of the open pull request of `branch` in the repository
    /// that `remote` names, before anything is done.
    pub fn new(remote: &str, branch: &str) -> (state: Resolver)
        ensures
            state@ == (ResolverView::BuildQuery { remote: remote@, branch: branch@ }),
    {
        Resolver::BuildQuery { remote: String::from_str(remote), branch: String::from_str(branch) }
    }

    /// Whether the lookup is at its end.
    pub fn is_terminal(&self) -> (yes: bool)
        ensures
            yes == self@.is_terminal(),
    {
        match self {
            Resolver::Found(_) | Resolver::NotFound(_) | Resolver::Failed(_) => true,
            _ => false,
        }
    }

    /// What the lookup gave, once it is at its end.
    pub fn result(self) -> (res: Option<Result<String, Error>>)
        ensures
            match res {
                Some(result) => self@.result() == Some(outcome(result)),
                None => self@.result() is None,
            },
    {
        match self {
            Resolver::Found(url) => Some(Ok(url)),
            Resolver::NotFound(branch) => Some(Err(Error::NoMatchingPullRequest(branch))),
            Resolver::Failed(error) => Some(Err(error)),
            _ => None,
        }
    }

    /// Takes in what has happened and says what is to be done next.
    pub fn step(self, event: Event) -> (next: (Resolver, Action))
        ensures
            (next.0@, next.1@) == self@.step(event@),
    {
        match (self, event) {
            (Resolver::BuildQuery { remote, branch }, Event::Credentials(token)) => {
                let token = match &token {
                    Some(token) => Some(token.as_str()),
                    None => None,
                };
                match (GitHub {}).pull_request_request(remote.as_str(), branch.as_str(), token) {
                    Ok(request) => (Resolver::Send { branch }, Action::Post(request)),
                    Err(error) => (Resolver::Failed(error), Action::Stop),
                }
            },
            (Resolver::Send { branch }, Event::Unreachable(cause)) => (
                Resolver::Failed(Error::TransportError(cause)),
                Action::Stop,
            ),
            (Resolver::Send { branch }, Event::Answered { status, body }) => {
                if check_success(status) {
                    (Resolver::Decode { branch }, Action::Decode(body))
                } else {
                    (Resolver::Failed(rejection(read_json_value(body.as_str()))), Action::Stop)
                }
            },
            (Resolver::Decode { branch }, Event::Decoded(response)) => {
                match first_url(&response) {
                    Some(url) => (Resolver::Found(String::from_str(url)), Action::Stop),
                    None => (Resolver::NotFound(branch), Action::Stop),
                }
            },
            (Resolver::Decode { branch }, Event::Undecodable(cause)) => (
                Resolver::Failed(Error::TransportError(cause)),
                Action::Stop,
            ),
            (state, _) => if state.is_terminal() {
                (state, Action::Stop)
            } else {
                (
                    Resolver::Failed(Error::TransportError(String::from_str("event out of turn"))),
                    Action::Stop,
                )
            },
        }
    }
}


/// A lookup at its end stays as it is, whatever happens.
pub proof fn lemma_end_is_kept(state: ResolverView, event: EventView)
    requires
        state.is_terminal(),
    ensures
        state.step(event) == (state, ActionView::Stop),
{
}

/// Every step brings a lookup nearer its end, and nothing is left to do
/// outside just when the end is reached: a lookup takes three steps at
/// most and never goes back.
pub proof fn lemma_step_advances(state: ResolverView, event: EventView)
    requires
        !state.is_terminal(),
    ensures
        state.step(event).0.steps_left() < state.steps_left(),
        state.step(event).0.is_terminal() == (state.step(event).1 is Stop),
{
}

/// Whatever happens, a lookup is at its end after three steps.
pub proof fn lemma_three_steps_end(
    state: ResolverView,
    first: EventView,
    second: EventView,
    third: EventView,
)
    ensures
        state.step(first).0.step(second).0.step(third).0.is_terminal(),
{
    let one = state.step(first).0;
    let two = one.step(second).0;
    if !state.is_terminal() {
        lemma_step_advances(state, first);
    }
    if !one.is_terminal() {
        lemma_step_advances(one, second);
    }
    if !two.is_terminal() {
        lemma_step_advances(two, third);
    }
}

/// No request goes out without an access token: a step hands out a
/// request only at the start, only for a token that was found, and the
/// request carries that token.
pub proof fn lemma_request_is_authorized(state: ResolverView, event: EventView)
    requires
        state.step(event).1 is Post,
    ensures
        state is BuildQuery,
        event matches EventView::Credentials(Some(token)) && is_header_text(token)
            && state.step(event).1->Post_0.head.authorization == authorization_spec(token),
        state.step(event).1->Post_0.head_ref_name == state->BuildQuery_branch,
{
}

/// A lookup that finds a pull request gives the address in the first
/// edge of the decoded answer; one that finds none was given an answer
/// without such an address, and names the branch it was started for.
pub proof fn lemma_found_is_first(state: ResolverView, event: EventView)
    requires
        !state.is_terminal(),
    ensures
        state.step(event).0 matches ResolverView::Found(url) ==> state is Decode && event
            == EventView::Decoded(Some(url)),
        state.step(event).0 matches ResolverView::NotFound(branch) ==> state
            == (ResolverView::Decode { branch }) && event == EventView::Decoded(None),
{
}

} // verus!

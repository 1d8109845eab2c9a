use gitopen::error::Error;
use gitopen::providers::github::{
    check_success, rejection, Action, ApiRequest, Event, GitHub, PullRequest, PullRequestConnection,
    PullRequestEdge, PullRequests, QueryBody, Repository, RequestHead, Resolver, Response,
    ResponseData, Variables, ENDPOINT, OPERATION_NAME, QUERY, TOKEN_VARIABLE, USER_AGENT,
};
use gitopen::{Entity, GitOpen, Resolution};

const REMOTE: &str = "git@github.com:jsgv/git-open.git";

fn response(edges: Vec<Option<PullRequestEdge>>) -> Response {
    Response {
        data: Some(ResponseData {
            repository: Some(Repository {
                pull_requests: PullRequestConnection { edges: Some(edges) },
            }),
        }),
    }
}

fn variables() -> Variables {
    Variables {
        owner: "jsgv".to_string(),
        name: "git-open".to_string(),
        head_ref_name: "feature".to_string(),
    }
}

fn request() -> ApiRequest {
    ApiRequest {
        head: RequestHead {
            endpoint: "https://api.github.com/graphql".to_string(),
            user_agent: "cargo-git-open: 0.1.0".to_string(),
            authorization: "Bearer t0ken".to_string(),
        },
        body: QueryBody {
            variables: variables(),
            query: QUERY.to_string(),
            operation_name: "PullRequests".to_string(),
        },
    }
}

fn sent() -> Resolver {
    let (state, _) =
        Resolver::new(REMOTE, "feature").step(Event::Credentials(Some("t0ken".to_string())));
    state
}

fn answered() -> Resolver {
    let (state, _) = sent().step(Event::Answered { status: 200, body: "{}".to_string() });
    state
}

#[test]
fn constants_of_the_api() {
    assert_eq!(ENDPOINT, "https://api.github.com/graphql");
    assert_eq!(USER_AGENT, "cargo-git-open: 0.1.0");
    assert_eq!(OPERATION_NAME, "PullRequests");
    assert_eq!(TOKEN_VARIABLE, "GITHUB_API_TOKEN");
    assert!(QUERY.contains("$owner") && QUERY.contains("$name") && QUERY.contains("$headRefName"));
    assert!(QUERY.contains("pullRequests(headRefName: $headRefName"));
}

#[test]
fn build_query_carries_the_variables() {
    let body = PullRequests::build_query(variables());
    assert_eq!(body.variables, variables());
    assert_eq!(body.query, QUERY);
    assert_eq!(body.operation_name, OPERATION_NAME);
}

#[test]
fn graphql_request_needs_a_token() {
    let gh = GitHub {};
    assert_eq!(gh.graphql_request(None), Err(Error::MissingCredentials));
    assert_eq!(gh.graphql_request(Some("t0ken")), Ok(request().head));
}

#[test]
fn graphql_request_checks_the_token() {
    let gh = GitHub {};
    let invalid = Err(Error::TransportError("failed to parse header value".to_string()));
    assert_eq!(gh.graphql_request(Some("to\nken")), invalid);
    assert_eq!(gh.graphql_request(Some("to\u{7f}ken")), invalid);
    assert_eq!(gh.graphql_request(Some("\u{1}")), invalid);
    assert!(gh.graphql_request(Some("to\tken")).is_ok());
    assert!(gh.graphql_request(Some("tökén")).is_ok());
    assert!(gh.graphql_request(Some("")).is_ok());
}

#[test]
fn pull_request_request_is_whole() {
    let gh = GitHub {};
    assert_eq!(gh.pull_request_request(REMOTE, "feature", Some("t0ken")), Ok(request()));
    assert_eq!(
        gh.pull_request_request("https://github.com/jsgv/git-open", "feature", Some("t0ken")),
        Ok(request())
    );
}

#[test]
fn pull_request_request_fails_on_the_remote_first() {
    let gh = GitHub {};
    assert_eq!(
        gh.pull_request_request("not a url", "feature", None),
        Err(Error::UnrecognizedRemoteFormat("not a url".to_string()))
    );
    assert_eq!(gh.pull_request_request(REMOTE, "feature", None), Err(Error::MissingCredentials));
}

#[test]
fn lookup_finds_the_pull_request() {
    let state = Resolver::new(REMOTE, "feature");
    assert!(!state.is_terminal());
    let (state, action) = state.step(Event::Credentials(Some("t0ken".to_string())));
    assert_eq!(state, Resolver::Send { branch: "feature".to_string() });
    assert_eq!(action, Action::Post(request()));
    let (state, action) = state.step(Event::Answered { status: 200, body: "{..}".to_string() });
    assert_eq!(state, Resolver::Decode { branch: "feature".to_string() });
    assert_eq!(action, Action::Decode("{..}".to_string()));
    let found = response(vec![Some(PullRequestEdge {
        node: Some(PullRequest { url: "https://github.com/jsgv/git-open/pull/7".to_string() }),
    })]);
    let (state, action) = state.step(Event::Decoded(found));
    assert_eq!(state, Resolver::Found("https://github.com/jsgv/git-open/pull/7".to_string()));
    assert_eq!(action, Action::Stop);
    assert!(state.is_terminal());
    assert_eq!(state.result(), Some(Ok("https://github.com/jsgv/git-open/pull/7".to_string())));
}

#[test]
fn lookup_names_the_branch_without_pull_request() {
    for edges in [vec![], vec![None], vec![Some(PullRequestEdge { node: None })]] {
        let (state, action) = answered().step(Event::Decoded(response(edges)));
        assert_eq!(state, Resolver::NotFound("feature".to_string()));
        assert_eq!(action, Action::Stop);
        assert_eq!(
            state.result(),
            Some(Err(Error::NoMatchingPullRequest("feature".to_string())))
        );
    }
    let (state, _) = answered().step(Event::Decoded(Response { data: None }));
    assert_eq!(state, Resolver::NotFound("feature".to_string()));
}

#[test]
fn lookup_without_token_sends_nothing() {
    let (state, action) = Resolver::new(REMOTE, "feature").step(Event::Credentials(None));
    assert_eq!(state, Resolver::Failed(Error::MissingCredentials));
    assert_eq!(action, Action::Stop);
    assert_eq!(state.result(), Some(Err(Error::MissingCredentials)));
}

#[test]
fn lookup_of_unrecognized_remote() {
    let (state, action) =
        Resolver::new("not a url", "feature").step(Event::Credentials(Some("t".to_string())));
    assert_eq!(
        state,
        Resolver::Failed(Error::UnrecognizedRemoteFormat("not a url".to_string()))
    );
    assert_eq!(action, Action::Stop);
}

#[test]
fn success_is_any_status_from_200_to_299() {
    for status in [200, 201, 204, 250, 299] {
        assert!(check_success(status), "{}", status);
        let (state, action) = sent().step(Event::Answered { status, body: "{}".to_string() });
        assert_eq!(state, Resolver::Decode { branch: "feature".to_string() });
        assert_eq!(action, Action::Decode("{}".to_string()));
    }
    for status in [0, 100, 199, 300, 301, 401, 404, 500, 65535] {
        assert!(!check_success(status), "{}", status);
        let (state, action) = sent().step(Event::Answered { status, body: "{}".to_string() });
        assert_eq!(state, Resolver::Failed(Error::ProviderApiError("{}".to_string())));
        assert_eq!(action, Action::Stop);
    }
}

#[test]
fn entity_needs_branch_or_commit() {
    assert!(!Entity::Repository.needs_branch() && !Entity::Repository.needs_commit());
    assert!(Entity::Branch.needs_branch() && !Entity::Branch.needs_commit());
    assert!(!Entity::Commit.needs_branch() && Entity::Commit.needs_commit());
    assert!(Entity::PullRequest.needs_branch() && !Entity::PullRequest.needs_commit());
    let checkout = GitOpen::new(REMOTE, "", "");
    assert_eq!(
        checkout.url(Entity::Repository),
        Ok(Resolution::Url("https://github.com/jsgv/git-open".to_string()))
    );
}

#[test]
fn lookup_fails_when_unreachable() {
    let (state, action) = sent().step(Event::Unreachable("connection refused".to_string()));
    assert_eq!(state, Resolver::Failed(Error::TransportError("connection refused".to_string())));
    assert_eq!(action, Action::Stop);
}

#[test]
fn lookup_shows_the_body_of_a_rejection() {
    let body = "{ \"message\" : \"Bad credentials\",\n \"documentation_url\": \"https://docs.github.com/graphql\" }";
    let (state, action) = sent().step(Event::Answered { status: 401, body: body.to_string() });
    assert_eq!(
        state,
        Resolver::Failed(Error::ProviderApiError(
            "{\"documentation_url\":\"https://docs.github.com/graphql\",\"message\":\"Bad credentials\"}"
                .to_string()
        ))
    );
    assert_eq!(action, Action::Stop);
}

#[test]
fn lookup_fails_on_a_rejection_without_json() {
    let (state, _) = sent().step(Event::Answered { status: 502, body: "Bad Gateway".to_string() });
    assert_eq!(
        state,
        Resolver::Failed(Error::TransportError("expected value at line 1 column 1".to_string()))
    );
}

#[test]
fn lookup_fails_on_an_undecodable_answer() {
    let (state, action) = answered().step(Event::Undecodable("missing field".to_string()));
    assert_eq!(state, Resolver::Failed(Error::TransportError("missing field".to_string())));
    assert_eq!(action, Action::Stop);
}

#[test]
fn lookup_fails_on_an_event_out_of_turn() {
    let out_of_turn = Resolver::Failed(Error::TransportError("event out of turn".to_string()));
    let (state, action) = Resolver::new(REMOTE, "feature")
        .step(Event::Answered { status: 200, body: String::new() });
    assert_eq!(state, out_of_turn);
    assert_eq!(action, Action::Stop);
    let (state, _) = sent().step(Event::Credentials(None));
    assert_eq!(state, out_of_turn);
    let (state, _) = answered().step(Event::Unreachable("late".to_string()));
    assert_eq!(state, out_of_turn);
}

#[test]
fn lookup_at_its_end_stays() {
    for end in [
        || Resolver::Found("u".to_string()),
        || Resolver::NotFound("b".to_string()),
        || Resolver::Failed(Error::MissingCredentials),
    ] {
        let (state, action) = end().step(Event::Credentials(Some("t".to_string())));
        assert_eq!(state, end());
        assert_eq!(action, Action::Stop);
        let (state, _) = end().step(Event::Unreachable("x".to_string()));
        assert_eq!(state, end());
    }
    assert_eq!(Resolver::new(REMOTE, "b").result(), None);
    assert_eq!(sent().result(), None);
    assert_eq!(answered().result(), None);
}

#[test]
fn rejection_of_each_kind() {
    assert_eq!(rejection(Ok("{}".to_string())), Error::ProviderApiError("{}".to_string()));
    assert_eq!(rejection(Err("eof".to_string())), Error::TransportError("eof".to_string()));
}

#[test]
fn select_entity_by_flags() {
    assert_eq!(Entity::select(false, false, false), Entity::Repository);
    assert_eq!(Entity::select(true, false, false), Entity::Branch);
    assert_eq!(Entity::select(false, true, false), Entity::Commit);
    assert_eq!(Entity::select(false, false, true), Entity::PullRequest);
    assert_eq!(Entity::select(true, true, true), Entity::Branch);
    assert_eq!(Entity::select(true, false, true), Entity::Branch);
    assert_eq!(Entity::select(false, true, true), Entity::Commit);
}

#[test]
fn url_of_each_entity() {
    let checkout = GitOpen::new(REMOTE, "main", "abcdef123456");
    assert_eq!(
        checkout.url(Entity::Repository),
        Ok(Resolution::Url("https://github.com/jsgv/git-open".to_string()))
    );
    assert_eq!(
        checkout.url(Entity::Branch),
        Ok(Resolution::Url("https://github.com/jsgv/git-open/tree/main".to_string()))
    );
    assert_eq!(
        checkout.url(Entity::Commit),
        Ok(Resolution::Url("https://github.com/jsgv/git-open/commit/abcdef123456".to_string()))
    );
    assert_eq!(
        checkout.url(Entity::PullRequest),
        Ok(Resolution::Lookup(Resolver::BuildQuery {
            remote: REMOTE.to_string(),
            branch: "main".to_string()
        }))
    );
}

#[test]
fn url_of_unrecognized_remote() {
    let checkout = GitOpen::new("not a url", "main", "abcdef123456");
    let unrecognized = Error::UnrecognizedRemoteFormat("not a url".to_string());
    assert_eq!(checkout.url(Entity::Repository), Err(unrecognized.clone()));
    assert_eq!(checkout.url(Entity::Branch), Err(unrecognized.clone()));
    assert_eq!(checkout.url(Entity::Commit), Err(unrecognized));
}

#[test]
fn messages_of_errors() {
    assert_eq!(
        Error::UnrecognizedRemoteFormat("not a url".to_string()).message(),
        "Did not match any patterns for remote: not a url"
    );
    assert_eq!(Error::MissingCredentials.message(), "Missing GITHUB_API_TOKEN");
    assert_eq!(Error::TransportError("timed out".to_string()).message(), "timed out");
    assert_eq!(Error::ProviderApiError("{\"a\":1}".to_string()).message(), "{\"a\":1}");
    assert_eq!(
        Error::NoMatchingPullRequest("feature".to_string()).message(),
        "No pull request found for branch 'feature'"
    );
}

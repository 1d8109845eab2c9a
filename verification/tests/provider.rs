use gitopen::provider::{GitHub, Provider};

#[test]
fn provider_github_branch_url() {
    let gh = GitHub {};
    let cases = vec![
        ("https://github.com/jsgv/git-open/tree/master", "https://github.com/jsgv/git-open.git"),
        ("https://github.com/jsgv/git-open/tree/master", "https://github.com/jsgv/git-open"),
        ("https://github.com/jsgv/git-open/tree/master", "git@github.com:jsgv/git-open.git"),
    ];

    for (expected, remote) in &cases {
        let formatted = gh.branch_url(remote, "master").unwrap();
        assert_eq!(expected, &formatted);
    }
}

#[test]
fn provider_github_commit_url() {
    let gh = GitHub {};
    let cases = vec![
        (
            "https://github.com/jsgv/git-open/commit/abcdef123456",
            ("https://github.com/jsgv/git-open.git", "abcdef123456"),
        ),
        (
            "https://github.com/jsgv/git-open/commit/123456abcdef",
            ("git@github.com:jsgv/git-open.git", "123456abcdef"),
        ),
    ];

    for (expected, (remote, commit_id)) in &cases {
        let formatted = gh.commit_url(remote, commit_id).unwrap();
        assert_eq!(expected, &formatted);
    }
}

#[test]
fn github_repository_url() {
    let gh = GitHub {};
    let cases = vec![
        ("git@github.com:jsgv/git-open", "https://github.com/jsgv/git-open"),
        ("git@github.com:jsgv/git-open.git", "https://github.com/jsgv/git-open"),
        ("https://github.com/jsgv/git-open.git", "https://github.com/jsgv/git-open"),
        ("https://github.example.com/jsgv/git-open.git", "https://github.example.com/jsgv/git-open"),
    ];

    for (remote, expected) in &cases {
        let formatted = gh.repository_url(remote).unwrap();
        assert_eq!(expected, &formatted);
    }
}

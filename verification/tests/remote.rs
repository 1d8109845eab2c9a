use gitopen::error::Error;
use gitopen::provider::{page_url, GitHub, Provider};
use gitopen::remote::normalize;

#[test]
fn normalize_short_form() {
    let url = normalize("git@github.com:jsgv/git-open.git").unwrap();
    assert_eq!(url.scheme(), "https");
    assert!(!url.scheme_explicit());
    assert_eq!(url.host(), "github.com");
    assert_eq!(url.owner(), "jsgv");
    assert_eq!(url.name(), "git-open");
    assert_eq!(url.fullname(), "jsgv/git-open");
    assert_eq!(url.web_url(), "https://github.com/jsgv/git-open");
}

#[test]
fn normalize_address_form() {
    let url = normalize("ssh://git@github.com:22/group/sub/tool").unwrap();
    assert_eq!(url.scheme(), "ssh");
    assert!(url.scheme_explicit());
    assert_eq!(url.host(), "git@github.com:22");
    assert_eq!(url.owner(), "group/sub");
    assert_eq!(url.name(), "tool");
    assert_eq!(url.fullname(), "group/sub/tool");
    assert_eq!(url.web_url(), "ssh://git@github.com:22/group/sub/tool");
    assert_eq!(url.clone(), url);
}

#[test]
fn normalize_each_scheme() {
    for scheme in ["git", "ssh", "http", "https"] {
        let remote = format!("{}://example.org/a/b.git", scheme);
        let url = normalize(&remote).unwrap();
        assert_eq!(url.scheme(), scheme);
        assert_eq!(url.web_url(), format!("{}://example.org/a/b", scheme));
    }
    for remote in ["ftp://example.org/a/b", "file://example.org/a/b", "://example.org/a/b"] {
        assert_eq!(normalize(remote), Err(Error::UnrecognizedRemoteFormat(remote.to_string())));
    }
}

#[test]
fn normalize_takes_one_git_suffix_off() {
    let url = normalize("git@github.com:jsgv/git-open.git").unwrap();
    assert_eq!(url.name(), "git-open");
    let url = normalize("git@github.com:jsgv/git-open.git.git").unwrap();
    assert_eq!(url.name(), "git-open.git");
    assert_eq!(url.fullname(), "jsgv/git-open.git");
    let url = normalize("git@github.com:jsgv/.github").unwrap();
    assert_eq!(url.name(), ".github");
    let url = normalize("git@github.com:jsgv/agit").unwrap();
    assert_eq!(url.name(), "agit");
    let url = normalize("git@github.com:jsgv.git/x").unwrap();
    assert_eq!(url.owner(), "jsgv.git");
    let url = normalize("git@github.com:jsgv/.git").unwrap();
    assert_eq!(url.owner(), "jsgv");
    assert_eq!(url.name(), "");
    assert_eq!(url.fullname(), "jsgv/");
}

#[test]
fn normalize_takes_the_slashes_at_the_end_off() {
    for remote in ["https://h/o/n/", "https://h/o/n///", "https://h/o/n.git/"] {
        let url = normalize(remote).unwrap();
        assert_eq!(url.web_url(), "https://h/o/n", "{}", remote);
    }
    assert_eq!(normalize("git@h:o/n/").unwrap().web_url(), "https://h/o/n");
}

#[test]
fn normalize_takes_any_token_without_white_space() {
    let url = normalize("a+b@h:o/n.git").unwrap();
    assert_eq!(url.scheme(), "https");
    assert!(!url.scheme_explicit());
    assert_eq!(url.host(), "h");
    assert_eq!(url.fullname(), "o/n");
    assert_eq!(url.web_url(), "https://h/o/n");

    let url = normalize("git@h:./n").unwrap();
    assert_eq!(url.owner(), ".");
    assert_eq!(url.web_url(), "https://h/./n");

    let url = normalize("gît@hôst.example:grüße/名前.git").unwrap();
    assert_eq!(url.host(), "hôst.example");
    assert_eq!(url.owner(), "grüße");
    assert_eq!(url.name(), "名前");

    let url = normalize("git@github.com:8080:jsgv//git-open#readme?x=1").unwrap();
    assert_eq!(url.host(), "github.com");
    assert_eq!(url.owner(), "8080:jsgv/");
    assert_eq!(url.name(), "git-open#readme?x=1");

    let url = normalize("https://user:secret@h:8443/a@b:c/n").unwrap();
    assert_eq!(url.host(), "user:secret@h:8443");
    assert_eq!(url.owner(), "a@b:c");
    assert_eq!(url.name(), "n");

    let url = normalize("git@h:/n").unwrap();
    assert_eq!(url.owner(), "");
    assert_eq!(url.fullname(), "/n");
}

#[test]
fn normalize_fails_whole() {
    for remote in [
        "not a url",
        "",
        "@",
        "/",
        "git@github.com",
        "git@github.com:",
        "git@github.com:jsgv",
        "git@github.com:jsgv/",
        "git@github.com:jsgv.git",
        "git@git@github.com:jsgv/git-open",
        "git user@github.com:jsgv/git-open",
        "git@git hub.com:jsgv/git-open",
        "git@github.com:jsgv/git open",
        "git@github.com:jsgv/git\topen",
        "git@github.com:jsgv/git\u{a0}open",
        "git@github.com:jsgv/git\u{2003}open",
        "git@github.com:jsgv/git\u{3000}open",
        "@github.com:jsgv/git-open",
        "git@:jsgv/git-open",
        "a/b@github.com:jsgv/git-open",
        "https:/github.com/jsgv/git-open",
        "https//github.com/jsgv/git-open",
        "https://github.com",
        "https://github.com/jsgv",
        "https:///jsgv/git-open",
        "https://git hub.com/jsgv/git-open",
        "https://github.com/jsgv/git open",
        "HTTPS://github.com/jsgv/git-open",
        "xhttps://github.com/jsgv/git-open",
    ] {
        assert_eq!(
            normalize(remote),
            Err(Error::UnrecognizedRemoteFormat(remote.to_string())),
            "{:?}",
            remote
        );
    }
}

#[test]
fn repository_url_is_the_same_for_every_spelling() {
    let gh = GitHub {};
    for remote in [
        "git@github.com:jsgv/git-open.git",
        "git@github.com:jsgv/git-open",
        "https://github.com/jsgv/git-open.git",
        "https://github.com/jsgv/git-open",
    ] {
        assert_eq!(gh.repository_url(remote), Ok("https://github.com/jsgv/git-open".to_string()));
    }
}

#[test]
fn repository_url_of_a_repository_url_is_itself() {
    let gh = GitHub {};
    for remote in [
        "git@github.com:jsgv/git-open.git",
        "someone@github.example.com:a/b/c.git",
        "a+b@h:./n",
        "http://github.com/jsgv/git-open/",
        "ssh://git@github.com:22/jsgv/git-open.git",
    ] {
        let once = gh.repository_url(remote).unwrap();
        assert_eq!(gh.repository_url(&once), Ok(once.clone()), "{}", remote);
    }
}

#[test]
fn repository_url_of_a_name_that_is_not_read_back() {
    let gh = GitHub {};
    let once = gh.repository_url("git@h:o/n.git.git").unwrap();
    assert_eq!(once, "https://h/o/n.git");
    assert_eq!(gh.repository_url(&once), Ok("https://h/o/n".to_string()));
    let once = gh.repository_url("git@h:o/.git").unwrap();
    assert_eq!(once, "https://h/o/");
    assert_eq!(
        gh.repository_url(&once),
        Err(Error::UnrecognizedRemoteFormat("https://h/o/".to_string()))
    );
}

#[test]
fn repository_url_of_unrecognized_remote() {
    let gh = GitHub {};
    let unrecognized = Err(Error::UnrecognizedRemoteFormat("not a url".to_string()));
    assert_eq!(gh.repository_url("not a url"), unrecognized);
    assert_eq!(gh.branch_url("not a url", "main"), unrecognized);
    assert_eq!(gh.commit_url("not a url", "abcdef"), unrecognized);
}

#[test]
fn page_url_joins_or_fails() {
    assert_eq!(page_url(Ok("a".to_string()), "/b/", "c"), Ok("a/b/c".to_string()));
    assert_eq!(
        page_url(Err(Error::MissingCredentials), "/b/", "c"),
        Err(Error::MissingCredentials)
    );
}

#[test]
fn repository_url_keeps_host_and_path_as_written() {
    let gh = GitHub {};
    assert_eq!(
        gh.repository_url("git@GitHub.com:jsgv/git-open"),
        Ok("https://GitHub.com/jsgv/git-open".to_string())
    );
    assert_eq!(
        gh.repository_url("https://GitHub.com/jsgv/git-open"),
        Ok("https://GitHub.com/jsgv/git-open".to_string())
    );
    assert_eq!(
        gh.repository_url("https://github.com:8443/jsgv/git-open"),
        Ok("https://github.com:8443/jsgv/git-open".to_string())
    );
    assert_eq!(
        gh.repository_url("git@gitlab.com:group/sub/tool.git"),
        Ok("https://gitlab.com/group/sub/tool".to_string())
    );
}

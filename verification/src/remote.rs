//! Remote addresses in their canonical parts, and the normaliser that
//! reads them from a remote in either of its two shapes.
use crate::error::{outcome, Error};
use crate::grammar::{
    address_pieces, default_scheme, ends_with_git, first_index, git_suffix, is_address_host,
    is_path, is_scheme, is_token, is_token_char, is_whitespace, last_index, lemma_first_index_is,
    lemma_last_index_is, lemma_recognized_parts, normalize_spec, parts_of, pieces_at, recognize,
    scheme_separator, shorthand, shorthand_pieces, strip_git, trim_slashes, url_form,
    RemoteUrlView,
};
use vstd::prelude::*;
use vstd::slice::slice_subrange;
use vstd::string::StrSliceExecFns;
use vstd::string::StringExecFns;

verus! {

/// The characters of a string.
pub(crate) fn chars_of(s: &str) -> (chars: Vec<char>)
    ensures
        chars@ == s@,
{
    let mut chars: Vec<char> = Vec::new();
    for c in it: s.chars()
        invariant
            chars@ == it.seq().take(it.index@),
    {
        chars.push(c);
    }
    chars
}

/// Whether `c` is white space.
fn check_whitespace(c: char) -> (yes: bool)
    ensures
        yes == is_whitespace(c),
{
    (c >= '\u{9}' && c <= '\u{d}') || c == ' ' || c == '\u{85}' || c == '\u{a0}' || c
        == '\u{1680}' || (c >= '\u{2000}' && c <= '\u{200a}') || c == '\u{2028}' || c
        == '\u{2029}' || c == '\u{202f}' || c == '\u{205f}' || c == '\u{3000}'
}

/// The place of the first `c` in `s`, or the length of `s`.
pub(crate) fn find_first(s: &[char], c: char) -> (at: usize)
    ensures
        at == first_index(s@, c),
        at <= s@.len(),
{
    let n = s.len();
    let mut i: usize = 0;
    while i < n && s[i] != c
        invariant
            n == s@.len(),
            0 <= i <= n,
            forall|j: int| 0 <= j < i ==> s@[j] != c,
        decreases n - i,
    {
        i += 1;
    }
    proof {
        lemma_first_index_is(s@, c, i as int);
    }
    i
}

/// The place of the last `c` in `s`, if there is one.
pub(crate) fn find_last(s: &[char], c: char) -> (at: Option<usize>)
    ensures
        match at {
            Some(k) => k == last_index(s@, c) && k < s@.len(),
            None => last_index(s@, c) == -1,
        },
{
    let n = s.len();
    let mut i: usize = n;
    while i > 0 && s[i - 1] != c
        invariant
            n == s@.len(),
            0 <= i <= n,
            forall|j: int| i <= j < n ==> s@[j] != c,
        decreases i,
    {
        i -= 1;
    }
    proof {
        lemma_last_index_is(s@, c, i as int - 1);
    }
    if i == 0 {
        None
    } else {
        Some(i - 1)
    }
}

/// How much of `s` is left without the slashes at its end.
pub(crate) fn trimmed_len(s: &[char]) -> (n: usize)
    ensures
        n <= s@.len(),
        s@.take(n as int) == trim_slashes(s@),
{
    let mut n: usize = s.len();
    assert(s@.take(n as int) =~= s@);
    while n > 0 && s[n - 1] == '/'
        invariant
            n <= s@.len(),
            trim_slashes(s@.take(n as int)) == trim_slashes(s@),
        decreases n,
    {
        assert(s@.take(n as int).drop_last() =~= s@.take(n - 1));
        n -= 1;
    }
    n
}

/// Whether the characters are those of the text.
pub(crate) fn same_text(s: &[char], text: &str) -> (yes: bool)
    ensures
        yes == (s@ == text@),
{
    let n = s.len();
    if n != text.unicode_len() {
        return false;
    }
    let mut i: usize = 0;
    while i < n
        invariant
            n == s@.len(),
            n == text@.len(),
            0 <= i <= n,
            forall|j: int| 0 <= j < i ==> s@[j] == text@[j],
        decreases n - i,
    {
        if s[i] != text.get_char(i) {
            return false;
        }
        i += 1;
    }
    assert(s@ =~= text@);
    true
}

/// Whether `s` is a user or the host of the short form.
fn check_token(s: &[char]) -> (yes: bool)
    ensures
        yes == is_token(s@),
{
    let n = s.len();
    let mut i: usize = 0;
    while i < n
        invariant
            n == s@.len(),
            0 <= i <= n,
            forall|j: int| 0 <= j < i ==> is_token_char(#[trigger] s@[j]),
        decreases n - i,
    {
        let c = s[i];
        if check_whitespace(c) || c == '@' || c == ':' || c == '/' {
            return false;
        }
        i += 1;
    }
    n > 0
}

/// Whether `s` holds no white space.
fn check_path(s: &[char]) -> (yes: bool)
    ensures
        yes == is_path(s@),
{
    let n = s.len();
    let mut i: usize = 0;
    while i < n
        invariant
            n == s@.len(),
            0 <= i <= n,
            forall|j: int| 0 <= j < i ==> !is_whitespace(#[trigger] s@[j]),
        decreases n - i,
    {
        if check_whitespace(s[i]) {
            return false;
        }
        i += 1;
    }
    true
}

/// Whether `s` is the host of the address form.
fn check_address_host(s: &[char]) -> (yes: bool)
    ensures
        yes == is_address_host(s@),
{
    let n = s.len();
    let mut i: usize = 0;
    while i < n
        invariant
            n == s@.len(),
            0 <= i <= n,
            forall|j: int| 0 <= j < i ==> !is_whitespace(#[trigger] s@[j]) && s@[j] != '/',
        decreases n - i,
    {
        let c = s[i];
        if check_whitespace(c) || c == '/' {
            return false;
        }
        i += 1;
    }
    n > 0
}

/// Whether `s` ends in `.git`.
fn has_git_suffix(s: &[char]) -> (yes: bool)
    ensures
        yes == ends_with_git(s@),
{
    let n = s.len();
    proof {
        reveal_strlit(".git");
        assert(".git"@ =~= git_suffix());
    }
    n >= 4 && same_text(slice_subrange(s, n - 4, n), ".git")
}

/// Whether `s` names one of the schemes.
pub(crate) fn check_scheme(s: &[char]) -> (yes: bool)
    ensures
        yes == is_scheme(s@),
{
    proof {
        reveal_strlit("git");
        reveal_strlit("ssh");
        reveal_strlit("http");
        reveal_strlit("https");
        assert("git"@ =~= seq!['g', 'i', 't']);
        assert("ssh"@ =~= seq!['s', 's', 'h']);
        assert("http"@ =~= seq!['h', 't', 't', 'p']);
        assert("https"@ =~= seq!['h', 't', 't', 'p', 's']);
    }
    same_text(s, "git") || same_text(s, "ssh") || same_text(s, "http") || same_text(s, "https")
}

/// The places at which a text is cut into what leads, the host and the
/// path.
pub(crate) struct Cut {
    pub(crate) lead_end: usize,
    pub(crate) host_start: usize,
    pub(crate) host_end: usize,
    pub(crate) path_start: usize,
}

/// The places at which a text is cut at its first `@` and the first `:`
/// after it.
pub(crate) fn shorthand_cut(text: &[char]) -> (cut: Option<Cut>)
    ensures
        match cut {
            Some(c) => c.lead_end <= c.host_start <= c.host_end <= c.path_start <= text@.len()
                && shorthand_pieces(text@) == Some(
                pieces_at(
                    text@,
                    c.lead_end as int,
                    c.host_start as int,
                    c.host_end as int,
                    c.path_start as int,
                ),
            ),
            None => shorthand_pieces(text@) is None,
        },
{
    let n = text.len();
    let at = find_first(text, '@');
    if at >= n {
        return None;
    }
    let rest = slice_subrange(text, at + 1, n);
    let colon = find_first(rest, ':');
    if colon >= rest.len() {
        return None;
    }
    proof {
        assert(text@.skip(at + 1) =~= rest@);
        assert(rest@.take(colon as int) =~= text@.subrange(at + 1, at + 1 + colon));
        assert(rest@.skip(colon + 1) =~= text@.subrange(at + 1 + colon + 1, n as int));
    }
    Some(
        Cut {
            lead_end: at,
            host_start: at + 1,
            host_end: at + 1 + colon,
            path_start: at + colon + 2,
        },
    )
}

/// The places at which a text is cut at its first `://` and the first
/// `/` after it.
pub(crate) fn address_cut(text: &[char]) -> (cut: Option<Cut>)
    ensures
        match cut {
            Some(c) => c.lead_end <= c.host_start <= c.host_end <= c.path_start <= text@.len()
                && address_pieces(text@) == Some(
                pieces_at(
                    text@,
                    c.lead_end as int,
                    c.host_start as int,
                    c.host_end as int,
                    c.path_start as int,
                ),
            ),
            None => address_pieces(text@) is None,
        },
{
    let n = text.len();
    let colon = find_first(text, ':');
    proof {
        reveal_strlit("://");
        assert("://"@ =~= scheme_separator());
        if n - colon >= 3 {
            assert(text@.skip(colon as int).subrange(0, 3) =~= text@.subrange(
                colon as int,
                colon + 3,
            ));
        }
    }
    if n - colon < 3 || !same_text(slice_subrange(text, colon, colon + 3), "://") {
        return None;
    }
    let rest = slice_subrange(text, colon + 3, n);
    let slash = find_first(rest, '/');
    if slash >= rest.len() {
        return None;
    }
    proof {
        assert(text@.skip(colon + 3) =~= rest@);
        assert(rest@.take(slash as int) =~= text@.subrange(colon + 3, colon + 3 + slash));
        assert(rest@.skip(slash + 1) =~= text@.subrange(colon + 3 + slash + 1, n as int));
    }
    Some(
        Cut {
            lead_end: colon,
            host_start: colon + 3,
            host_end: colon + 3 + slash,
            path_start: colon + slash + 4,
        },
    )
}

/// A remote address in its canonical parts.
#[derive(Debug, PartialEq, Eq)]
pub struct RemoteUrl {
    scheme: String,
    scheme_explicit: bool,
    host: String,
    owner: String,
    name: String,
    fullname: String,
}

impl View for RemoteUrl {
    type V = RemoteUrlView;

    closed spec fn view(&self) -> RemoteUrlView {
        RemoteUrlView {
            scheme: self.scheme@,
            scheme_explicit: self.scheme_explicit,
            host: self.host@,
            owner: self.owner@,
            name: self.name@,
        }
    }
}

impl Clone for RemoteUrl {
    fn clone(&self) -> (copy: Self)
        ensures
            copy@ == self@,
    {
        proof {
            use_type_invariant(self);
        }
        RemoteUrl {
            scheme: self.scheme.clone(),
            scheme_explicit: self.scheme_explicit,
            host: self.host.clone(),
            owner: self.owner.clone(),
            name: self.name.clone(),
            fullname: self.fullname.clone(),
        }
    }
}

impl RemoteUrl {
    #[verifier::type_invariant]
    spec fn coherent(self) -> bool {
        self@.well_formed() && self.fullname@ == self@.fullname()
    }

    /// The address made of the given parts.
    pub(crate) fn assemble(
        scheme: &str,
        scheme_explicit: bool,
        host: &str,
        owner: &str,
        name: &str,
    ) -> (url: RemoteUrl)
        requires
            host@.len() > 0,
        ensures
            url@ == (RemoteUrlView {
                scheme: scheme@,
                scheme_explicit,
                host: host@,
                owner: owner@,
                name: name@,
            }),
    {
        proof {
            reveal_strlit("/");
            assert("/"@ =~= seq!['/']);
        }
        let fullname = String::from_str(owner).concat("/").concat(name);
        RemoteUrl {
            scheme: String::from_str(scheme),
            scheme_explicit,
            host: String::from_str(host),
            owner: String::from_str(owner),
            name: String::from_str(name),
            fullname,
        }
    }

    /// The scheme of the web address.
    pub fn scheme(&self) -> (scheme: &str)
        ensures
            scheme@ == self@.scheme,
    {
        self.scheme.as_str()
    }

    /// Whether the remote itself named the scheme.
    pub fn scheme_explicit(&self) -> (explicit: bool)
        ensures
            explicit == self@.scheme_explicit,
    {
        self.scheme_explicit
    }

    pub fn host(&self) -> (host: &str)
        ensures
            host@ == self@.host,
            host@.len() > 0,
    {
        proof {
            use_type_invariant(self);
        }
        self.host.as_str()
    }

    /// What stands before the last `/` of the repository path.
    pub fn owner(&self) -> (owner: &str)
        ensures
            owner@ == self@.owner,
    {
        self.owner.as_str()
    }

    /// The repository's name: what stands after the last `/` of the
    /// repository path.
    pub fn name(&self) -> (name: &str)
        ensures
            name@ == self@.name,
    {
        self.name.as_str()
    }

    /// The repository path: `owner/name`.
    pub fn fullname(&self) -> (fullname: &str)
        ensures
            fullname@ == self@.fullname(),
    {
        proof {
            use_type_invariant(self);
        }
        self.fullname.as_str()
    }

    /// The address of the repository's page: `scheme://host/owner/name`.
    pub fn web_url(&self) -> (url: String)
        ensures
            url@ == self@.web_url(),
    {
        proof {
            use_type_invariant(self);
            reveal_strlit("://");
            reveal_strlit("/");
            assert("://"@ =~= scheme_separator());
            assert("/"@ =~= seq!['/']);
        }
        self.scheme.clone().concat("://").concat(self.host.as_str()).concat("/").concat(
            self.fullname.as_str(),
        )
    }
}

/// The canonical parts of a remote whose scheme and host are known and
/// whose path begins at the given place of the text.
fn assemble_parts(
    text: &str,
    chars: &[char],
    scheme: &str,
    scheme_explicit: bool,
    cut: &Cut,
) -> (url: Option<RemoteUrl>)
    requires
        chars@ == text@,
        cut.host_start < cut.host_end <= cut.path_start <= chars@.len(),
    ensures
        match url {
            Some(u) => parts_of(
                scheme@,
                scheme_explicit,
                text@.subrange(cut.host_start as int, cut.host_end as int),
                text@.subrange(cut.path_start as int, text@.len() as int),
            ) == Some(u@),
            None => parts_of(
                scheme@,
                scheme_explicit,
                text@.subrange(cut.host_start as int, cut.host_end as int),
                text@.subrange(cut.path_start as int, text@.len() as int),
            ) is None,
        },
{
    let n = chars.len();
    let start = cut.path_start;
    let path = slice_subrange(chars, start, n);
    if !check_path(path) {
        return None;
    }
    let end = if has_git_suffix(path) {
        n - 4
    } else {
        n
    };
    let stem = slice_subrange(path, 0, end - start);
    assert(stem@ =~= strip_git(path@));
    match find_last(stem, '/') {
        None => None,
        Some(slash) => {
            let host = text.substring_char(cut.host_start, cut.host_end);
            let owner = text.substring_char(start, start + slash);
            let name = text.substring_char(start + slash + 1, end);
            proof {
                assert(owner@ =~= stem@.take(slash as int));
                assert(name@ =~= stem@.skip(slash + 1));
            }
            Some(RemoteUrl::assemble(scheme, scheme_explicit, host, owner, name))
        },
    }
}

/// The parts of a remote in the short form.
fn parse_shorthand(text: &str, chars: &[char]) -> (url: Option<RemoteUrl>)
    requires
        chars@ == text@,
    ensures
        match url {
            Some(u) => shorthand(text@) == Some(u@),
            None => shorthand(text@) is None,
        },
{
    match shorthand_cut(chars) {
        None => None,
        Some(cut) => {
            if !check_token(slice_subrange(chars, 0, cut.lead_end)) || !check_token(
                slice_subrange(chars, cut.host_start, cut.host_end),
            ) {
                return None;
            }
            proof {
                reveal_strlit("https");
                assert("https"@ =~= default_scheme());
            }
            assemble_parts(text, chars, "https", false, &cut)
        },
    }
}

/// The parts of a remote in the address form.
fn parse_url_form(text: &str, chars: &[char]) -> (url: Option<RemoteUrl>)
    requires
        chars@ == text@,
    ensures
        match url {
            Some(u) => url_form(text@) == Some(u@),
            None => url_form(text@) is None,
        },
{
    match address_cut(chars) {
        None => None,
        Some(cut) => {
            if !check_scheme(slice_subrange(chars, 0, cut.lead_end)) || !check_address_host(
                slice_subrange(chars, cut.host_start, cut.host_end),
            ) {
                return None;
            }
            let scheme = text.substring_char(0, cut.lead_end);
            assemble_parts(text, chars, scheme, true, &cut)
        },
    }
}

/// The canonical parts of a remote, or the remote as the one that was not
/// recognised.
pub fn normalize(raw: &str) -> (res: Result<RemoteUrl, Error>)
    ensures
        outcome(res) == normalize_spec(raw@),
        res matches Ok(url) ==> url@.well_formed(),
{
    proof {
        if recognize(raw@) is Some {
            lemma_recognized_parts(raw@);
        }
    }
    let all = chars_of(raw);
    let n = trimmed_len(all.as_slice());
    let chars = slice_subrange(all.as_slice(), 0, n);
    let text = raw.substring_char(0, n);
    assert(chars@ =~= text@);
    match parse_shorthand(text, chars) {
        Some(url) => Ok(url),
        None => match parse_url_form(text, chars) {
            Some(url) => Ok(url),
            None => Err(Error::UnrecognizedRemoteFormat(String::from_str(raw))),
        },
    }
}

} // verus!

//! Hosting services. The addresses of a repository's pages follow from
//! the remote, which is read by the grammar and, where it is plain enough
//! to ask, has to be one that `git_url_parse` reads too; the address of
//! an open pull request comes from the service's API.
use crate::error::{outcome, Error, ErrorView};
use crate::grammar::{
    address_pieces, default_scheme, ends_with_git, first_index, git_suffix, is_leaf, is_path,
    is_scheme, is_token, last_index, lemma_first_index, lemma_scheme_chars, recognize,
    scheme_separator, shorthand, shorthand_pieces, trim_slashes, web_url_of, RemoteUrlView,
};
use crate::provider::{page_url, page_url_spec};
use crate::remote::{
    address_cut, chars_of, check_scheme, find_first, find_last, normalize, same_text,
    shorthand_cut, trimmed_len, RemoteUrl,
};
use vstd::prelude::*;
use vstd::slice::slice_subrange;
use vstd::string::StrSliceExecFns;
use vstd::string::StringExecFns;

pub mod github;

verus! {

/// Whether `git_url_parse::GitUrl::parse` reads a remote, that is,
/// returns a `GitUrl` for it and no error.
pub uninterp spec fn git_url_parse_reads(remote: Seq<char>) -> bool;

/// A character of a plain name: an ASCII letter or digit, or one of `-`,
/// `_`, `.`, `~`.
pub open spec fn is_name_char(c: char) -> bool {
    ||| 'a' <= c <= 'z'
    ||| 'A' <= c <= 'Z'
    ||| '0' <= c <= '9'
    ||| c == '-'
    ||| c == '_'
    ||| c == '.'
    ||| c == '~'
}

/// A plain name: one or more name characters.
pub open spec fn is_name(s: Seq<char>) -> bool {
    s.len() > 0 && forall|i: int| 0 <= i < s.len() ==> is_name_char(#[trigger] s[i])
}

/// A plain host of the address form: one or more name characters, with
/// `@` and `:` as they set off a user or a port.
pub open spec fn is_authority(s: Seq<char>) -> bool {
    s.len() > 0 && forall|i: int|
        0 <= i < s.len() ==> is_name_char(#[trigger] s[i]) || s[i] == '@' || s[i] == ':'
}

/// A plain segment of a path: a plain name other than `.` and `..`.
pub open spec fn is_segment(s: Seq<char>) -> bool {
    is_name(s) && s != seq!['.'] && s != seq!['.', '.']
}

/// One or more plain segments, with a `/` between each two.
pub open spec fn is_segments(s: Seq<char>) -> bool
    decreases s.len(),
{
    let cut = first_index(s, '/');
    if 0 <= cut < s.len() {
        is_segment(s.take(cut)) && is_segments(s.skip(cut + 1))
    } else {
        is_segment(s)
    }
}

/// A plain path: two or more plain segments.
pub open spec fn is_plain_path(s: Seq<char>) -> bool {
    is_segments(s) && last_index(s, '/') >= 0
}

/// A letter in lower case; any other character as it is.
pub open spec fn to_lower(c: char) -> char {
    if 'A' <= c <= 'Z' {
        ((c as u8) + 32) as char
    } else {
        c
    }
}

/// The host under which Azure DevOps serves repositories.
pub open spec fn azure_host() -> Seq<char> {
    seq!['d', 'e', 'v', '.', 'a', 'z', 'u', 'r', 'e', '.', 'c', 'o', 'm']
}

/// Whether `word` stands in `text` from place `at` on, in whatever case.
pub open spec fn occurs_at(text: Seq<char>, word: Seq<char>, at: int) -> bool {
    &&& 0 <= at
    &&& at + word.len() <= text.len()
    &&& forall|j: int| 0 <= j < word.len() ==> to_lower(#[trigger] text[at + j]) == word[j]
}

/// Whether a host names Azure DevOps, in whatever case and with whatever
/// stands around the name.
pub open spec fn names_azure(host: Seq<char>) -> bool {
    exists|at: int| occurs_at(host, azure_host(), at)
}

/// A plain remote in the short form: plain names for user and host, a
/// plain path, and no host of Azure DevOps.
pub open spec fn plain_shorthand(text: Seq<char>) -> bool {
    match shorthand_pieces(text) {
        Some(pieces) => is_name(pieces.lead) && is_name(pieces.host) && is_plain_path(pieces.path)
            && !names_azure(pieces.host),
        None => false,
    }
}

/// A plain remote in the address form: one of the schemes, a plain host,
/// a plain path, and no host of Azure DevOps.
pub open spec fn plain_address(text: Seq<char>) -> bool {
    match address_pieces(text) {
        Some(pieces) => is_scheme(pieces.lead) && is_authority(pieces.host) && is_plain_path(
            pieces.path,
        ) && !names_azure(pieces.host),
        None => false,
    }
}

/// The remotes that the parser is asked about: the plain ones. On
/// others it is not known to return; they are read by the grammar alone.
pub open spec fn parser_input(text: Seq<char>) -> bool {
    plain_shorthand(text) || plain_address(text)
}

/// Whether the parser has nothing against a remote without slashes at
/// its end: it is not asked about a remote that is not plain, it reads
/// every plain remote in the short form, and of a plain remote in the
/// address form it says so itself.
pub open spec fn parser_consents(text: Seq<char>) -> bool {
    !parser_input(text) || plain_shorthand(text) || git_url_parse_reads(text)
}

/// The canonical parts of a remote once it is known whether the parser
/// has anything against it: they stand where it has not.
pub open spec fn confirmed_spec(remote: Seq<char>, parts: RemoteUrlView, reads: bool) -> Result<
    RemoteUrlView,
    ErrorView,
> {
    if reads {
        Ok(parts)
    } else {
        Err(ErrorView::UnrecognizedRemoteFormat(remote))
    }
}

/// What normalising a remote gives: the canonical parts of a remote of
/// either shape, where the parser has nothing against it.
pub open spec fn git_url_spec(remote: Seq<char>) -> Result<RemoteUrlView, ErrorView> {
    match recognize(remote) {
        Some(parts) => confirmed_spec(remote, parts, parser_consents(trim_slashes(remote))),
        None => Err(ErrorView::UnrecognizedRemoteFormat(remote)),
    }
}

/// The address of the page of the repository that a remote names.
pub open spec fn web_url_spec(remote: Seq<char>) -> Result<Seq<char>, ErrorView> {
    match git_url_spec(remote) {
        Ok(parts) => Ok(parts.web_url()),
        Err(error) => Err(error),
    }
}

/// Calls `git_url_parse::GitUrl::parse` on the remote and says whether it
/// returned a `GitUrl`.
///
/// The parser indexes the segments of the path without counting them
/// where the host is `dev.azure.com` or `ssh.dev.azure.com`, and takes
/// the last segment of an `ssh` path that has none left once `.` and `..`
/// are resolved. The contract claims that it returns on the remotes
/// admitted here, which have neither such a host nor such a path, and that
/// whether it reads a remote depends on the remote alone. It also claims
/// that the parser reads every plain remote in the short form: it puts
/// `ssh://` before it and `/` for the `:`, which the URL parser takes
/// with any plain names for user and host, and finds the two segments of
/// the path that it asks for.
#[verifier::external_body]
fn parser_reads(remote: &str) -> (reads: bool)
    requires
        parser_input(remote@),
    ensures
        reads == git_url_parse_reads(remote@),
        plain_shorthand(remote@) ==> reads,
{
    git_url_parse::GitUrl::parse(remote).is_ok()
}

/// Whether `c` is a name character.
fn check_name_char(c: char) -> (yes: bool)
    ensures
        yes == is_name_char(c),
{
    (c >= 'a' && c <= 'z') || (c >= 'A' && c <= 'Z') || (c >= '0' && c <= '9') || c == '-' || c
        == '_' || c == '.' || c == '~'
}

/// Whether `s` is a plain name.
fn check_name(s: &[char]) -> (yes: bool)
    ensures
        yes == is_name(s@),
{
    let n = s.len();
    let mut i: usize = 0;
    while i < n
        invariant
            n == s@.len(),
            0 <= i <= n,
            forall|j: int| 0 <= j < i ==> is_name_char(#[trigger] s@[j]),
        decreases n - i,
    {
        if !check_name_char(s[i]) {
            return false;
        }
        i += 1;
    }
    n > 0
}

/// Whether `s` is a plain host of the address form.
fn check_authority(s: &[char]) -> (yes: bool)
    ensures
        yes == is_authority(s@),
{
    let n = s.len();
    let mut i: usize = 0;
    while i < n
        invariant
            n == s@.len(),
            0 <= i <= n,
            forall|j: int|
                0 <= j < i ==> is_name_char(#[trigger] s@[j]) || s@[j] == '@' || s@[j] == ':',
        decreases n - i,
    {
        let c = s[i];
        if !(check_name_char(c) || c == '@' || c == ':') {
            return false;
        }
        i += 1;
    }
    n > 0
}

/// Whether `s` is a plain segment.
fn check_segment(s: &[char]) -> (yes: bool)
    ensures
        yes == is_segment(s@),
{
    proof {
        reveal_strlit(".");
        reveal_strlit("..");
        assert("."@ =~= seq!['.']);
        assert(".."@ =~= seq!['.', '.']);
    }
    check_name(s) && !same_text(s, ".") && !same_text(s, "..")
}

/// Whether `s` is made of plain segments with a `/` between each two.
fn check_segments(s: &[char]) -> (yes: bool)
    ensures
        yes == is_segments(s@),
{
    let mut rest: &[char] = s;
    loop
        invariant
            is_segments(s@) == is_segments(rest@),
        decreases rest@.len(),
    {
        let n = rest.len();
        let cut = find_first(rest, '/');
        if cut < n {
            if !check_segment(slice_subrange(rest, 0, cut)) {
                return false;
            }
            rest = slice_subrange(rest, cut + 1, n);
        } else {
            return check_segment(rest);
        }
    }
}

/// Whether `s` is a plain path.
fn check_plain_path(s: &[char]) -> (yes: bool)
    ensures
        yes == is_plain_path(s@),
{
    check_segments(s) && find_last(s, '/').is_some()
}

/// A letter in lower case; any other character as it is.
fn lower(c: char) -> (lower: char)
    ensures
        lower == to_lower(c),
{
    if c >= 'A' && c <= 'Z' {
        ((c as u8) + 32) as char
    } else {
        c
    }
}

/// Whether a host names Azure DevOps.
fn check_azure(host: &[char]) -> (yes: bool)
    ensures
        yes == names_azure(host@),
{
    let word = "dev.azure.com";
    proof {
        reveal_strlit("dev.azure.com");
        assert(word@ =~= azure_host());
    }
    let n = host.len();
    let m = word.unicode_len();
    if n < m {
        return false;
    }
    let mut at: usize = 0;
    while at <= n - m
        invariant
            m <= n,
            word@ == azure_host(),
            n == host@.len(),
            m == word@.len(),
            m == 13,
            forall|k: int| 0 <= k < at ==> !occurs_at(host@, azure_host(), k),
        decreases n - at,
    {
        let mut j: usize = 0;
        while j < m && lower(host[at + j]) == word.get_char(j)
            invariant
                word@ == azure_host(),
                n == host@.len(),
                m == word@.len(),
                m <= n,
                at <= n - m,
                0 <= j <= m,
                forall|i: int| 0 <= i < j ==> to_lower(#[trigger] host@[at + i]) == word@[i],
            decreases m - j,
        {
            j += 1;
        }
        if j == m {
            assert(occurs_at(host@, azure_host(), at as int));
            return true;
        }
        assert(to_lower(host@[at + j]) != word@[j as int]);
        at += 1;
    }
    false
}

/// Whether the text is a plain remote in the short form.
fn check_plain_shorthand(text: &[char]) -> (yes: bool)
    ensures
        yes == plain_shorthand(text@),
{
    match shorthand_cut(text) {
        None => false,
        Some(cut) => {
            let host = slice_subrange(text, cut.host_start, cut.host_end);
            check_name(slice_subrange(text, 0, cut.lead_end)) && check_name(host)
                && check_plain_path(slice_subrange(text, cut.path_start, text.len()))
                && !check_azure(host)
        },
    }
}

/// Whether the text is a plain remote in the address form.
fn check_plain_address(text: &[char]) -> (yes: bool)
    ensures
        yes == plain_address(text@),
{
    match address_cut(text) {
        None => false,
        Some(cut) => {
            let host = slice_subrange(text, cut.host_start, cut.host_end);
            check_scheme(slice_subrange(text, 0, cut.lead_end)) && check_authority(host)
                && check_plain_path(slice_subrange(text, cut.path_start, text.len()))
                && !check_azure(host)
        },
    }
}

/// Whether the parser has nothing against a remote: it is asked about
/// the remote without the slashes at its end, where that is plain.
fn consents(remote: &str) -> (yes: bool)
    ensures
        yes == parser_consents(trim_slashes(remote@)),
{
    let all = chars_of(remote);
    let n = trimmed_len(all.as_slice());
    let chars = slice_subrange(all.as_slice(), 0, n);
    if check_plain_shorthand(chars) || check_plain_address(chars) {
        let text = remote.substring_char(0, n);
        assert(text@ =~= chars@);
        parser_reads(text)
    } else {
        true
    }
}

/// The canonical parts of a remote once it is known whether the parser
/// has anything against it.
pub fn confirmed(remote: &str, url: RemoteUrl, reads: bool) -> (res: Result<RemoteUrl, Error>)
    ensures
        outcome(res) == confirmed_spec(remote@, url@, reads),
{
    if reads {
        Ok(url)
    } else {
        Err(Error::UnrecognizedRemoteFormat(String::from_str(remote)))
    }
}

/// A hosting service: the addresses of a repository's pages, which follow
/// from the remote, and the address of an open pull request, which the
/// service's API has to be asked for.
pub trait Provider {
    /// What the service's API answers when asked for the pull requests
    /// of a branch.
    type Reply;

    /// The address that `pull_request_url` gives.
    spec fn pull_request_url_spec(
        &self,
        remote: Seq<char>,
        head: Seq<char>,
        reply: Self::Reply,
    ) -> Result<Seq<char>, ErrorView>;

    /// The address of the page of a branch: `{repository}/tree/{branch}`.
    fn branch_url(&self, remote: &str, branch: &str) -> (res: Result<String, Error>)
        ensures
            outcome(res) == page_url_spec(web_url_spec(remote@), "/tree/"@, branch@),
    {
        page_url(self.web_url(remote), "/tree/", branch)
    }

    /// The address of the page of a commit: `{repository}/commit/{commit}`.
    fn commit_url(&self, remote: &str, commit: &str) -> (res: Result<String, Error>)
        ensures
            outcome(res) == page_url_spec(web_url_spec(remote@), "/commit/"@, commit@),
    {
        page_url(self.web_url(remote), "/commit/", commit)
    }

    /// The address of the open pull request of the branch `head`, read
    /// from the answer of the service's API.
    fn pull_request_url(&self, remote: &str, head: &str, reply: &Self::Reply) -> (res: Result<
        String,
        Error,
    >)
        ensures
            outcome(res) == self.pull_request_url_spec(remote@, head@, *reply),
    ;

    /// The address of the repository's page: `{scheme}://{host}/{owner}/{name}`,
    /// with `https` for a remote that names no scheme.
    fn web_url(&self, remote: &str) -> (res: Result<String, Error>)
        ensures
            outcome(res) == web_url_spec(remote@),
    {
        match self.git_url(remote) {
            Ok(url) => Ok(url.web_url()),
            Err(error) => Err(error),
        }
    }

    /// The canonical parts of a remote. A remote of neither shape is not
    /// recognised, nor a plain one that the parser does not read.
    fn git_url(&self, remote: &str) -> (res: Result<RemoteUrl, Error>)
        ensures
            outcome(res) == git_url_spec(remote@),
            res matches Ok(url) ==> url@.well_formed(),
    {
        match normalize(remote) {
            Ok(url) => {
                let reads = consents(remote);
                confirmed(remote, url, reads)
            },
            Err(error) => Err(error),
        }
    }
}

/// What is recognised here is read as the grammar reads it: the parser
/// has a say in whether a remote is recognised, and none in its parts.
pub proof fn lemma_git_url_is_normal(remote: Seq<char>)
    ensures
        git_url_spec(remote) is Ok ==> git_url_spec(remote) == crate::grammar::normalize_spec(
            remote,
        ),
        web_url_spec(remote) is Ok ==> web_url_spec(remote) == crate::grammar::web_url_spec(
            remote,
        ),
{
}

/// The parser has no say in a remote of the short form: what the grammar
/// reads in that form is recognised here.
pub proof fn lemma_short_form_stands(remote: Seq<char>)
    requires
        shorthand(trim_slashes(remote)) is Some,
    ensures
        git_url_spec(remote) == crate::grammar::normalize_spec(remote),
        web_url_spec(remote) == crate::grammar::web_url_spec(remote),
{
    let text = trim_slashes(remote);
    let at = first_index(text, '@');
    let colon = first_index(text, ':');
    lemma_first_index(text, '@');
    lemma_first_index(text, ':');
    let rest = text.skip(at + 1);
    lemma_first_index(rest, ':');
    if plain_address(text) {
        let lead = text.take(colon);
        lemma_scheme_chars(lead);
        if colon <= at {
            assert(text.take(at)[colon] == ':');
        } else {
            assert(lead[at] == '@');
        }
    }
}

/// No two spellings of one repository give two web addresses. The short
/// form, with and without `.git` at its end, gives
/// `https://host/owner/name`; so does the `https` address, with and
/// without `.git`, where the parser has nothing against it. The name is
/// one that is read back as it is: it is not empty and ends in `.git` no
/// more.
pub proof fn lemma_spellings_agree(
    user: Seq<char>,
    host: Seq<char>,
    owner: Seq<char>,
    name: Seq<char>,
)
    requires
        is_token(user),
        is_token(host),
        is_path(owner),
        is_leaf(name),
    ensures
        ({
            let short = user + seq!['@'] + host + seq![':'] + (owner + seq!['/'] + name);
            let address = default_scheme() + scheme_separator() + host + seq!['/'] + (owner
                + seq!['/'] + name);
            let web = Ok::<Seq<char>, ErrorView>(web_url_of(default_scheme(), host, owner, name));
            &&& web_url_spec(short) == web
            &&& web_url_spec(short + git_suffix()) == web
            &&& web_url_spec(address) is Ok ==> web_url_spec(address) == web
            &&& web_url_spec(address + git_suffix()) is Ok ==> web_url_spec(
                address + git_suffix(),
            ) == web
        }),
{
    let short = user + seq!['@'] + host + seq![':'] + (owner + seq!['/'] + name);
    crate::grammar::lemma_spellings_agree(user, host, owner, name);
    crate::grammar::lemma_short_form_read(user, host, owner, name);
    lemma_short_form_stands(short);
    lemma_short_form_stands(short + git_suffix());
}

/// The web address of a remote has no other web address than itself: it
/// is a remote of its own where the parser has nothing against it, and
/// then normalising it again changes nothing. This holds of a remote
/// whose name is read back as it is: it is not empty and ends in `.git`
/// no more.
pub proof fn lemma_web_url_is_normal(remote: Seq<char>)
    requires
        recognize(remote) is Some,
        recognize(remote)->0.name.len() > 0,
        !ends_with_git(recognize(remote)->0.name),
    ensures
        ({
            let web = recognize(remote)->0.web_url();
            web_url_spec(web) == (if parser_consents(web) {
                Ok::<Seq<char>, ErrorView>(web)
            } else {
                Err(ErrorView::UnrecognizedRemoteFormat(web))
            })
        }),
{
    crate::grammar::lemma_web_url_is_normal(remote);
    crate::grammar::lemma_web_url_trimmed(remote);
}

} // verus!

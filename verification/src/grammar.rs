//! The two shapes in which a remote address is recognised: the short form
//! `user@host:owner/name` and the address form `scheme://host/owner/name`,
//! each with or without `.git` at its end; and what holds of them.
use crate::error::ErrorView;
use vstd::prelude::*;

verus! {

/// A white-space character, as Unicode counts them.
pub open spec fn is_whitespace(c: char) -> bool {
    ||| '\u{9}' <= c <= '\u{d}'
    ||| c == ' '
    ||| c == '\u{85}'
    ||| c == '\u{a0}'
    ||| c == '\u{1680}'
    ||| '\u{2000}' <= c <= '\u{200a}'
    ||| c == '\u{2028}'
    ||| c == '\u{2029}'
    ||| c == '\u{202f}'
    ||| c == '\u{205f}'
    ||| c == '\u{3000}'
}

/// A character of a user or of the host of the short form: anything but
/// white space and `@`, `:`, `/`.
pub open spec fn is_token_char(c: char) -> bool {
    !is_whitespace(c) && c != '@' && c != ':' && c != '/'
}

/// A user, or the host of the short form: one or more of its characters.
pub open spec fn is_token(s: Seq<char>) -> bool {
    s.len() > 0 && forall|i: int| 0 <= i < s.len() ==> is_token_char(#[trigger] s[i])
}

/// The host of the address form, which is all that stands between `://`
/// and the first `/`: one or more characters, none of them white space.
pub open spec fn is_address_host(s: Seq<char>) -> bool {
    s.len() > 0 && forall|i: int|
        0 <= i < s.len() ==> !is_whitespace(#[trigger] s[i]) && s[i] != '/'
}

/// A repository path or a part of one: no white space in it.
pub open spec fn is_path(s: Seq<char>) -> bool {
    forall|i: int| 0 <= i < s.len() ==> !is_whitespace(#[trigger] s[i])
}

/// One of the schemes an address may begin with.
pub open spec fn is_scheme(s: Seq<char>) -> bool {
    ||| s == seq!['g', 'i', 't']
    ||| s == seq!['s', 's', 'h']
    ||| s == seq!['h', 't', 't', 'p']
    ||| s == seq!['h', 't', 't', 'p', 's']
}

/// The scheme of the web address of a remote that names none.
pub open spec fn default_scheme() -> Seq<char> {
    seq!['h', 't', 't', 'p', 's']
}

/// What follows the scheme in an address: `://`.
pub open spec fn scheme_separator() -> Seq<char> {
    seq![':', '/', '/']
}

/// The suffix that a repository path may carry: `.git`.
pub open spec fn git_suffix() -> Seq<char> {
    seq!['.', 'g', 'i', 't']
}

/// The index of the first `c` in `s`, or the length of `s` where there is none.
pub open spec fn first_index(s: Seq<char>, c: char) -> int
    decreases s.len(),
{
    if s.len() == 0 || s[0] == c {
        0
    } else {
        1 + first_index(s.drop_first(), c)
    }
}

/// The index of the last `c` in `s`, or -1 where there is none.
pub open spec fn last_index(s: Seq<char>, c: char) -> int
    decreases s.len(),
{
    if s.len() == 0 {
        -1
    } else if s.last() == c {
        s.len() - 1
    } else {
        last_index(s.drop_last(), c)
    }
}

/// `s` without the slashes at its end.
pub open spec fn trim_slashes(s: Seq<char>) -> Seq<char>
    decreases s.len(),
{
    if s.len() > 0 && s.last() == '/' {
        trim_slashes(s.drop_last())
    } else {
        s
    }
}

/// Whether `s` ends in `.git`.
pub open spec fn ends_with_git(s: Seq<char>) -> bool {
    s.len() >= 4 && s.skip(s.len() - 4) == git_suffix()
}

/// `s` without the `.git` at its end, where it has one.
pub open spec fn strip_git(s: Seq<char>) -> Seq<char> {
    if ends_with_git(s) {
        s.take(s.len() - 4)
    } else {
        s
    }
}

/// A remote address in its canonical parts.
pub struct RemoteUrlView {
    /// The scheme of the web address.
    pub scheme: Seq<char>,
    /// Whether the remote itself named that scheme.
    pub scheme_explicit: bool,
    pub host: Seq<char>,
    /// What stands before the last `/` of the repository path.
    pub owner: Seq<char>,
    /// What stands after the last `/` of the repository path.
    pub name: Seq<char>,
}

impl RemoteUrlView {
    /// The repository path: `owner/name`.
    pub open spec fn fullname(self) -> Seq<char> {
        self.owner + seq!['/'] + self.name
    }

    /// The address of the repository's page: `scheme://host/owner/name`.
    pub open spec fn web_url(self) -> Seq<char> {
        self.scheme + scheme_separator() + self.host + seq!['/'] + self.fullname()
    }

    /// Neither the host nor the repository path is empty.
    pub open spec fn well_formed(self) -> bool {
        self.host.len() > 0 && self.fullname().len() > 0
    }
}

/// Owner and name in what remains of a remote after its host: the path
/// holds no white space, loses one `.git` at its end, and is cut at its
/// last `/`, which it must have.
pub open spec fn repository_path(path: Seq<char>) -> Option<(Seq<char>, Seq<char>)> {
    let stem = strip_git(path);
    let cut = last_index(stem, '/');
    if is_path(path) && cut >= 0 {
        Some((stem.take(cut), stem.skip(cut + 1)))
    } else {
        None
    }
}

/// The canonical parts of a remote with the given scheme, host and path.
pub open spec fn parts_of(
    scheme: Seq<char>,
    scheme_explicit: bool,
    host: Seq<char>,
    path: Seq<char>,
) -> Option<RemoteUrlView> {
    match repository_path(path) {
        Some((owner, name)) => Some(RemoteUrlView { scheme, scheme_explicit, host, owner, name }),
        None => None,
    }
}

/// A remote taken apart: what leads (the user or the scheme), the host,
/// and the path that remains.
pub struct Pieces {
    pub lead: Seq<char>,
    pub host: Seq<char>,
    pub path: Seq<char>,
}

/// The pieces of a text that is cut at the given places: what leads ends
/// at the first, the host stands between the second and third, and the
/// path begins at the fourth.
pub open spec fn pieces_at(
    text: Seq<char>,
    lead_end: int,
    host_start: int,
    host_end: int,
    path_start: int,
) -> Pieces {
    Pieces {
        lead: text.subrange(0, lead_end),
        host: text.subrange(host_start, host_end),
        path: text.subrange(path_start, text.len() as int),
    }
}

/// A text taken apart at its first `@` and the first `:` after it.
pub open spec fn shorthand_pieces(text: Seq<char>) -> Option<Pieces> {
    let at = first_index(text, '@');
    let rest = text.skip(at + 1);
    let colon = first_index(rest, ':');
    if at < text.len() && colon < rest.len() {
        Some(Pieces { lead: text.take(at), host: rest.take(colon), path: rest.skip(colon + 1) })
    } else {
        None
    }
}

/// A text taken apart at its first `://` and the first `/` after it.
pub open spec fn address_pieces(text: Seq<char>) -> Option<Pieces> {
    let colon = first_index(text, ':');
    let rest = text.skip(colon + 3);
    let slash = first_index(rest, '/');
    if scheme_separator().is_prefix_of(text.skip(colon)) && slash < rest.len() {
        Some(Pieces { lead: text.take(colon), host: rest.take(slash), path: rest.skip(slash + 1) })
    } else {
        None
    }
}

/// A remote in the short form `user@host:owner/name`.
pub open spec fn shorthand(text: Seq<char>) -> Option<RemoteUrlView> {
    match shorthand_pieces(text) {
        Some(pieces) => if is_token(pieces.lead) && is_token(pieces.host) {
            parts_of(default_scheme(), false, pieces.host, pieces.path)
        } else {
            None
        },
        None => None,
    }
}

/// A remote in the address form `scheme://host/owner/name`.
pub open spec fn url_form(text: Seq<char>) -> Option<RemoteUrlView> {
    match address_pieces(text) {
        Some(pieces) => if is_scheme(pieces.lead) && is_address_host(pieces.host) {
            parts_of(pieces.lead, true, pieces.host, pieces.path)
        } else {
            None
        },
        None => None,
    }
}

/// The canonical parts of a remote: the slashes at its end are taken
/// off, then the short form is tried, then the address form.
pub open spec fn recognize(raw: Seq<char>) -> Option<RemoteUrlView> {
    let text = trim_slashes(raw);
    match shorthand(text) {
        Some(parts) => Some(parts),
        None => url_form(text),
    }
}

/// What normalising a remote gives: its canonical parts, or the remote
/// itself as the one that was not recognised.
pub open spec fn normalize_spec(raw: Seq<char>) -> Result<RemoteUrlView, ErrorView> {
    match recognize(raw) {
        Some(parts) => Ok(parts),
        None => Err(ErrorView::UnrecognizedRemoteFormat(raw)),
    }
}

/// The address of the page of the repository that a remote names.
pub open spec fn web_url_spec(raw: Seq<char>) -> Result<Seq<char>, ErrorView> {
    match normalize_spec(raw) {
        Ok(parts) => Ok(parts.web_url()),
        Err(error) => Err(error),
    }
}

/// The web address of host, owner and name under a scheme.
pub open spec fn web_url_of(
    scheme: Seq<char>,
    host: Seq<char>,
    owner: Seq<char>,
    name: Seq<char>,
) -> Seq<char> {
    scheme + scheme_separator() + host + seq!['/'] + (owner + seq!['/'] + name)
}

/// A name that a repository path can end in and that is read back as it
/// is: not empty, without white space and `/`, and not ending in `.git`.
pub open spec fn is_leaf(name: Seq<char>) -> bool {
    &&& name.len() > 0
    &&& is_path(name)
    &&& forall|i: int| 0 <= i < name.len() ==> name[i] != '/'
    &&& !ends_with_git(name)
}

/// What `first_index` gives: a place within `s` or its end, with no `c`
/// before it and `c` at it.
pub proof fn lemma_first_index(s: Seq<char>, c: char)
    ensures
        0 <= first_index(s, c) <= s.len(),
        first_index(s, c) < s.len() ==> s[first_index(s, c)] == c,
        forall|i: int| 0 <= i < first_index(s, c) ==> s[i] != c,
    decreases s.len(),
{
    if s.len() == 0 || s[0] == c {
    } else {
        let tail = s.drop_first();
        lemma_first_index(tail, c);
        assert forall|i: int| 0 <= i < first_index(s, c) implies s[i] != c by {
            if i > 0 {
                assert(s[i] == tail[i - 1]);
            }
        }
    }
}

/// The one place that `first_index` can give.
pub proof fn lemma_first_index_is(s: Seq<char>, c: char, k: int)
    requires
        0 <= k <= s.len(),
        k < s.len() ==> s[k] == c,
        forall|i: int| 0 <= i < k ==> s[i] != c,
    ensures
        first_index(s, c) == k,
{
    lemma_first_index(s, c);
}

/// What `last_index` gives: -1 or a place within `s`, with `c` at it and
/// none after it.
pub proof fn lemma_last_index(s: Seq<char>, c: char)
    ensures
        -1 <= last_index(s, c) < s.len(),
        last_index(s, c) >= 0 ==> s[last_index(s, c)] == c,
        forall|i: int| last_index(s, c) < i < s.len() ==> s[i] != c,
    decreases s.len(),
{
    if s.len() == 0 || s.last() == c {
    } else {
        let front = s.drop_last();
        lemma_last_index(front, c);
        assert forall|i: int| last_index(s, c) < i < s.len() implies s[i] != c by {
            if i < s.len() - 1 {
                assert(s[i] == front[i]);
            }
        }
    }
}

/// The one place that `last_index` can give.
pub proof fn lemma_last_index_is(s: Seq<char>, c: char, k: int)
    requires
        -1 <= k < s.len(),
        k >= 0 ==> s[k] == c,
        forall|i: int| k < i < s.len() ==> s[i] != c,
    ensures
        last_index(s, c) == k,
{
    lemma_last_index(s, c);
}

/// What is left without the slashes at the end stands at the front of
/// the whole and ends in no slash; the rest of the whole is slashes.
pub proof fn lemma_trim_slashes(s: Seq<char>)
    ensures
        trim_slashes(s).len() <= s.len(),
        trim_slashes(s) == s.take(trim_slashes(s).len() as int),
        trim_slashes(s).len() > 0 ==> trim_slashes(s).last() != '/',
        forall|i: int| trim_slashes(s).len() <= i < s.len() ==> s[i] == '/',
    decreases s.len(),
{
    if s.len() > 0 && s.last() == '/' {
        let front = s.drop_last();
        lemma_trim_slashes(front);
        let kept = trim_slashes(front);
        assert(kept =~= s.take(kept.len() as int));
        assert forall|i: int| kept.len() <= i < s.len() implies s[i] == '/' by {
            if i < s.len() - 1 {
                assert(s[i] == front[i]);
            }
        }
    } else {
        assert(s =~= s.take(s.len() as int));
    }
}

/// A scheme is made of lower-case letters.
pub proof fn lemma_scheme_chars(s: Seq<char>)
    requires
        is_scheme(s),
    ensures
        3 <= s.len() <= 5,
        forall|i: int| 0 <= i < s.len() ==> 'a' <= #[trigger] s[i] <= 'z',
{
    let git = seq!['g', 'i', 't'];
    let ssh = seq!['s', 's', 'h'];
    let http = seq!['h', 't', 't', 'p'];
    let https = seq!['h', 't', 't', 'p', 's'];
    assert(git.len() == 3 && git[0] == 'g' && git[1] == 'i' && git[2] == 't');
    assert(ssh.len() == 3 && ssh[0] == 's' && ssh[1] == 's' && ssh[2] == 'h');
    assert(http.len() == 4 && http[0] == 'h' && http[1] == 't' && http[2] == 't' && http[3] == 'p');
    assert(https.len() == 5 && https[0] == 'h' && https[1] == 't' && https[2] == 't' && https[3]
        == 'p' && https[4] == 's');
}

/// The parts of a recognised remote: the scheme is one of the four, the
/// host is there and holds no `/`, nothing holds white space, and the
/// name holds no `/`.
pub proof fn lemma_recognized_parts(raw: Seq<char>)
    requires
        recognize(raw) is Some,
    ensures
        ({
            let parts = recognize(raw)->0;
            &&& is_scheme(parts.scheme)
            &&& is_address_host(parts.host)
            &&& is_path(parts.owner)
            &&& is_path(parts.name)
            &&& forall|i: int| 0 <= i < parts.name.len() ==> parts.name[i] != '/'
            &&& parts.well_formed()
            &&& parts.scheme_explicit == (shorthand(trim_slashes(raw)) is None)
            &&& !parts.scheme_explicit ==> parts.scheme == default_scheme() && is_token(parts.host)
        }),
{
    let text = trim_slashes(raw);
    let parts = recognize(raw)->0;
    let path = if shorthand(text) is Some {
        shorthand_pieces(text)->0.path
    } else {
        address_pieces(text)->0.path
    };
    let stem = strip_git(path);
    let cut = last_index(stem, '/');
    lemma_last_index(stem, '/');
    assert(parts.owner == stem.take(cut));
    assert(parts.name == stem.skip(cut + 1));
    assert forall|i: int| 0 <= i < stem.len() implies !is_whitespace(#[trigger] stem[i]) by {
        assert(stem[i] == path[i]);
    }
    assert forall|i: int| 0 <= i < parts.owner.len() implies !is_whitespace(
        #[trigger] parts.owner[i],
    ) by {
        assert(parts.owner[i] == stem[i]);
    }
    assert forall|i: int| 0 <= i < parts.name.len() implies !is_whitespace(
        #[trigger] parts.name[i],
    ) && parts.name[i] != '/' by {
        assert(parts.name[i] == stem[cut + 1 + i]);
    }
}

/// A recognised remote holds no white space.
pub proof fn lemma_recognized_without_whitespace(raw: Seq<char>)
    requires
        recognize(raw) is Some,
    ensures
        forall|i: int| 0 <= i < raw.len() ==> !is_whitespace(#[trigger] raw[i]),
{
    let text = trim_slashes(raw);
    lemma_trim_slashes(raw);
    assert forall|i: int| 0 <= i < text.len() implies !is_whitespace(#[trigger] text[i]) by {
        if shorthand(text) is Some {
            let at = first_index(text, '@');
            let rest = text.skip(at + 1);
            let colon = first_index(rest, ':');
            let path = rest.skip(colon + 1);
            lemma_first_index(text, '@');
            lemma_first_index(rest, ':');
            if i < at {
                assert(text.take(at)[i] == text[i]);
            } else if i > at {
                let j = i - at - 1;
                assert(rest[j] == text[i]);
                if j < colon {
                    assert(rest.take(colon)[j] == rest[j]);
                } else if j > colon {
                    assert(path[j - colon - 1] == rest[j]);
                }
            }
        } else {
            let colon = first_index(text, ':');
            let scheme = text.take(colon);
            let rest = text.skip(colon + 3);
            let slash = first_index(rest, '/');
            let path = rest.skip(slash + 1);
            lemma_first_index(text, ':');
            lemma_first_index(rest, '/');
            lemma_scheme_chars(scheme);
            let mark = text.skip(colon).subrange(0, 3);
            assert(mark =~= scheme_separator());
            if i < colon {
                assert(scheme[i] == text[i]);
            } else if i < colon + 3 {
                assert(mark[i - colon] == text[i]);
            } else {
                let j = i - colon - 3;
                assert(rest[j] == text[i]);
                if j < slash {
                    assert(rest.take(slash)[j] == rest[j]);
                } else if j > slash {
                    assert(path[j - slash - 1] == rest[j]);
                }
            }
        }
    }
    assert forall|i: int| 0 <= i < raw.len() implies !is_whitespace(#[trigger] raw[i]) by {
        if i < text.len() {
            assert(raw[i] == raw.take(text.len() as int)[i]);
        }
    }
}

/// A path that ends in a leaf after a `/` ends in `.git` no more than
/// the leaf does.
proof fn lemma_leaf_ends_path(owner: Seq<char>, name: Seq<char>)
    requires
        is_leaf(name),
    ensures
        !ends_with_git(owner + seq!['/'] + name),
{
    let path = owner + seq!['/'] + name;
    if ends_with_git(path) {
        let tail = path.skip(path.len() - 4);
        assert(tail[0] == '.' && tail[1] == 'g' && tail[2] == 'i' && tail[3] == 't');
        if name.len() >= 4 {
            assert(name.skip(name.len() - 4) =~= tail);
        } else {
            let k = 3 - name.len();
            assert(tail[k] == path[owner.len() as int]);
        }
    }
}

/// The repository path made of an owner and a leaf, with or without
/// `.git` after it, is read as owner and leaf.
proof fn lemma_repository_path_of(owner: Seq<char>, name: Seq<char>)
    requires
        is_path(owner),
        is_leaf(name),
    ensures
        repository_path(owner + seq!['/'] + name) == Some((owner, name)),
        repository_path(owner + seq!['/'] + name + git_suffix()) == Some((owner, name)),
{
    let path = owner + seq!['/'] + name;
    let suffixed = path + git_suffix();
    lemma_leaf_ends_path(owner, name);
    lemma_last_index_is(path, '/', owner.len() as int);
    assert(path.take(owner.len() as int) =~= owner);
    assert(path.skip(owner.len() as int + 1) =~= name);
    assert(suffixed.skip(suffixed.len() - 4) =~= git_suffix());
    assert(suffixed.take(suffixed.len() - 4) =~= path);
    assert forall|i: int| 0 <= i < path.len() implies !is_whitespace(#[trigger] path[i]) by {
        if i < owner.len() {
            assert(path[i] == owner[i]);
        } else if i > owner.len() {
            assert(path[i] == name[i - owner.len() - 1]);
        }
    }
    assert forall|i: int| 0 <= i < suffixed.len() implies !is_whitespace(
        #[trigger] suffixed[i],
    ) by {
        if i < path.len() {
            assert(suffixed[i] == path[i]);
        } else {
            assert(suffixed[i] == git_suffix()[i - path.len()]);
        }
    }
}

/// A text that ends in no slash is trimmed to itself.
proof fn lemma_trimmed(text: Seq<char>)
    requires
        text.len() > 0,
        text.last() != '/',
    ensures
        trim_slashes(text) == text,
{
}

/// A user, `@`, a host, `:` and a path are taken apart as just these.
proof fn lemma_shorthand_of(user: Seq<char>, host: Seq<char>, path: Seq<char>)
    requires
        is_token(user),
        is_token(host),
    ensures
        shorthand_pieces(user + seq!['@'] + host + seq![':'] + path) == Some(
            Pieces { lead: user, host, path },
        ),
        shorthand(user + seq!['@'] + host + seq![':'] + path) == parts_of(
            default_scheme(),
            false,
            host,
            path,
        ),
{
    let text = user + seq!['@'] + host + seq![':'] + path;
    let at = user.len() as int;
    lemma_first_index_is(text, '@', at);
    let rest = text.skip(at + 1);
    assert(rest =~= host + seq![':'] + path);
    let colon = host.len() as int;
    lemma_first_index_is(rest, ':', colon);
    assert(text.take(at) =~= user);
    assert(rest.take(colon) =~= host);
    assert(rest.skip(colon + 1) =~= path);
}

/// A scheme, `://`, a host, `/` and a path are taken apart as just
/// these, and never read as the short form.
proof fn lemma_url_form_of(scheme: Seq<char>, host: Seq<char>, path: Seq<char>)
    requires
        is_scheme(scheme),
        is_address_host(host),
    ensures
        shorthand(scheme + scheme_separator() + host + seq!['/'] + path) is None,
        address_pieces(scheme + scheme_separator() + host + seq!['/'] + path) == Some(
            Pieces { lead: scheme, host, path },
        ),
        url_form(scheme + scheme_separator() + host + seq!['/'] + path) == parts_of(
            scheme,
            true,
            host,
            path,
        ),
{
    let text = scheme + scheme_separator() + host + seq!['/'] + path;
    let colon = scheme.len() as int;
    lemma_scheme_chars(scheme);
    assert(text[colon] == ':');
    assert forall|i: int| 0 <= i < colon implies text[i] != ':' && text[i] != '@' by {
        assert(text[i] == scheme[i]);
    }
    lemma_first_index_is(text, ':', colon);
    assert(text.take(colon) =~= scheme);
    assert(text.skip(colon).subrange(0, 3) =~= scheme_separator());
    let rest = text.skip(colon + 3);
    assert(rest =~= host + seq!['/'] + path);
    let slash = host.len() as int;
    lemma_first_index_is(rest, '/', slash);
    assert(rest.take(slash) =~= host);
    assert(rest.skip(slash + 1) =~= path);
    lemma_first_index(text, '@');
    let at = first_index(text, '@');
    if at < text.len() {
        assert(at > colon);
        assert(text.take(at)[colon] == ':');
    }
}

/// The web address of a remote in the short form.
proof fn lemma_short_spelling(
    user: Seq<char>,
    host: Seq<char>,
    owner: Seq<char>,
    name: Seq<char>,
)
    requires
        is_token(user),
        is_token(host),
        is_path(owner),
        is_leaf(name),
    ensures
        ({
            let short = user + seq!['@'] + host + seq![':'] + (owner + seq!['/'] + name);
            let web = Ok::<Seq<char>, ErrorView>(web_url_of(default_scheme(), host, owner, name));
            &&& web_url_spec(short) == web
            &&& web_url_spec(short + git_suffix()) == web
        }),
{
    let path = owner + seq!['/'] + name;
    let short = user + seq!['@'] + host + seq![':'] + path;
    let suffixed = user + seq!['@'] + host + seq![':'] + (path + git_suffix());
    assert(short + git_suffix() =~= suffixed);
    assert(short.last() == name.last());
    assert(suffixed.last() == 't');
    lemma_trimmed(short);
    lemma_trimmed(suffixed);
    lemma_repository_path_of(owner, name);
    lemma_shorthand_of(user, host, path);
    lemma_shorthand_of(user, host, path + git_suffix());
}

/// The web address of a remote in the address form.
proof fn lemma_address_spelling(
    scheme: Seq<char>,
    host: Seq<char>,
    owner: Seq<char>,
    name: Seq<char>,
)
    requires
        is_scheme(scheme),
        is_address_host(host),
        is_path(owner),
        is_leaf(name),
    ensures
        ({
            let address = scheme + scheme_separator() + host + seq!['/'] + (owner + seq!['/']
                + name);
            let parts = RemoteUrlView { scheme, scheme_explicit: true, host, owner, name };
            &&& recognize(address) == Some(parts)
            &&& recognize(address + git_suffix()) == Some(parts)
            &&& parts.web_url() == web_url_of(scheme, host, owner, name)
        }),
{
    let path = owner + seq!['/'] + name;
    let address = scheme + scheme_separator() + host + seq!['/'] + path;
    let suffixed = scheme + scheme_separator() + host + seq!['/'] + (path + git_suffix());
    assert(address + git_suffix() =~= suffixed);
    assert(address.last() == name.last());
    assert(suffixed.last() == 't');
    lemma_trimmed(address);
    lemma_trimmed(suffixed);
    lemma_repository_path_of(owner, name);
    lemma_url_form_of(scheme, host, path);
    lemma_url_form_of(scheme, host, path + git_suffix());
}

/// The two spellings of the short form are read in the short form.
pub proof fn lemma_short_form_read(
    user: Seq<char>,
    host: Seq<char>,
    owner: Seq<char>,
    name: Seq<char>,
)
    requires
        is_token(user),
        is_token(host),
        is_path(owner),
        is_leaf(name),
    ensures
        ({
            let short = user + seq!['@'] + host + seq![':'] + (owner + seq!['/'] + name);
            &&& shorthand(trim_slashes(short)) is Some
            &&& shorthand(trim_slashes(short + git_suffix())) is Some
        }),
{
    let path = owner + seq!['/'] + name;
    let short = user + seq!['@'] + host + seq![':'] + path;
    let suffixed = user + seq!['@'] + host + seq![':'] + (path + git_suffix());
    assert(short + git_suffix() =~= suffixed);
    assert(short.last() == name.last());
    assert(suffixed.last() == 't');
    lemma_trimmed(short);
    lemma_trimmed(suffixed);
    lemma_repository_path_of(owner, name);
    lemma_shorthand_of(user, host, path);
    lemma_shorthand_of(user, host, path + git_suffix());
}

/// The web address of a remote whose name is not empty ends in no slash.
pub proof fn lemma_web_url_trimmed(raw: Seq<char>)
    requires
        recognize(raw) is Some,
        recognize(raw)->0.name.len() > 0,
    ensures
        trim_slashes(web_url_spec(raw)->Ok_0) == web_url_spec(raw)->Ok_0,
{
    let parts = recognize(raw)->0;
    lemma_recognized_parts(raw);
    assert(parts.web_url().last() == parts.name.last());
    lemma_trimmed(parts.web_url());
}

/// Every spelling of one repository gives one web address: the short form
/// and the `https` address, each with and without `.git` at its end, all
/// normalise to `https://host/owner/name`. The name is one that is read
/// back as it is: it is not empty and ends in `.git` no more.
pub proof fn lemma_spellings_agree(
    user: Seq<char>,
    host: Seq<char>,
    owner: Seq<char>,
    name: Seq<char>,
)
    requires
        is_token(user),
        is_token(host),
        is_path(owner),
        is_leaf(name),
    ensures
        ({
            let short = user + seq!['@'] + host + seq![':'] + (owner + seq!['/'] + name);
            let address = default_scheme() + scheme_separator() + host + seq!['/'] + (owner
                + seq!['/'] + name);
            let web = Ok::<Seq<char>, ErrorView>(web_url_of(default_scheme(), host, owner, name));
            &&& web_url_spec(short) == web
            &&& web_url_spec(short + git_suffix()) == web
            &&& web_url_spec(address) == web
            &&& web_url_spec(address + git_suffix()) == web
        }),
{
    lemma_short_spelling(user, host, owner, name);
    lemma_address_spelling(default_scheme(), host, owner, name);
}

/// The web address of a remote is a remote of its own, with the same
/// parts and the scheme spelled out, and its own web address is itself:
/// normalising what was normalised changes nothing. This holds of a
/// remote whose name is read back as it is: it is not empty and ends in
/// `.git` no more.
pub proof fn lemma_web_url_is_normal(raw: Seq<char>)
    requires
        recognize(raw) is Some,
        recognize(raw)->0.name.len() > 0,
        !ends_with_git(recognize(raw)->0.name),
    ensures
        recognize(web_url_spec(raw)->Ok_0) == Some(
            RemoteUrlView { scheme_explicit: true, ..recognize(raw)->0 },
        ),
        web_url_spec(web_url_spec(raw)->Ok_0) == web_url_spec(raw),
{
    let parts = recognize(raw)->0;
    lemma_recognized_parts(raw);
    lemma_address_spelling(parts.scheme, parts.host, parts.owner, parts.name);
}

} // verus!

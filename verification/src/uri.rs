//! Addresses: what the client reads from a URI.
use vstd::prelude::*;

use crate::text::{
    is_ascii_text, joined_paths, lemma_leading_slashes, lemma_more_leading_slashes,
    lemma_trailing_slashes, optional_text, without_leading_slashes, without_trailing_slashes,
};

verus! {

/// The parts of a URI that the client reads.
#[derive(Debug, Clone, PartialEq, Eq)]
pub struct ParsedUri {
    /// The scheme; none in a URI that is a path alone or an authority alone.
    pub scheme: Option<String>,
    /// The path, without the query.
    pub path: String,
}

/// The model of the parts of a URI.
pub struct UriView {
    pub scheme: Option<Seq<char>>,
    pub path: Seq<char>,
}

impl View for ParsedUri {
    type V = UriView;

    open spec fn view(&self) -> UriView {
        UriView { scheme: optional_text(self.scheme), path: self.path@ }
    }
}

/// What parsing `text` as a URI gives: its parts, or the description of the error.
pub uninterp spec fn parsed_uri(text: Seq<char>) -> Result<UriView, Seq<char>>;

/// The model of a parsed URI, or of the description of the error.
pub open spec fn uri_outcome(r: Result<ParsedUri, String>) -> Result<UriView, Seq<char>> {
    match r {
        Ok(uri) => Ok(uri@),
        Err(description) => Err(description@),
    }
}

/// A letter, a digit, a dot or a hyphen, of ASCII.
pub open spec fn is_host_char(c: char) -> bool {
    ('a' <= c && c <= 'z') || ('A' <= c && c <= 'Z') || ('0' <= c && c <= '9') || c == '.' || c
        == '-'
}

/// A host, with or without a colon and a port: not empty, of ASCII letters,
/// digits, dots and hyphens, with at most one colon.
pub open spec fn is_host(text: Seq<char>) -> bool {
    &&& text.len() > 0
    &&& forall|i: int|
        0 <= i < text.len() ==> is_host_char(#[trigger] text[i]) || text[i] == ':'
    &&& forall|i: int, j: int|
        0 <= i < j < text.len() ==> (#[trigger] text[i] != ':' || #[trigger] text[j] != ':')
}

/// A character that stands in the path of a URI as it is.
pub open spec fn is_path_char(c: char) -> bool {
    c == '!' || ('$' <= c && c <= ';') || c == '=' || ('@' <= c && c <= '_') || ('a' <= c && c
        <= 'z') || c == '|' || c == '~'
}

/// A path that starts with a slash and needs no percent-encoding.
pub open spec fn is_rooted_path(text: Seq<char>) -> bool {
    &&& text.len() > 0
    &&& text[0] == '/'
    &&& forall|i: int| 0 <= i < text.len() ==> is_path_char(#[trigger] text[i])
}

/// What stands before the first question mark or number sign.
pub open spec fn before_query(text: Seq<char>) -> Seq<char>
    decreases text.len(),
{
    if text.len() == 0 || text[0] == '?' || text[0] == '#' {
        seq![]
    } else {
        seq![text[0]] + before_query(text.skip(1))
    }
}

/// What stands before the first number sign.
pub open spec fn before_fragment(text: Seq<char>) -> Seq<char>
    decreases text.len(),
{
    if text.len() == 0 || text[0] == '#' {
        seq![]
    } else {
        seq![text[0]] + before_fragment(text.skip(1))
    }
}

/// A character that stands in the query of a URI as it is.
pub open spec fn is_query_char(c: char) -> bool {
    c == '!' || ('$' <= c && c <= ';') || c == '=' || ('?' <= c && c <= '~')
}

/// ASCII text that starts with a slash: a path that needs no percent-encoding,
/// then, as they come, a question mark with a query that needs none, and a
/// number sign with a fragment.
pub open spec fn is_target(text: Seq<char>) -> bool {
    &&& is_rooted_path(before_query(text))
    &&& is_ascii_text(text)
    &&& forall|i: int|
        before_query(text).len() <= i < before_fragment(text).len() ==> is_query_char(
            #[trigger] text[i],
        )
}

/// A letter, a digit, a plus sign, a dot or a hyphen, of ASCII.
pub open spec fn is_scheme_char(c: char) -> bool {
    is_host_char(c) || c == '+'
}

/// The scheme of a URI.
pub open spec fn is_scheme(text: Seq<char>) -> bool {
    text.len() > 0 && forall|i: int| 0 <= i < text.len() ==> is_scheme_char(#[trigger] text[i])
}

/// Text in which no path, query or fragment starts.
pub open spec fn is_authority(text: Seq<char>) -> bool {
    forall|i: int|
        0 <= i < text.len() ==> (#[trigger] text[i]) != '/' && text[i] != '?' && text[i] != '#'
}

/// A scheme and an authority, such as `http://host`, and nothing else.
pub open spec fn is_site(text: Seq<char>) -> bool {
    exists|scheme: Seq<char>, authority: Seq<char>|
        is_scheme(scheme) && is_authority(authority) && text == #[trigger] (scheme + "://"@
            + authority)
}

/// The broker at the address `url` is the host `host`.
pub open spec fn is_broker_at(url: Seq<char>, host: Seq<char>) -> bool {
    is_host(host) && without_trailing_slashes(url) == "http://"@ + host
}

/// The address has the path `path`, by itself or behind the name of some host,
/// with or without a query and a fragment.
pub open spec fn names_path(address: Seq<char>, path: Seq<char>) -> bool {
    ||| is_target(address) && path == before_query(address)
    ||| exists|host: Seq<char>, target: Seq<char>|
        is_host(host) && is_target(target) && path == before_query(target) && address
            == #[trigger] ("http://"@ + host + target)
}

/// The path that is asked for at the broker at `url`, where the address of the
/// link has the path `path`: slashes at the end of `url` stay in front of it if
/// the link names no host.
pub open spec fn followed_path(
    url: Seq<char>,
    address: Seq<char>,
    path: Seq<char>,
) -> Seq<char> {
    if address.len() > 0 && address[0] == '/' && without_trailing_slashes(url) != url {
        url.skip(without_trailing_slashes(url).len() as int) + path
    } else {
        path
    }
}

/// The address of `path` at the host `host`.
pub open spec fn host_address(host: Seq<char>, path: Seq<char>) -> Seq<char> {
    "http://"@ + host + "/"@ + without_leading_slashes(path)
}

/// The number of characters that an address of ASCII characters may have.
pub const MAX_ADDRESS: usize = 65534;

/// Calls `hyper::Uri`'s `FromStr`, then its `scheme_part` and `path`, and
/// `description` on an error. Claimed: the outcome depends on the text alone.
/// Of text that starts with a slash and parses, there is no scheme, and the
/// path ends before the first question mark or number sign. Of a scheme, an
/// authority and such text that parse, there is a scheme, and the path is the
/// one of that text. Up to the length limit of a URI, ASCII text without
/// characters to be encoded does parse, by itself and behind `http://` and a
/// host with or without a port; no other text is said to parse or to fail.
#[verifier::external_body]
pub(crate) fn parse_uri(text: &str) -> (r: Result<ParsedUri, String>)
    ensures
        uri_outcome(r) == parsed_uri(text@),
        text@.len() > 0 && text@[0] == '/' ==> (uri_outcome(r) matches Ok(uri) ==> uri.scheme
            is None && uri.path == before_query(text@)),
        forall|site: Seq<char>, target: Seq<char>|
            #[trigger] is_site(site) && target.len() > 0 && target[0] == '/' && text@
                == #[trigger] (site + target) ==> (uri_outcome(r) matches Ok(uri) ==> uri.scheme
                is Some && uri.path == before_query(target)),
        text@.len() <= MAX_ADDRESS && is_target(text@) ==> uri_outcome(r) is Ok,
        forall|host: Seq<char>, target: Seq<char>|
            text@.len() <= MAX_ADDRESS && is_host(host) && is_target(target) && text@
                == #[trigger] ("http://"@ + host + target) ==> uri_outcome(r) is Ok,
{
    match text.parse::<hyper::Uri>() {
        Ok(uri) => Ok(
            ParsedUri {
                scheme: uri.scheme_part().map(|scheme| scheme.as_str().to_owned()),
                path: uri.path().to_owned(),
            },
        ),
        #[allow(deprecated)]
        Err(err) => Err(std::error::Error::description(&err).to_owned()),
    }
}

/// The address of a rooted path at a broker.
pub(crate) proof fn lemma_path_at_broker(url: Seq<char>, host: Seq<char>, path: Seq<char>)
    requires
        is_broker_at(url, host),
        is_rooted_path(path),
    ensures
        joined_paths(url, path) == host_address(host, path),
        joined_paths(url, path) == "http://"@ + host + ("/"@ + without_leading_slashes(path)),
        is_rooted_path("/"@ + without_leading_slashes(path)),
        joined_paths(url, path).len() <= url.len() + path.len(),
{
    reveal_strlit("/");
    lemma_leading_slashes(path);
    lemma_trailing_slashes(url);
    let rest = without_leading_slashes(path);
    assert("http://"@ + host + ("/"@ + rest) =~= "http://"@ + host + "/"@ + rest);
    let rooted = "/"@ + rest;
    assert forall|i: int| 0 <= i < rooted.len() implies is_path_char(#[trigger] rooted[i]) by {
        if i > 0 {
            assert(rooted[i] == path[path.len() - rest.len() + i - 1]);
        }
    }
}

/// What stands before a query is a start of the text without marks.
pub(crate) proof fn lemma_before_query(text: Seq<char>)
    ensures
        before_query(text).len() <= text.len(),
        before_query(text) == text.take(before_query(text).len() as int),
        text.len() > 0 && text[0] == '/' ==> before_query(text).len() > 0,
    decreases text.len(),
{
    if text.len() > 0 && text[0] != '?' && text[0] != '#' {
        lemma_before_query(text.skip(1));
        assert(before_query(text) =~= text.take(before_query(text).len() as int));
    } else {
        assert(before_query(text) =~= text.take(0));
    }
}

/// What stands before a fragment is a start of the text.
proof fn lemma_before_fragment(text: Seq<char>)
    ensures
        before_fragment(text).len() <= text.len(),
    decreases text.len(),
{
    if text.len() > 0 && text[0] != '#' {
        lemma_before_fragment(text.skip(1));
    }
}

/// Slashes in front of a text stay in front of what stands before its query or
/// its fragment.
proof fn lemma_slashes_before_query(slashes: Seq<char>, text: Seq<char>)
    requires
        forall|i: int| 0 <= i < slashes.len() ==> (#[trigger] slashes[i]) == '/',
    ensures
        before_query(slashes + text) == slashes + before_query(text),
        before_fragment(slashes + text) == slashes + before_fragment(text),
    decreases slashes.len(),
{
    if slashes.len() == 0 {
        assert(slashes + text =~= text);
        assert(slashes + before_query(text) =~= before_query(text));
        assert(slashes + before_fragment(text) =~= before_fragment(text));
    } else {
        let fewer = slashes.skip(1);
        assert((slashes + text)[0] == slashes[0]);
        assert((slashes + text).skip(1) =~= fewer + text);
        lemma_slashes_before_query(fewer, text);
        assert(seq![slashes[0]] + (fewer + before_query(text)) =~= slashes + before_query(text));
        assert(seq![slashes[0]] + (fewer + before_fragment(text)) =~= slashes + before_fragment(
            text,
        ));
    }
}

/// A path that needs no encoding is all of it before any query, and by itself
/// what can be asked for.
pub(crate) proof fn lemma_rooted_path_is_target(path: Seq<char>)
    requires
        is_rooted_path(path),
    ensures
        is_target(path),
        before_query(path) == path,
{
    lemma_path_chars(path);
    lemma_before_fragment(path);
}

proof fn lemma_path_chars(text: Seq<char>)
    requires
        forall|i: int| 0 <= i < text.len() ==> is_path_char(#[trigger] text[i]),
    ensures
        before_query(text) == text,
    decreases text.len(),
{
    if text.len() > 0 {
        assert(is_path_char(text[0]));
        lemma_path_chars(text.skip(1));
        assert(seq![text[0]] + text.skip(1) =~= text);
    } else {
        assert(before_query(text) =~= text);
    }
}

/// `http://` and a host are a scheme and an authority.
pub(crate) proof fn lemma_host_is_site(host: Seq<char>)
    requires
        is_host(host),
    ensures
        is_site("http://"@ + host),
{
    reveal_strlit("http://");
    reveal_strlit("http");
    reveal_strlit("://");
    assert("http://"@ + host =~= "http"@ + "://"@ + host);
    assert(is_scheme("http"@));
    assert(is_authority(host));
}

/// What can be asked for, behind the address of a broker.
pub(crate) proof fn lemma_target_behind_broker(
    url: Seq<char>,
    host: Seq<char>,
    target: Seq<char>,
) -> (behind: Seq<char>)
    requires
        is_broker_at(url, host),
        is_target(target),
    ensures
        url + target == "http://"@ + host + behind,
        is_target(behind),
        before_query(behind) == followed_path(url, target, before_query(target)),
        joined_paths(url, before_query(behind)) == host_address(host, before_query(target)),
        joined_paths(url, before_query(behind)).len() <= url.len() + target.len(),
{
    lemma_trailing_slashes(url);
    lemma_before_query(target);
    lemma_before_fragment(target);
    let n = without_trailing_slashes(url).len() as int;
    let slashes = url.skip(n);
    let behind = slashes + target;
    let path = before_query(target);
    assert(target[0] == path[0]);
    assert forall|i: int| 0 <= i < slashes.len() implies (#[trigger] slashes[i]) == '/' by {
        assert(slashes[i] == url[n + i]);
    }
    assert(url =~= url.take(n) + slashes);
    assert(url + target =~= "http://"@ + host + behind);
    lemma_slashes_before_query(slashes, target);
    lemma_more_leading_slashes(slashes, path);
    let longer = slashes + path;
    if without_trailing_slashes(url) == url {
        assert(slashes.len() == 0);
        assert(longer =~= path);
    }
    assert(is_rooted_path(longer)) by {
        assert forall|i: int| 0 <= i < longer.len() implies is_path_char(#[trigger] longer[i]) by {
            if i >= slashes.len() {
                assert(longer[i] == path[i - slashes.len()]);
            }
        }
    }
    assert(is_ascii_text(behind)) by {
        assert forall|i: int| 0 <= i < behind.len() implies (#[trigger] behind[i]) <= '\x7f' by {
            if i >= slashes.len() {
                assert(behind[i] == target[i - slashes.len()]);
            }
        }
    }
    assert forall|i: int|
        before_query(behind).len() <= i < before_fragment(behind).len() implies is_query_char(
        #[trigger] behind[i],
    ) by {
        assert(behind[i] == target[i - slashes.len()]);
    }
    lemma_path_at_broker(url, host, longer);
    lemma_path_at_broker(url, host, path);
    behind
}

} // verus!

//! What every request carries, and where the requests go.

use vstd::prelude::*;
use vstd::string::StrSliceExecFns;
use vstd::string::StringExecFns;

verus! {

/// Whether `c` is white space, as `char::is_whitespace` answers.
pub uninterp spec fn white_space(c: char) -> bool;

/// Calls `char::is_whitespace`; the contract names the answer.
#[verifier::external_body]
fn is_white_space(c: char) -> (white: bool)
    ensures
        white == white_space(c),
{
    c.is_whitespace()
}

/// `text` without the white space at its head.
pub open spec fn trimmed_start(text: Seq<char>) -> Seq<char>
    decreases text.len(),
{
    if text.len() > 0 && white_space(text.first()) {
        trimmed_start(text.drop_first())
    } else {
        text
    }
}

/// `text` without the white space at its end.
pub open spec fn trimmed_end(text: Seq<char>) -> Seq<char>
    decreases text.len(),
{
    if text.len() > 0 && white_space(text.last()) {
        trimmed_end(text.drop_last())
    } else {
        text
    }
}

/// `text` without the white space around it.
pub open spec fn trimmed(text: Seq<char>) -> Seq<char> {
    trimmed_end(trimmed_start(text))
}

/// `text` without the white space around it.
pub fn trim(text: &str) -> (core: &str)
    ensures
        core@ == trimmed(text@),
{
    let length = text.unicode_len();
    let mut from: usize = 0;
    assert(text@.subrange(0, length as int) =~= text@);
    while from < length && is_white_space(text.get_char(from))
        invariant
            from <= length == text@.len(),
            trimmed_start(text@) == trimmed_start(text@.subrange(from as int, length as int)),
        decreases length - from,
    {
        assert(text@.subrange(from as int, length as int).drop_first() =~= text@.subrange(
            from + 1,
            length as int,
        ));
        from = from + 1;
    }
    let ghost rest = text@.subrange(from as int, length as int);
    assert(trimmed_start(text@) == rest);
    let mut to: usize = length;
    while to > from && is_white_space(text.get_char(to - 1))
        invariant
            from <= to <= length == text@.len(),
            trimmed_end(rest) == trimmed_end(text@.subrange(from as int, to as int)),
        decreases to - from,
    {
        assert(text@.subrange(from as int, to as int).drop_last() =~= text@.subrange(
            from as int,
            to - 1,
        ));
        to = to - 1;
    }
    text.substring_char(from, to)
}

/// The address of the list of starred repositories: one page of at most a
/// hundred.
pub const STARRED_URL: &'static str = "https://api.github.com/user/starred?per_page=100";

/// What stands before the repository's full name in the address of its
/// latest release.
pub const RELEASE_URL_HEAD: &'static str = "https://api.github.com/repos/";

/// What stands behind the repository's full name in the address of its
/// latest release.
pub const RELEASE_URL_TAIL: &'static str = "/releases/latest";

/// The address of the latest release of the repository `full_name`.
pub open spec fn release_address(full_name: Seq<char>) -> Seq<char> {
    RELEASE_URL_HEAD@ + full_name + RELEASE_URL_TAIL@
}

/// The address of the latest release of the repository `full_name`.
pub fn latest_release_url(full_name: &str) -> (url: String)
    ensures
        url@ == release_address(full_name@),
{
    let mut url = String::from_str(RELEASE_URL_HEAD);
    url.append(full_name);
    url.append(RELEASE_URL_TAIL);
    url
}

/// One request header.
#[derive(Clone, Debug, PartialEq, Eq)]
pub struct Header {
    pub name: String,
    pub value: String,
}

/// A header as contracts see it.
pub struct HeaderView {
    pub name: Seq<char>,
    pub value: Seq<char>,
}

impl View for Header {
    type V = HeaderView;

    open spec fn view(&self) -> HeaderView {
        HeaderView { name: self.name@, value: self.value@ }
    }
}

impl DeepView for Header {
    type V = HeaderView;

    open spec fn deep_view(&self) -> HeaderView {
        self@
    }
}

pub const API_VERSION_NAME: &'static str = "X-GitHub-Api-Version";

pub const API_VERSION: &'static str = "2022-11-28";

pub const ACCEPT_NAME: &'static str = "Accept";

pub const ACCEPT: &'static str = "application/vnd.github+json";

pub const AUTHORIZATION_NAME: &'static str = "Authorization";

/// What stands before the token in the authorization header.
pub const BEARER: &'static str = "Bearer ";

pub const USER_AGENT_NAME: &'static str = "User-Agent";

pub const USER_AGENT: &'static str = "App-Recent-Releases-Stars";

/// The value of the authorization header for `token`.
pub open spec fn bearer(token: Seq<char>) -> Seq<char> {
    BEARER@ + trimmed(token)
}

/// The headers of every request made with `token`.
pub open spec fn headers_for(token: Seq<char>) -> Seq<HeaderView> {
    seq![
        HeaderView { name: API_VERSION_NAME@, value: API_VERSION@ },
        HeaderView { name: ACCEPT_NAME@, value: ACCEPT@ },
        HeaderView { name: AUTHORIZATION_NAME@, value: bearer(token) },
        HeaderView { name: USER_AGENT_NAME@, value: USER_AGENT@ },
    ]
}

/// The value of the authorization header: the token, without the white
/// space around it, as a bearer credential.
pub fn authorization(token: &str) -> (value: String)
    ensures
        value@ == bearer(token@),
{
    let mut value = String::from_str(BEARER);
    value.append(trim(token));
    value
}

/// The headers that every request carries: the version of the API, the
/// media type asked for, the credential and the name of this client.
pub fn request_headers(token: &str) -> (headers: Vec<Header>)
    ensures
        headers.deep_view() == headers_for(token@),
{
    let mut headers: Vec<Header> = Vec::new();
    headers.push(
        Header { name: String::from_str(API_VERSION_NAME), value: String::from_str(API_VERSION) },
    );
    headers.push(Header { name: String::from_str(ACCEPT_NAME), value: String::from_str(ACCEPT) });
    headers.push(Header { name: String::from_str(AUTHORIZATION_NAME), value: authorization(token) });
    headers.push(
        Header { name: String::from_str(USER_AGENT_NAME), value: String::from_str(USER_AGENT) },
    );
    assert(headers.deep_view() =~= headers_for(token@));
    headers
}

} // verus!

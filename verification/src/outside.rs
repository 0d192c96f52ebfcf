//! The calls this library makes into outside crates, each behind one trusted
//! item. Verus believes these contracts; they are not proved.
use vstd::prelude::*;
use url::{Host, Url};

verus! {

/// What kind of host a parsed URL names.
#[derive(Debug, Clone, Copy, PartialEq, Eq, Structural)]
pub enum HostKind {
    Domain,
    Ipv4,
    Ipv6,
}

/// The components of a parsed URL that the base-URL rules read.
#[derive(Debug, Clone)]
pub struct UrlParts {
    pub serialization: String,
    pub scheme: String,
    pub host: Option<String>,
    pub host_kind: Option<HostKind>,
    pub username: String,
    pub password: Option<String>,
    pub path: String,
    pub query: Option<String>,
    pub fragment: Option<String>,
}

pub struct UrlPartsView {
    pub serialization: Seq<char>,
    pub scheme: Seq<char>,
    pub host: Option<Seq<char>>,
    pub host_kind: Option<HostKind>,
    pub username: Seq<char>,
    pub password: Option<Seq<char>>,
    pub path: Seq<char>,
    pub query: Option<Seq<char>>,
    pub fragment: Option<Seq<char>>,
}

pub open spec fn text_option(o: Option<String>) -> Option<Seq<char>> {
    match o {
        Some(s) => Some(s@),
        None => None,
    }
}

impl View for UrlParts {
    type V = UrlPartsView;

    open spec fn view(&self) -> UrlPartsView {
        UrlPartsView {
            serialization: self.serialization@,
            scheme: self.scheme@,
            host: text_option(self.host),
            host_kind: self.host_kind,
            username: self.username@,
            password: text_option(self.password),
            path: self.path@,
            query: text_option(self.query),
            fragment: text_option(self.fragment),
        }
    }
}

/// The components that `url::Url::parse` yields for a text, or `None` where
/// it refuses the text.
pub uninterp spec fn url_components(raw: Seq<char>) -> Option<UrlPartsView>;

/// Calls `url::Url::parse` and reads the parsed URL's text (`as_str`), scheme, host text
/// (`host_str`), host kind (`host`), username, password, path, query and
/// fragment. The contract only ties the result to `url_components` of the
/// input text; what that is, is the `url` crate's parser.
#[verifier::external_body]
pub(crate) fn parse_url(raw: &str) -> (r: Option<UrlParts>)
    ensures
        match r {
            Some(parts) => url_components(raw@) == Some(parts@),
            None => url_components(raw@) is None,
        },
{
    let url = Url::parse(raw).ok()?;
    let host_kind = match url.host() {
        Some(Host::Domain(_)) => Some(HostKind::Domain),
        Some(Host::Ipv4(_)) => Some(HostKind::Ipv4),
        Some(Host::Ipv6(_)) => Some(HostKind::Ipv6),
        None => None,
    };
    Some(UrlParts { serialization: url.as_str().to_owned(), scheme: url.scheme().to_owned(),
        host: url.host_str().map(str::to_owned), host_kind, username: url.username().to_owned(),
        password: url.password().map(str::to_owned), path: url.path().to_owned(),
        query: url.query().map(str::to_owned), fragment: url.fragment().map(str::to_owned) })
}

/// The text of the URL that `url::Url::join` makes of the URL that
/// `url::Url::parse` reads from `base` and the reference `path`, or `None`
/// where either refuses its input.
pub uninterp spec fn url_joined(base: Seq<char>, path: Seq<char>) -> Option<Seq<char>>;

/// Calls `url::Url::parse` on `base`, then `url::Url::join` with `path`, and
/// gives the joined URL's text (`as_str`); the result is `url_joined` of the
/// two input texts.
#[verifier::external_body]
pub(crate) fn join_url(base: &str, path: &str) -> (r: Option<String>)
    ensures
        match r {
            Some(u) => url_joined(base@, path@) == Some(u@),
            None => url_joined(base@, path@) is None,
        },
{
    Some(Url::parse(base).ok()?.join(path).ok()?.as_str().to_owned())
}

/// An ASCII hexadecimal digit, in either case.
pub open spec fn is_hex_digit(c: char) -> bool {
    ('0' <= c && c <= '9') || ('a' <= c && c <= 'f') || ('A' <= c && c <= 'F')
}

/// Thirty-two hexadecimal digits and nothing else.
pub open spec fn simple_uuid_text(s: Seq<char>) -> bool {
    s.len() == 32 && forall|i: int| 0 <= i < 32 ==> is_hex_digit(#[trigger] s[i])
}

/// Five groups of 8, 4, 4, 4 and 12 hexadecimal digits joined by hyphens.
pub open spec fn hyphenated_uuid_text(s: Seq<char>) -> bool {
    &&& s.len() == 36
    &&& forall|i: int|
        0 <= i < 36 ==> if i == 8 || i == 13 || i == 18 || i == 23 {
            #[trigger] s[i] == '-'
        } else {
            is_hex_digit(s[i])
        }
}

/// The text starts with `urn:uuid:`, its letters in either case.
pub open spec fn has_urn_prefix(s: Seq<char>) -> bool {
    &&& s.len() >= 9
    &&& (s[0] == 'u' || s[0] == 'U')
    &&& (s[1] == 'r' || s[1] == 'R')
    &&& (s[2] == 'n' || s[2] == 'N')
    &&& s[3] == ':'
    &&& (s[4] == 'u' || s[4] == 'U')
    &&& (s[5] == 'u' || s[5] == 'U')
    &&& (s[6] == 'i' || s[6] == 'I')
    &&& (s[7] == 'd' || s[7] == 'D')
    &&& s[8] == ':'
}

/// The texts that `uuid::Uuid::parse_str` accepts: the simple form, the
/// hyphenated form, the hyphenated form in braces, and the hyphenated form
/// behind a `urn:uuid:` prefix.
pub open spec fn uuid_text_accepted(text: Seq<char>) -> bool {
    ||| simple_uuid_text(text)
    ||| hyphenated_uuid_text(text)
    ||| (text.len() == 38 && text[0] == '{' && text[37] == '}' && hyphenated_uuid_text(
        text.subrange(1, 37),
    ))
    ||| (text.len() == 45 && has_urn_prefix(text) && hyphenated_uuid_text(text.subrange(9, 45)))
}

/// Calls `uuid::Uuid::parse_str` and reports whether it succeeded. The
/// contract claims that it succeeds exactly on the four textual forms of
/// `uuid_text_accepted`: every accepted text is ASCII, so its byte length,
/// which the parser dispatches on, is its length in characters.
#[verifier::external_body]
pub(crate) fn uuid_parses(text: &str) -> (r: bool)
    ensures
        r == uuid_text_accepted(text@),
{
    uuid::Uuid::parse_str(text).is_ok()
}

/// The byte array that `serde_json::from_str::<Vec<u8>>` reads from a text,
/// or `None` where it refuses the text.
pub uninterp spec fn json_byte_array(text: Seq<char>) -> Option<Seq<u8>>;

/// Calls `serde_json::from_str::<Vec<u8>>`; the result is
/// `json_byte_array` of the input text.
#[verifier::external_body]
pub(crate) fn parse_json_byte_array(text: &str) -> (r: Option<Vec<u8>>)
    ensures
        match r {
            Some(v) => json_byte_array(text@) == Some(v@),
            None => json_byte_array(text@) is None,
        },
{
    serde_json::from_str::<Vec<u8>>(text).ok()
}

/// The string array that `serde_json::from_str::<Vec<String>>` reads from a
/// text, or `None` where it refuses the text.
pub uninterp spec fn json_string_array(text: Seq<char>) -> Option<Seq<Seq<char>>>;

/// Calls `serde_json::from_str::<Vec<String>>`; the result, element by
/// element, is `json_string_array` of the input text.
#[verifier::external_body]
pub(crate) fn parse_json_string_array(text: &str) -> (r: Option<Vec<String>>)
    ensures
        match r {
            Some(v) => json_string_array(text@) == Some(v@.map_values(|s: String| s@)),
            None => json_string_array(text@) is None,
        },
{
    serde_json::from_str::<Vec<String>>(text).ok()
}

} // verus!

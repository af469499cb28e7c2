//! URLs as the resolver reads them: the parts of a parsed URL held as plain
//! strings, and the two operations that only the URL parser can perform.

use vstd::prelude::*;
use crate::error::{Error, ErrorView};

verus! {

/// A parsed URL, by the parts that the resolver and the getters read.
#[derive(Debug)]
pub struct Uri {
    /// The whole URL in its normal form.
    pub text: String,
    /// The scheme, without the colon.
    pub scheme: String,
    /// The host, where it is a domain name.
    pub domain: Option<String>,
    /// The path.
    pub path: String,
    /// What follows the scheme and its separator: authority, path, query and
    /// fragment.
    pub resource: String,
}

/// A [`Uri`] by the characters of its parts.
pub struct UriView {
    pub text: Seq<char>,
    pub scheme: Seq<char>,
    pub domain: Option<Seq<char>>,
    pub path: Seq<char>,
    pub resource: Seq<char>,
}

impl View for Uri {
    type V = UriView;

    open spec fn view(&self) -> UriView {
        UriView {
            text: self.text@,
            scheme: self.scheme@,
            domain: match self.domain {
                Some(d) => Some(d@),
                None => None,
            },
            path: self.path@,
            resource: self.resource@,
        }
    }
}

/// What the URL parser makes of `input`: the parts of the URL, or nothing
/// where it rejects the string.
pub uninterp spec fn parsed_uri(input: Seq<char>) -> Option<UriView>;

/// What the URL parser makes of the URL `text` once its path is replaced by
/// `path`, or nothing where it rejects `text`.
pub uninterp spec fn repathed_uri(text: Seq<char>, path: Seq<char>) -> Option<UriView>;

/// The most characters that a URL and a new path for it may have together.
pub const MAX_REPATH_CHARS: usize = 357_913_941;

/// Whether the URL parser can hold the URL `text` with `path` for its path.
/// It counts the bytes of a URL in 32 bits; a character has at most four
/// bytes and a byte is at most three once it is escaped.
pub open spec fn repath_fits(text: Seq<char>, path: Seq<char>) -> bool {
    12 * (text.len() + path.len()) < u32::MAX
}

/// The URL `text` with `path` in place of its path: refused where the two
/// are too long for the URL parser, and where `text` is no URL.
pub open spec fn repathed(text: Seq<char>, path: Seq<char>) -> Result<UriView, ErrorView> {
    if !repath_fits(text, path) {
        Err(ErrorView::InvalidUrl(text, "url and path are too long"@))
    } else {
        match repathed_uri(text, path) {
            Some(uri) => Ok(uri),
            None => Err(ErrorView::UrlParseError),
        }
    }
}

/// Calls `url::Url::parse` and copies out the parts of the URL it returns.
/// The contract claims only that the outcome is the one that [`parsed_uri`]
/// names for these characters.
#[verifier::external_body]
fn parse_text(input: &str) -> (r: Result<Uri, url::ParseError>)
    ensures
        match r {
            Ok(uri) => parsed_uri(input@) == Some(uri@),
            Err(_) => parsed_uri(input@) is None,
        },
{
    let url = url::Url::parse(input)?;
    Ok(Uri {
        text: url.as_str().to_string(),
        scheme: url.scheme().to_string(),
        domain: url.domain().map(str::to_string),
        path: url.path().to_string(),
        resource: url[url::Position::BeforeUsername..].to_string(),
    })
}

/// Parses `text` with `url::Url::parse`, calls `url::Url::set_path` on the
/// URL with `path`, and copies out the parts of the changed URL. The contract
/// claims only that the outcome is the one that [`repathed_uri`] names for
/// these characters. `set_path` panics on a URL of 2^32 bytes or more, so
/// the two texts must be short enough for the changed URL to stay below.
#[verifier::external_body]
fn parse_text_with_path(text: &str, path: &str) -> (r: Result<Uri, url::ParseError>)
    requires
        repath_fits(text@, path@),
    ensures
        match r {
            Ok(uri) => repathed_uri(text@, path@) == Some(uri@),
            Err(_) => repathed_uri(text@, path@) is None,
        },
{
    let mut url = url::Url::parse(text)?;
    url.set_path(path);
    Ok(Uri {
        text: url.as_str().to_string(),
        scheme: url.scheme().to_string(),
        domain: url.domain().map(str::to_string),
        path: url.path().to_string(),
        resource: url[url::Position::BeforeUsername..].to_string(),
    })
}

impl Uri {
    /// Parses `input` as a URL.
    pub fn parse(input: &str) -> (r: Result<Uri, Error>)
        ensures
            match r {
                Ok(uri) => parsed_uri(input@) == Some(uri@),
                Err(e) => e@ == ErrorView::UrlParseError && parsed_uri(input@) is None,
            },
    {
        match parse_text(input) {
            Ok(uri) => Ok(uri),
            Err(cause) => Err(Error::UrlParseError(cause)),
        }
    }

    /// Whether `input` is a URL.
    pub fn is_uri(input: &str) -> (yes: bool)
        ensures
            yes == parsed_uri(input@) is Some,
    {
        parse_text(input).is_ok()
    }

    /// This URL with `path` in place of its path. A URL and a path of more
    /// than [`MAX_REPATH_CHARS`] characters together are refused.
    pub fn with_path(&self, path: &str) -> (r: Result<Uri, Error>)
        ensures
            match r {
                Ok(uri) => repathed(self@.text, path@) == Ok::<UriView, ErrorView>(uri@),
                Err(e) => repathed(self@.text, path@) == Err::<UriView, ErrorView>(e@),
            },
    {
        let text = self.text.as_str();
        let text_len: usize = text.unicode_len();
        let path_len: usize = path.unicode_len();
        if text_len > MAX_REPATH_CHARS || path_len > MAX_REPATH_CHARS - text_len {
            return Err(Error::InvalidUrl(text.to_owned(), "url and path are too long".to_owned()));
        }
        match parse_text_with_path(text, path) {
            Ok(uri) => Ok(uri),
            Err(cause) => Err(Error::UrlParseError(cause)),
        }
    }
}

} // verus!

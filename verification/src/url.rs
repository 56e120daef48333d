//! URLs as the resolvers read them: the parts of a parsed URL, held as text.

use crate::error::InvalidUrl;
use vstd::prelude::*;

verus! {

/// The parts of a URL that the resolvers look at.
#[derive(Debug, PartialEq, Eq)]
pub struct ParsedUrl {
    /// The URL in its normalised, serialised form.
    pub text: String,
    pub scheme: String,
    /// The host, serialised, where the URL has one.
    pub host: Option<String>,
    /// The port: the one written in the URL, else the default port of the
    /// scheme where it has one.
    pub port: Option<u16>,
    pub path: String,
    /// What follows `#`, where the URL has a fragment.
    pub fragment: Option<String>,
}

/// A `ParsedUrl` as plain values.
pub struct UrlParts {
    pub text: Seq<char>,
    pub scheme: Seq<char>,
    pub host: Option<Seq<char>>,
    pub port: Option<u16>,
    pub path: Seq<char>,
    pub fragment: Option<Seq<char>>,
}

/// The view of an optional string.
pub open spec fn opt_text(s: Option<String>) -> Option<Seq<char>> {
    match s {
        Some(t) => Some(t@),
        None => None,
    }
}

impl View for ParsedUrl {
    type V = UrlParts;

    open spec fn view(&self) -> UrlParts {
        UrlParts {
            text: self.text@,
            scheme: self.scheme@,
            host: opt_text(self.host),
            port: self.port,
            path: self.path@,
            fragment: opt_text(self.fragment),
        }
    }
}

/// A copy of an optional string.
pub fn clone_opt(s: &Option<String>) -> (r: Option<String>)
    ensures
        opt_text(r) == opt_text(*s),
{
    match s {
        Some(t) => Some(t.clone()),
        None => None,
    }
}

impl Clone for ParsedUrl {
    fn clone(&self) -> (r: Self)
        ensures
            r@ == self@,
    {
        ParsedUrl {
            text: self.text.clone(),
            scheme: self.scheme.clone(),
            host: clone_opt(&self.host),
            port: self.port,
            path: self.path.clone(),
            fragment: clone_opt(&self.fragment),
        }
    }
}

/// The error type of the `url` crate's parser.
#[verifier::external_type_specification]
#[verifier::external_body]
pub struct ExUrlParseError(url::ParseError);

/// What the `url` crate's parser makes of `text`: the parts of the URL, or
/// `None` where it refuses the text.
pub uninterp spec fn url_parts(text: Seq<char>) -> Option<UrlParts>;

/// Calls `url::Url::parse` and copies out the parts of the result through
/// its accessors (`as_str`, `scheme`, `host_str`, `port_or_known_default`,
/// `path`, `fragment`). The contract only gives the outcome its name: the
/// parser is a function of the text alone.
#[verifier::external_body]
fn parse_with_url_crate(text: &str) -> (r: Result<ParsedUrl, url::ParseError>)
    ensures
        match r {
            Ok(u) => url_parts(text@) == Some(u@),
            Err(_) => url_parts(text@) is None,
        },
{
    let url = url::Url::parse(text)?;
    Ok(ParsedUrl {
        text: String::from(url.as_str()),
        scheme: String::from(url.scheme()),
        host: url.host_str().map(String::from),
        port: url.port_or_known_default(),
        path: String::from(url.path()),
        fragment: url.fragment().map(String::from),
    })
}

impl ParsedUrl {
    /// Parses `text` as a URL.
    pub fn parse(text: &str) -> (r: Result<ParsedUrl, InvalidUrl>)
        ensures
            match r {
                Ok(u) => url_parts(text@) == Some(u@),
                Err(e) => url_parts(text@) is None && e == InvalidUrl::ParseError,
            },
    {
        match parse_with_url_crate(text) {
            Ok(u) => Ok(u),
            Err(_) => Err(InvalidUrl::ParseError),
        }
    }
}

} // verus!

//! What the `url` crate (re-exported by reqwest as `reqwest::Url`) reads from a URL.
use vstd::prelude::*;

verus! {

/// The components of a parsed URL, and its serialization.
#[derive(Debug, Clone, PartialEq)]
pub struct UrlParts {
    pub scheme: String,
    pub username: String,
    pub password: Option<String>,
    pub host: Option<String>,
    pub path: String,
    pub query: Option<String>,
    pub fragment: Option<String>,
    pub serialized: String,
}

pub struct UrlPartsView {
    pub scheme: Seq<char>,
    pub username: Seq<char>,
    pub password: Option<Seq<char>>,
    pub host: Option<Seq<char>>,
    pub path: Seq<char>,
    pub query: Option<Seq<char>>,
    pub fragment: Option<Seq<char>>,
    pub serialized: Seq<char>,
}

impl View for UrlParts {
    type V = UrlPartsView;

    open spec fn view(&self) -> UrlPartsView {
        UrlPartsView {
            scheme: self.scheme@,
            username: self.username@,
            password: crate::text::opt_view(self.password),
            host: crate::text::opt_view(self.host),
            path: self.path@,
            query: crate::text::opt_view(self.query),
            fragment: crate::text::opt_view(self.fragment),
            serialized: self.serialized@,
        }
    }
}

/// What `Url::parse` reads from `input`, or `None` where it rejects it.
pub uninterp spec fn parsed_url(input: Seq<char>) -> Option<UrlPartsView>;

/// The serialization of the URL parsed from `input` after `Url::set_path(path)`.
pub uninterp spec fn url_with_path(input: Seq<char>, path: Seq<char>) -> Option<Seq<char>>;

/// The serialization of `Url::join(relative)` on the URL parsed from `base`.
pub uninterp spec fn url_joined(base: Seq<char>, relative: Seq<char>) -> Option<Seq<char>>;

/// Calls `Url::parse` and reads the scheme, user name, password, host, path, query,
/// fragment and serialization of the result.
#[verifier::external_body]
pub(crate) fn parse_url(input: &str) -> (r: Option<UrlParts>)
    ensures
        match parsed_url(input@) {
            Some(p) => r matches Some(x) && x@ == p,
            None => r is None,
        },
{
    match reqwest::Url::parse(input) {
        Ok(url) => Some(UrlParts {
            scheme: url.scheme().to_owned(),
            username: url.username().to_owned(),
            password: url.password().map(str::to_owned),
            host: url.host_str().map(str::to_owned),
            path: url.path().to_owned(),
            query: url.query().map(str::to_owned),
            fragment: url.fragment().map(str::to_owned),
            serialized: url.as_str().to_owned(),
        }),
        Err(_) => None,
    }
}

/// Calls `Url::parse(input)` and then `Url::set_path(path)`, which always succeeds on a
/// parsed URL.
#[verifier::external_body]
pub(crate) fn set_url_path(input: &str, path: &str) -> (r: Option<String>)
    ensures
        match url_with_path(input@, path@) {
            Some(s) => r matches Some(x) && x@ == s,
            None => r is None,
        },
        r is Some <==> parsed_url(input@) is Some,
{
    match reqwest::Url::parse(input) {
        Ok(mut url) => {
            url.set_path(path);
            Some(url.as_str().to_owned())
        },
        Err(_) => None,
    }
}

/// Calls `Url::parse(base)` and then `Url::join(relative)`.
#[verifier::external_body]
pub(crate) fn join_url(base: &str, relative: &str) -> (r: Option<String>)
    ensures
        match url_joined(base@, relative@) {
            Some(s) => r matches Some(x) && x@ == s,
            None => r is None,
        },
{
    match reqwest::Url::parse(base) {
        Ok(url) => match url.join(relative) {
            Ok(joined) => Some(joined.as_str().to_owned()),
            Err(_) => None,
        },
        Err(_) => None,
    }
}

} // verus!

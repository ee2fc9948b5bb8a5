//! Web addresses, read through the `url` crate.
use vstd::prelude::*;

verus! {

/// The parts of a parsed web address that the library reads.
#[derive(Debug)]
pub struct UrlParts {
    /// The address as the parser serialises it.
    pub text: String,
    pub scheme: String,
    pub host: Option<String>,
    pub username: String,
    pub password: Option<String>,
}

pub open spec fn opt_chars(o: Option<String>) -> Option<Seq<char>> {
    match o {
        Some(s) => Some(s@),
        None => None,
    }
}

impl UrlParts {
    pub open spec fn parts(self) -> (Seq<char>, Seq<char>, Option<Seq<char>>, Seq<char>, Option<Seq<char>>) {
        (self.text@, self.scheme@, opt_chars(self.host), self.username@, opt_chars(self.password))
    }
}

/// What `url::Url::parse` makes of a text: its serialisation, scheme, host,
/// user name and password, or the parser's error message.
pub uninterp spec fn parsed_url(text: Seq<char>) -> Result<(Seq<char>, Seq<char>, Option<Seq<char>>, Seq<char>, Option<Seq<char>>), Seq<char>>;

/// The serialisation of `base` after `form_urlencoded::Serializer::extend_pairs`
/// has appended `pairs` to its query, or the error of parsing `base`.
pub uninterp spec fn url_with_query(base: Seq<char>, pairs: Seq<(Seq<char>, Seq<char>)>) -> Result<Seq<char>, Seq<char>>;

pub open spec fn pair_views(pairs: Seq<(String, String)>) -> Seq<(Seq<char>, Seq<char>)> {
    pairs.map_values(|p: (String, String)| (p.0@, p.1@))
}

/// `url::Url::parse(text)`, read through `as_str`, `scheme`, `host_str`,
/// `username` and `password`; an error is given by its `Display` text.
#[verifier::external_body]
pub(crate) fn parse_url(text: &str) -> (r: Result<UrlParts, String>)
    ensures
        match (r, parsed_url(text@)) {
            (Ok(p), Ok(v)) => p.parts() == v,
            (Err(e), Err(m)) => e@ == m,
            _ => false,
        },
{
    match url::Url::parse(text) {
        Ok(url) => Ok(UrlParts {
            text: url.as_str().to_string(),
            scheme: url.scheme().to_string(),
            host: url.host_str().map(|h| h.to_string()),
            username: url.username().to_string(),
            password: url.password().map(|p| p.to_string()),
        }),
        Err(error) => Err(error.to_string()),
    }
}

/// `url::Url::parse(base)` followed by `query_pairs_mut().extend_pairs(pairs)`;
/// the result is the address's serialisation.
#[verifier::external_body]
pub(crate) fn append_query(base: &str, pairs: &Vec<(String, String)>) -> (r: Result<String, String>)
    ensures
        match (r, url_with_query(base@, pair_views(pairs@))) {
            (Ok(s), Ok(v)) => s@ == v,
            (Err(e), Err(m)) => e@ == m,
            _ => false,
        },
{
    let mut url = url::Url::parse(base).map_err(|error| error.to_string())?;
    url.query_pairs_mut().extend_pairs(pairs.iter().map(|(k, v)| (k.as_str(), v.as_str())));
    Ok(url.into())
}

} // verus!

//! The address of a feed.

use vstd::prelude::*;
use crate::error::Error;
use crate::model::text_view;

verus! {

/// An absolute URL that names a feed, with the parts the cache looks at.
#[derive(Clone, Debug, PartialEq, Eq)]
pub struct FeedUrl {
    /// The whole URL, as it is sent in a request.
    pub text: String,
    /// The host, where it is a domain name.
    pub domain: Option<String>,
    pub path: String,
    /// The query, without its question mark.
    pub query: Option<String>,
}

/// The mathematical value of a [`FeedUrl`].
pub struct FeedUrlView {
    pub text: Seq<char>,
    pub domain: Option<Seq<char>>,
    pub path: Seq<char>,
    pub query: Option<Seq<char>>,
}

impl View for FeedUrl {
    type V = FeedUrlView;

    open spec fn view(&self) -> FeedUrlView {
        FeedUrlView {
            text: self.text@,
            domain: text_view(self.domain),
            path: self.path@,
            query: text_view(self.query),
        }
    }
}

/// The value of an optional address.
pub open spec fn url_view(url: Option<FeedUrl>) -> Option<FeedUrlView> {
    match url {
        Some(u) => Some(u@),
        None => None,
    }
}

/// What the URL parser makes of a text: `None` where the text is no absolute
/// URL, else the URL in its normal form and its domain, path and query.
pub uninterp spec fn parsed_url(text: Seq<char>) -> Option<FeedUrlView>;

/// Calls `url::Url::parse` and copies what `as_str`, `domain`, `path` and
/// `query` return for the result. Claimed: the outcome depends on the text
/// alone.
#[verifier::external_body]
fn parse_url(text: &str) -> (r: Option<FeedUrl>)
    ensures
        url_view(r) == parsed_url(text@),
{
    let url = url::Url::parse(text).ok()?;
    Some(FeedUrl {
        text: url.as_str().to_string(),
        domain: url.domain().map(|d| d.to_string()),
        path: url.path().to_string(),
        query: url.query().map(|q| q.to_string()),
    })
}

impl FeedUrl {
    /// Reads an address. Fails with [`Error::InvalidUrl`] exactly where the
    /// text is no absolute URL.
    pub fn parse(text: &str) -> (r: Result<FeedUrl, Error>)
        ensures
            match r {
                Ok(url) => parsed_url(text@) == Some(url@),
                Err(e) => parsed_url(text@) is None && e == Error::InvalidUrl,
            },
    {
        match parse_url(text) {
            Some(url) => Ok(url),
            None => Err(Error::InvalidUrl),
        }
    }
}

} // verus!

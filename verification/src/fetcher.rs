//! Fetching a feed with a conditional request: which request is sent, and
//! what a response leads to.
//!
//! The request itself is sent by the caller. One request is made per feed and
//! run; what comes back is never asked for again in the same run.

use vstd::prelude::*;
use vstd::string::StringExecFns;
use crate::error::Error;
use crate::feed_store::{FeedStore, StoredFile, StoredFileView};
use crate::feed_store::{files_view, store_outcome};
use crate::feed_url::FeedUrl;
use crate::fetch_data::{FetchData, FetchDataView, Header};
use crate::model::{Kept, KeptView, ParsedFeed, feed_view};

verus! {

/// The program that fetches, as its requests name it.
#[derive(Clone, Debug, PartialEq, Eq)]
pub struct Software {
    pub name: String,
    pub version: String,
    pub homepage: String,
}

/// What all requests of a run have in common.
#[derive(Clone, Debug, PartialEq, Eq)]
pub struct Fetcher {
    /// The user agent that every request names.
    pub user_agent: String,
    /// The contact address sent in the `FROM` header.
    pub from: String,
}

/// A request for a feed: a GET of `url` with the given headers.
#[derive(Clone, Debug, PartialEq, Eq)]
pub struct Request {
    pub url: String,
    pub headers: Vec<(String, String)>,
}

/// A response, as far as the fetcher looks at it.
#[derive(Clone, Debug, PartialEq, Eq)]
pub struct Response {
    pub status: u16,
    pub headers: Vec<Header>,
    /// The document received; looked at only where the status is 200.
    pub body: Vec<u8>,
    /// What the feed parser made of the document, read as it is, without
    /// sanitizing: `None` where it is no feed. Looked at only where the
    /// status is 200.
    pub feed: Option<ParsedFeed>,
}

/// Where the fetching of a feed ends.
#[derive(Clone, Debug, PartialEq, Eq)]
pub enum Fetched {
    /// Status 304: the feed is as it was. Nothing is written.
    NotModified,
    /// Status 200: the files to write for the document received, in order;
    /// none where the document brought nothing to store.
    Fetched { files: Vec<StoredFile> },
    /// Any other status. Nothing is written, and it is no error.
    Unhandled { status: u16 },
}

/// The mathematical value of a [`Fetched`].
pub enum FetchedView {
    NotModified,
    Fetched { files: Seq<StoredFileView> },
    Unhandled { status: u16 },
}

impl View for Fetched {
    type V = FetchedView;

    open spec fn view(&self) -> FetchedView {
        match *self {
            Fetched::NotModified => FetchedView::NotModified,
            Fetched::Fetched { files } => FetchedView::Fetched { files: files_view(files@) },
            Fetched::Unhandled { status } => FetchedView::Unhandled { status },
        }
    }
}

/// The user agent of a bot run by a program.
pub open spec fn user_agent_of(
    bot_name: Seq<char>,
    version: Seq<char>,
    homepage: Seq<char>,
    name: Seq<char>,
) -> Seq<char> {
    bot_name + "/"@ + version + " "@ + homepage + " software: "@ + name
}

/// The values of a list of request headers.
pub open spec fn request_headers_view(headers: Seq<(String, String)>) -> Seq<
    (Seq<char>, Seq<char>),
> {
    headers.map_values(|h: (String, String)| (h.0@, h.1@))
}

/// The headers of a request: the contact address, and each validator that is
/// not empty.
pub open spec fn request_headers(from: Seq<char>, data: FetchDataView) -> Seq<
    (Seq<char>, Seq<char>),
> {
    seq![("FROM"@, from)] + (if data.etag.len() > 0 {
        seq![("If-None-Match"@, data.etag)]
    } else {
        Seq::empty()
    }) + (if data.last_modified.len() > 0 {
        seq![("If-Modified-Since"@, data.last_modified)]
    } else {
        Seq::empty()
    })
}

/// Where a response leads: a status of 304 to nothing, one of 200 to what
/// storing the document comes to, any other to nothing.
pub open spec fn fetch_outcome(
    dir: Seq<char>,
    url: crate::feed_url::FeedUrlView,
    response: Response,
    kept: KeptView,
) -> Result<FetchedView, Error> {
    if response.status == 304 {
        Ok(FetchedView::NotModified)
    } else if response.status == 200 {
        match store_outcome(
            dir,
            url,
            response.headers@,
            response.body@,
            feed_view(response.feed),
            kept,
        ) {
            Ok(files) => Ok(FetchedView::Fetched { files }),
            Err(e) => Err(e),
        }
    } else {
        Ok(FetchedView::Unhandled { status: response.status })
    }
}

/// Whether what was fetched changes the aggregation.
pub open spec fn brought_news(outcome: Result<Fetched, Error>) -> bool {
    outcome matches Ok(Fetched::Fetched { files }) && files@.len() > 0
}

impl Fetcher {
    /// The fetcher of a bot named `bot_name`, run by `software`, whose
    /// operator is reached at `from`.
    pub fn new(bot_name: &str, from: &str, software: &Software) -> (r: Fetcher)
        ensures
            r.from@ == from@,
            r.user_agent@ == user_agent_of(
                bot_name@,
                software.version@,
                software.homepage@,
                software.name@,
            ),
    {
        let mut user_agent = bot_name.to_owned();
        user_agent.append("/");
        user_agent.append(software.version.as_str());
        user_agent.append(" ");
        user_agent.append(software.homepage.as_str());
        user_agent.append(" software: ");
        user_agent.append(software.name.as_str());
        Fetcher { user_agent, from: from.to_owned() }
    }

    /// The request for a feed, made conditional by the validators kept for
    /// it.
    pub fn request(&self, url: &FeedUrl, fetchdata: &FetchData) -> (r: Request)
        ensures
            r.url@ == url@.text,
            request_headers_view(r.headers@) == request_headers(self.from@, fetchdata@),
    {
        let mut headers: Vec<(String, String)> = Vec::new();
        headers.push(("FROM".to_owned(), self.from.clone()));
        if !fetchdata.etag.as_str().is_empty() {
            headers.push(("If-None-Match".to_owned(), fetchdata.etag.clone()));
        }
        if !fetchdata.last_modified.as_str().is_empty() {
            headers.push(("If-Modified-Since".to_owned(), fetchdata.last_modified.clone()));
        }
        assert(request_headers_view(headers@) =~= request_headers(self.from@, fetchdata@));
        Request { url: url.text.clone(), headers }
    }

    /// Decides what the response to a request leads to. `kept` is what the
    /// parser made of the document kept for the address, read without
    /// sanitizing; it is looked at only where the status is 200.
    pub fn fetch(
        &self,
        url: &FeedUrl,
        feed_store: &FeedStore,
        response: Response,
        kept: Kept,
    ) -> (r: Result<Fetched, Error>)
        ensures
            match r {
                Ok(end) => fetch_outcome(feed_store.dir@, url@, response, kept@) == Ok::<
                    FetchedView,
                    Error,
                >(end@),
                Err(e) => fetch_outcome(feed_store.dir@, url@, response, kept@) == Err::<
                    FetchedView,
                    Error,
                >(e),
            },
    {
        if response.status == 304 {
            Ok(Fetched::NotModified)
        } else if response.status == 200 {
            let Response { status, headers, body, feed } = response;
            match feed_store.store(url, &headers, body, feed, kept) {
                Ok(files) => Ok(Fetched::Fetched { files }),
                Err(e) => Err(e),
            }
        } else {
            Ok(Fetched::Unhandled { status: response.status })
        }
    }
}

/// Carries the need to rebuild through a run: the output is rebuilt where
/// any feed brought something to store. A feed that failed counts as
/// unchanged.
pub fn rebuild_needed(rebuild: bool, outcome: &Result<Fetched, Error>) -> (r: bool)
    ensures
        r == (rebuild || brought_news(*outcome)),
{
    match outcome {
        Ok(Fetched::Fetched { files }) => rebuild || files.len() > 0,
        _ => rebuild,
    }
}

} // verus!

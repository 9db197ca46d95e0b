//! A flat form of an entry, for templates that want plain texts.

use vstd::prelude::*;
use crate::aggregate::sort_key;
use crate::model::{Entry, EntryView, Timestamp, text_view};

verus! {

/// An entry as five texts.
#[derive(Clone, Debug, PartialEq, Eq)]
pub struct SimpleEntry {
    pub date: String,
    pub content: String,
    pub author: String,
    pub link: String,
    pub title: String,
}

/// The mathematical value of a [`SimpleEntry`].
pub struct SimpleEntryView {
    pub date: Seq<char>,
    pub content: Seq<char>,
    pub author: Seq<char>,
    pub link: Seq<char>,
    pub title: Seq<char>,
}

impl View for SimpleEntry {
    type V = SimpleEntryView;

    open spec fn view(&self) -> SimpleEntryView {
        SimpleEntryView {
            date: self.date@,
            content: self.content@,
            author: self.author@,
            link: self.link@,
            title: self.title@,
        }
    }
}

/// An instant in UTC written as date and time, in the form of
/// `Sun Jul  8 00:34:59 2001`; `None` where the instant lies outside the
/// dates that can be written.
pub uninterp spec fn date_text(secs: i64, nanos: u32) -> Option<Seq<char>>;

/// Calls `chrono::DateTime::from_timestamp` and, where that returns an
/// instant, formats it with `chrono::DateTime::format` and the given pattern.
/// Claimed: the outcome depends on the instant alone. The pattern is the one
/// the library uses; with it the formatting cannot fail.
#[verifier::external_body]
fn format_date(at: Timestamp, pattern: &str) -> (r: Option<String>)
    requires
        pattern@ == "%c"@,
    ensures
        text_view(r) == date_text(at.secs, at.nanos),
{
    chrono::DateTime::from_timestamp(at.secs, at.nanos).map(|t| t.format(pattern).to_string())
}

/// The date shown for an instant: the instant written out, or the start of
/// the epoch written out where the instant cannot be written; empty where
/// not even that can be.
pub open spec fn shown_date(at: Timestamp) -> Seq<char> {
    match date_text(at.secs, at.nanos) {
        Some(text) => text,
        None => match date_text(0, 0) {
            Some(text) => text,
            None => Seq::empty(),
        },
    }
}

/// The text in an optional text, empty where there is none.
pub open spec fn text_or_empty(text: Option<Seq<char>>) -> Seq<char> {
    match text {
        Some(t) => t,
        None => Seq::empty(),
    }
}

/// The first text of a list, empty where the list is empty.
pub open spec fn first_or_empty(texts: Seq<Seq<char>>) -> Seq<char> {
    if texts.len() > 0 {
        texts[0]
    } else {
        Seq::empty()
    }
}

/// The flat form of an entry: the date it is ordered by, its content, its
/// first author, its first link and its title, each empty where the entry
/// has none.
pub open spec fn simple_entry_of(entry: EntryView) -> SimpleEntryView {
    SimpleEntryView {
        date: shown_date(sort_key(entry)),
        content: text_or_empty(entry.content),
        author: first_or_empty(entry.authors),
        link: first_or_empty(entry.links),
        title: text_or_empty(entry.title),
    }
}

impl SimpleEntry {
    /// Makes the flat form of an entry.
    pub fn from_feed_entry(entry: Entry) -> (r: SimpleEntry)
        ensures
            r@ == simple_entry_of(entry@),
    {
        let date = match format_date(entry.sort_key(), "%c") {
            Some(text) => text,
            None => match format_date(Timestamp { secs: 0, nanos: 0 }, "%c") {
                Some(text) => text,
                None => String::new(),
            },
        };
        let Entry { title, content, authors, links, published, updated, source } = entry;
        let author = if authors.len() > 0 {
            authors[0].name.clone()
        } else {
            String::new()
        };
        let link = if links.len() > 0 {
            links[0].href.clone()
        } else {
            String::new()
        };
        SimpleEntry {
            date,
            content: match content {
                Some(text) => text,
                None => String::new(),
            },
            author,
            link,
            title: match title {
                Some(text) => text,
                None => String::new(),
            },
        }
    }
}

} // verus!

//! The parsed form of a feed, as far as the aggregator looks at it.
//!
//! Documents are parsed by the caller; the library works on what the parser
//! made of them.

use vstd::prelude::*;

verus! {

/// A point in time: whole seconds since the Unix epoch and the nanoseconds
/// within that second.
#[derive(Clone, Copy, Debug, PartialEq, Eq)]
pub struct Timestamp {
    pub secs: i64,
    pub nanos: u32,
}

/// A person named by a feed or an entry.
#[derive(Clone, Debug, PartialEq, Eq)]
pub struct Person {
    pub name: String,
}

/// A link of an entry.
#[derive(Clone, Debug, PartialEq, Eq)]
pub struct Link {
    pub href: String,
}

/// One entry of a feed.
#[derive(Clone, Debug, PartialEq, Eq)]
pub struct Entry {
    pub title: Option<String>,
    pub content: Option<String>,
    pub authors: Vec<Person>,
    pub links: Vec<Link>,
    pub published: Option<Timestamp>,
    pub updated: Option<Timestamp>,
    /// The URL of the feed the entry was loaded from; set by the aggregation.
    pub source: Option<String>,
}

/// The mathematical value of an [`Entry`].
pub struct EntryView {
    pub title: Option<Seq<char>>,
    pub content: Option<Seq<char>>,
    pub authors: Seq<Seq<char>>,
    pub links: Seq<Seq<char>>,
    pub published: Option<Timestamp>,
    pub updated: Option<Timestamp>,
    pub source: Option<Seq<char>>,
}

/// The characters of an optional string.
pub open spec fn text_view(s: Option<String>) -> Option<Seq<char>> {
    match s {
        Some(t) => Some(t@),
        None => None,
    }
}

/// The names of a list of persons.
pub open spec fn names_view(people: Seq<Person>) -> Seq<Seq<char>> {
    people.map_values(|p: Person| p.name@)
}

/// The targets of a list of links.
pub open spec fn hrefs_view(links: Seq<Link>) -> Seq<Seq<char>> {
    links.map_values(|l: Link| l.href@)
}

impl View for Entry {
    type V = EntryView;

    open spec fn view(&self) -> EntryView {
        EntryView {
            title: text_view(self.title),
            content: text_view(self.content),
            authors: names_view(self.authors@),
            links: hrefs_view(self.links@),
            published: self.published,
            updated: self.updated,
            source: text_view(self.source),
        }
    }
}

/// A parsed feed: its own title and authors, and its entries in the order in
/// which the feed lists them.
#[derive(Clone, Debug, PartialEq, Eq)]
pub struct ParsedFeed {
    pub title: Option<String>,
    pub authors: Vec<Person>,
    pub entries: Vec<Entry>,
}

/// The mathematical value of a [`ParsedFeed`].
pub struct ParsedFeedView {
    pub title: Option<Seq<char>>,
    pub authors: Seq<Seq<char>>,
    pub entries: Seq<EntryView>,
}

/// The values of a list of entries.
pub open spec fn entries_view(entries: Seq<Entry>) -> Seq<EntryView> {
    entries.map_values(|e: Entry| e@)
}

impl View for ParsedFeed {
    type V = ParsedFeedView;

    open spec fn view(&self) -> ParsedFeedView {
        ParsedFeedView {
            title: text_view(self.title),
            authors: names_view(self.authors@),
            entries: entries_view(self.entries@),
        }
    }
}

/// The value of an optional feed.
pub open spec fn feed_view(feed: Option<ParsedFeed>) -> Option<ParsedFeedView> {
    match feed {
        Some(f) => Some(f@),
        None => None,
    }
}

/// What the cache holds as the document of an address, as the feed parser
/// reads it.
#[derive(Clone, Debug, PartialEq, Eq)]
pub enum Kept {
    /// No document is kept.
    Nothing,
    /// A document is kept, and it is no feed.
    NoFeed,
    /// The feed read from the kept document.
    Feed(ParsedFeed),
}

/// The mathematical value of a [`Kept`].
pub enum KeptView {
    Nothing,
    NoFeed,
    Feed(ParsedFeedView),
}

impl View for Kept {
    type V = KeptView;

    open spec fn view(&self) -> KeptView {
        match *self {
            Kept::Nothing => KeptView::Nothing,
            Kept::NoFeed => KeptView::NoFeed,
            Kept::Feed(feed) => KeptView::Feed(feed@),
        }
    }
}

/// Whether two optional strings hold the same text.
pub fn same_text(a: &Option<String>, b: &Option<String>) -> (r: bool)
    ensures
        r == (text_view(*a) == text_view(*b)),
{
    match (a, b) {
        (Some(x), Some(y)) => *x == *y,
        (None, None) => true,
        _ => false,
    }
}

/// Whether two optional timestamps are the same.
pub fn same_time(a: &Option<Timestamp>, b: &Option<Timestamp>) -> (r: bool)
    ensures
        r == (*a == *b),
{
    match (a, b) {
        (Some(x), Some(y)) => x.secs == y.secs && x.nanos == y.nanos,
        (None, None) => true,
        _ => false,
    }
}

/// Whether two lists of persons name the same people in the same order.
pub fn same_people(a: &Vec<Person>, b: &Vec<Person>) -> (r: bool)
    ensures
        r == (names_view(a@) == names_view(b@)),
{
    if a.len() != b.len() {
        assert(names_view(a@).len() != names_view(b@).len());
        return false;
    }
    let mut i: usize = 0;
    while i < a.len()
        invariant
            i <= a.len(),
            a.len() == b.len(),
            forall|j: int| 0 <= j < i ==> a@[j].name@ == b@[j].name@,
        decreases a.len() - i,
    {
        if a[i].name != b[i].name {
            assert(names_view(a@)[i as int] != names_view(b@)[i as int]);
            return false;
        }
        i += 1;
    }
    assert(names_view(a@) =~= names_view(b@));
    true
}

/// Whether two lists of links name the same targets in the same order.
pub fn same_links(a: &Vec<Link>, b: &Vec<Link>) -> (r: bool)
    ensures
        r == (hrefs_view(a@) == hrefs_view(b@)),
{
    if a.len() != b.len() {
        assert(hrefs_view(a@).len() != hrefs_view(b@).len());
        return false;
    }
    let mut i: usize = 0;
    while i < a.len()
        invariant
            i <= a.len(),
            a.len() == b.len(),
            forall|j: int| 0 <= j < i ==> a@[j].href@ == b@[j].href@,
        decreases a.len() - i,
    {
        if a[i].href != b[i].href {
            assert(hrefs_view(a@)[i as int] != hrefs_view(b@)[i as int]);
            return false;
        }
        i += 1;
    }
    assert(hrefs_view(a@) =~= hrefs_view(b@));
    true
}

impl Entry {
    /// Whether two entries are equal in every field.
    pub fn same_as(&self, other: &Entry) -> (r: bool)
        ensures
            r == (self@ == other@),
    {
        same_text(&self.title, &other.title) && same_text(&self.content, &other.content)
            && same_people(&self.authors, &other.authors) && same_links(&self.links, &other.links)
            && same_time(&self.published, &other.published) && same_time(
            &self.updated,
            &other.updated,
        ) && same_text(&self.source, &other.source)
    }
}

} // verus!

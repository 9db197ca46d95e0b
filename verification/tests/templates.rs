use planet_mars::authors::{find_authors_from_feed, get_author, is_valid_name, join_names};
use planet_mars::feed_map::FeedMap;
use planet_mars::model::{Entry, Link, ParsedFeed, Person, Timestamp};
use planet_mars::simple_entry::SimpleEntry;

fn people(names: &[&str]) -> Vec<Person> {
    names.iter().map(|n| Person { name: n.to_string() }).collect()
}

fn titled(title: &str) -> ParsedFeed {
    ParsedFeed { title: Some(title.to_string()), authors: vec![], entries: vec![] }
}

#[test]
fn stand_in_names_are_not_valid() {
    assert!(is_valid_name(&"Ann".to_string()));
    assert!(is_valid_name(&"Unknown".to_string()));
    assert!(is_valid_name(&"authors".to_string()));
    assert!(!is_valid_name(&"".to_string()));
    assert!(!is_valid_name(&"unknown".to_string()));
    assert!(!is_valid_name(&"author".to_string()));
}

#[test]
fn valid_authors_are_kept_in_order() {
    let names = find_authors_from_feed(&people(&["Ann", "", "unknown", "Bob", "author"]));
    assert_eq!(names, vec!["Ann".to_string(), "Bob".to_string()]);
    assert!(find_authors_from_feed(&people(&[])).is_empty());
}

#[test]
fn names_are_joined_with_comma_and_space() {
    assert_eq!(join_names(&vec![]), "");
    assert_eq!(join_names(&vec!["Ann".to_string()]), "Ann");
    assert_eq!(join_names(&vec!["Ann".to_string(), "Bob".to_string(), "Cy".to_string()]), "Ann, Bob, Cy");
}

#[test]
fn entry_authors_go_before_feed_authors() {
    assert_eq!(get_author(&people(&["Ann", "Bob"]), &people(&["Feed"])), "Ann, Bob");
    assert_eq!(get_author(&people(&["unknown", "Ann"]), &people(&["Feed"])), "Ann");
}

#[test]
fn feed_authors_stand_in_where_the_entry_names_none() {
    assert_eq!(get_author(&people(&[]), &people(&["Feed", "Team"])), "Feed, Team");
    assert_eq!(get_author(&people(&["", "author"]), &people(&["Feed", "unknown"])), "Feed");
    assert_eq!(get_author(&people(&["unknown"]), &people(&["author"])), "");
    assert_eq!(get_author(&people(&[]), &people(&[])), "");
}

#[test]
fn simple_entry_takes_first_author_and_link() {
    let entry = Entry {
        title: Some("Title".to_string()),
        content: Some("<p>Body</p>".to_string()),
        authors: people(&["Ann", "Bob"]),
        links: vec![
            Link { href: "https://example.org/1".to_string() },
            Link { href: "https://example.org/2".to_string() },
        ],
        published: Some(Timestamp { secs: 0, nanos: 0 }),
        updated: Some(Timestamp { secs: 994_552_499, nanos: 0 }),
        source: Some("https://example.org/feed".to_string()),
    };
    let simple = SimpleEntry::from_feed_entry(entry);
    assert_eq!(
        simple,
        SimpleEntry {
            date: "Sun Jul  8 00:34:59 2001".to_string(),
            content: "<p>Body</p>".to_string(),
            author: "Ann".to_string(),
            link: "https://example.org/1".to_string(),
            title: "Title".to_string(),
        }
    );
}

#[test]
fn simple_entry_of_an_empty_entry_is_empty_but_for_the_date() {
    let entry = Entry {
        title: None,
        content: None,
        authors: vec![],
        links: vec![],
        published: None,
        updated: None,
        source: None,
    };
    let simple = SimpleEntry::from_feed_entry(entry);
    assert_eq!(simple.date, "Thu Jan  1 00:00:00 1970");
    assert_eq!(simple.content, "");
    assert_eq!(simple.author, "");
    assert_eq!(simple.link, "");
    assert_eq!(simple.title, "");
}

#[test]
fn simple_entry_is_dated_by_published_where_not_updated() {
    let entry = Entry {
        title: None,
        content: None,
        authors: vec![],
        links: vec![],
        published: Some(Timestamp { secs: 86_400, nanos: 5 }),
        updated: None,
        source: None,
    };
    assert_eq!(SimpleEntry::from_feed_entry(entry).date, "Fri Jan  2 00:00:00 1970");
}

#[test]
fn feed_map_finds_feeds_by_address() {
    let mut map = FeedMap::new();
    assert!(map.get("a").is_none());
    map.insert("a".to_string(), titled("A"));
    map.insert("b".to_string(), titled("B"));
    assert_eq!(map.get("a"), Some(&titled("A")));
    assert_eq!(map.get("b"), Some(&titled("B")));
    assert!(map.get("c").is_none());
    assert!(map.get("").is_none());
}

#[test]
fn feed_map_keeps_the_last_feed_of_an_address() {
    let mut map = FeedMap::new();
    map.insert("a".to_string(), titled("old"));
    map.insert("b".to_string(), titled("B"));
    map.insert("a".to_string(), titled("new"));
    assert_eq!(map.get("a"), Some(&titled("new")));
    let pairs = map.into_pairs();
    assert_eq!(pairs, vec![("a".to_string(), titled("new")), ("b".to_string(), titled("B"))]);
}

#[test]
fn simple_entry_of_an_instant_that_cannot_be_written_shows_the_epoch() {
    let entry = Entry {
        title: None,
        content: None,
        authors: vec![],
        links: vec![],
        published: None,
        updated: Some(Timestamp { secs: i64::MAX, nanos: 0 }),
        source: None,
    };
    assert_eq!(SimpleEntry::from_feed_entry(entry).date, "Thu Jan  1 00:00:00 1970");
    let entry = Entry {
        title: None,
        content: None,
        authors: vec![],
        links: vec![],
        published: Some(Timestamp { secs: 0, nanos: u32::MAX }),
        updated: None,
        source: None,
    };
    assert_eq!(SimpleEntry::from_feed_entry(entry).date, "Thu Jan  1 00:00:00 1970");
}

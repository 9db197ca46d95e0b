use planet_mars::feed_store::FeedStore;
use planet_mars::model::{Entry, Link, ParsedFeed, Person, Timestamp};

fn entry_named(title: &str) -> Entry {
    Entry {
        title: Some(title.to_string()),
        content: Some(format!("about {title}")),
        authors: vec![Person { name: "Ann".to_string() }],
        links: vec![Link { href: format!("https://example.org/{title}") }],
        published: Some(Timestamp { secs: 1_700_000_000, nanos: 0 }),
        updated: None,
        source: None,
    }
}

fn feed_of(titles: &[&str]) -> ParsedFeed {
    ParsedFeed {
        title: Some("Feed".to_string()),
        authors: vec![],
        entries: titles.iter().map(|t| entry_named(t)).collect(),
    }
}

fn store_for_change() -> FeedStore {
    FeedStore::new("cache")
}

#[test]
fn first_feed_of_an_address_has_changed() {
    let store = store_for_change();
    assert!(store.has_changed(None, &feed_of(&["A", "B"])));
    assert!(store.has_changed(None, &feed_of(&[])));
}

#[test]
fn entries_dropped_from_the_end_are_no_change() {
    let store = store_for_change();
    let old = feed_of(&["A", "B", "C"]);
    assert!(!store.has_changed(Some(&old), &feed_of(&["A", "B"])));
    assert!(!store.has_changed(Some(&old), &feed_of(&["A"])));
    assert!(!store.has_changed(Some(&old), &feed_of(&[])));
}

#[test]
fn same_entries_are_no_change() {
    let store = store_for_change();
    let old = feed_of(&["A", "B", "C"]);
    assert!(!store.has_changed(Some(&old), &feed_of(&["A", "B", "C"])));
    assert!(!store.has_changed(Some(&feed_of(&[])), &feed_of(&[])));
}

#[test]
fn an_entry_that_differs_in_place_is_a_change() {
    let store = store_for_change();
    let old = feed_of(&["A", "B"]);
    assert!(store.has_changed(Some(&old), &feed_of(&["A", "X"])));
    assert!(store.has_changed(Some(&old), &feed_of(&["X", "B"])));
    assert!(store.has_changed(Some(&old), &feed_of(&["B"])));
}

#[test]
fn more_entries_than_before_are_a_change() {
    let store = store_for_change();
    assert!(store.has_changed(Some(&feed_of(&["A"])), &feed_of(&["A", "B"])));
    assert!(store.has_changed(Some(&feed_of(&[])), &feed_of(&["A"])));
}

#[test]
fn a_new_entry_in_front_is_a_change() {
    let store = store_for_change();
    let old = feed_of(&["A", "B", "C"]);
    assert!(store.has_changed(Some(&old), &feed_of(&["N", "A", "B", "C"])));
    assert!(store.has_changed(Some(&old), &feed_of(&["N", "A", "B"])));
}

#[test]
fn every_field_of_an_entry_counts() {
    let store = store_for_change();
    let old = feed_of(&["A"]);
    let mut fresh = feed_of(&["A"]);
    fresh.entries[0].content = None;
    assert!(store.has_changed(Some(&old), &fresh));
    let mut fresh = feed_of(&["A"]);
    fresh.entries[0].authors.push(Person { name: "Bob".to_string() });
    assert!(store.has_changed(Some(&old), &fresh));
    let mut fresh = feed_of(&["A"]);
    fresh.entries[0].links[0].href.push('/');
    assert!(store.has_changed(Some(&old), &fresh));
    let mut fresh = feed_of(&["A"]);
    fresh.entries[0].published = Some(Timestamp { secs: 1_700_000_000, nanos: 1 });
    assert!(store.has_changed(Some(&old), &fresh));
    let mut fresh = feed_of(&["A"]);
    fresh.entries[0].updated = Some(Timestamp { secs: 0, nanos: 0 });
    assert!(store.has_changed(Some(&old), &fresh));
    let mut fresh = feed_of(&["A"]);
    fresh.entries[0].source = Some("https://example.org/feed".to_string());
    assert!(store.has_changed(Some(&old), &fresh));
    let mut fresh = feed_of(&["A"]);
    fresh.entries[0].title = None;
    assert!(store.has_changed(Some(&old), &fresh));
}

#[test]
fn feed_title_and_authors_do_not_count() {
    let store = store_for_change();
    let old = feed_of(&["A"]);
    let mut fresh = feed_of(&["A"]);
    fresh.title = Some("Renamed".to_string());
    fresh.authors.push(Person { name: "Bob".to_string() });
    assert!(!store.has_changed(Some(&old), &fresh));
}

#[test]
fn entries_compare_field_by_field() {
    let a = entry_named("A");
    assert!(a.same_as(&entry_named("A")));
    assert!(!a.same_as(&entry_named("B")));
}

use planet_mars::aggregate::trim_entries;
use planet_mars::feed_store::{tag_entries, CachedFeed, FeedStore};
use planet_mars::model::{Entry, Kept, Link, ParsedFeed, Person, Timestamp};

fn dated(title: &str, updated: Option<i64>, published: Option<i64>) -> Entry {
    Entry {
        title: Some(title.to_string()),
        content: None,
        authors: vec![],
        links: vec![],
        published: published.map(|secs| Timestamp { secs, nanos: 0 }),
        updated: updated.map(|secs| Timestamp { secs, nanos: 0 }),
        source: None,
    }
}

fn titles(entries: &[Entry]) -> Vec<String> {
    entries.iter().map(|e| e.title.clone().unwrap()).collect()
}

fn feed_named(name: &str, days: &[i64]) -> ParsedFeed {
    ParsedFeed {
        title: Some(name.to_string()),
        authors: vec![Person { name: format!("{name} team") }],
        entries: days
            .iter()
            .map(|day| Entry {
                title: Some(format!("{name}{day}")),
                content: Some(format!("<p>{name} on day {day}</p>")),
                authors: vec![],
                links: vec![Link { href: format!("https://example.org/{name}/{day}") }],
                published: None,
                updated: Some(Timestamp { secs: day * 86_400 + 43_200, nanos: 0 }),
                source: None,
            })
            .collect(),
    }
}

fn cached(url: &str, kept: Kept) -> CachedFeed {
    CachedFeed { url: url.to_string(), kept }
}

#[test]
fn entries_are_ordered_by_updated_newest_first() {
    let entries = vec![
        dated("old", Some(100), None),
        dated("new", Some(300), None),
        dated("mid", Some(200), None),
    ];
    assert_eq!(titles(&trim_entries(entries, 10)), vec!["new", "mid", "old"]);
}

#[test]
fn updated_goes_before_published() {
    let entries = vec![
        dated("published late", Some(100), Some(900)),
        dated("updated late", Some(500), Some(1)),
    ];
    assert_eq!(titles(&trim_entries(entries, 10)), vec!["updated late", "published late"]);
}

#[test]
fn entry_with_only_published_is_ordered_by_it() {
    let entries = vec![
        dated("a", Some(100), None),
        dated("b", None, Some(200)),
        dated("c", Some(300), None),
    ];
    assert_eq!(titles(&trim_entries(entries, 10)), vec!["c", "b", "a"]);
}

#[test]
fn entry_without_dates_comes_last() {
    let entries = vec![
        dated("undated", None, None),
        dated("a", Some(100), None),
        dated("b", None, Some(200)),
    ];
    assert_eq!(titles(&trim_entries(entries, 10)), vec!["b", "a", "undated"]);
}

#[test]
fn entry_dated_before_the_epoch_comes_after_undated_ones() {
    let entries = vec![dated("ancient", Some(-5), None), dated("undated", None, None)];
    assert_eq!(titles(&trim_entries(entries, 10)), vec!["undated", "ancient"]);
}

#[test]
fn nanoseconds_break_ties_of_seconds() {
    let mut early = dated("early", Some(100), None);
    early.updated = Some(Timestamp { secs: 100, nanos: 1 });
    let mut late = dated("late", Some(100), None);
    late.updated = Some(Timestamp { secs: 100, nanos: 2 });
    assert_eq!(titles(&trim_entries(vec![early, late], 10)), vec!["late", "early"]);
}

#[test]
fn entries_of_the_same_instant_keep_their_order() {
    let entries = vec![
        dated("first", Some(100), None),
        dated("newer", Some(200), None),
        dated("second", Some(100), None),
        dated("third", None, Some(100)),
    ];
    assert_eq!(titles(&trim_entries(entries, 10)), vec!["newer", "first", "second", "third"]);
}

#[test]
fn list_is_cut_to_the_bound() {
    let entries: Vec<Entry> = (0..10).map(|i| dated(&format!("e{i}"), Some(i), None)).collect();
    assert_eq!(titles(&trim_entries(entries.clone(), 3)), vec!["e9", "e8", "e7"]);
    assert_eq!(trim_entries(entries.clone(), 10).len(), 10);
    assert_eq!(trim_entries(entries.clone(), 11).len(), 10);
    assert_eq!(trim_entries(entries, 0).len(), 0);
    assert_eq!(trim_entries(Vec::new(), 5).len(), 0);
}

#[test]
fn sort_key_prefers_updated_then_published_then_epoch() {
    assert_eq!(dated("x", Some(7), Some(9)).sort_key(), Timestamp { secs: 7, nanos: 0 });
    assert_eq!(dated("x", None, Some(9)).sort_key(), Timestamp { secs: 9, nanos: 0 });
    assert_eq!(dated("x", None, None).sort_key(), Timestamp { secs: 0, nanos: 0 });
}

#[test]
fn timestamps_compare_by_seconds_then_nanoseconds() {
    let a = Timestamp { secs: 1, nanos: 999 };
    let b = Timestamp { secs: 2, nanos: 0 };
    assert!(a.is_before(&b));
    assert!(!b.is_before(&a));
    assert!(!a.is_before(&a));
    assert!(Timestamp { secs: -1, nanos: 0 }.is_before(&Timestamp { secs: 0, nanos: 0 }));
    assert!(Timestamp { secs: 2, nanos: 1 }.is_before(&Timestamp { secs: 2, nanos: 2 }));
}

#[test]
fn entries_are_tagged_with_their_feed() {
    let mut entries = vec![dated("a", Some(1), None), dated("b", Some(2), None)];
    entries[0].source = Some("elsewhere".to_string());
    tag_entries(&mut entries, &"https://example.org/feed".to_string());
    assert_eq!(titles(&entries), vec!["a", "b"]);
    assert!(entries.iter().all(|e| e.source.as_deref() == Some("https://example.org/feed")));
}

#[test]
fn two_feeds_give_the_five_most_recent_entries() {
    let store = FeedStore::new("cache");
    let a = "https://a.example.org/feed";
    let b = "https://b.example.org/feed";
    let feeds = vec![
        cached(a, Kept::Feed(feed_named("A", &[11, 9, 7, 5, 3, 1]))),
        cached(b, Kept::Feed(feed_named("B", &[16, 14, 12, 10, 8, 6, 4, 2]))),
    ];
    let (map, entries) = store.collect(feeds, 5);
    assert_eq!(titles(&entries), vec!["B16", "B14", "B12", "A11", "B10"]);
    let sources: Vec<&str> = entries.iter().map(|e| e.source.as_deref().unwrap()).collect();
    assert_eq!(sources, vec![b, b, b, a, b]);
    assert_eq!(map.get(a).unwrap().title.as_deref(), Some("A"));
    assert_eq!(map.get(b).unwrap().title.as_deref(), Some("B"));
    assert!(map.get(a).unwrap().entries.is_empty());
    assert_eq!(map.get(a).unwrap().authors, vec![Person { name: "A team".to_string() }]);
    assert!(entries.iter().all(|e| e.content.is_some() && e.links.len() == 1));
    assert!(map.get("https://c.example.org/feed").is_none());
}

#[test]
fn cutting_early_does_not_show() {
    let store = FeedStore::new("cache");
    let days: Vec<Vec<i64>> = vec![
        vec![28, 21, 14, 7, 1],
        vec![27, 20, 13, 6, 2],
        vec![26, 19, 12, 5, 3],
        vec![25, 18, 11, 4],
    ];
    let feeds: Vec<CachedFeed> = days
        .iter()
        .enumerate()
        .map(|(i, d)| {
            cached(&format!("https://f{i}.example.org/"), Kept::Feed(feed_named(&format!("F{i}x"), d)))
        })
        .collect();
    let mut all = Vec::new();
    for feed in &feeds {
        if let Kept::Feed(kept) = &feed.kept {
            let mut entries = kept.entries.clone();
            tag_entries(&mut entries, &feed.url);
            all.extend(entries);
        }
    }
    assert_eq!(all.len(), 19);
    for max in [0usize, 1, 2, 3, 4, 5, 19, 100] {
        let (_, entries) = store.collect(feeds.clone(), max);
        assert_eq!(entries, trim_entries(all.clone(), max));
        assert_eq!(entries.len(), max.min(19));
    }
    let (_, two) = store.collect(feeds, 2);
    assert_eq!(titles(&two), vec!["F0x28", "F1x27"]);
}

#[test]
fn huge_bound_keeps_everything() {
    let store = FeedStore::new("cache");
    let feeds = vec![cached("https://a.example.org/", Kept::Feed(feed_named("A", &[3, 2, 1])))];
    let (_, entries) = store.collect(feeds, usize::MAX);
    assert_eq!(titles(&entries), vec!["A3", "A2", "A1"]);
}

#[test]
fn feeds_that_do_not_load_are_passed_over() {
    let store = FeedStore::new("cache");
    let good = "https://good.example.org/feed";
    let feeds = vec![
        cached("https://missing.example.org/feed", Kept::Nothing),
        cached("https://broken.example.org/feed", Kept::NoFeed),
        cached(good, Kept::Feed(feed_named("G", &[2, 1]))),
    ];
    let (map, entries) = store.collect(feeds, 10);
    assert_eq!(titles(&entries), vec!["G2", "G1"]);
    assert!(map.get("https://missing.example.org/feed").is_none());
    assert!(map.get("https://broken.example.org/feed").is_none());
    assert!(map.get(good).is_some());
    assert_eq!(map.into_pairs().len(), 1);
}

#[test]
fn no_feeds_give_nothing() {
    let store = FeedStore::new("cache");
    let (map, entries) = store.collect(Vec::new(), 5);
    assert!(entries.is_empty());
    assert!(map.into_pairs().is_empty());
}

#[test]
fn later_feed_under_one_address_stands() {
    let store = FeedStore::new("cache");
    let url = "https://a.example.org/feed";
    let feeds = vec![
        cached(url, Kept::Feed(feed_named("First", &[1]))),
        cached(url, Kept::Feed(feed_named("Second", &[2]))),
    ];
    let (map, entries) = store.collect(feeds, 10);
    assert_eq!(titles(&entries), vec!["Second2", "First1"]);
    assert_eq!(map.get(url).unwrap().title.as_deref(), Some("Second"));
    assert_eq!(map.into_pairs().len(), 1);
}

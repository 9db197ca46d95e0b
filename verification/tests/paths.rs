use planet_mars::error::Error;
use planet_mars::feed_store::FeedStore;
use planet_mars::feed_url::FeedUrl;

#[test]
fn url_is_split_into_domain_path_and_query() {
    let url = FeedUrl::parse("HTTPS://Example.org/blog/feed.xml?tag=rust#top").unwrap();
    assert_eq!(url.text, "https://example.org/blog/feed.xml?tag=rust#top");
    assert_eq!(url.domain.as_deref(), Some("example.org"));
    assert_eq!(url.path, "/blog/feed.xml");
    assert_eq!(url.query.as_deref(), Some("tag=rust"));
}

#[test]
fn url_without_query_has_none() {
    let url = FeedUrl::parse("https://example.org/feed").unwrap();
    assert_eq!(url.query, None);
    assert_eq!(url.path, "/feed");
}

#[test]
fn text_that_is_no_url_is_rejected() {
    assert_eq!(FeedUrl::parse("not a url"), Err(Error::InvalidUrl));
    assert_eq!(FeedUrl::parse("/relative/feed.xml"), Err(Error::InvalidUrl));
    assert_eq!(FeedUrl::parse(""), Err(Error::InvalidUrl));
}

#[test]
fn paths_are_slug_in_directory_with_extensions() {
    let store = FeedStore::new("/var/cache/planet");
    let url = FeedUrl::parse("https://Example.org/blog/feed.xml?tag=rust").unwrap();
    let paths = store.paths_for(&url).unwrap();
    assert_eq!(paths.raw, "/var/cache/planet/example-org-blog-feed-xmltag-rust");
    assert_eq!(paths.parsed, "/var/cache/planet/example-org-blog-feed-xmltag-rust.ron");
    assert_eq!(paths.validators, "/var/cache/planet/example-org-blog-feed-xmltag-rust.toml");
    assert_eq!(store.feed_path(&url).unwrap(), paths.raw);
    assert_eq!(store.fetchdata_path(&url).unwrap(), paths.validators);
    assert_eq!(store.generic_path(&url, ".ron").unwrap(), paths.parsed);
}

#[test]
fn slug_is_lower_case_with_single_hyphens() {
    let url = FeedUrl::parse("https://news.example.com/A__B//C/?q=Ünï code&x=1").unwrap();
    let slug = FeedStore::slugify_url(&url).unwrap();
    assert!(slug.starts_with("news-example-com-a-b-c-"));
    assert!(slug.chars().all(|c| c.is_ascii_lowercase() || c.is_ascii_digit() || c == '-'));
    assert!(!slug.contains("--"));
    assert!(!slug.starts_with('-') && !slug.ends_with('-'));
}

#[test]
fn three_paths_of_a_feed_differ() {
    let store = FeedStore::new("cache");
    let url = FeedUrl::parse("https://example.org/feed").unwrap();
    let paths = store.paths_for(&url).unwrap();
    assert_ne!(paths.raw, paths.parsed);
    assert_ne!(paths.raw, paths.validators);
    assert_ne!(paths.parsed, paths.validators);
}

#[test]
fn same_url_gives_same_paths() {
    let store = FeedStore::new("cache");
    let first = store.paths_for(&FeedUrl::parse("https://example.org/feed?a=1").unwrap());
    let second = store.paths_for(&FeedUrl::parse("https://example.org/feed?a=1").unwrap());
    assert_eq!(first, second);
    assert!(first.is_ok());
}

#[test]
fn urls_that_differ_only_in_fragment_share_paths() {
    let store = FeedStore::new("cache");
    let plain = FeedUrl::parse("https://example.org/feed?a=1").unwrap();
    let marked = FeedUrl::parse("https://example.org/feed?a=1#section").unwrap();
    assert_ne!(plain.text, marked.text);
    assert_eq!(store.paths_for(&plain), store.paths_for(&marked));
}

#[test]
fn urls_with_different_paths_are_kept_apart() {
    let store = FeedStore::new("cache");
    let one = store.paths_for(&FeedUrl::parse("https://example.org/one.xml").unwrap()).unwrap();
    let two = store.paths_for(&FeedUrl::parse("https://example.org/two.xml").unwrap()).unwrap();
    assert_ne!(one.raw, two.raw);
    assert_ne!(one.parsed, two.parsed);
    assert_ne!(one.validators, two.validators);
}

#[test]
fn url_without_domain_has_no_paths() {
    let store = FeedStore::new("cache");
    let by_address = FeedUrl::parse("http://127.0.0.1/feed.xml").unwrap();
    assert_eq!(by_address.domain, None);
    assert_eq!(store.paths_for(&by_address), Err(Error::InvalidUrl));
    assert_eq!(store.feed_path(&by_address), Err(Error::InvalidUrl));
    assert_eq!(store.fetchdata_path(&by_address), Err(Error::InvalidUrl));
    assert_eq!(FeedStore::slugify_url(&by_address), Err(Error::InvalidUrl));
    let opaque = FeedUrl::parse("mailto:someone@example.org").unwrap();
    assert_eq!(store.paths_for(&opaque), Err(Error::InvalidUrl));
}

#[test]
fn store_keeps_its_directory() {
    assert_eq!(FeedStore::new("/srv/feeds").dir, "/srv/feeds");
    assert_eq!(FeedStore::new("").dir, "");
}

#[test]
fn errors_have_messages() {
    assert_eq!(Error::InvalidUrl.message(), "the feed's address is no URL with a domain");
    assert_ne!(Error::Storage.message(), Error::InvalidUrl.message());
}

fn words_joined(text: &str) -> String {
    text.split(|c: char| !c.is_ascii_alphanumeric())
        .filter(|word| !word.is_empty())
        .map(|word| word.to_ascii_lowercase())
        .collect::<Vec<String>>()
        .join("-")
}

#[test]
fn slug_of_an_ascii_address_is_its_words_with_hyphens() {
    for text in [
        "https://example.org/",
        "https://Example.ORG/Blog/Feed.XML?Tag=Rust&page=2",
        "http://a.b.c/--x__y..z//?==&&",
        "https://example.org/%C3%BC/feed?q=a%20b",
        "http://x/?",
        "ftp://files.example.net/pub/feeds/atom.xml",
        "http://_/0",
    ] {
        let url = FeedUrl::parse(text).unwrap();
        let source = format!(
            "{}{}{}",
            url.domain.clone().unwrap(),
            url.path,
            url.query.clone().unwrap_or_default()
        );
        assert!(source.is_ascii());
        assert_eq!(FeedStore::slugify_url(&url).unwrap(), words_joined(&source));
    }
    let url = FeedUrl::parse("http://a.b.c/--x__y..z//?==&&").unwrap();
    assert_eq!(FeedStore::slugify_url(&url).unwrap(), "a-b-c-x-y-z");
}

#[test]
fn slug_of_other_texts_is_written_out_in_ascii() {
    let url = FeedUrl {
        text: String::new(),
        domain: Some("Æúű".to_string()),
        path: "--cool?".to_string(),
        query: Some("You & Me".to_string()),
    };
    assert_eq!(FeedStore::slugify_url(&url).unwrap(), "aeuu-cool-you-me");
}

#[test]
fn addresses_with_different_words_are_kept_apart() {
    let store = FeedStore::new("cache");
    let texts = [
        "https://example.org/a/b",
        "https://example.org/ab",
        "https://example.org/a/b?c",
        "https://example.org/a/bc",
        "https://example.org/a?b",
    ];
    let mut raws = Vec::new();
    for text in texts {
        let paths = store.paths_for(&FeedUrl::parse(text).unwrap()).unwrap();
        raws.push(paths.raw);
    }
    assert_eq!(raws[0], "cache/example-org-a-b");
    assert_eq!(raws[1], "cache/example-org-ab");
    assert_eq!(raws[2], "cache/example-org-a-bc");
    assert_eq!(raws[3], "cache/example-org-a-bc");
    assert_eq!(raws[4], "cache/example-org-ab");
    assert_ne!(raws[0], raws[1]);
    assert_ne!(raws[0], raws[2]);
}

#[test]
fn address_without_letters_or_digits_has_an_empty_name() {
    let store = FeedStore::new("cache");
    let url = FeedUrl::parse("http://_/").unwrap();
    assert_eq!(FeedStore::slugify_url(&url).unwrap(), "");
    let paths = store.paths_for(&url).unwrap();
    assert_eq!(paths.raw, "cache/");
    assert_eq!(paths.parsed, "cache/.ron");
    assert_eq!(paths.validators, "cache/.toml");
}

//! The cache of fetched feeds: where each feed is kept, what is stored when a
//! response arrives, and what an aggregation takes from the cache.

use vstd::prelude::*;
use vstd::string::StringExecFns;
use crate::aggregate::{lemma_trimmed_append, lemma_trimmed_twice};
use crate::aggregate::{newest_first, trim_entries, trimmed};
use crate::change::changed;
use crate::durable::{after_write, backup_of, lemma_write_keeps_previous};
use crate::error::Error;
use crate::feed_map::FeedMap;
use crate::feed_url::{FeedUrl, FeedUrlView};
use crate::fetch_data::{FetchData, FetchDataView, Header, header_text, hv};
use crate::file_name::{file_name_of, has_alnum, is_ascii_text, is_slug_char, slug_shaped};
use crate::file_name::{lemma_slugs_apart, slugify, words};
use crate::fetch_data::{stored_validators, toml_text, validator_pairs};
use crate::model::{Entry, EntryView, Kept, KeptView, ParsedFeed, ParsedFeedView};
use crate::model::{entries_view, feed_view};

verus! {

/// The cache directory.
#[derive(Clone, Debug, PartialEq, Eq)]
pub struct FeedStore {
    pub dir: String,
}

/// The three files kept per feed.
#[derive(Clone, Debug, PartialEq, Eq)]
pub struct FeedPaths {
    /// The document as it was received.
    pub raw: String,
    /// The feed read from the document.
    pub parsed: String,
    /// The validators of the response that brought the document.
    pub validators: String,
}

/// The mathematical value of a [`FeedPaths`].
pub struct FeedPathsView {
    pub raw: Seq<char>,
    pub parsed: Seq<char>,
    pub validators: Seq<char>,
}

impl View for FeedPaths {
    type V = FeedPathsView;

    open spec fn view(&self) -> FeedPathsView {
        FeedPathsView { raw: self.raw@, parsed: self.parsed@, validators: self.validators@ }
    }
}

/// What the slug of an address is made from: domain, path and query, one
/// after the other. The rest of the address plays no part.
pub open spec fn slug_source(url: FeedUrlView) -> Seq<char> {
    url.domain.unwrap_or(Seq::empty()) + url.path + url.query.unwrap_or(Seq::empty())
}

/// The file name, without extension, under which an address is kept: the
/// slug of its domain, path and query.
pub open spec fn file_stem(url: FeedUrlView) -> Seq<char> {
    file_name_of(slug_source(url))
}

/// Whether the file name of an address is fit to stand in a path: it has
/// the shape of a slug, and it is not empty where domain, path and query
/// hold an ASCII letter or digit. Where they hold none the name may be empty;
/// the document's path is then the directory with a slash behind it, at
/// which no file can be written.
pub open spec fn stem_fits(url: FeedUrlView) -> bool {
    &&& slug_shaped(file_stem(url))
    &&& has_alnum(slug_source(url)) ==> file_stem(url).len() > 0
}

/// The path of a file in a directory.
pub open spec fn path_in(dir: Seq<char>, stem: Seq<char>, ext: Seq<char>) -> Seq<char> {
    dir + seq!['/'] + stem + ext
}

/// The three paths of a file name in a directory.
pub open spec fn paths_in(dir: Seq<char>, stem: Seq<char>) -> FeedPathsView {
    FeedPathsView {
        raw: path_in(dir, stem, Seq::empty()),
        parsed: path_in(dir, stem, ".ron"@),
        validators: path_in(dir, stem, ".toml"@),
    }
}

/// The three paths of a file name are three different paths.
pub proof fn lemma_paths_distinct(dir: Seq<char>, stem: Seq<char>)
    ensures
        paths_in(dir, stem).raw != paths_in(dir, stem).parsed,
        paths_in(dir, stem).raw != paths_in(dir, stem).validators,
        paths_in(dir, stem).parsed != paths_in(dir, stem).validators,
{
    reveal_strlit(".ron");
    reveal_strlit(".toml");
    assert(paths_in(dir, stem).raw.len() == dir.len() + 1 + stem.len());
    assert(paths_in(dir, stem).parsed.len() == dir.len() + 1 + stem.len() + 4);
    assert(paths_in(dir, stem).validators.len() == dir.len() + 1 + stem.len() + 5);
}

/// Two addresses with the same domain, path and query are kept in the same
/// files, whatever else sets them apart.
pub proof fn lemma_paths_by_domain_path_query(dir: Seq<char>, a: FeedUrlView, b: FeedUrlView)
    requires
        a.domain == b.domain,
        a.path == b.path,
        a.query == b.query,
    ensures
        paths_in(dir, file_stem(a)) == paths_in(dir, file_stem(b)),
{
}

/// In one directory two file names share a path only where they are the same
/// name: addresses are kept apart as far as their slugs are.
pub proof fn lemma_paths_apart(dir: Seq<char>, a: Seq<char>, b: Seq<char>)
    requires
        a != b,
    ensures
        paths_in(dir, a).raw != paths_in(dir, b).raw,
        paths_in(dir, a).parsed != paths_in(dir, b).parsed,
        paths_in(dir, a).validators != paths_in(dir, b).validators,
{
    reveal_strlit(".ron");
    reveal_strlit(".toml");
    let front = dir + seq!['/'];
    assert forall|ext: Seq<char>| path_in(dir, a, ext) == path_in(dir, b, ext) implies false by {
        let pa = path_in(dir, a, ext);
        let pb = path_in(dir, b, ext);
        assert(pa.len() == front.len() + a.len() + ext.len());
        assert(pb.len() == front.len() + b.len() + ext.len());
        assert(pa.subrange(front.len() as int, (front.len() + a.len()) as int) =~= a);
        assert(pb.subrange(front.len() as int, (front.len() + b.len()) as int) =~= b);
    }
}

/// Two addresses of ASCII characters whose domain, path and query differ in
/// their runs of letters and digits, case apart, are kept in different
/// files.
pub proof fn lemma_paths_by_words(dir: Seq<char>, a: FeedUrlView, b: FeedUrlView)
    requires
        is_ascii_text(slug_source(a)),
        is_ascii_text(slug_source(b)),
        words(slug_source(a)) != words(slug_source(b)),
    ensures
        file_stem(a) != file_stem(b),
        paths_in(dir, file_stem(a)).raw != paths_in(dir, file_stem(b)).raw,
        paths_in(dir, file_stem(a)).parsed != paths_in(dir, file_stem(b)).parsed,
        paths_in(dir, file_stem(a)).validators != paths_in(dir, file_stem(b)).validators,
{
    lemma_slugs_apart(slug_source(a), slug_source(b));
    lemma_paths_apart(dir, file_stem(a), file_stem(b));
}

/// In one directory the file of a parsed feed or of validators is never the
/// document of another name: a slug holds no dot.
pub proof fn lemma_paths_never_cross(dir: Seq<char>, a: Seq<char>, b: Seq<char>)
    requires
        slug_shaped(b),
    ensures
        paths_in(dir, a).parsed != paths_in(dir, b).raw,
        paths_in(dir, a).validators != paths_in(dir, b).raw,
{
    reveal_strlit(".ron");
    reveal_strlit(".toml");
    let front = dir + seq!['/'];
    let raw = paths_in(dir, b).raw;
    assert(raw.len() == front.len() + b.len());
    let parsed = paths_in(dir, a).parsed;
    assert(parsed.len() == front.len() + a.len() + 4);
    if parsed == raw {
        assert(parsed[(front.len() + a.len()) as int] == '.');
        assert(raw[(front.len() + a.len()) as int] == b[a.len() as int]);
    }
    let validators = paths_in(dir, a).validators;
    assert(validators.len() == front.len() + a.len() + 5);
    if validators == raw {
        assert(validators[(front.len() + a.len()) as int] == '.');
        assert(raw[(front.len() + a.len()) as int] == b[a.len() as int]);
    }
}

/// A name of the shape of a slug that is not empty makes a path straight
/// below the directory: behind the directory and its slash stand only the
/// characters of a slug, the first of them a letter or a digit.
pub proof fn lemma_document_lies_in_directory(dir: Seq<char>, stem: Seq<char>)
    requires
        slug_shaped(stem),
        stem.len() > 0,
    ensures
        paths_in(dir, stem).raw.len() == dir.len() + 1 + stem.len(),
        paths_in(dir, stem).raw.subrange(0, dir.len() as int) == dir,
        paths_in(dir, stem).raw[dir.len() as int] == '/',
        paths_in(dir, stem).raw[(dir.len() + 1) as int] != '-',
        forall|i: int|
            dir.len() < i < paths_in(dir, stem).raw.len() ==> is_slug_char(
                #[trigger] paths_in(dir, stem).raw[i],
            ),
{
    let raw = paths_in(dir, stem).raw;
    assert(raw.subrange(0, dir.len() as int) =~= dir);
    assert(raw[(dir.len() + 1) as int] == stem[0]);
    assert forall|i: int| dir.len() < i < raw.len() implies is_slug_char(#[trigger] raw[i]) by {
        assert(raw[i] == stem[i - dir.len() - 1]);
    }
}

impl FeedStore {
    /// A cache in the directory `dir`.
    pub fn new(dir: &str) -> (r: FeedStore)
        ensures
            r.dir@ == dir@,
    {
        FeedStore { dir: dir.to_owned() }
    }

    /// The file name, without extension, of an address. Fails with
    /// [`Error::InvalidUrl`] exactly where the address names no domain.
    pub fn slugify_url(url: &FeedUrl) -> (r: Result<String, Error>)
        ensures
            match r {
                Ok(stem) => url@.domain is Some && stem@ == file_stem(url@) && stem_fits(url@),
                Err(e) => url@.domain is None && e == Error::InvalidUrl,
            },
    {
        match &url.domain {
            None => Err(Error::InvalidUrl),
            Some(domain) => {
                let mut source = domain.clone();
                source.append(url.path.as_str());
                match &url.query {
                    Some(query) => {
                        source.append(query.as_str());
                    },
                    None => {
                        assert(source@ + Seq::<char>::empty() =~= source@);
                    },
                }
                Ok(slugify(source.as_str()))
            },
        }
    }

    /// The path of the file with extension `ext` that is kept for an address.
    /// Fails with [`Error::InvalidUrl`] exactly where the address names no
    /// domain.
    pub fn generic_path(&self, url: &FeedUrl, ext: &str) -> (r: Result<String, Error>)
        ensures
            match r {
                Ok(path) => url@.domain is Some && stem_fits(url@) && path@ == path_in(
                    self.dir@,
                    file_stem(url@),
                    ext@,
                ),
                Err(e) => url@.domain is None && e == Error::InvalidUrl,
            },
    {
        match Self::slugify_url(url) {
            Err(e) => Err(e),
            Ok(stem) => {
                let mut path = self.dir.clone();
                proof {
                    reveal_strlit("/");
                    assert("/"@ =~= seq!['/']);
                }
                path.append("/");
                path.append(stem.as_str());
                path.append(ext);
                Ok(path)
            },
        }
    }

    /// The path of the document kept for an address.
    pub fn feed_path(&self, url: &FeedUrl) -> (r: Result<String, Error>)
        ensures
            match r {
                Ok(path) => url@.domain is Some && stem_fits(url@) && path@ == paths_in(
                    self.dir@,
                    file_stem(url@),
                ).raw,
                Err(e) => url@.domain is None && e == Error::InvalidUrl,
            },
    {
        proof {
            reveal_strlit("");
            assert(""@ =~= Seq::<char>::empty());
        }
        self.generic_path(url, "")
    }

    /// The path of the validators kept for an address.
    pub fn fetchdata_path(&self, url: &FeedUrl) -> (r: Result<String, Error>)
        ensures
            match r {
                Ok(path) => url@.domain is Some && stem_fits(url@) && path@ == paths_in(
                    self.dir@,
                    file_stem(url@),
                ).validators,
                Err(e) => url@.domain is None && e == Error::InvalidUrl,
            },
    {
        self.generic_path(url, ".toml")
    }

    /// The paths of the three files kept for an address. Fails with
    /// [`Error::InvalidUrl`] exactly where the address names no domain.
    pub fn paths_for(&self, url: &FeedUrl) -> (r: Result<FeedPaths, Error>)
        ensures
            match r {
                Ok(paths) => url@.domain is Some && stem_fits(url@) && paths@
                    == paths_in(self.dir@, file_stem(url@)),
                Err(e) => url@.domain is None && e == Error::InvalidUrl,
            },
    {
        let raw = match self.feed_path(url) {
            Ok(path) => path,
            Err(e) => {
                return Err(e);
            },
        };
        let parsed = match self.generic_path(url, ".ron") {
            Ok(path) => path,
            Err(e) => {
                return Err(e);
            },
        };
        let validators = match self.fetchdata_path(url) {
            Ok(path) => path,
            Err(e) => {
                return Err(e);
            },
        };
        Ok(FeedPaths { raw, parsed, validators })
    }
}

/// What a store operation writes to a file.
#[derive(Clone, Debug, PartialEq, Eq)]
pub enum Artifact {
    /// The feed read from the document, to be written in its serialized form.
    Parsed(ParsedFeed),
    /// The document as it was received.
    Raw(Vec<u8>),
    /// The validators, as the text of their file.
    Validators(String),
}

/// A file that a store operation writes.
#[derive(Clone, Debug, PartialEq, Eq)]
pub struct StoredFile {
    pub path: String,
    pub artifact: Artifact,
}

/// The mathematical value of an [`Artifact`].
pub enum ArtifactView {
    Parsed(ParsedFeedView),
    Raw(Seq<u8>),
    Validators(Seq<char>),
}

/// The mathematical value of a [`StoredFile`].
pub struct StoredFileView {
    pub path: Seq<char>,
    pub artifact: ArtifactView,
}

impl View for Artifact {
    type V = ArtifactView;

    open spec fn view(&self) -> ArtifactView {
        match *self {
            Artifact::Parsed(feed) => ArtifactView::Parsed(feed@),
            Artifact::Raw(body) => ArtifactView::Raw(body@),
            Artifact::Validators(text) => ArtifactView::Validators(text@),
        }
    }
}

impl View for StoredFile {
    type V = StoredFileView;

    open spec fn view(&self) -> StoredFileView {
        StoredFileView { path: self.path@, artifact: self.artifact@ }
    }
}

/// The values of a list of files.
pub open spec fn files_view(files: Seq<StoredFile>) -> Seq<StoredFileView> {
    files.map_values(|f: StoredFile| f@)
}

/// The validators a response carries: its `ETag` and its `Last-Modified`
/// header, each empty where the response has none.
pub open spec fn response_validators(headers: Seq<Header>) -> FetchDataView {
    FetchDataView {
        etag: header_text(headers, "etag"@),
        last_modified: header_text(headers, "last-modified"@),
    }
}

/// The files of a feed that is stored, in the order in which they are
/// written: the parsed feed, the document, the validators.
pub open spec fn files_to_store(
    paths: FeedPathsView,
    feed: ParsedFeedView,
    body: Seq<u8>,
    validators: Seq<char>,
) -> Seq<StoredFileView> {
    seq![
        StoredFileView { path: paths.parsed, artifact: ArtifactView::Parsed(feed) },
        StoredFileView { path: paths.raw, artifact: ArtifactView::Raw(body) },
        StoredFileView { path: paths.validators, artifact: ArtifactView::Validators(validators) },
    ]
}

/// The entries of an optional feed.
pub open spec fn entries_of(feed: Option<ParsedFeedView>) -> Option<Seq<EntryView>> {
    match feed {
        Some(f) => Some(f.entries),
        None => None,
    }
}

/// What storing a response comes to, given what the parser made of the
/// document received (`fresh`) and of the document kept (`kept`). A document
/// that is no feed is passed over, and so is a feed that brings nothing new:
/// nothing is written. A feed that has changed is written with its document
/// and the validators of the response. The address must name a domain, and
/// what the cache holds for it must be a feed.
pub open spec fn store_outcome(
    dir: Seq<char>,
    url: FeedUrlView,
    headers: Seq<Header>,
    body: Seq<u8>,
    fresh: Option<ParsedFeedView>,
    kept: KeptView,
) -> Result<Seq<StoredFileView>, Error> {
    match fresh {
        None => Ok(Seq::empty()),
        Some(fresh) => if url.domain is None {
            Err(Error::InvalidUrl)
        } else {
            match load_outcome(kept) {
                Err(e) => Err(e),
                Ok(kept) => if !changed(entries_of(kept), fresh.entries) {
                    Ok(Seq::empty())
                } else {
                    match toml_text(validator_pairs(response_validators(headers))) {
                        None => Err(Error::Storage),
                        Some(text) => Ok(
                            files_to_store(paths_in(dir, file_stem(url)), fresh, body, text),
                        ),
                    }
                },
            }
        },
    }
}

/// What loading the feed kept for an address comes to: nothing where no
/// document is kept, the feed read from the document where it is one, and a
/// failure where the document is no feed.
pub open spec fn load_outcome(kept: KeptView) -> Result<Option<ParsedFeedView>, Error> {
    match kept {
        KeptView::Nothing => Ok(None),
        KeptView::Feed(feed) => Ok(Some(feed)),
        KeptView::NoFeed => Err(Error::Storage),
    }
}

impl FeedStore {
    /// Loads the feed kept for an address from what the parser made of the
    /// kept document. Fails with [`Error::Storage`] exactly where a document
    /// is kept that is no feed.
    pub fn load_feed(&self, kept: Kept) -> (r: Result<Option<ParsedFeed>, Error>)
        ensures
            match r {
                Ok(feed) => load_outcome(kept@) == Ok::<Option<ParsedFeedView>, Error>(
                    feed_view(feed),
                ),
                Err(e) => load_outcome(kept@) == Err::<Option<ParsedFeedView>, Error>(e),
            },
    {
        match kept {
            Kept::Nothing => Ok(None),
            Kept::Feed(feed) => Ok(Some(feed)),
            Kept::NoFeed => Err(Error::Storage),
        }
    }

    /// The validators to send with the next request for a feed. `stored` is
    /// the text of the validators file, `None` where there is no such file:
    /// then both validators are empty. Fails with [`Error::Storage`] exactly
    /// where the file is malformed.
    pub fn load_fetchdata(&self, stored: Option<&str>) -> (r: Result<FetchData, Error>)
        ensures
            match stored {
                None => r is Ok && r.unwrap()@.etag.len() == 0 && r.unwrap()@.last_modified.len()
                    == 0,
                Some(text) => match r {
                    Ok(data) => stored_validators(text@) == Some(data@),
                    Err(e) => stored_validators(text@) is None && e == Error::Storage,
                },
            },
    {
        match stored {
            None => Ok(FetchData::default()),
            Some(text) => FetchData::from_toml(text),
        }
    }

    /// Decides what a response with status 200 leaves in the cache. `body` is
    /// the document received and `fresh` what the parser made of it, `None`
    /// where it is no feed; `kept` is what the parser made of the document
    /// kept for the address. Both are to be read as they are, without
    /// sanitizing, which would hide changes. Returns the files to write, in
    /// order; none where nothing is to be stored.
    pub fn store(
        &self,
        url: &FeedUrl,
        headers: &Vec<Header>,
        body: Vec<u8>,
        fresh: Option<ParsedFeed>,
        kept: Kept,
    ) -> (r: Result<Vec<StoredFile>, Error>)
        ensures
            match r {
                Ok(files) => store_outcome(
                    self.dir@,
                    url@,
                    headers@,
                    body@,
                    feed_view(fresh),
                    kept@,
                ) == Ok::<Seq<StoredFileView>, Error>(files_view(files@)),
                Err(e) => store_outcome(self.dir@, url@, headers@, body@, feed_view(fresh), kept@)
                    == Err::<Seq<StoredFileView>, Error>(e),
            },
    {
        let fetchdata = FetchData {
            etag: hv(headers, "etag"),
            last_modified: hv(headers, "last-modified"),
        };
        let feed = match fresh {
            Some(feed) => feed,
            None => {
                let nothing: Vec<StoredFile> = Vec::new();
                assert(files_view(nothing@) =~= Seq::empty());
                return Ok(nothing);
            },
        };
        let paths = match self.paths_for(url) {
            Ok(paths) => paths,
            Err(e) => {
                return Err(e);
            },
        };
        let kept = match self.load_feed(kept) {
            Ok(kept) => kept,
            Err(e) => {
                return Err(e);
            },
        };
        let unchanged = match &kept {
            Some(old) => !self.has_changed(Some(old), &feed),
            None => !self.has_changed(None, &feed),
        };
        if unchanged {
            let nothing: Vec<StoredFile> = Vec::new();
            assert(files_view(nothing@) =~= Seq::empty());
            return Ok(nothing);
        }
        let validators = match fetchdata.to_toml() {
            Ok(text) => text,
            Err(e) => {
                return Err(e);
            },
        };
        let ghost plan = files_to_store(paths@, feed@, body@, validators@);
        let mut files: Vec<StoredFile> = Vec::new();
        files.push(StoredFile { path: paths.parsed, artifact: Artifact::Parsed(feed) });
        files.push(StoredFile { path: paths.raw, artifact: Artifact::Raw(body) });
        files.push(StoredFile { path: paths.validators, artifact: Artifact::Validators(validators) });
        assert(files_view(files@) =~= plan);
        Ok(files)
    }
}

/// What the cache holds for one of the feeds that are aggregated.
#[derive(Clone, Debug, PartialEq, Eq)]
pub struct CachedFeed {
    /// The address as the configuration gives it.
    pub url: String,
    /// What the parser made of the document kept for the address, read with
    /// unsafe markup removed, as it is shown.
    pub kept: Kept,
}

/// An entry marked with the address of its feed.
pub open spec fn tagged(e: EntryView, url: Seq<char>) -> EntryView {
    EntryView { source: Some(url), ..e }
}

/// The entries of a feed, each marked with the address of the feed.
pub open spec fn tagged_all(entries: Seq<EntryView>, url: Seq<char>) -> Seq<EntryView> {
    entries.map_values(|e: EntryView| tagged(e, url))
}

/// The feed an aggregation loads for a configured feed: `None` where no
/// document is kept or where it is no feed.
pub open spec fn loaded(cached: CachedFeed) -> Option<ParsedFeedView> {
    match load_outcome(cached.kept@) {
        Ok(feed) => feed,
        Err(_) => None,
    }
}

/// The entries of all feeds that load, feed after feed in the order of the
/// configuration, each entry marked with the address of its feed.
pub open spec fn gathered(cached: Seq<CachedFeed>) -> Seq<EntryView>
    decreases cached.len(),
{
    if cached.len() == 0 {
        Seq::empty()
    } else {
        gathered(cached.drop_last()) + match loaded(cached.last()) {
            Some(feed) => tagged_all(feed.entries, cached.last().url@),
            None => Seq::empty(),
        }
    }
}

/// A feed without its entries.
pub open spec fn head_of(feed: ParsedFeedView) -> ParsedFeedView {
    ParsedFeedView { entries: Seq::empty(), ..feed }
}

/// The feeds that load, by address, each without its entries. Of two feeds
/// under one address the later one stands.
pub open spec fn feeds_of(cached: Seq<CachedFeed>) -> Map<Seq<char>, ParsedFeedView>
    decreases cached.len(),
{
    if cached.len() == 0 {
        Map::empty()
    } else {
        match loaded(cached.last()) {
            Some(feed) => feeds_of(cached.drop_last()).insert(cached.last().url@, head_of(feed)),
            None => feeds_of(cached.drop_last()),
        }
    }
}

/// Every entry that is gathered is marked with the address of one of the
/// feeds.
pub proof fn lemma_gathered_tagged(cached: Seq<CachedFeed>, i: int)
    requires
        0 <= i < gathered(cached).len(),
    ensures
        exists|k: int|
            0 <= k < cached.len() && gathered(cached)[i].source == Some((#[trigger] cached[k]).url@),
    decreases cached.len(),
{
    if cached.len() != 0 {
        let front = cached.drop_last();
        if i < gathered(front).len() {
            lemma_gathered_tagged(front, i);
            let k = choose|k: int|
                0 <= k < front.len() && gathered(front)[i].source == Some(
                    (#[trigger] front[k]).url@,
                );
            assert(cached[k] == front[k]);
        } else {
            assert(gathered(cached)[i].source == Some(cached[cached.len() - 1].url@));
        }
    }
}

/// Storing writes all three files of a feed, each to a path of its own, or
/// none.
pub proof fn lemma_store_all_or_nothing(
    dir: Seq<char>,
    url: FeedUrlView,
    headers: Seq<Header>,
    body: Seq<u8>,
    fresh: Option<ParsedFeedView>,
    kept: KeptView,
)
    ensures
        store_outcome(dir, url, headers, body, fresh, kept) matches Ok(files) ==> files.len() == 0
            || {
            &&& files.len() == 3
            &&& files[0].path != files[1].path
            &&& files[0].path != files[2].path
            &&& files[1].path != files[2].path
            &&& files[0].artifact is Parsed
            &&& files[1].artifact == ArtifactView::Raw(body)
            &&& files[2].artifact is Validators
        },
{
    lemma_paths_distinct(dir, file_stem(url));
}

/// A feed that is kept already is not stored again, whatever the headers
/// of the response that brought it a second time.
pub proof fn lemma_kept_feed_is_not_stored_again(
    dir: Seq<char>,
    url: FeedUrlView,
    headers: Seq<Header>,
    body: Seq<u8>,
    feed: ParsedFeedView,
)
    requires
        url.domain is Some,
    ensures
        store_outcome(dir, url, headers, body, Some(feed), KeptView::Feed(feed)) == Ok::<
            Seq<StoredFileView>,
            Error,
        >(Seq::empty()),
{
    assert(feed.entries.is_prefix_of(feed.entries));
}

/// The first feed of an address is stored: its three files are written, the
/// document byte for byte and the validators made from the headers of the
/// response. The address must name a domain, and the validators must have a
/// stored form.
pub proof fn lemma_first_feed_is_stored(
    dir: Seq<char>,
    url: FeedUrlView,
    headers: Seq<Header>,
    body: Seq<u8>,
    feed: ParsedFeedView,
    text: Seq<char>,
)
    requires
        url.domain is Some,
        toml_text(validator_pairs(response_validators(headers))) == Some(text),
    ensures
        store_outcome(dir, url, headers, body, Some(feed), KeptView::Nothing) == Ok::<
            Seq<StoredFileView>,
            Error,
        >(files_to_store(paths_in(dir, file_stem(url)), feed, body, text)),
{
}

/// A feed that brings an entry in front of those kept is stored, with all
/// its entries, the new document and the new validators. The address must
/// name a domain, and the validators must have a stored form.
pub proof fn lemma_feed_with_new_entry_is_stored(
    dir: Seq<char>,
    url: FeedUrlView,
    headers: Seq<Header>,
    body: Seq<u8>,
    feed: ParsedFeedView,
    kept: ParsedFeedView,
    text: Seq<char>,
)
    requires
        url.domain is Some,
        toml_text(validator_pairs(response_validators(headers))) == Some(text),
        feed.entries.len() == kept.entries.len() + 1,
        feed.entries.drop_first() == kept.entries,
    ensures
        store_outcome(dir, url, headers, body, Some(feed), KeptView::Feed(kept)) == Ok::<
            Seq<StoredFileView>,
            Error,
        >(files_to_store(paths_in(dir, file_stem(url)), feed, body, text)),
{
}

/// A directory after the three files of a feed were written to it, each
/// with [`FeedStore::write`], in the order of a store operation.
pub open spec fn after_store(
    files: Map<Seq<char>, Seq<u8>>,
    paths: FeedPathsView,
    parsed: Seq<u8>,
    raw: Seq<u8>,
    validators: Seq<u8>,
) -> Map<Seq<char>, Seq<u8>> {
    after_write(
        after_write(after_write(files, paths.parsed, parsed), paths.raw, raw),
        paths.validators,
        validators,
    )
}

/// Once the files of a store operation are written, each of the three holds
/// what was written to it, and what each held before is in its backup: the
/// writes do not get in each other's way.
pub proof fn lemma_store_keeps_one_generation(
    files: Map<Seq<char>, Seq<u8>>,
    dir: Seq<char>,
    stem: Seq<char>,
    parsed: Seq<u8>,
    raw: Seq<u8>,
    validators: Seq<u8>,
)
    ensures
        ({
            let paths = paths_in(dir, stem);
            let end = after_store(files, paths, parsed, raw, validators);
            &&& end.contains_key(paths.parsed) && end[paths.parsed] == parsed
            &&& end.contains_key(paths.raw) && end[paths.raw] == raw
            &&& end.contains_key(paths.validators) && end[paths.validators] == validators
            &&& files.contains_key(paths.parsed) ==> end.contains_key(backup_of(paths.parsed))
                && end[backup_of(paths.parsed)] == files[paths.parsed]
            &&& files.contains_key(paths.raw) ==> end.contains_key(backup_of(paths.raw))
                && end[backup_of(paths.raw)] == files[paths.raw]
            &&& files.contains_key(paths.validators) ==> end.contains_key(
                backup_of(paths.validators),
            ) && end[backup_of(paths.validators)] == files[paths.validators]
        }),
{
    reveal_strlit(".ron");
    reveal_strlit(".toml");
    reveal_strlit(".backup");
    let paths = paths_in(dir, stem);
    let base = dir.len() + 1 + stem.len();
    assert(paths.raw.len() == base);
    assert(paths.parsed.len() == base + 4);
    assert(paths.validators.len() == base + 5);
    assert(backup_of(paths.raw).len() == base + 7);
    assert(backup_of(paths.parsed).len() == base + 11);
    assert(backup_of(paths.validators).len() == base + 12);
    let one = after_write(files, paths.parsed, parsed);
    let two = after_write(one, paths.raw, raw);
    let end = after_write(two, paths.validators, validators);
    lemma_write_keeps_previous(files, paths.parsed, parsed);
    lemma_write_keeps_previous(one, paths.raw, raw);
    lemma_write_keeps_previous(two, paths.validators, validators);
    lemma_untouched(files, one, paths.parsed, paths.raw);
    lemma_untouched(files, one, paths.parsed, paths.validators);
    lemma_untouched(one, two, paths.raw, paths.parsed);
    lemma_untouched(one, two, paths.raw, backup_of(paths.parsed));
    lemma_untouched(one, two, paths.raw, paths.validators);
    lemma_untouched(two, end, paths.validators, paths.parsed);
    lemma_untouched(two, end, paths.validators, backup_of(paths.parsed));
    lemma_untouched(two, end, paths.validators, paths.raw);
    lemma_untouched(two, end, paths.validators, backup_of(paths.raw));
}

/// A write to one path leaves every path but that one and its backup as it
/// was.
proof fn lemma_untouched(
    before: Map<Seq<char>, Seq<u8>>,
    after: Map<Seq<char>, Seq<u8>>,
    path: Seq<char>,
    other: Seq<char>,
)
    requires
        after.remove(path).remove(backup_of(path)) == before.remove(path).remove(backup_of(path)),
        other != path,
        other != backup_of(path),
    ensures
        after.contains_key(other) == before.contains_key(other),
        before.contains_key(other) ==> after[other] == before[other],
{
    let a = after.remove(path).remove(backup_of(path));
    let b = before.remove(path).remove(backup_of(path));
    assert(a.contains_key(other) == after.contains_key(other));
    assert(b.contains_key(other) == before.contains_key(other));
    if before.contains_key(other) {
        assert(a[other] == after[other]);
        assert(b[other] == before[other]);
    }
}

/// Marks each entry with the address of its feed.
pub fn tag_entries(entries: &mut Vec<Entry>, url: &String)
    ensures
        entries_view(final(entries)@) == tagged_all(entries_view(old(entries)@), url@),
{
    let mut i: usize = 0;
    while i < entries.len()
        invariant
            i <= entries.len(),
            entries.len() == old(entries).len(),
            forall|j: int| 0 <= j < i ==> (#[trigger] entries@[j])@ == tagged(old(entries)@[j]@, url@),
            forall|j: int| i <= j < entries.len() ==> #[trigger] entries@[j] == old(entries)@[j],
        decreases entries.len() - i,
    {
        entries[i].source = Some(url.clone());
        i += 1;
    }
    assert(entries_view(entries@) =~= tagged_all(entries_view(old(entries)@), url@));
}

impl FeedStore {
    /// Merges the cached feeds into one list of at most `max_entries`
    /// entries, the most recent first, each marked with the address of its
    /// feed; and hands out the feeds themselves by address. Feeds that do not
    /// load are passed over.
    ///
    /// The list is cut down whenever it grows beyond four times the bound.
    /// That keeps it short and does not show in the result.
    pub fn collect(&self, cached: Vec<CachedFeed>, max_entries: usize) -> (r: (
        FeedMap,
        Vec<Entry>,
    ))
        ensures
            r.0@ == feeds_of(cached@),
            entries_view(r.1@) == trimmed(gathered(cached@), max_entries as nat),
            newest_first(entries_view(r.1@)),
            r.1@.len() <= max_entries,
    {
        let ghost given = cached@;
        let ghost mut done: int = 0;
        let mut rest = cached;
        let mut feeds = FeedMap::new();
        let mut entries: Vec<Entry> = Vec::new();
        let limit = max_entries.checked_mul(4);
        proof {
            assert(given.take(0) =~= Seq::empty());
            assert(given.skip(0) =~= given);
        }
        while rest.len() > 0
            invariant
                0 <= done <= given.len(),
                rest@ == given.skip(done),
                feeds@ == feeds_of(given.take(done)),
                trimmed(entries_view(entries@), max_entries as nat) == trimmed(
                    gathered(given.take(done)),
                    max_entries as nat,
                ),
            decreases rest.len(),
        {
            let ghost so_far = gathered(given.take(done));
            let CachedFeed { url, kept } = rest.remove(0);
            proof {
                assert(given.skip(done)[0] == given[done]);
                assert(given.take(done + 1).drop_last() =~= given.take(done));
                assert(given.take(done + 1).last() == given[done]);
                assert(rest@ =~= given.skip(done + 1));
            }
            let loaded = match self.load_feed(kept) {
                Ok(feed) => feed,
                Err(_) => None,
            };
            match loaded {
                None => {
                    assert(so_far + Seq::<EntryView>::empty() =~= so_far);
                },
                Some(feed) => {
                    let ghost before = entries_view(entries@);
                    let ParsedFeed { title, authors, entries: mut own } = feed;
                    tag_entries(&mut own, &url);
                    let ghost added = entries_view(own@);
                    entries.append(&mut own);
                    feeds.insert(url, ParsedFeed { title, authors, entries: own });
                    proof {
                        assert(entries_view(entries@) =~= before + added);
                        lemma_trimmed_append(before, so_far, added, max_entries as nat);
                        assert(entries_view(own@) =~= Seq::<EntryView>::empty());
                    }
                    let over = match limit {
                        Some(most) => entries.len() > most,
                        None => false,
                    };
                    if over {
                        proof {
                            lemma_trimmed_twice(entries_view(entries@), max_entries as nat);
                        }
                        entries = trim_entries(entries, max_entries);
                    }
                },
            }
            proof {
                done = done + 1;
            }
        }
        assert(given.take(done) =~= given);
        let newest = trim_entries(entries, max_entries);
        (feeds, newest)
    }
}

} // verus!

//! The feeds of an aggregation, found by the address they were loaded for.

use vstd::prelude::*;
use crate::model::{ParsedFeed, ParsedFeedView};

verus! {

/// The map a list of pairs stands for: each address with the feed of the
/// last pair that names it.
pub open spec fn map_of_pairs(pairs: Seq<(String, ParsedFeed)>) -> Map<Seq<char>, ParsedFeedView>
    decreases pairs.len(),
{
    if pairs.len() == 0 {
        Map::empty()
    } else {
        map_of_pairs(pairs.drop_last()).insert(pairs.last().0@, pairs.last().1@)
    }
}

/// Whether no two pairs name the same address.
pub open spec fn distinct_urls(pairs: Seq<(String, ParsedFeed)>) -> bool {
    forall|i: int, j: int|
        0 <= i < j < pairs.len() ==> (#[trigger] pairs[i]).0@ != (#[trigger] pairs[j]).0@
}

proof fn lemma_absent(pairs: Seq<(String, ParsedFeed)>, url: Seq<char>)
    requires
        forall|i: int| 0 <= i < pairs.len() ==> (#[trigger] pairs[i]).0@ != url,
    ensures
        !map_of_pairs(pairs).contains_key(url),
    decreases pairs.len(),
{
    if pairs.len() != 0 {
        let front = pairs.drop_last();
        assert forall|i: int| 0 <= i < front.len() implies (#[trigger] front[i]).0@ != url by {
            assert(front[i] == pairs[i]);
        }
        lemma_absent(front, url);
        assert(pairs.last() == pairs[pairs.len() - 1]);
    }
}

proof fn lemma_present(pairs: Seq<(String, ParsedFeed)>, at: int)
    requires
        distinct_urls(pairs),
        0 <= at < pairs.len(),
    ensures
        map_of_pairs(pairs).contains_key(pairs[at].0@),
        map_of_pairs(pairs)[pairs[at].0@] == pairs[at].1@,
    decreases pairs.len(),
{
    let front = pairs.drop_last();
    if at < pairs.len() - 1 {
        assert forall|i: int, j: int| 0 <= i < j < front.len() implies (#[trigger] front[i]).0@ != (
        #[trigger] front[j]).0@ by {
            assert(front[i] == pairs[i] && front[j] == pairs[j]);
        }
        assert(front[at] == pairs[at]);
        lemma_present(front, at);
        assert(pairs.last() == pairs[pairs.len() - 1]);
    }
}

proof fn lemma_replaced(pairs: Seq<(String, ParsedFeed)>, at: int, url: String, feed: ParsedFeed)
    requires
        distinct_urls(pairs),
        0 <= at < pairs.len(),
        pairs[at].0@ == url@,
    ensures
        distinct_urls(pairs.update(at, (url, feed))),
        map_of_pairs(pairs.update(at, (url, feed))) == map_of_pairs(pairs).insert(url@, feed@),
    decreases pairs.len(),
{
    let after = pairs.update(at, (url, feed));
    assert forall|i: int, j: int| 0 <= i < j < after.len() implies (#[trigger] after[i]).0@ != (
    #[trigger] after[j]).0@ by {
        assert(after[i].0@ == pairs[i].0@ && after[j].0@ == pairs[j].0@);
    }
    let front = pairs.drop_last();
    if at == pairs.len() - 1 {
        assert(after.drop_last() =~= front);
        assert(map_of_pairs(after) =~= map_of_pairs(pairs).insert(url@, feed@));
    } else {
        assert forall|i: int, j: int| 0 <= i < j < front.len() implies (#[trigger] front[i]).0@ != (
        #[trigger] front[j]).0@ by {
            assert(front[i] == pairs[i] && front[j] == pairs[j]);
        }
        assert(front[at] == pairs[at]);
        lemma_replaced(front, at, url, feed);
        assert(after.drop_last() =~= front.update(at, (url, feed)));
        assert(after.last() == pairs.last());
        assert(pairs.last() == pairs[pairs.len() - 1]);
        assert(map_of_pairs(after) =~= map_of_pairs(pairs).insert(url@, feed@));
    }
}

/// Feeds by address, each address at most once.
pub struct FeedMap {
    pairs: Vec<(String, ParsedFeed)>,
}

impl View for FeedMap {
    type V = Map<Seq<char>, ParsedFeedView>;

    closed spec fn view(&self) -> Map<Seq<char>, ParsedFeedView> {
        map_of_pairs(self.pairs@)
    }
}

/// Where a list of pairs names an address.
fn position(pairs: &Vec<(String, ParsedFeed)>, url: &str) -> (r: Option<usize>)
    ensures
        match r {
            Some(at) => at < pairs.len() && pairs@[at as int].0@ == url@,
            None => forall|i: int| 0 <= i < pairs.len() ==> (#[trigger] pairs@[i]).0@ != url@,
        },
{
    let wanted = url.to_owned();
    let mut i: usize = 0;
    while i < pairs.len()
        invariant
            i <= pairs.len(),
            wanted@ == url@,
            forall|j: int| 0 <= j < i ==> (#[trigger] pairs@[j]).0@ != url@,
        decreases pairs.len() - i,
    {
        if pairs[i].0 == wanted {
            return Some(i);
        }
        i += 1;
    }
    None
}

impl FeedMap {
    #[verifier::type_invariant]
    spec fn each_url_once(&self) -> bool {
        distinct_urls(self.pairs@)
    }

    /// A map without feeds.
    pub fn new() -> (r: FeedMap)
        ensures
            r@ == Map::<Seq<char>, ParsedFeedView>::empty(),
    {
        FeedMap { pairs: Vec::new() }
    }

    /// Files a feed under an address, in place of the feed that was there.
    pub fn insert(&mut self, url: String, feed: ParsedFeed)
        ensures
            final(self)@ == old(self)@.insert(url@, feed@),
    {
        proof {
            use_type_invariant(&*self);
        }
        let mut pairs: Vec<(String, ParsedFeed)> = Vec::new();
        std::mem::swap(&mut pairs, &mut self.pairs);
        match position(&pairs, url.as_str()) {
            Some(at) => {
                proof {
                    lemma_replaced(pairs@, at as int, url, feed);
                }
                pairs[at] = (url, feed);
            },
            None => {
                let ghost before = pairs@;
                pairs.push((url, feed));
                proof {
                    assert(pairs@.drop_last() =~= before);
                    assert forall|i: int, j: int| 0 <= i < j < pairs@.len() implies (
                    #[trigger] pairs@[i]).0@ != (#[trigger] pairs@[j]).0@ by {
                        assert(pairs@[i] == before[i]);
                        if j < before.len() {
                            assert(pairs@[j] == before[j]);
                        }
                    }
                }
            },
        }
        self.pairs = pairs;
    }

    /// The feed filed under an address.
    pub fn get(&self, url: &str) -> (r: Option<&ParsedFeed>)
        ensures
            match r {
                Some(feed) => self@.contains_key(url@) && self@[url@] == feed@,
                None => !self@.contains_key(url@),
            },
    {
        proof {
            use_type_invariant(self);
        }
        match position(&self.pairs, url) {
            Some(at) => {
                proof {
                    lemma_present(self.pairs@, at as int);
                }
                Some(&self.pairs[at].1)
            },
            None => {
                proof {
                    lemma_absent(self.pairs@, url@);
                }
                None
            },
        }
    }

    /// The addresses with their feeds, each address once.
    pub fn into_pairs(self) -> (r: Vec<(String, ParsedFeed)>)
        ensures
            map_of_pairs(r@) == self@,
            distinct_urls(r@),
    {
        proof {
            use_type_invariant(&self);
        }
        self.pairs
    }
}

} // verus!

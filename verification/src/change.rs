//! Deciding whether a fetched feed differs from the stored one.
//!
//! Feeds list their newest entries first. A fetched feed counts as changed
//! where it brings an entry the stored feed does not have at the same place;
//! entries that only fell off the end change nothing.

use vstd::prelude::*;
use crate::feed_store::FeedStore;
use crate::model::{EntryView, ParsedFeed};

verus! {

/// Whether the entries of a fetched feed call for storing it again, given
/// the entries of the feed stored before, if any: always for the first feed
/// of an address, else unless the new entries are the first entries of the
/// old feed, one for one.
pub open spec fn changed(old_entries: Option<Seq<EntryView>>, new_entries: Seq<EntryView>) -> bool {
    match old_entries {
        None => true,
        Some(stored) => !new_entries.is_prefix_of(stored),
    }
}

/// The entries of an optional feed.
pub open spec fn stored_entries(feed: Option<&ParsedFeed>) -> Option<Seq<EntryView>> {
    match feed {
        Some(f) => Some(f@.entries),
        None => None,
    }
}

impl FeedStore {
    /// Compares a fetched feed with the feed stored before and says whether it
    /// has to be stored again.
    pub fn has_changed(&self, old_feed: Option<&ParsedFeed>, new_feed: &ParsedFeed) -> (r: bool)
        ensures
            r == changed(stored_entries(old_feed), new_feed@.entries),
            old_feed is None ==> r,
            old_feed matches Some(stored) ==> (r <==> new_feed@.entries.len() > stored@.entries.len()
                || exists|i: int|
                0 <= i < new_feed@.entries.len() && i < stored@.entries.len()
                    && #[trigger] new_feed@.entries[i] != stored@.entries[i]),
    {
        let stored = match old_feed {
            None => {
                return true;
            },
            Some(feed) => feed,
        };
        let mut i: usize = 0;
        while i < new_feed.entries.len()
            invariant
                i <= new_feed.entries.len(),
                i <= stored.entries.len(),
                old_feed == Some(stored),
                forall|j: int| 0 <= j < i ==> new_feed.entries@[j]@ == stored.entries@[j]@,
            decreases new_feed.entries.len() - i,
        {
            if i >= stored.entries.len() {
                return true;
            }
            if !stored.entries[i].same_as(&new_feed.entries[i]) {
                assert(new_feed@.entries[i as int] != stored@.entries[i as int]);
                return true;
            }
            i += 1;
        }
        assert(new_feed@.entries =~= stored@.entries.subrange(0, new_feed@.entries.len() as int));
        false
    }
}

} // verus!

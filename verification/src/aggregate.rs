//! Ordering the entries of many feeds by recency and cutting the list to a
//! bound.
//!
//! Entries are ordered by the instant they were last changed, the newest
//! first; entries of the same instant keep the order in which they came.

use vstd::prelude::*;
use crate::model::{Entry, EntryView, Timestamp, entries_view};

verus! {

impl Timestamp {
    /// The start of the Unix epoch.
    pub open spec fn epoch() -> Timestamp {
        Timestamp { secs: 0, nanos: 0 }
    }

    /// Whether `self` is strictly earlier than `other`.
    pub open spec fn before(self, other: Timestamp) -> bool {
        self.secs < other.secs || (self.secs == other.secs && self.nanos < other.nanos)
    }

    /// Whether `self` is strictly earlier than `other`.
    pub fn is_before(&self, other: &Timestamp) -> (r: bool)
        ensures
            r == self.before(*other),
    {
        self.secs < other.secs || (self.secs == other.secs && self.nanos < other.nanos)
    }
}

/// The instant an entry is ordered by: when it was updated, else when it was
/// published, else the start of the epoch.
pub open spec fn sort_key(e: EntryView) -> Timestamp {
    match e.updated {
        Some(t) => t,
        None => match e.published {
            Some(t) => t,
            None => Timestamp::epoch(),
        },
    }
}

impl Entry {
    /// The instant the entry is ordered by.
    pub fn sort_key(&self) -> (r: Timestamp)
        ensures
            r == sort_key(self@),
    {
        match self.updated {
            Some(t) => t,
            None => match self.published {
                Some(t) => t,
                None => Timestamp { secs: 0, nanos: 0 },
            },
        }
    }
}

/// Whether no entry of the list is older than one that follows it.
pub open spec fn newest_first(list: Seq<EntryView>) -> bool {
    forall|i: int, j: int|
        0 <= i < j < list.len() ==> !sort_key(#[trigger] list[i]).before(
            sort_key(#[trigger] list[j]),
        )
}

/// The place of a new entry in a list: in front of the first entry that is
/// strictly older, at the end where there is none.
pub open spec fn place_of(list: Seq<EntryView>, e: EntryView) -> int
    decreases list.len(),
{
    if list.len() == 0 {
        0
    } else if sort_key(list[0]).before(sort_key(e)) {
        0
    } else {
        1 + place_of(list.drop_first(), e)
    }
}

/// The list with a new entry put in its place.
pub open spec fn placed(list: Seq<EntryView>, e: EntryView) -> Seq<EntryView> {
    list.insert(place_of(list, e), e)
}

/// The entries by recency, the newest first; entries of the same instant in
/// the order in which `list` has them.
pub open spec fn by_recency(list: Seq<EntryView>) -> Seq<EntryView>
    decreases list.len(),
{
    if list.len() == 0 {
        Seq::empty()
    } else {
        placed(by_recency(list.drop_last()), list.last())
    }
}

/// The first `max` entries of a list, or all of it where it is shorter.
pub open spec fn cut(list: Seq<EntryView>, max: nat) -> Seq<EntryView> {
    if list.len() <= max {
        list
    } else {
        list.take(max as int)
    }
}

/// The `max` most recent entries of a list, the newest first.
pub open spec fn trimmed(list: Seq<EntryView>, max: nat) -> Seq<EntryView> {
    cut(by_recency(list), max)
}

/// `place_of` is the one index with no strictly older entry in front of it
/// and a strictly older entry, or the end, at it.
pub proof fn lemma_place_of(list: Seq<EntryView>, e: EntryView)
    ensures
        0 <= place_of(list, e) <= list.len(),
        forall|j: int|
            0 <= j < place_of(list, e) ==> !sort_key(#[trigger] list[j]).before(sort_key(e)),
        place_of(list, e) < list.len() ==> sort_key(list[place_of(list, e)]).before(sort_key(e)),
    decreases list.len(),
{
    if list.len() != 0 && !sort_key(list[0]).before(sort_key(e)) {
        let rest = list.drop_first();
        lemma_place_of(rest, e);
        assert forall|j: int| 0 <= j < place_of(list, e) implies !sort_key(
            #[trigger] list[j],
        ).before(sort_key(e)) by {
            if j > 0 {
                assert(list[j] == rest[j - 1]);
            }
        }
        if place_of(list, e) < list.len() {
            assert(list[place_of(list, e)] == rest[place_of(rest, e)]);
        }
    }
}

/// An index that meets what `lemma_place_of` states is `place_of`.
pub proof fn lemma_place_found(list: Seq<EntryView>, e: EntryView, p: int)
    requires
        0 <= p <= list.len(),
        forall|j: int| 0 <= j < p ==> !sort_key(#[trigger] list[j]).before(sort_key(e)),
        p < list.len() ==> sort_key(list[p]).before(sort_key(e)),
    ensures
        place_of(list, e) == p,
    decreases list.len(),
{
    if list.len() != 0 && p != 0 {
        let rest = list.drop_first();
        assert(!sort_key(list[0]).before(sort_key(e)));
        assert forall|j: int| 0 <= j < p - 1 implies !sort_key(#[trigger] rest[j]).before(
            sort_key(e),
        ) by {
            assert(rest[j] == list[j + 1]);
        }
        if p - 1 < rest.len() {
            assert(rest[p - 1] == list[p]);
        }
        lemma_place_found(rest, e, p - 1);
    }
}

/// Ordering keeps the number of entries.
pub proof fn lemma_by_recency_len(list: Seq<EntryView>)
    ensures
        by_recency(list).len() == list.len(),
    decreases list.len(),
{
    if list.len() != 0 {
        lemma_by_recency_len(list.drop_last());
        lemma_place_of(by_recency(list.drop_last()), list.last());
    }
}

/// Putting an entry in its place keeps a list that has the newest first so.
pub proof fn lemma_placed_newest_first(list: Seq<EntryView>, e: EntryView)
    requires
        newest_first(list),
    ensures
        newest_first(placed(list, e)),
{
    lemma_place_of(list, e);
    let p = place_of(list, e);
    let out = placed(list, e);
    assert forall|i: int, j: int| 0 <= i < j < out.len() implies !sort_key(
        #[trigger] out[i],
    ).before(sort_key(#[trigger] out[j])) by {
        if j < p {
            assert(out[i] == list[i] && out[j] == list[j]);
        } else if j == p {
            assert(out[i] == list[i]);
        } else if i < p {
            assert(out[i] == list[i] && out[j] == list[j - 1]);
        } else if i == p {
            assert(out[j] == list[j - 1]);
            if j - 1 > p {
                assert(!sort_key(list[p]).before(sort_key(list[j - 1])));
            }
        } else {
            assert(out[i] == list[i - 1] && out[j] == list[j - 1]);
        }
    }
}

/// The ordered list has the newest first.
pub proof fn lemma_by_recency_newest_first(list: Seq<EntryView>)
    ensures
        newest_first(by_recency(list)),
    decreases list.len(),
{
    if list.len() != 0 {
        lemma_by_recency_newest_first(list.drop_last());
        lemma_placed_newest_first(by_recency(list.drop_last()), list.last());
    }
}

/// Ordering neither drops nor invents an entry.
pub proof fn lemma_by_recency_same_entries(list: Seq<EntryView>)
    ensures
        by_recency(list).to_multiset() == list.to_multiset(),
    decreases list.len(),
{
    broadcast use vstd::seq_lib::group_to_multiset_ensures;

    if list.len() != 0 {
        let front = list.drop_last();
        let sorted = by_recency(front);
        lemma_by_recency_same_entries(front);
        lemma_place_of(sorted, list.last());
        assert(list == front.push(list.last()));
    }
}

/// A list that has the newest first is left as it is: entries of the same
/// instant keep their order.
pub proof fn lemma_by_recency_keeps_ordered(list: Seq<EntryView>)
    requires
        newest_first(list),
    ensures
        by_recency(list) == list,
    decreases list.len(),
{
    if list.len() != 0 {
        let front = list.drop_last();
        assert forall|i: int, j: int| 0 <= i < j < front.len() implies !sort_key(
            #[trigger] front[i],
        ).before(sort_key(#[trigger] front[j])) by {
            assert(front[i] == list[i] && front[j] == list[j]);
        }
        lemma_by_recency_keeps_ordered(front);
        assert forall|j: int| 0 <= j < front.len() implies !sort_key(#[trigger] front[j]).before(
            sort_key(list.last()),
        ) by {
            assert(front[j] == list[j]);
        }
        lemma_place_found(front, list.last(), front.len() as int);
        assert(front.insert(front.len() as int, list.last()) =~= list);
    }
}

/// Cutting before and after an entry is put in its place gives what cutting
/// after it alone gives.
pub proof fn lemma_placed_cut(list: Seq<EntryView>, e: EntryView, max: nat)
    ensures
        cut(placed(cut(list, max), e), max) == cut(placed(list, e), max),
{
    lemma_place_of(list, e);
    let p = place_of(list, e);
    if list.len() > max {
        let head = list.take(max as int);
        if p < max {
            assert forall|j: int| 0 <= j < p implies !sort_key(#[trigger] head[j]).before(
                sort_key(e),
            ) by {
                assert(head[j] == list[j]);
            }
            assert(head[p] == list[p]);
            lemma_place_found(head, e, p);
        } else {
            assert forall|j: int| 0 <= j < head.len() implies !sort_key(
                #[trigger] head[j],
            ).before(sort_key(e)) by {
                assert(head[j] == list[j]);
            }
            lemma_place_found(head, e, head.len() as int);
        }
        assert(cut(placed(head, e), max) =~= cut(placed(list, e), max));
    }
}

/// The most recent entries after one more entry came are those before it
/// with the new entry put in its place, cut again.
pub proof fn lemma_trimmed_push(list: Seq<EntryView>, e: EntryView, max: nat)
    ensures
        trimmed(list.push(e), max) == cut(placed(trimmed(list, max), e), max),
{
    assert(list.push(e).drop_last() == list);
    lemma_placed_cut(by_recency(list), e, max);
}

/// Two lists with the same most recent entries still have the same most
/// recent entries after the same entries were added to both.
pub proof fn lemma_trimmed_append(
    a: Seq<EntryView>,
    b: Seq<EntryView>,
    more: Seq<EntryView>,
    max: nat,
)
    requires
        trimmed(a, max) == trimmed(b, max),
    ensures
        trimmed(a + more, max) == trimmed(b + more, max),
    decreases more.len(),
{
    if more.len() == 0 {
        assert(a + more == a);
        assert(b + more == b);
    } else {
        let front = more.drop_last();
        lemma_trimmed_append(a, b, front, max);
        assert(a + more == (a + front).push(more.last()));
        assert(b + more == (b + front).push(more.last()));
        lemma_trimmed_push(a + front, more.last(), max);
        lemma_trimmed_push(b + front, more.last(), max);
    }
}

/// Trimming a trimmed list changes nothing.
pub proof fn lemma_trimmed_twice(list: Seq<EntryView>, max: nat)
    ensures
        trimmed(trimmed(list, max), max) == trimmed(list, max),
{
    let once = trimmed(list, max);
    let sorted = by_recency(list);
    lemma_by_recency_newest_first(list);
    assert forall|i: int, j: int| 0 <= i < j < once.len() implies !sort_key(
        #[trigger] once[i],
    ).before(sort_key(#[trigger] once[j])) by {
        assert(once[i] == sorted[i] && once[j] == sorted[j]);
    }
    lemma_by_recency_keeps_ordered(once);
}

/// Trimming early is invisible: the most recent entries of a list are the
/// same whether or not its front part was trimmed to the same bound before
/// the rest was added.
pub proof fn lemma_early_trim_is_invisible(
    front: Seq<EntryView>,
    rest: Seq<EntryView>,
    max: nat,
)
    ensures
        trimmed(trimmed(front, max) + rest, max) == trimmed(front + rest, max),
{
    lemma_trimmed_twice(front, max);
    lemma_trimmed_append(trimmed(front, max), front, rest, max);
}

/// The most recent entries are as many as the bound allows, or all there
/// are.
pub proof fn lemma_trimmed_len(list: Seq<EntryView>, max: nat)
    ensures
        trimmed(list, max).len() == if list.len() <= max {
            list.len()
        } else {
            max
        },
{
    lemma_by_recency_len(list);
}

/// Each of the most recent entries is an entry of the list.
pub proof fn lemma_trimmed_from_list(list: Seq<EntryView>, max: nat, i: int)
    requires
        0 <= i < trimmed(list, max).len(),
    ensures
        list.contains(trimmed(list, max)[i]),
{
    broadcast use vstd::seq_lib::group_to_multiset_ensures;

    let sorted = by_recency(list);
    lemma_by_recency_same_entries(list);
    assert(trimmed(list, max)[i] == sorted[i]);
    assert(sorted.contains(sorted[i]));
    assert(sorted.to_multiset().count(sorted[i]) > 0);
}

/// The most recent entries have the newest first.
pub proof fn lemma_trimmed_newest_first(list: Seq<EntryView>, max: nat)
    ensures
        newest_first(trimmed(list, max)),
{
    let sorted = by_recency(list);
    let kept = trimmed(list, max);
    lemma_by_recency_newest_first(list);
    assert forall|i: int, j: int| 0 <= i < j < kept.len() implies !sort_key(
        #[trigger] kept[i],
    ).before(sort_key(#[trigger] kept[j])) by {
        assert(kept[i] == sorted[i] && kept[j] == sorted[j]);
    }
}

/// An entry without a date is ordered as one dated at the start of the
/// epoch: where no entry is dated before the epoch, whatever follows an
/// undated entry is of that very instant, so that undated entries come last.
pub proof fn lemma_undated_come_last(list: Seq<EntryView>, i: int, j: int)
    requires
        forall|k: int|
            0 <= k < list.len() ==> !sort_key(#[trigger] list[k]).before(Timestamp::epoch()),
        0 <= i < j < by_recency(list).len(),
        by_recency(list)[i].updated is None,
        by_recency(list)[i].published is None,
    ensures
        sort_key(by_recency(list)[j]) == Timestamp::epoch(),
{
    broadcast use vstd::seq_lib::group_to_multiset_ensures;

    let sorted = by_recency(list);
    lemma_by_recency_newest_first(list);
    lemma_by_recency_same_entries(list);
    assert(sorted.contains(sorted[j]));
    assert(sorted.to_multiset().count(sorted[j]) > 0);
    assert(list.contains(sorted[j]));
    let k = choose|k: int| 0 <= k < list.len() && list[k] == sorted[j];
    assert(!sort_key(list[k]).before(Timestamp::epoch()));
    assert(!sort_key(sorted[i]).before(sort_key(sorted[j])));
}

/// The test for entries of one instant.
pub open spec fn dated_at(at: Timestamp) -> spec_fn(EntryView) -> bool {
    |e: EntryView| sort_key(e) == at
}

proof fn lemma_filter_none(list: Seq<EntryView>, at: Timestamp)
    requires
        forall|i: int| 0 <= i < list.len() ==> sort_key(#[trigger] list[i]) != at,
    ensures
        list.filter(dated_at(at)) == Seq::<EntryView>::empty(),
    decreases list.len(),
{
    reveal(Seq::filter);
    if list.len() > 0 {
        let front = list.drop_last();
        assert forall|i: int| 0 <= i < front.len() implies sort_key(#[trigger] front[i]) != at by {
            assert(front[i] == list[i]);
        }
        lemma_filter_none(front, at);
        assert(list.last() == list[list.len() - 1]);
    }
}

/// Ordering is stable: the entries of any one instant stand in the ordered
/// list in the order in which the list has them.
pub proof fn lemma_by_recency_stable(list: Seq<EntryView>, at: Timestamp)
    ensures
        by_recency(list).filter(dated_at(at)) == list.filter(dated_at(at)),
    decreases list.len(),
{
    if list.len() != 0 {
        let front = list.drop_last();
        let x = list.last();
        let sorted = by_recency(front);
        lemma_by_recency_stable(front, at);
        lemma_by_recency_newest_first(front);
        lemma_place_of(sorted, x);
        let p = place_of(sorted, x);
        let head = sorted.take(p);
        let tail = sorted.skip(p);
        assert(sorted =~= head + tail);
        assert(placed(sorted, x) =~= head + seq![x] + tail);
        assert(list =~= front + seq![x]);
        Seq::filter_distributes_over_add(head, tail, dated_at(at));
        Seq::filter_distributes_over_add(head + seq![x], tail, dated_at(at));
        Seq::filter_distributes_over_add(head, seq![x], dated_at(at));
        Seq::filter_distributes_over_add(front, seq![x], dated_at(at));
        if sort_key(x) == at {
            assert forall|i: int| 0 <= i < tail.len() implies sort_key(#[trigger] tail[i])
                != at by {
                assert(tail[i] == sorted[p + i]);
                if i > 0 {
                    assert(!sort_key(sorted[p]).before(sort_key(sorted[p + i])));
                }
            }
            lemma_filter_none(tail, at);
            assert(head.filter(dated_at(at)) + seq![x].filter(dated_at(at)) + Seq::<
                EntryView,
            >::empty() =~= head.filter(dated_at(at)) + Seq::<EntryView>::empty() + seq![
                x,
            ].filter(dated_at(at)));
        } else {
            assert(seq![x][0] == x);
            lemma_filter_none(seq![x], at);
            assert(head.filter(dated_at(at)) + Seq::<EntryView>::empty() + tail.filter(
                dated_at(at),
            ) =~= head.filter(dated_at(at)) + tail.filter(dated_at(at)));
            assert(front.filter(dated_at(at)) + Seq::<EntryView>::empty() =~= front.filter(
                dated_at(at),
            ));
        }
    }
}

/// Orders entries by recency, the newest first and entries of the same
/// instant in the order in which they came, and keeps the first
/// `max_entries` of them.
pub fn trim_entries(entries: Vec<Entry>, max_entries: usize) -> (r: Vec<Entry>)
    ensures
        entries_view(r@) == trimmed(entries_view(entries@), max_entries as nat),
        newest_first(entries_view(r@)),
        r@.len() <= max_entries,
        r@.len() <= entries@.len(),
{
    let ghost given = entries_view(entries@);
    proof {
        lemma_trimmed_newest_first(given, max_entries as nat);
        lemma_trimmed_len(given, max_entries as nat);
    }
    let mut list = entries;
    let mut done: usize = 0;
    proof {
        assert(entries_view(list@).take(0) =~= by_recency(given.take(0)));
        assert(entries_view(list@).skip(0) =~= given.skip(0));
    }
    while done < list.len()
        invariant
            done <= list.len(),
            list.len() == given.len(),
            entries_view(list@).take(done as int) == by_recency(given.take(done as int)),
            entries_view(list@).skip(done as int) == given.skip(done as int),
        decreases list.len() - done,
    {
        let ghost before = entries_view(list@);
        let ghost sorted = before.take(done as int);
        let entry = list.remove(done);
        let key = entry.sort_key();
        proof {
            assert(entry@ == before[done as int]);
            assert(before[done as int] == before.skip(done as int)[0]);
            assert(entry@ == given[done as int]);
            assert(entries_view(list@) =~= before.remove(done as int));
        }
        let mut place: usize = 0;
        while place < done && !list[place].sort_key().is_before(&key)
            invariant
                place <= done,
                done <= list.len(),
                key == sort_key(entry@),
                forall|j: int|
                    0 <= j < place ==> !sort_key(#[trigger] list@[j]@).before(sort_key(entry@)),
            decreases done - place,
        {
            place += 1;
        }
        list.insert(place, entry);
        proof {
            assert forall|j: int| 0 <= j < place implies !sort_key(#[trigger] sorted[j]).before(
                sort_key(entry@),
            ) by {
                assert(sorted[j] == before.remove(done as int)[j]);
            }
            if place < done {
                assert(sorted[place as int] == before.remove(done as int)[place as int]);
            }
            lemma_place_found(sorted, entry@, place as int);
            let upto = given.take(done + 1);
            assert(upto.drop_last() =~= given.take(done as int));
            assert(upto.last() == entry@);
            assert(entries_view(list@).take(done + 1) =~= placed(sorted, entry@));
            let tail = entries_view(list@).skip(done + 1);
            assert forall|k: int| 0 <= k < given.len() - done - 1 implies #[trigger] tail[k]
                == given.skip(done + 1)[k] by {
                assert(before.skip(done as int)[k + 1] == given.skip(done as int)[k + 1]);
                assert(entries_view(list@)[done + 1 + k] == before.remove(done as int)[done + k]);
            }
            assert(entries_view(list@).skip(done + 1) =~= given.skip(done + 1));
        }
        done += 1;
    }
    proof {
        assert(given.take(done as int) =~= given);
        assert(entries_view(list@).take(done as int) =~= entries_view(list@));
    }
    list.truncate(max_entries);
    proof {
        assert(entries_view(list@) =~= cut(by_recency(given), max_entries as nat));
    }
    list
}

} // verus!

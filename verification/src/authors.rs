//! Naming the authors of an entry: its own authors where it names any, else
//! those of its feed.

use vstd::prelude::*;
use vstd::string::StringExecFns;
use crate::model::{Person, names_view};

verus! {

/// Whether a name says who the author is: feeds also carry empty names and
/// stand-ins.
pub open spec fn valid_name(name: Seq<char>) -> bool {
    name.len() > 0 && name != "unknown"@ && name != "author"@
}

/// The names of a list that say who the author is, in order.
pub open spec fn valid_names(names: Seq<Seq<char>>) -> Seq<Seq<char>>
    decreases names.len(),
{
    if names.len() == 0 {
        Seq::empty()
    } else if valid_name(names.last()) {
        valid_names(names.drop_last()).push(names.last())
    } else {
        valid_names(names.drop_last())
    }
}

/// Names one after the other, a comma and a space between them.
pub open spec fn joined(names: Seq<Seq<char>>) -> Seq<char>
    decreases names.len(),
{
    if names.len() == 0 {
        Seq::empty()
    } else if names.len() == 1 {
        names[0]
    } else {
        joined(names.drop_last()) + ", "@ + names.last()
    }
}

/// The authors to show for an entry: the valid names among its own authors,
/// or among those of its feed where it has none of its own.
pub open spec fn shown_authors(entry_authors: Seq<Seq<char>>, feed_authors: Seq<Seq<char>>) -> Seq<
    Seq<char>,
> {
    if valid_names(entry_authors).len() > 0 {
        valid_names(entry_authors)
    } else {
        valid_names(feed_authors)
    }
}

/// The values of a list of names.
pub open spec fn texts_view(names: Seq<String>) -> Seq<Seq<char>> {
    names.map_values(|n: String| n@)
}

/// Whether a name says who the author is.
pub fn is_valid_name(n: &String) -> (r: bool)
    ensures
        r == valid_name(n@),
{
    let unknown = "unknown".to_owned();
    let author = "author".to_owned();
    !n.as_str().is_empty() && *n != unknown && *n != author
}

/// The valid names among the authors of a feed.
pub fn find_authors_from_feed(authors: &Vec<Person>) -> (r: Vec<String>)
    ensures
        texts_view(r@) == valid_names(names_view(authors@)),
{
    let mut names: Vec<String> = Vec::new();
    let mut i: usize = 0;
    assert(names_view(authors@).take(0) =~= Seq::empty());
    while i < authors.len()
        invariant
            i <= authors.len(),
            texts_view(names@) == valid_names(names_view(authors@).take(i as int)),
        decreases authors.len() - i,
    {
        proof {
            assert(names_view(authors@).take(i + 1).drop_last() =~= names_view(authors@).take(
                i as int,
            ));
            assert(names_view(authors@).take(i + 1).last() == authors@[i as int].name@);
        }
        if is_valid_name(&authors[i].name) {
            let ghost before = texts_view(names@);
            names.push(authors[i].name.clone());
            assert(texts_view(names@) =~= before.push(authors@[i as int].name@));
        }
        i += 1;
    }
    assert(names_view(authors@).take(i as int) =~= names_view(authors@));
    names
}

/// Names one after the other, a comma and a space between them.
pub fn join_names(names: &Vec<String>) -> (r: String)
    ensures
        r@ == joined(texts_view(names@)),
{
    let mut line = String::new();
    let mut i: usize = 0;
    assert(texts_view(names@).take(0) =~= Seq::empty());
    while i < names.len()
        invariant
            i <= names.len(),
            line@ == joined(texts_view(names@).take(i as int)),
        decreases names.len() - i,
    {
        proof {
            let upto = texts_view(names@).take(i + 1);
            assert(upto.drop_last() =~= texts_view(names@).take(i as int));
            assert(upto.last() == names@[i as int]@);
            if i == 0 {
                assert(upto[0] == names@[0]@);
                assert(Seq::<char>::empty() + names@[0]@ =~= names@[0]@);
            }
        }
        if i > 0 {
            line.append(", ");
        }
        line.append(names[i].as_str());
        i += 1;
    }
    assert(texts_view(names@).take(i as int) =~= texts_view(names@));
    line
}

/// The line that names the authors of an entry.
pub fn get_author(entry_authors: &Vec<Person>, feed_authors: &Vec<Person>) -> (r: String)
    ensures
        r@ == joined(shown_authors(names_view(entry_authors@), names_view(feed_authors@))),
{
    let own = find_authors_from_feed(entry_authors);
    if own.len() > 0 {
        join_names(&own)
    } else {
        let fallback = find_authors_from_feed(feed_authors);
        join_names(&fallback)
    }
}

} // verus!

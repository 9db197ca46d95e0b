//! The file name of a feed: a slug of its address.
//!
//! Slugs are made by the `slug` crate. For a text of ASCII characters the
//! slug is what [`ascii_slug`] says: the runs of letters and digits of the
//! text, in lower case, with one hyphen between them. For other texts the
//! crate writes each character out in ASCII first; of that only the shape of
//! the result is stated here.

use vstd::prelude::*;
use crate::fetch_data::lower;

verus! {

/// The slug of a text: a short form of it that can stand as a file name.
pub uninterp spec fn slug_of(text: Seq<char>) -> Seq<char>;

/// The characters a slug is made of.
pub open spec fn is_slug_char(c: char) -> bool {
    ('a' <= c <= 'z') || ('0' <= c <= '9') || c == '-'
}

/// Whether a text has the shape of a slug: nothing but lower-case ASCII
/// letters, digits and hyphens, no hyphen at either end and no two hyphens in
/// a row. The empty text has that shape too.
pub open spec fn slug_shaped(text: Seq<char>) -> bool {
    &&& forall|i: int| 0 <= i < text.len() ==> is_slug_char(#[trigger] text[i])
    &&& text.len() > 0 ==> text[0] != '-' && text[text.len() - 1] != '-'
    &&& forall|i: int|
        0 <= i && i + 1 < text.len() ==> !(#[trigger] text[i] == '-' && text[i + 1] == '-')
}

/// Whether a character is an ASCII letter or digit.
pub open spec fn is_ascii_alnum(c: char) -> bool {
    ('a' <= c <= 'z') || ('A' <= c <= 'Z') || ('0' <= c <= '9')
}

/// Whether a text holds an ASCII letter or digit.
pub open spec fn has_alnum(text: Seq<char>) -> bool {
    exists|i: int| 0 <= i < text.len() && is_ascii_alnum(#[trigger] text[i])
}

/// Whether a text holds ASCII characters only.
pub open spec fn is_ascii_text(text: Seq<char>) -> bool {
    forall|i: int| 0 <= i < text.len() ==> (#[trigger] text[i]) <= '\u{7f}'
}

/// Whether a text ends in an ASCII letter or digit.
pub open spec fn ends_alnum(text: Seq<char>) -> bool {
    text.len() > 0 && is_ascii_alnum(text.last())
}

/// A text with its letters and digits in lower case and each run of other
/// characters as one hyphen; a run at the start leaves nothing.
pub open spec fn dashed(text: Seq<char>) -> Seq<char>
    decreases text.len(),
{
    if text.len() == 0 {
        Seq::empty()
    } else {
        let front = dashed(text.drop_last());
        if is_ascii_alnum(text.last()) {
            front.push(lower(text.last()))
        } else if front.len() == 0 || front.last() == '-' {
            front
        } else {
            front.push('-')
        }
    }
}

/// The slug of a text of ASCII characters: its runs of letters and digits in
/// lower case, one hyphen between them.
pub open spec fn ascii_slug(text: Seq<char>) -> Seq<char> {
    let all = dashed(text);
    if all.len() > 0 && all.last() == '-' {
        all.drop_last()
    } else {
        all
    }
}

/// The name a text gives to a file.
pub open spec fn file_name_of(text: Seq<char>) -> Seq<char> {
    if is_ascii_text(text) {
        ascii_slug(text)
    } else {
        slug_of(text)
    }
}

/// The runs of ASCII letters and digits of a text, in order and in lower
/// case.
pub open spec fn words(text: Seq<char>) -> Seq<Seq<char>>
    decreases text.len(),
{
    if text.len() == 0 {
        Seq::empty()
    } else {
        let front = text.drop_last();
        if !is_ascii_alnum(text.last()) {
            words(front)
        } else if ends_alnum(front) {
            words(front).drop_last().push(words(front).last().push(lower(text.last())))
        } else {
            words(front).push(seq![lower(text.last())])
        }
    }
}

/// Calls `slug::slugify`. Claimed: the slug depends on the text alone; it
/// holds nothing but lower-case ASCII letters, digits and hyphens, with no
/// hyphen at either end and no two in a row; it is not empty where the text
/// holds an ASCII letter or digit; and for a text of ASCII characters it is
/// the runs of letters and digits of the text, in lower case, with one hyphen
/// between them.
#[verifier::external_body]
pub(crate) fn slugify(text: &str) -> (r: String)
    ensures
        r@ == slug_of(text@),
        slug_shaped(r@),
        has_alnum(text@) ==> r@.len() > 0,
        is_ascii_text(text@) ==> r@ == ascii_slug(text@),
{
    slug::slugify(text)
}

/// Putting hyphens for the other characters keeps the runs of letters and
/// digits as they are.
pub proof fn lemma_dashed_keeps_words(text: Seq<char>)
    ensures
        words(dashed(text)) == words(text),
        ends_alnum(dashed(text)) == ends_alnum(text),
    decreases text.len(),
{
    if text.len() != 0 {
        let front = text.drop_last();
        let c = text.last();
        let d = dashed(front);
        lemma_dashed_keeps_words(front);
        if is_ascii_alnum(c) {
            let after = d.push(lower(c));
            assert(after.drop_last() =~= d);
            assert(after.last() == lower(c));
            assert(is_ascii_alnum(lower(c)));
            assert(lower(lower(c)) == lower(c));
        } else if d.len() == 0 || d.last() == '-' {
        } else {
            let after = d.push('-');
            assert(after.drop_last() =~= d);
            assert(after.last() == '-');
        }
    }
}

/// The slug of a text of ASCII characters holds the runs of letters and
/// digits of the text, and nothing else that tells texts apart.
pub proof fn lemma_slug_keeps_words(text: Seq<char>)
    ensures
        words(ascii_slug(text)) == words(text),
{
    lemma_dashed_keeps_words(text);
}

/// Texts of ASCII characters whose runs of letters and digits differ, case
/// apart, have different slugs.
pub proof fn lemma_slugs_apart(a: Seq<char>, b: Seq<char>)
    requires
        words(a) != words(b),
    ensures
        ascii_slug(a) != ascii_slug(b),
{
    lemma_slug_keeps_words(a);
    lemma_slug_keeps_words(b);
}

/// What holds of a text with hyphens put in: it is made of the characters of
/// a slug, does not start with a hyphen, and has no two hyphens in a row.
proof fn lemma_dashed_shape(text: Seq<char>)
    ensures
        forall|i: int| 0 <= i < dashed(text).len() ==> is_slug_char(#[trigger] dashed(text)[i]),
        dashed(text).len() > 0 ==> dashed(text)[0] != '-',
        forall|i: int|
            0 <= i && i + 1 < dashed(text).len() ==> !(#[trigger] dashed(text)[i] == '-'
                && dashed(text)[i + 1] == '-'),
        has_alnum(text) ==> dashed(text).len() > 0,
    decreases text.len(),
{
    if text.len() != 0 {
        let front = text.drop_last();
        let c = text.last();
        let d = dashed(front);
        lemma_dashed_shape(front);
        if has_alnum(text) && !is_ascii_alnum(c) {
            let at = choose|i: int| 0 <= i < text.len() && is_ascii_alnum(#[trigger] text[i]);
            assert(front[at] == text[at]);
        }
        if is_ascii_alnum(c) {
            let after = d.push(lower(c));
            assert(is_slug_char(lower(c)));
            assert forall|i: int| 0 <= i < after.len() implies is_slug_char(
                #[trigger] after[i],
            ) by {
                if i < d.len() {
                    assert(after[i] == d[i]);
                }
            }
            assert forall|i: int| 0 <= i && i + 1 < after.len() implies !(#[trigger] after[i]
                == '-' && after[i + 1] == '-') by {
                if i + 1 < d.len() {
                    assert(after[i] == d[i] && after[i + 1] == d[i + 1]);
                }
            }
        } else if d.len() == 0 || d.last() == '-' {
        } else {
            let after = d.push('-');
            assert forall|i: int| 0 <= i < after.len() implies is_slug_char(
                #[trigger] after[i],
            ) by {
                if i < d.len() {
                    assert(after[i] == d[i]);
                }
            }
            assert forall|i: int| 0 <= i && i + 1 < after.len() implies !(#[trigger] after[i]
                == '-' && after[i + 1] == '-') by {
                if i + 1 < d.len() {
                    assert(after[i] == d[i] && after[i + 1] == d[i + 1]);
                } else {
                    assert(after[i] == d.last());
                }
            }
        }
    }
}

/// The slug of a text of ASCII characters has the shape of a slug, and is
/// not empty where the text holds a letter or digit.
pub proof fn lemma_ascii_slug_shaped(text: Seq<char>)
    ensures
        slug_shaped(ascii_slug(text)),
        has_alnum(text) ==> ascii_slug(text).len() > 0,
{
    lemma_dashed_shape(text);
    let all = dashed(text);
    let slug = ascii_slug(text);
    if all.len() > 0 && all.last() == '-' {
        assert(all.len() >= 2);
        assert(all[all.len() - 2] != '-');
        assert forall|i: int| 0 <= i < slug.len() implies is_slug_char(#[trigger] slug[i]) by {
            assert(slug[i] == all[i]);
        }
        assert forall|i: int| 0 <= i && i + 1 < slug.len() implies !(#[trigger] slug[i] == '-'
            && slug[i + 1] == '-') by {
            assert(slug[i] == all[i] && slug[i + 1] == all[i + 1]);
        }
        assert(slug[0] == all[0]);
        assert(slug[slug.len() - 1] == all[all.len() - 2]);
    }
}

} // verus!

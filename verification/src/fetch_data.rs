//! The validators of a feed: what an HTTP response says about the version it
//! carries, kept to make the next request conditional.

use vstd::prelude::*;
use vstd::string::StrSliceExecFns;
use crate::error::Error;
use crate::model::text_view;

verus! {

/// The validators stored per feed. Both are empty until a response brought
/// them.
#[derive(Clone, Debug, PartialEq, Eq)]
pub struct FetchData {
    pub etag: String,
    pub last_modified: String,
}

/// The mathematical value of a [`FetchData`].
pub struct FetchDataView {
    pub etag: Seq<char>,
    pub last_modified: Seq<char>,
}

impl View for FetchData {
    type V = FetchDataView;

    open spec fn view(&self) -> FetchDataView {
        FetchDataView { etag: self.etag@, last_modified: self.last_modified@ }
    }
}

impl Default for FetchData {
    fn default() -> (r: FetchData)
        ensures
            r@.etag.len() == 0,
            r@.last_modified.len() == 0,
    {
        FetchData { etag: String::new(), last_modified: String::new() }
    }
}

/// A header of an HTTP response. The value is `None` where it is no text of
/// visible ASCII characters.
#[derive(Clone, Debug, PartialEq, Eq)]
pub struct Header {
    pub name: String,
    pub value: Option<String>,
}

/// An ASCII letter in lower case; any other character as it is.
pub open spec fn lower(c: char) -> char {
    if 'A' <= c <= 'Z' {
        ((c as u8) + 32) as char
    } else {
        c
    }
}

/// Whether two header names are the same but for the case of ASCII letters.
pub open spec fn same_name(a: Seq<char>, b: Seq<char>) -> bool {
    a.map_values(|c: char| lower(c)) == b.map_values(|c: char| lower(c))
}

/// The text a list of headers gives under a name: the value of the first
/// header of that name, empty where that value is no text or where no header
/// has the name.
pub open spec fn header_text(headers: Seq<Header>, key: Seq<char>) -> Seq<char>
    decreases headers.len(),
{
    if headers.len() == 0 {
        Seq::empty()
    } else if same_name(headers[0].name@, key) {
        match headers[0].value {
            Some(text) => text@,
            None => Seq::empty(),
        }
    } else {
        header_text(headers.drop_first(), key)
    }
}

/// An ASCII letter in lower case; any other character as it is.
pub fn to_lower(c: char) -> (r: char)
    ensures
        r == lower(c),
{
    if 'A' <= c && c <= 'Z' {
        ((c as u8) + 32) as char
    } else {
        c
    }
}

/// Whether two header names are the same but for the case of ASCII letters.
pub fn names_match(a: &str, b: &str) -> (r: bool)
    ensures
        r == same_name(a@, b@),
{
    let n = a.unicode_len();
    if n != b.unicode_len() {
        assert(a@.map_values(|c: char| lower(c)).len() != b@.map_values(|c: char| lower(c)).len());
        return false;
    }
    let mut i: usize = 0;
    while i < n
        invariant
            i <= n,
            n == a@.len(),
            n == b@.len(),
            forall|j: int| 0 <= j < i ==> lower(a@[j]) == lower(b@[j]),
        decreases n - i,
    {
        if to_lower(a.get_char(i)) != to_lower(b.get_char(i)) {
            assert(a@.map_values(|c: char| lower(c))[i as int] != b@.map_values(
                |c: char| lower(c),
            )[i as int]);
            return false;
        }
        i += 1;
    }
    assert(a@.map_values(|c: char| lower(c)) =~= b@.map_values(|c: char| lower(c)));
    true
}

/// Looks a header up by name, without regard to the case of the name.
pub fn hv(headers: &Vec<Header>, key: &str) -> (r: String)
    ensures
        r@ == header_text(headers@, key@),
{
    let mut i: usize = 0;
    assert(headers@.skip(0) =~= headers@);
    while i < headers.len()
        invariant
            i <= headers.len(),
            header_text(headers@, key@) == header_text(headers@.skip(i as int), key@),
        decreases headers.len() - i,
    {
        proof {
            assert(headers@.skip(i as int)[0] == headers@[i as int]);
            assert(headers@.skip(i as int).drop_first() =~= headers@.skip(i + 1));
        }
        if names_match(headers[i].name.as_str(), key) {
            return match &headers[i].value {
                Some(text) => text.clone(),
                None => String::new(),
            };
        }
        i += 1;
    }
    String::new()
}

/// The top-level keys of a TOML document, each with its value where that
/// value is a string.
pub open spec fn fields_view(fields: Seq<(String, Option<String>)>) -> Seq<
    (Seq<char>, Option<Seq<char>>),
> {
    fields.map_values(|f: (String, Option<String>)| (f.0@, text_view(f.1)))
}

/// The keys and string values that are to make a TOML document.
pub open spec fn pairs_view(pairs: Seq<(String, String)>) -> Seq<(Seq<char>, Seq<char>)> {
    pairs.map_values(|p: (String, String)| (p.0@, p.1@))
}

/// What the TOML parser makes of a text: `None` where the text is no TOML
/// document, else its top-level keys, each with its value where that value
/// is a string.
pub uninterp spec fn toml_fields(text: Seq<char>) -> Option<Seq<(Seq<char>, Option<Seq<char>>)>>;

/// The TOML document with the given keys and string values, `None` where the
/// serializer fails.
pub uninterp spec fn toml_text(pairs: Seq<(Seq<char>, Seq<char>)>) -> Option<Seq<char>>;

/// Calls `toml::from_str` for a `toml::Table` and hands out each key of the
/// table with what `toml::Value::as_str` returns for its value. Claimed: the
/// outcome depends on the text alone.
#[verifier::external_body]
fn read_toml(text: &str) -> (r: Option<Vec<(String, Option<String>)>>)
    ensures
        match r {
            Some(fields) => toml_fields(text@) == Some(fields_view(fields@)),
            None => toml_fields(text@) is None,
        },
{
    let table: toml::Table = toml::from_str(text).ok()?;
    Some(table.into_iter().map(|(k, v)| (k, v.as_str().map(|s| s.to_string()))).collect())
}

/// Collects the pairs into a `toml::Table` of string values and calls
/// `toml::to_string` on it. Claimed: the outcome depends on the pairs alone.
#[verifier::external_body]
fn write_toml(pairs: &Vec<(String, String)>) -> (r: Option<String>)
    ensures
        text_view(r) == toml_text(pairs_view(pairs@)),
{
    let table: toml::Table =
        pairs.iter().map(|(k, v)| (k.clone(), toml::Value::String(v.clone()))).collect();
    toml::to_string(&table).ok()
}

/// What a document says under a key: `None` where it lacks the key or where
/// the value is no string.
pub open spec fn field_of(fields: Seq<(Seq<char>, Option<Seq<char>>)>, key: Seq<char>) -> Option<
    Seq<char>,
>
    decreases fields.len(),
{
    if fields.len() == 0 {
        None
    } else if fields[0].0 == key {
        fields[0].1
    } else {
        field_of(fields.drop_first(), key)
    }
}

/// The validators a document holds: both keys must be there, with strings.
pub open spec fn validators_of(fields: Seq<(Seq<char>, Option<Seq<char>>)>) -> Option<
    FetchDataView,
> {
    match (field_of(fields, "etag"@), field_of(fields, "last_modified"@)) {
        (Some(etag), Some(last_modified)) => Some(FetchDataView { etag, last_modified }),
        _ => None,
    }
}

/// The validators a stored text holds, `None` where it is malformed.
pub open spec fn stored_validators(text: Seq<char>) -> Option<FetchDataView> {
    match toml_fields(text) {
        Some(fields) => validators_of(fields),
        None => None,
    }
}

/// The keys and values that validators are stored under.
pub open spec fn validator_pairs(data: FetchDataView) -> Seq<(Seq<char>, Seq<char>)> {
    seq![("etag"@, data.etag), ("last_modified"@, data.last_modified)]
}

/// Looks a key up among the fields of a document.
pub fn find_field(fields: &Vec<(String, Option<String>)>, key: &str) -> (r: Option<String>)
    ensures
        text_view(r) == field_of(fields_view(fields@), key@),
{
    let wanted = key.to_owned();
    let mut i: usize = 0;
    assert(fields_view(fields@).skip(0) =~= fields_view(fields@));
    while i < fields.len()
        invariant
            i <= fields.len(),
            wanted@ == key@,
            field_of(fields_view(fields@), key@) == field_of(
                fields_view(fields@).skip(i as int),
                key@,
            ),
        decreases fields.len() - i,
    {
        proof {
            let rest = fields_view(fields@).skip(i as int);
            assert(rest[0] == (fields@[i as int].0@, text_view(fields@[i as int].1)));
            assert(rest.drop_first() =~= fields_view(fields@).skip(i + 1));
        }
        if fields[i].0 == wanted {
            return fields[i].1.clone();
        }
        i += 1;
    }
    None
}

impl FetchData {
    /// Reads validators back from their stored form. Fails with
    /// [`Error::Storage`] exactly where the text is malformed: no TOML
    /// document, or one without the two strings.
    pub fn from_toml(text: &str) -> (r: Result<FetchData, Error>)
        ensures
            match r {
                Ok(data) => stored_validators(text@) == Some(data@),
                Err(e) => stored_validators(text@) is None && e == Error::Storage,
            },
    {
        let fields = match read_toml(text) {
            Some(fields) => fields,
            None => {
                return Err(Error::Storage);
            },
        };
        match (find_field(&fields, "etag"), find_field(&fields, "last_modified")) {
            (Some(etag), Some(last_modified)) => Ok(FetchData { etag, last_modified }),
            _ => Err(Error::Storage),
        }
    }

    /// The stored form of the validators. Fails with [`Error::Storage`]
    /// exactly where the serializer fails.
    pub fn to_toml(&self) -> (r: Result<String, Error>)
        ensures
            match r {
                Ok(text) => toml_text(validator_pairs(self@)) == Some(text@),
                Err(e) => toml_text(validator_pairs(self@)) is None && e == Error::Storage,
            },
    {
        let mut pairs: Vec<(String, String)> = Vec::new();
        pairs.push(("etag".to_owned(), self.etag.clone()));
        pairs.push(("last_modified".to_owned(), self.last_modified.clone()));
        assert(pairs_view(pairs@) =~= validator_pairs(self@));
        match write_toml(&pairs) {
            Some(text) => Ok(text),
            None => Err(Error::Storage),
        }
    }
}

} // verus!

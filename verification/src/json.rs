//! JSON objects as lists of named fields.
//!
//! Reading and writing JSON text is the work of crate `serde_json`. This
//! module hands it lists of fields in ascending order of their names and gets
//! such lists back; what text belongs to which list is not restated here but
//! named.

use std::collections::BTreeMap;
use vstd::prelude::*;

use crate::names::{compare_names, keys_ascending, NameOrder};

verus! {

#[verifier::external_type_specification]
#[verifier::external_body]
pub struct ExJsonError(serde_json::Error);

/// The fields of the JSON object that a text holds, in ascending order of
/// their names, where the text is one JSON object whose values are all
/// strings; `None` for any other text.
pub uninterp spec fn json_fields_read(text: Seq<char>) -> Option<Seq<(Seq<char>, Seq<char>)>>;

/// The pretty-printed JSON object with the given string fields.
pub uninterp spec fn json_fields_written(fields: Seq<(Seq<char>, Seq<char>)>) -> Seq<char>;

/// The three levels of named fields that a JSON text holds, each in ascending
/// order of its names, where the text is an object of objects of objects
/// whose innermost values are strings or `null`; `None` for any other text.
pub uninterp spec fn json_document_read(bytes: Seq<u8>) -> Option<
    Seq<(Seq<char>, Seq<(Seq<char>, Seq<(Seq<char>, Option<Seq<char>>)>)>)>,
>;

/// The compact JSON text of three levels of named fields.
pub uninterp spec fn json_document_written(
    document: Seq<(Seq<char>, Seq<(Seq<char>, Seq<(Seq<char>, Option<Seq<char>>)>)>)>,
) -> Seq<u8>;

/// Whether a three-level document has ascending names at every level.
pub open spec fn document_ascending(
    document: Seq<(Seq<char>, Seq<(Seq<char>, Seq<(Seq<char>, Option<Seq<char>>)>)>)>,
) -> bool {
    &&& keys_ascending(document)
    &&& forall|i: int| 0 <= i < document.len() ==> keys_ascending((#[trigger] document[i]).1)
    &&& forall|i: int, j: int|
        0 <= i < document.len() && 0 <= j < document[i].1.len() ==> keys_ascending(
            (#[trigger] document[i].1[j]).1,
        )
}

/// `serde_json::from_str` into a `BTreeMap<String, String>`, handed out as
/// the list of its entries. Trusted: the outcome depends on the text alone.
#[verifier::external_body]
pub(crate) fn read_json_fields(text: &str) -> (out: Result<Vec<(String, String)>, serde_json::Error>)
    ensures
        out matches Ok(fields) ==> json_fields_read(text@) == Some(fields.deep_view()),
        out is Err ==> json_fields_read(text@) is None,
{
    let map: BTreeMap<String, String> = serde_json::from_str(text)?;
    Ok(map.into_iter().collect())
}

/// `serde_json::to_string_pretty` of a `BTreeMap` with the given entries.
/// Trusted: writing string fields does not fail, the text depends on the
/// fields alone, and `serde_json` reads its own text back as the same fields.
#[verifier::external_body]
pub(crate) fn write_json_fields(fields: &Vec<(String, String)>) -> (out: Result<
    String,
    serde_json::Error,
>)
    requires
        keys_ascending(fields.deep_view()),
    ensures
        out is Ok,
        out matches Ok(text) ==> text@ == json_fields_written(fields.deep_view())
            && json_fields_read(text@) == Some(fields.deep_view()),
{
    let map: BTreeMap<&String, &String> = fields.iter().map(|(k, v)| (k, v)).collect();
    serde_json::to_string_pretty(&map)
}

/// `serde_json::from_slice` into three nested `BTreeMap`s with `String` keys
/// and `Option<String>` values, handed out as lists of entries. Trusted: the
/// outcome depends on the bytes alone.
#[verifier::external_body]
pub(crate) fn read_json_document(bytes: &[u8]) -> (out: Result<
    Vec<(String, Vec<(String, Vec<(String, Option<String>)>)>)>,
    serde_json::Error,
>)
    ensures
        out matches Ok(document) ==> json_document_read(bytes@) == Some(document.deep_view()),
        out is Err ==> json_document_read(bytes@) is None,
{
    let map: BTreeMap<String, BTreeMap<String, BTreeMap<String, Option<String>>>> =
        serde_json::from_slice(bytes)?;
    Ok(
        map.into_iter().map(
            |(k, t)| (k, t.into_iter().map(|(n, f)| (n, f.into_iter().collect())).collect()),
        ).collect(),
    )
}

/// `serde_json::to_vec` of three nested `BTreeMap`s with the given entries.
/// Trusted: writing such maps does not fail, the bytes depend on the document
/// alone, and `serde_json` reads its own bytes back as the same document.
#[verifier::external_body]
pub(crate) fn write_json_document(
    document: &Vec<(String, Vec<(String, Vec<(String, Option<String>)>)>)>,
) -> (out: Result<Vec<u8>, serde_json::Error>)
    requires
        document_ascending(document.deep_view()),
    ensures
        out is Ok,
        out matches Ok(bytes) ==> bytes@ == json_document_written(document.deep_view())
            && json_document_read(bytes@) == Some(document.deep_view()),
{
    let map: BTreeMap<&String, BTreeMap<&String, BTreeMap<&String, &Option<String>>>> =
        document.iter().map(
        |(k, t)| (k, t.iter().map(|(n, f)| (n, f.iter().map(|(a, b)| (a, b)).collect())).collect()),
    ).collect();
    serde_json::to_vec(&map)
}

/// The index of the first item from `i` on that has the key, or the number of
/// items where none has.
pub open spec fn first_key_from<V>(items: Seq<(Seq<char>, V)>, key: Seq<char>, i: int) -> int
    decreases items.len() - i,
{
    if 0 <= i < items.len() && items[i].0 != key {
        first_key_from(items, key, i + 1)
    } else {
        i
    }
}

/// The value of the first item that has the key.
pub open spec fn lookup<V>(items: Seq<(Seq<char>, V)>, key: Seq<char>) -> Option<V> {
    let i = first_key_from(items, key, 0);
    if 0 <= i < items.len() {
        Some(items[i].1)
    } else {
        None
    }
}

/// The index of the first item that has the key, or the number of items where
/// none has.
pub fn find_key<V: DeepView>(items: &Vec<(String, V)>, key: &str) -> (i: usize)
    ensures
        i == first_key_from(items.deep_view(), key@, 0),
        i <= items@.len(),
        i < items@.len() ==> items@[i as int].0@ == key@ && lookup(items.deep_view(), key@)
            == Some(items@[i as int].1.deep_view()),
        i == items@.len() ==> lookup(items.deep_view(), key@) is None,
{
    let mut i: usize = 0;
    while i < items.len()
        invariant
            i <= items@.len(),
            items.deep_view().len() == items@.len(),
            first_key_from(items.deep_view(), key@, 0) == first_key_from(
                items.deep_view(),
                key@,
                i as int,
            ),
        decreases items@.len() - i,
    {
        assert(items.deep_view()[i as int] == items@[i as int].deep_view());
        match compare_names(items[i].0.as_str(), key) {
            NameOrder::Same => {
                return i;
            },
            _ => {
                i += 1;
            },
        }
    }
    i
}

} // verus!

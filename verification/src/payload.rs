//! The serialized form of the record collection: the plaintext that goes into
//! the envelope.
//!
//! ```text
//! {"entries":{"<name>":{"notes":null,"password":"..","url":null,"username":".."}}}
//! ```
//!
//! A record must give `username` and `password` as strings; `url` and `notes`
//! may be strings, `null` or absent. Fields of other names are passed over.

use vstd::prelude::*;
use vstd::utf8::is_ascii_chars;

use crate::error::VaultError;
use crate::json::{
    document_ascending, find_key, first_key_from, json_document_read, json_document_written,
    lookup, read_json_document, write_json_document,
};
use crate::names::{keys_ascending, lemma_ascii_order, name_precedes};
use crate::records::{
    ascending, clone_optional, optional_text, rows_view, Entry, EntryView, VaultPlain,
};

verus! {

/// The four fields of a record, in ascending order of their names.
pub open spec fn entry_fields(entry: EntryView) -> Seq<(Seq<char>, Option<Seq<char>>)> {
    seq![
        ("notes"@, entry.notes),
        ("password"@, Some(entry.password)),
        ("url"@, entry.url),
        ("username"@, Some(entry.username)),
    ]
}

/// The text of a field that may be absent or `null`.
pub open spec fn optional_field(value: Option<Option<Seq<char>>>) -> Option<Seq<char>> {
    match value {
        Some(Some(text)) => Some(text),
        _ => None,
    }
}

/// The record that a list of fields makes, where `username` and `password`
/// are there as strings.
pub open spec fn entry_of_fields(fields: Seq<(Seq<char>, Option<Seq<char>>)>) -> Option<
    EntryView,
> {
    match (lookup(fields, "username"@), lookup(fields, "password"@)) {
        (Some(Some(username)), Some(Some(password))) => Some(
            EntryView {
                username,
                password,
                url: optional_field(lookup(fields, "url"@)),
                notes: optional_field(lookup(fields, "notes"@)),
            },
        ),
        _ => None,
    }
}

/// The rows of a collection as named lists of fields.
pub open spec fn table_of_rows(rows: Seq<(Seq<char>, EntryView)>) -> Seq<
    (Seq<char>, Seq<(Seq<char>, Option<Seq<char>>)>),
> {
    Seq::new(rows.len(), |i: int| (rows[i].0, entry_fields(rows[i].1)))
}

/// The document of a collection: its rows under the one name `entries`.
pub open spec fn document_of(rows: Seq<(Seq<char>, EntryView)>) -> Seq<
    (Seq<char>, Seq<(Seq<char>, Seq<(Seq<char>, Option<Seq<char>>)>)>),
> {
    seq![("entries"@, table_of_rows(rows))]
}

/// The rows that named lists of fields make, where the names are in
/// ascending order and every list makes a record.
pub open spec fn rows_of_table(
    table: Seq<(Seq<char>, Seq<(Seq<char>, Option<Seq<char>>)>)>,
) -> Option<Seq<(Seq<char>, EntryView)>> {
    if keys_ascending(table) && forall|i: int|
        0 <= i < table.len() ==> entry_of_fields((#[trigger] table[i]).1) is Some {
        Some(Seq::new(table.len(), |i: int| (table[i].0, entry_of_fields(table[i].1).unwrap())))
    } else {
        None
    }
}

/// The rows that a document holds under the name `entries`.
pub open spec fn rows_of_document(
    document: Seq<(Seq<char>, Seq<(Seq<char>, Seq<(Seq<char>, Option<Seq<char>>)>)>)>,
) -> Option<Seq<(Seq<char>, EntryView)>> {
    match lookup(document, "entries"@) {
        Some(table) => rows_of_table(table),
        None => None,
    }
}

/// The serialized form of a collection.
pub open spec fn payload_of(rows: Seq<(Seq<char>, EntryView)>) -> Seq<u8> {
    json_document_written(document_of(rows))
}

/// The collection that a payload holds, if it holds one.
pub open spec fn rows_of_payload(payload: Seq<u8>) -> Option<Seq<(Seq<char>, EntryView)>> {
    match json_document_read(payload) {
        Some(document) => rows_of_document(document),
        None => None,
    }
}

/// The names of the four fields of a record are plain ASCII; where they
/// begin alike, the second character tells them apart.
pub proof fn lemma_field_names()
    ensures
        is_ascii_chars("notes"@),
        is_ascii_chars("password"@),
        is_ascii_chars("url"@),
        is_ascii_chars("username"@),
        "notes"@.len() == 5 && "notes"@[0] == 'n',
        "password"@.len() == 8 && "password"@[0] == 'p',
        "url"@.len() == 3 && "url"@[0] == 'u' && "url"@[1] == 'r',
        "username"@.len() == 8 && "username"@[0] == 'u' && "username"@[1] == 's',
{
    reveal_strlit("notes");
    reveal_strlit("password");
    reveal_strlit("url");
    reveal_strlit("username");
}

/// The fields of a record are in ascending order, and make that record.
pub proof fn lemma_entry_fields(entry: EntryView)
    ensures
        keys_ascending(entry_fields(entry)),
        entry_of_fields(entry_fields(entry)) == Some(entry),
{
    let fields = entry_fields(entry);
    lemma_field_names();
    lemma_ascii_order("notes"@, "password"@, 0);
    lemma_ascii_order("notes"@, "url"@, 0);
    lemma_ascii_order("notes"@, "username"@, 0);
    lemma_ascii_order("password"@, "url"@, 0);
    lemma_ascii_order("password"@, "username"@, 0);
    lemma_ascii_order("url"@, "username"@, 1);
    reveal_with_fuel(first_key_from, 5);
    assert(first_key_from(fields, "notes"@, 0) == 0);
    assert(first_key_from(fields, "password"@, 0) == 1);
    assert(first_key_from(fields, "url"@, 0) == 2);
    assert(first_key_from(fields, "username"@, 0) == 3);
}

/// Serializing keeps everything: the document of ascending rows has
/// ascending names at every level, and holds those rows.
pub proof fn lemma_document_round_trip(rows: Seq<(Seq<char>, EntryView)>)
    requires
        ascending(rows),
    ensures
        document_ascending(document_of(rows)),
        rows_of_document(document_of(rows)) == Some(rows),
{
    let table = table_of_rows(rows);
    let document = document_of(rows);
    assert forall|i: int| 0 <= i < table.len() implies keys_ascending((#[trigger] table[i]).1)
        && entry_of_fields(table[i].1) == Some(rows[i].1) by {
        lemma_entry_fields(rows[i].1);
    }
    assert forall|i: int, j: int| 0 <= i < j < table.len() implies name_precedes(
        table[i].0,
        table[j].0,
    ) by {
        assert(name_precedes(rows[i].0, rows[j].0));
    }
    assert(keys_ascending(table));
    assert(document[0].1 == table);
    reveal_with_fuel(first_key_from, 2);
    assert(lookup(document, "entries"@) == Some(table));
    assert(rows_of_table(table).unwrap() =~= rows);
}

/// The fields of a record.
pub fn entry_to_fields(entry: &Entry) -> (fields: Vec<(String, Option<String>)>)
    ensures
        fields.deep_view() == entry_fields(entry@),
{
    let mut fields: Vec<(String, Option<String>)> = Vec::new();
    fields.push(("notes".to_owned(), clone_optional(&entry.notes)));
    fields.push(("password".to_owned(), Some(entry.password.clone())));
    fields.push(("url".to_owned(), clone_optional(&entry.url)));
    fields.push(("username".to_owned(), Some(entry.username.clone())));
    assert(fields.deep_view() =~= entry_fields(entry@));
    fields
}

/// The text of the field of the given name, where it is there as a string.
fn field_text(fields: &Vec<(String, Option<String>)>, key: &str) -> (text: Option<String>)
    ensures
        optional_text(text) == optional_field(lookup(fields.deep_view(), key@)),
{
    let i = find_key(fields, key);
    if i < fields.len() {
        clone_optional(&fields[i].1)
    } else {
        None
    }
}

/// The record that a list of fields makes, if it makes one.
pub fn entry_from_fields(fields: &Vec<(String, Option<String>)>) -> (res: Option<Entry>)
    ensures
        match entry_of_fields(fields.deep_view()) {
            Some(entry) => res matches Some(read) && read@ == entry,
            None => res is None,
        },
{
    let username = match field_text(fields, "username") {
        Some(text) => text,
        None => { return None; },
    };
    let password = match field_text(fields, "password") {
        Some(text) => text,
        None => { return None; },
    };
    let url = field_text(fields, "url");
    let notes = field_text(fields, "notes");
    Some(Entry { username, password, url, notes })
}

/// Serializes the collection. Parsing the bytes gives the collection again.
pub fn serialize(vault: &VaultPlain) -> (res: Result<Vec<u8>, VaultError>)
    requires
        vault.wf(),
    ensures
        res is Ok,
        res matches Ok(payload) ==> payload@ == payload_of(vault.rows()) && rows_of_payload(
            payload@,
        ) == Some(vault.rows()),
{
    let ghost rows = vault.rows();
    let mut table: Vec<(String, Vec<(String, Option<String>)>)> = Vec::new();
    let n = vault.len();
    let mut i: usize = 0;
    while i < n
        invariant
            i <= n,
            n == rows.len(),
            rows == vault.rows(),
            table@.len() == i,
            forall|k: int|
                0 <= k < i ==> (#[trigger] table@[k]).0@ == rows[k].0 && table@[k].1.deep_view()
                    == entry_fields(rows[k].1),
        decreases n - i,
    {
        table.push((vault.name_at(i).clone(), entry_to_fields(vault.entry_at(i))));
        i += 1;
    }
    let mut document: Vec<(String, Vec<(String, Vec<(String, Option<String>)>)>)> = Vec::new();
    proof {
        assert(table.deep_view() =~= table_of_rows(rows));
    }
    document.push(("entries".to_owned(), table));
    proof {
        assert(document.deep_view() =~= document_of(rows));
        lemma_document_round_trip(rows);
    }
    match write_json_document(&document) {
        Ok(payload) => Ok(payload),
        Err(_) => Err(VaultError::PayloadFormat),
    }
}

/// Parses a serialized collection.
pub fn parse(payload: &[u8]) -> (res: Result<VaultPlain, VaultError>)
    ensures
        match rows_of_payload(payload@) {
            Some(rows) => res matches Ok(vault) && vault.wf() && vault.rows() == rows,
            None => res matches Err(e) && e == VaultError::PayloadFormat,
        },
{
    let document = match read_json_document(payload) {
        Ok(document) => document,
        Err(_) => { return Err(VaultError::PayloadFormat); },
    };
    let at = find_key(&document, "entries");
    if at >= document.len() {
        return Err(VaultError::PayloadFormat);
    }
    let table = &document[at].1;
    let ghost fields = table.deep_view();
    let mut rows: Vec<(String, Entry)> = Vec::new();
    let mut i: usize = 0;
    while i < table.len()
        invariant
            i <= table@.len(),
            fields == table.deep_view(),
            rows_of_payload(payload@) == rows_of_table(fields),
            rows@.len() == i,
            forall|k: int| 0 <= k < i ==> entry_of_fields((#[trigger] fields[k]).1) is Some,
            forall|k: int|
                0 <= k < i ==> (#[trigger] rows@[k]).0@ == fields[k].0 && rows@[k].1@
                    == entry_of_fields(fields[k].1).unwrap(),
        decreases table@.len() - i,
    {
        assert(fields[i as int] == table@[i as int].deep_view());
        match entry_from_fields(&table[i].1) {
            Some(entry) => {
                rows.push((table[i].0.clone(), entry));
            },
            None => {
                assert(entry_of_fields(fields[i as int].1) is None);
                return Err(VaultError::PayloadFormat);
            },
        }
        i += 1;
    }
    proof {
        let read = rows_view(rows@);
        assert(read.len() == fields.len());
        assert forall|a: int| 0 <= a < read.len() implies (#[trigger] read[a]).0 == fields[a].0 by {
            assert(rows@[a].0@ == fields[a].0);
        }
        if keys_ascending(fields) {
            assert forall|a: int, b: int| 0 <= a < b < read.len() implies name_precedes(
                read[a].0,
                read[b].0,
            ) by {
                assert(name_precedes(fields[a].0, fields[b].0));
            }
            assert(ascending(read));
            assert(rows_of_table(fields).unwrap() =~= read);
        }
        if ascending(read) {
            assert forall|a: int, b: int| 0 <= a < b < fields.len() implies name_precedes(
                fields[a].0,
                fields[b].0,
            ) by {
                assert(name_precedes(read[a].0, read[b].0));
            }
            assert(keys_ascending(fields));
        }
    }
    match VaultPlain::from_rows(rows) {
        Some(vault) => Ok(vault),
        None => Err(VaultError::PayloadFormat),
    }
}

} // verus!

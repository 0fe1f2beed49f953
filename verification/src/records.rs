//! The record collection held in memory: named entries, one per name, kept in
//! the order of their names.
//!
//! The model of a collection is the sequence of its rows, a name and an entry
//! each, in strictly ascending order of the names ([`ascending`]). The map
//! from names to entries that this sequence stands for is [`map_of`].

use vstd::prelude::*;

use crate::names::{
    compare_names, keys_ascending, lemma_name_asymmetric, lemma_name_irreflexive, lemma_name_total,
    lemma_name_transitive, name_precedes, NameOrder,
};

verus! {

/// One stored credential. The collection does not look inside it.
#[derive(Debug)]
pub struct Entry {
    pub username: String,
    pub password: String,
    pub url: Option<String>,
    pub notes: Option<String>,
}

/// What an [`Entry`] holds, as plain text.
pub ghost struct EntryView {
    pub username: Seq<char>,
    pub password: Seq<char>,
    pub url: Option<Seq<char>>,
    pub notes: Option<Seq<char>>,
}

/// The text of an optional string.
pub open spec fn optional_text(text: Option<String>) -> Option<Seq<char>> {
    match text {
        Some(t) => Some(t@),
        None => None,
    }
}

impl View for Entry {
    type V = EntryView;

    open spec fn view(&self) -> EntryView {
        EntryView {
            username: self.username@,
            password: self.password@,
            url: optional_text(self.url),
            notes: optional_text(self.notes),
        }
    }
}

/// A copy of an optional string.
pub fn clone_optional(text: &Option<String>) -> (res: Option<String>)
    ensures
        optional_text(res) == optional_text(*text),
{
    match text {
        Some(t) => Some(t.clone()),
        None => None,
    }
}

impl Clone for Entry {
    fn clone(&self) -> (res: Self)
        ensures
            res@ == self@,
    {
        Entry {
            username: self.username.clone(),
            password: self.password.clone(),
            url: clone_optional(&self.url),
            notes: clone_optional(&self.notes),
        }
    }
}

/// Whether the names of the rows are in strictly ascending order. Rows in
/// this order hold no name twice.
pub open spec fn ascending(rows: Seq<(Seq<char>, EntryView)>) -> bool {
    keys_ascending(rows)
}

/// The names of the rows, in the rows' order.
pub open spec fn names_of(rows: Seq<(Seq<char>, EntryView)>) -> Seq<Seq<char>> {
    Seq::new(rows.len(), |i: int| rows[i].0)
}

/// Whether some row bears the name.
pub open spec fn holds(rows: Seq<(Seq<char>, EntryView)>, name: Seq<char>) -> bool {
    exists|i: int| 0 <= i < rows.len() && (#[trigger] rows[i]).0 == name
}

/// The index of a row that bears the name, where there is one.
pub open spec fn index_of(rows: Seq<(Seq<char>, EntryView)>, name: Seq<char>) -> int {
    choose|i: int| 0 <= i < rows.len() && (#[trigger] rows[i]).0 == name
}

/// The map from names to entries that the rows stand for.
pub open spec fn map_of(rows: Seq<(Seq<char>, EntryView)>) -> Map<Seq<char>, EntryView> {
    Map::new(|name: Seq<char>| holds(rows, name), |name: Seq<char>| rows[index_of(rows, name)].1)
}

/// The index of the first row from `i` on whose name does not precede `name`,
/// or the number of rows where every name from `i` on precedes it.
pub open spec fn position_from(rows: Seq<(Seq<char>, EntryView)>, name: Seq<char>, i: int) -> int
    decreases rows.len() - i,
{
    if 0 <= i < rows.len() && name_precedes(rows[i].0, name) {
        position_from(rows, name, i + 1)
    } else {
        i
    }
}

/// Where a row of this name stands, or would be put.
pub open spec fn position(rows: Seq<(Seq<char>, EntryView)>, name: Seq<char>) -> int {
    position_from(rows, name, 0)
}

/// Whether the row at the name's position bears the name.
pub open spec fn found_at_position(rows: Seq<(Seq<char>, EntryView)>, name: Seq<char>) -> bool {
    position(rows, name) < rows.len() && rows[position(rows, name)].0 == name
}

/// The rows after `entry` was stored under `name`: in place of the row of that
/// name where there is one, else as a new row at the name's position.
pub open spec fn rows_insert(
    rows: Seq<(Seq<char>, EntryView)>,
    name: Seq<char>,
    entry: EntryView,
) -> Seq<(Seq<char>, EntryView)> {
    if found_at_position(rows, name) {
        rows.update(position(rows, name), (name, entry))
    } else {
        rows.insert(position(rows, name), (name, entry))
    }
}

/// The rows after the row of `name` was taken out, where there is one.
pub open spec fn rows_remove(rows: Seq<(Seq<char>, EntryView)>, name: Seq<char>) -> Seq<
    (Seq<char>, EntryView),
> {
    if found_at_position(rows, name) {
        rows.remove(position(rows, name))
    } else {
        rows
    }
}

/// In ascending rows two rows of one name are one row.
pub proof fn lemma_rows_distinct(rows: Seq<(Seq<char>, EntryView)>, i: int, j: int)
    requires
        ascending(rows),
        0 <= i < rows.len(),
        0 <= j < rows.len(),
        rows[i].0 == rows[j].0,
    ensures
        i == j,
{
    lemma_name_irreflexive(rows[i].0);
}

/// In ascending rows the map gives each row's entry for that row's name.
pub proof fn lemma_map_at(rows: Seq<(Seq<char>, EntryView)>, i: int)
    requires
        ascending(rows),
        0 <= i < rows.len(),
    ensures
        holds(rows, rows[i].0),
        map_of(rows).contains_key(rows[i].0),
        map_of(rows)[rows[i].0] == rows[i].1,
{
    lemma_rows_distinct(rows, i, index_of(rows, rows[i].0));
}

/// What the position of a name is: every row before it has an earlier name,
/// and the row at it, if any, has not.
pub proof fn lemma_position_from(rows: Seq<(Seq<char>, EntryView)>, name: Seq<char>, i: int)
    requires
        0 <= i <= rows.len(),
    ensures
        i <= position_from(rows, name, i) <= rows.len(),
        forall|k: int|
            i <= k < position_from(rows, name, i) ==> name_precedes((#[trigger] rows[k]).0, name),
        position_from(rows, name, i) < rows.len() ==> !name_precedes(
            rows[position_from(rows, name, i)].0,
            name,
        ),
    decreases rows.len() - i,
{
    if i < rows.len() && name_precedes(rows[i].0, name) {
        lemma_position_from(rows, name, i + 1);
    }
}

/// In ascending rows a name is held exactly where the row at its position
/// bears it, and no row after that position has an earlier or the same name.
pub proof fn lemma_found(rows: Seq<(Seq<char>, EntryView)>, name: Seq<char>)
    requires
        ascending(rows),
    ensures
        0 <= position(rows, name) <= rows.len(),
        holds(rows, name) <==> found_at_position(rows, name),
        map_of(rows).contains_key(name) <==> found_at_position(rows, name),
        found_at_position(rows, name) ==> map_of(rows)[name] == rows[position(rows, name)].1,
        forall|k: int|
            0 <= k < position(rows, name) ==> name_precedes((#[trigger] rows[k]).0, name),
        forall|k: int|
            position(rows, name) <= k < rows.len() && !found_at_position(rows, name)
                ==> name_precedes(name, (#[trigger] rows[k]).0),
        forall|k: int|
            position(rows, name) < k < rows.len() ==> name_precedes(name, (#[trigger] rows[k]).0),
{
    let p = position(rows, name);
    lemma_position_from(rows, name, 0);
    lemma_name_irreflexive(name);
    if holds(rows, name) {
        let j = index_of(rows, name);
        if j > p {
            assert(name_precedes(rows[p].0, rows[j].0));
        }
        assert(j == p);
    }
    if found_at_position(rows, name) {
        lemma_map_at(rows, p);
    }
    assert forall|k: int| p <= k < rows.len() && (k > p || !found_at_position(rows, name)) implies name_precedes(
        name,
        (#[trigger] rows[k]).0,
    ) by {
        if found_at_position(rows, name) {
            assert(name_precedes(rows[p].0, rows[k].0));
        } else {
            lemma_name_total(rows[p].0, name);
            if k > p {
                assert(name_precedes(rows[p].0, rows[k].0));
                lemma_name_transitive(name, rows[p].0, rows[k].0);
            }
        }
    }
}

/// Storing an entry keeps the rows ascending and changes the map at that one
/// name. Under a name that was held the rows keep their names and number;
/// under a new name there is one row more.
pub proof fn lemma_insert(rows: Seq<(Seq<char>, EntryView)>, name: Seq<char>, entry: EntryView)
    requires
        ascending(rows),
    ensures
        ascending(rows_insert(rows, name, entry)),
        map_of(rows_insert(rows, name, entry)) == map_of(rows).insert(name, entry),
        map_of(rows).contains_key(name) ==> names_of(rows_insert(rows, name, entry)) == names_of(
            rows,
        ),
        map_of(rows).contains_key(name) ==> rows_insert(rows, name, entry).len() == rows.len(),
        !map_of(rows).contains_key(name) ==> rows_insert(rows, name, entry).len() == rows.len()
            + 1,
{
    let p = position(rows, name);
    let after = rows_insert(rows, name, entry);
    lemma_found(rows, name);
    if found_at_position(rows, name) {
        assert(names_of(after) =~= names_of(rows));
        assert forall|i: int, j: int| 0 <= i < j < after.len() implies name_precedes(
            after[i].0,
            after[j].0,
        ) by {
            assert(name_precedes(rows[i].0, rows[j].0));
        }
        assert forall|k: Seq<char>| holds(after, k) <==> holds(rows, k) by {
            if holds(after, k) {
                assert(rows[index_of(after, k)].0 == k);
            }
            if holds(rows, k) {
                assert(after[index_of(rows, k)].0 == k);
            }
        }
        assert forall|k: Seq<char>| holds(after, k) implies #[trigger] map_of(after)[k] == map_of(
            rows,
        ).insert(name, entry)[k] by {
            let i = index_of(after, k);
            lemma_map_at(after, i);
            if i != p {
                lemma_map_at(rows, i);
                if k == name {
                    lemma_rows_distinct(rows, i, p);
                }
            }
        }
    } else {
        assert forall|i: int, j: int| 0 <= i < j < after.len() implies name_precedes(
            after[i].0,
            after[j].0,
        ) by {
            if j < p {
                assert(name_precedes(rows[i].0, rows[j].0));
            } else if j == p {
                assert(name_precedes(rows[i].0, name));
            } else if i < p {
                assert(name_precedes(rows[i].0, rows[j - 1].0));
            } else if i == p {
                assert(name_precedes(name, rows[j - 1].0));
            } else {
                assert(name_precedes(rows[i - 1].0, rows[j - 1].0));
            }
        }
        assert(after[p].0 == name);
        assert forall|k: Seq<char>| holds(after, k) <==> (k == name || holds(rows, k)) by {
            if holds(after, k) && k != name {
                let i = index_of(after, k);
                if i < p {
                    assert(rows[i].0 == k);
                } else {
                    assert(rows[i - 1].0 == k);
                }
            }
            if holds(rows, k) {
                let i = index_of(rows, k);
                if i < p {
                    assert(after[i].0 == k);
                } else {
                    assert(after[i + 1].0 == k);
                }
            }
        }
        assert forall|k: Seq<char>| holds(after, k) implies #[trigger] map_of(after)[k] == map_of(
            rows,
        ).insert(name, entry)[k] by {
            let i = index_of(after, k);
            lemma_map_at(after, i);
            lemma_name_irreflexive(name);
            if i < p {
                assert(name_precedes(rows[i].0, name));
                lemma_map_at(rows, i);
            } else if i > p {
                assert(name_precedes(name, rows[i - 1].0));
                lemma_map_at(rows, i - 1);
            }
        }
    }
    assert(map_of(after) =~= map_of(rows).insert(name, entry));
}

/// Taking a name out keeps the rows ascending and removes that one name from
/// the map. Where the name is not held, the rows stay as they are.
pub proof fn lemma_remove(rows: Seq<(Seq<char>, EntryView)>, name: Seq<char>)
    requires
        ascending(rows),
    ensures
        ascending(rows_remove(rows, name)),
        map_of(rows_remove(rows, name)) == map_of(rows).remove(name),
        !map_of(rows).contains_key(name) ==> rows_remove(rows, name) == rows,
        map_of(rows).contains_key(name) ==> rows_remove(rows, name).len() + 1 == rows.len(),
{
    let p = position(rows, name);
    let after = rows_remove(rows, name);
    lemma_found(rows, name);
    if found_at_position(rows, name) {
        assert forall|i: int, j: int| 0 <= i < j < after.len() implies name_precedes(
            after[i].0,
            after[j].0,
        ) by {
            let i0 = if i < p { i } else { i + 1 };
            let j0 = if j < p { j } else { j + 1 };
            assert(name_precedes(rows[i0].0, rows[j0].0));
        }
        assert forall|k: Seq<char>| holds(after, k) <==> (k != name && holds(rows, k)) by {
            if holds(after, k) {
                let i = index_of(after, k);
                let i0 = if i < p { i } else { i + 1 };
                assert(rows[i0].0 == k);
                if k == name {
                    lemma_rows_distinct(rows, i0, p);
                }
            }
            if holds(rows, k) && k != name {
                let i = index_of(rows, k);
                if i < p {
                    assert(after[i].0 == k);
                } else {
                    assert(after[i - 1].0 == k);
                }
            }
        }
        assert forall|k: Seq<char>| holds(after, k) implies #[trigger] map_of(after)[k] == map_of(
            rows,
        ).remove(name)[k] by {
            let i = index_of(after, k);
            lemma_map_at(after, i);
            if i < p {
                lemma_map_at(rows, i);
            } else {
                lemma_map_at(rows, i + 1);
            }
        }
    }
    assert(map_of(after) =~= map_of(rows).remove(name));
}

/// Ascending rows hold no name twice, and as many names as there are rows.
pub proof fn lemma_names_unique(rows: Seq<(Seq<char>, EntryView)>)
    requires
        ascending(rows),
    ensures
        names_of(rows).no_duplicates(),
        map_of(rows).dom() == names_of(rows).to_set(),
        map_of(rows).dom().finite(),
        map_of(rows).dom().len() == rows.len(),
{
    let names = names_of(rows);
    assert forall|i: int, j: int| 0 <= i < names.len() && 0 <= j < names.len() && i != j implies names[i]
        != names[j] by {
        if names[i] == names[j] {
            lemma_rows_distinct(rows, i, j);
        }
    }
    assert forall|k: Seq<char>| map_of(rows).dom().contains(k) <==> names.to_set().contains(k) by {
        if holds(rows, k) {
            assert(names[index_of(rows, k)] == k);
        }
        if names.contains(k) {
            let i = choose|i: int| 0 <= i < names.len() && names[i] == k;
            assert(rows[i].0 == k);
        }
    }
    assert(map_of(rows).dom() =~= names.to_set());
    names.unique_seq_to_set();
}

/// Storing an entry under a name that is already held replaces that entry and
/// changes nothing else: the names, their order and their number stay, and no
/// name appears twice.
pub proof fn lemma_overwrite_keeps_names(
    rows: Seq<(Seq<char>, EntryView)>,
    name: Seq<char>,
    entry: EntryView,
)
    requires
        ascending(rows),
        map_of(rows).contains_key(name),
    ensures
        names_of(rows_insert(rows, name, entry)) == names_of(rows),
        rows_insert(rows, name, entry).len() == rows.len(),
        map_of(rows_insert(rows, name, entry)).dom().len() == map_of(rows).dom().len(),
        names_of(rows_insert(rows, name, entry)).no_duplicates(),
        map_of(rows_insert(rows, name, entry))[name] == entry,
{
    lemma_insert(rows, name, entry);
    lemma_names_unique(rows);
    lemma_names_unique(rows_insert(rows, name, entry));
}

/// Taking out a name that is not held changes nothing.
pub proof fn lemma_remove_absent_is_noop(rows: Seq<(Seq<char>, EntryView)>, name: Seq<char>)
    requires
        ascending(rows),
        !map_of(rows).contains_key(name),
    ensures
        rows_remove(rows, name) == rows,
        map_of(rows_remove(rows, name)) == map_of(rows),
{
    lemma_remove(rows, name);
}

/// The rows that a list of named entries stands for.
pub open spec fn rows_view(rows: Seq<(String, Entry)>) -> Seq<(Seq<char>, EntryView)> {
    Seq::new(rows.len(), |i: int| (rows[i].0@, rows[i].1@))
}

/// The names of a list of strings.
pub open spec fn texts(strings: Seq<String>) -> Seq<Seq<char>> {
    Seq::new(strings.len(), |i: int| strings[i]@)
}

/// The record collection: a map from unique names to entries, kept in the
/// order of the names.
pub struct VaultPlain {
    rows: Vec<(String, Entry)>,
}

impl View for VaultPlain {
    type V = Map<Seq<char>, EntryView>;

    /// The map from names to entries.
    open spec fn view(&self) -> Map<Seq<char>, EntryView> {
        map_of(self.rows())
    }
}

impl VaultPlain {
    /// The rows of the collection, in order.
    pub closed spec fn rows(&self) -> Seq<(Seq<char>, EntryView)> {
        rows_view(self.rows@)
    }

    /// The invariant of the collection: names strictly ascending.
    pub open spec fn wf(&self) -> bool {
        ascending(self.rows())
    }

    /// An empty collection.
    pub fn new() -> (vault: Self)
        ensures
            vault.wf(),
            vault.rows() == Seq::<(Seq<char>, EntryView)>::empty(),
            vault@ == Map::<Seq<char>, EntryView>::empty(),
    {
        let vault = VaultPlain { rows: Vec::new() };
        proof {
            assert(vault.rows() =~= Seq::<(Seq<char>, EntryView)>::empty());
            assert(vault@ =~= Map::<Seq<char>, EntryView>::empty());
        }
        vault
    }

    /// The collection of the given rows, where their names are in strictly
    /// ascending order; `None` where they are not.
    pub fn from_rows(rows: Vec<(String, Entry)>) -> (res: Option<Self>)
        ensures
            res is Some <==> ascending(rows_view(rows@)),
            res matches Some(vault) ==> vault.wf() && vault.rows() == rows_view(rows@),
    {
        let ghost view = rows_view(rows@);
        let mut i: usize = 1;
        while i < rows.len()
            invariant
                1 <= i,
                view == rows_view(rows@),
                forall|a: int, b: int|
                    #![trigger view[a], view[b]]
                    0 <= a < b < i && b < view.len() ==> name_precedes(view[a].0, view[b].0),
            decreases rows@.len() - i,
        {
            match compare_names(rows[i - 1].0.as_str(), rows[i].0.as_str()) {
                NameOrder::Before => {},
                _ => {
                    assert(!name_precedes(view[i - 1].0, view[i as int].0));
                    return None;
                },
            }
            proof {
                assert forall|a: int, b: int|
                    #![trigger view[a], view[b]]
                    0 <= a < b < i + 1 && b < view.len() implies name_precedes(
                    view[a].0,
                    view[b].0,
                ) by {
                    if b == i && a < i - 1 {
                        assert(name_precedes(view[a].0, view[i - 1].0));
                        lemma_name_transitive(view[a].0, view[i - 1].0, view[i as int].0);
                    }
                }
            }
            i += 1;
        }
        Some(VaultPlain { rows })
    }

    /// The name of the record at index `i`, counted in the order of the names.
    pub fn name_at(&self, i: usize) -> (name: &String)
        requires
            i < self.rows().len(),
        ensures
            name@ == self.rows()[i as int].0,
    {
        &self.rows[i].0
    }

    /// The record at index `i`, counted in the order of the names.
    pub fn entry_at(&self, i: usize) -> (entry: &Entry)
        requires
            i < self.rows().len(),
        ensures
            entry@ == self.rows()[i as int].1,
    {
        &self.rows[i].1
    }

    /// The number of records.
    pub fn len(&self) -> (n: usize)
        ensures
            n == self.rows().len(),
            self.wf() ==> n == self@.dom().len(),
    {
        proof {
            if self.wf() {
                lemma_names_unique(self.rows());
            }
        }
        self.rows.len()
    }

    /// Whether the collection holds no record.
    pub fn is_empty(&self) -> (empty: bool)
        ensures
            empty == (self.rows().len() == 0),
    {
        self.rows.len() == 0
    }

    /// The position of a name among the rows, and whether the row there bears
    /// the name.
    fn find(&self, name: &str) -> (res: (usize, bool))
        ensures
            res.0 == position(self.rows(), name@),
            res.0 <= self.rows().len(),
            res.0 <= self.rows@.len(),
            res.1 == found_at_position(self.rows(), name@),
    {
        let mut i: usize = 0;
        while i < self.rows.len()
            invariant
                i <= self.rows@.len(),
                self.rows().len() == self.rows@.len(),
                position(self.rows(), name@) == position_from(self.rows(), name@, i as int),
            decreases self.rows@.len() - i,
        {
            let order = compare_names(self.rows[i].0.as_str(), name);
            proof {
                assert(self.rows()[i as int].0 == self.rows@[i as int].0@);
                lemma_name_irreflexive(name@);
                lemma_name_asymmetric(self.rows()[i as int].0, name@);
            }
            match order {
                NameOrder::Before => {
                    i += 1;
                },
                NameOrder::Same => {
                    return (i, true);
                },
                NameOrder::After => {
                    return (i, false);
                },
            }
        }
        (i, false)
    }

    /// Whether a record of this name is held.
    pub fn contains(&self, name: &str) -> (held: bool)
        requires
            self.wf(),
        ensures
            held == self@.contains_key(name@),
    {
        proof {
            lemma_found(self.rows(), name@);
        }
        self.find(name).1
    }

    /// The record of this name, if one is held.
    pub fn get(&self, name: &str) -> (res: Option<&Entry>)
        requires
            self.wf(),
        ensures
            res is Some <==> self@.contains_key(name@),
            res matches Some(entry) ==> entry@ == self@[name@],
    {
        proof {
            lemma_found(self.rows(), name@);
        }
        let (p, found) = self.find(name);
        if found {
            assert(self.rows()[p as int].1 == self.rows@[p as int].1@);
            Some(&self.rows[p].1)
        } else {
            None
        }
    }

    /// Stores `entry` under `name`. A record already held under that name is
    /// replaced and handed back; no second record of the name comes to be.
    pub fn insert(&mut self, name: String, entry: Entry) -> (previous: Option<Entry>)
        requires
            old(self).wf(),
        ensures
            final(self).wf(),
            final(self).rows() == rows_insert(old(self).rows(), name@, entry@),
            final(self)@ == old(self)@.insert(name@, entry@),
            previous is Some <==> old(self)@.contains_key(name@),
            previous matches Some(e) ==> e@ == old(self)@[name@],
            previous is Some ==> names_of(final(self).rows()) == names_of(old(self).rows())
                && final(self).rows().len() == old(self).rows().len(),
            previous is None ==> final(self).rows().len() == old(self).rows().len() + 1,
    {
        proof {
            lemma_found(self.rows(), name@);
            lemma_insert(self.rows(), name@, entry@);
        }
        let ghost before = self.rows();
        let ghost name_view = name@;
        let ghost entry_view = entry@;
        let (p, found) = self.find(name.as_str());
        if found {
            let row = self.rows.remove(p);
            self.rows.insert(p, (name, entry));
            proof {
                assert(row.1@ == before[p as int].1);
                assert(self.rows() =~= before.update(p as int, (name_view, entry_view)));
            }
            Some(row.1)
        } else {
            self.rows.insert(p, (name, entry));
            proof {
                assert(self.rows() =~= before.insert(p as int, (name_view, entry_view)));
            }
            None
        }
    }

    /// Takes the record of this name out and hands it back. Where no such
    /// record is held, nothing changes and `None` says so.
    pub fn remove(&mut self, name: &str) -> (taken: Option<Entry>)
        requires
            old(self).wf(),
        ensures
            final(self).wf(),
            final(self).rows() == rows_remove(old(self).rows(), name@),
            final(self)@ == old(self)@.remove(name@),
            taken is Some <==> old(self)@.contains_key(name@),
            taken matches Some(e) ==> e@ == old(self)@[name@],
            taken is None ==> final(self).rows() == old(self).rows(),
            taken is Some ==> final(self).rows().len() + 1 == old(self).rows().len(),
    {
        proof {
            lemma_found(self.rows(), name@);
            lemma_remove(self.rows(), name@);
        }
        let ghost before = self.rows();
        let (p, found) = self.find(name);
        if found {
            let row = self.rows.remove(p);
            proof {
                assert(row.1@ == before[p as int].1);
                assert(self.rows() =~= before.remove(p as int));
            }
            Some(row.1)
        } else {
            None
        }
    }

    /// The names of all records, in ascending order and each once.
    pub fn names(&self) -> (list: Vec<String>)
        ensures
            texts(list@) == names_of(self.rows()),
            self.wf() ==> texts(list@).no_duplicates() && texts(list@).to_set() == self@.dom(),
    {
        let mut list: Vec<String> = Vec::new();
        let mut i: usize = 0;
        while i < self.rows.len()
            invariant
                i <= self.rows@.len(),
                list@.len() == i,
                forall|k: int| 0 <= k < i ==> (#[trigger] list@[k])@ == self.rows@[k].0@,
            decreases self.rows@.len() - i,
        {
            list.push(self.rows[i].0.clone());
            i += 1;
        }
        proof {
            assert(texts(list@) =~= names_of(self.rows()));
            if self.wf() {
                lemma_names_unique(self.rows());
            }
        }
        list
    }
}

} // verus!

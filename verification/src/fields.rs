//! The stored shape of a block's content row: named columns, each holding
//! a text, an integer or a boolean. A column absent from the map is a NULL
//! column — never an invented empty value.

use vstd::prelude::*;

use crate::strings::str_eq;

verus! {

/// One stored column value.
#[derive(Debug, Clone, PartialEq, Eq)]
pub enum FieldValue {
    /// A text column.
    Text(String),
    /// An integer column.
    Integer(i64),
    /// A boolean column.
    Boolean(bool),
}

/// What a stored column value is, as a mathematical value.
pub enum Stored {
    /// A text column's characters.
    Text(Seq<char>),
    /// An integer column's value.
    Integer(i64),
    /// A boolean column's value.
    Boolean(bool),
}

impl FieldValue {
    /// The mathematical value of a column.
    pub open spec fn stored(&self) -> Stored {
        match self {
            FieldValue::Text(t) => Stored::Text(t@),
            FieldValue::Integer(i) => Stored::Integer(*i),
            FieldValue::Boolean(b) => Stored::Boolean(*b),
        }
    }
}

/// A content row's columns by name. No column name occurs twice.
#[derive(Debug)]
pub struct Fields {
    entries: Vec<(String, FieldValue)>,
}

/// The map a list of named columns stands for, later entries never
/// shadowed because names are unique.
pub open spec fn entries_map(entries: Seq<(String, FieldValue)>) -> Map<Seq<char>, Stored>
    decreases entries.len(),
{
    if entries.len() == 0 {
        Map::empty()
    } else {
        entries_map(entries.drop_last()).insert(entries.last().0@, entries.last().1.stored())
    }
}

/// Whether no column name occurs twice in a list.
pub open spec fn unique_names(entries: Seq<(String, FieldValue)>) -> bool {
    forall|i: int, j: int|
        0 <= i < entries.len() && 0 <= j < entries.len() && i != j ==> #[trigger] entries[i].0@
            != #[trigger] entries[j].0@
}

proof fn lemma_entries_map_dom(entries: Seq<(String, FieldValue)>, name: Seq<char>)
    ensures
        entries_map(entries).dom().contains(name) <==> exists|i: int|
            0 <= i < entries.len() && #[trigger] entries[i].0@ == name,
    decreases entries.len(),
{
    if entries.len() > 0 {
        let init = entries.drop_last();
        lemma_entries_map_dom(init, name);
        if exists|i: int| 0 <= i < entries.len() && #[trigger] entries[i].0@ == name {
            let i = choose|i: int| 0 <= i < entries.len() && #[trigger] entries[i].0@ == name;
            if i < entries.len() - 1 {
                assert(init[i].0@ == name);
            }
        }
        if exists|i: int| 0 <= i < init.len() && #[trigger] init[i].0@ == name {
            let i = choose|i: int| 0 <= i < init.len() && #[trigger] init[i].0@ == name;
            assert(entries[i].0@ == name);
        }
    }
}

proof fn lemma_entries_map_at(entries: Seq<(String, FieldValue)>, i: int)
    requires
        unique_names(entries),
        0 <= i < entries.len(),
    ensures
        entries_map(entries).dom().contains(entries[i].0@),
        entries_map(entries)[entries[i].0@] == entries[i].1.stored(),
    decreases entries.len(),
{
    lemma_entries_map_dom(entries, entries[i].0@);
    if i < entries.len() - 1 {
        let init = entries.drop_last();
        assert(unique_names(init)) by {
            assert forall|a: int, b: int|
                0 <= a < init.len() && 0 <= b < init.len() && a != b implies #[trigger] init[a].0@
                != #[trigger] init[b].0@ by {
                assert(init[a] == entries[a] && init[b] == entries[b]);
            }
        }
        assert(init[i] == entries[i]);
        lemma_entries_map_at(init, i);
        assert(entries.last().0@ != entries[i].0@);
    }
}

proof fn lemma_entries_map_update(entries: Seq<(String, FieldValue)>, i: int, entry: (String, FieldValue))
    requires
        unique_names(entries),
        0 <= i < entries.len(),
        entry.0@ == entries[i].0@,
    ensures
        unique_names(entries.update(i, entry)),
        entries_map(entries.update(i, entry)) == entries_map(entries).insert(entry.0@, entry.1.stored()),
{
    let updated = entries.update(i, entry);
    assert forall|a: int, b: int|
        0 <= a < updated.len() && 0 <= b < updated.len() && a != b implies #[trigger] updated[a].0@
        != #[trigger] updated[b].0@ by {
        assert(updated[a].0@ == entries[a].0@);
        assert(updated[b].0@ == entries[b].0@);
    }
    let lhs = entries_map(updated);
    let rhs = entries_map(entries).insert(entry.0@, entry.1.stored());
    assert forall|k: Seq<char>| lhs.dom().contains(k) <==> rhs.dom().contains(k) by {
        lemma_entries_map_dom(updated, k);
        lemma_entries_map_dom(entries, k);
        if exists|j: int| 0 <= j < entries.len() && #[trigger] entries[j].0@ == k {
            let j = choose|j: int| 0 <= j < entries.len() && #[trigger] entries[j].0@ == k;
            assert(updated[j].0@ == k);
        }
        if exists|j: int| 0 <= j < updated.len() && #[trigger] updated[j].0@ == k {
            let j = choose|j: int| 0 <= j < updated.len() && #[trigger] updated[j].0@ == k;
            assert(entries[j].0@ == k);
        }
    }
    assert forall|k: Seq<char>| #[trigger] lhs.dom().contains(k) implies lhs[k] == rhs[k] by {
        lemma_entries_map_dom(updated, k);
        let j = choose|j: int| 0 <= j < updated.len() && #[trigger] updated[j].0@ == k;
        lemma_entries_map_at(updated, j);
        if j != i {
            assert(entries[j] == updated[j]);
            lemma_entries_map_at(entries, j);
        }
    }
    assert(lhs =~= rhs);
}

impl Fields {
    /// The columns as a map from name to stored value.
    pub closed spec fn view(&self) -> Map<Seq<char>, Stored> {
        entries_map(self.entries@)
    }

    /// The well-formedness of a row: no column name occurs twice.
    #[verifier::type_invariant]
    closed spec fn wf(&self) -> bool {
        unique_names(self.entries@)
    }

    /// A row with no columns.
    pub fn new() -> (fields: Fields)
        ensures
            fields.view() == Map::<Seq<char>, Stored>::empty(),
    {
        Fields { entries: Vec::new() }
    }

    /// How many columns the row holds.
    pub fn len(&self) -> (n: usize)
        ensures
            n == self.view().dom().len(),
    {
        proof {
            use_type_invariant(&*self);
            lemma_len_of(self.entries@);
        }
        self.entries.len()
    }

    fn find(&self, column: &str) -> (index: Option<usize>)
        ensures
            index matches Some(i) ==> i < self.entries@.len() && self.entries@[i as int].0@
                == column@,
            index is None ==> forall|i: int|
                0 <= i < self.entries@.len() ==> #[trigger] self.entries@[i].0@ != column@,
    {
        let mut i: usize = 0;
        while i < self.entries.len()
            invariant
                i <= self.entries@.len(),
                forall|j: int| 0 <= j < i ==> #[trigger] self.entries@[j].0@ != column@,
            decreases self.entries@.len() - i,
        {
            if str_eq(self.entries[i].0.as_str(), column) {
                return Some(i);
            }
            i = i + 1;
        }
        None
    }

    /// Set one column, replacing its earlier value if it had one.
    pub fn insert(&mut self, column: &str, value: FieldValue)
        ensures
            final(self).view() == old(self).view().insert(column@, value.stored()),
    {
        proof {
            use_type_invariant(&*self);
        }
        let ghost before = self.entries@;
        let entry = (column.to_owned(), value);
        let found = self.find(column);
        let mut entries: Vec<(String, FieldValue)> = Vec::new();
        std::mem::swap(&mut entries, &mut self.entries);
        match found {
            Some(i) => {
                proof {
                    lemma_entries_map_update(before, i as int, entry);
                }
                entries.set(i, entry);
            },
            None => {
                entries.push(entry);
                proof {
                    let after = entries@;
                    assert(after.drop_last() =~= before);
                    assert forall|a: int, b: int|
                        0 <= a < after.len() && 0 <= b < after.len() && a != b implies #[trigger] after[a].0@
                        != #[trigger] after[b].0@ by {
                        if a < before.len() {
                            assert(after[a] == before[a]);
                        }
                        if b < before.len() {
                            assert(after[b] == before[b]);
                        }
                    }
                }
            },
        }
        self.entries = entries;
    }

    /// Set a text column.
    pub fn insert_text(&mut self, column: &str, text: &str)
        ensures
            final(self).view() == old(self).view().insert(column@, Stored::Text(text@)),
    {
        self.insert(column, FieldValue::Text(text.to_owned()));
    }

    /// Set an integer column.
    pub fn insert_integer(&mut self, column: &str, value: i64)
        ensures
            final(self).view() == old(self).view().insert(column@, Stored::Integer(value)),
    {
        self.insert(column, FieldValue::Integer(value));
    }

    /// Set a boolean column.
    pub fn insert_boolean(&mut self, column: &str, value: bool)
        ensures
            final(self).view() == old(self).view().insert(column@, Stored::Boolean(value)),
    {
        self.insert(column, FieldValue::Boolean(value));
    }

    /// The stored value of one column, `None` for a NULL column.
    pub fn get(&self, column: &str) -> (value: Option<&FieldValue>)
        ensures
            value is Some <==> self.view().dom().contains(column@),
            value matches Some(v) ==> self.view()[column@] == v.stored(),
    {
        proof {
            use_type_invariant(&*self);
            lemma_entries_map_dom(self.entries@, column@);
        }
        match self.find(column) {
            Some(i) => {
                proof {
                    lemma_entries_map_at(self.entries@, i as int);
                }
                Some(&self.entries[i].1)
            },
            None => None,
        }
    }

    /// A text column read back, `None` when the column is NULL or holds
    /// no text.
    pub fn text(&self, column: &str) -> (text: Option<String>)
        ensures
            text matches Some(s) ==> text_spec(self.view(), column@) == Some(s@),
            text is None ==> text_spec(self.view(), column@) is None,
    {
        match self.get(column) {
            Some(FieldValue::Text(t)) => Some(t.clone()),
            _ => None,
        }
    }

    /// An integer column read back, `None` when the column is NULL or
    /// holds no integer.
    pub fn integer(&self, column: &str) -> (value: Option<i64>)
        ensures
            value == integer_spec(self.view(), column@),
    {
        match self.get(column) {
            Some(FieldValue::Integer(i)) => Some(*i),
            _ => None,
        }
    }

    /// A boolean column read back, `None` when the column is NULL or holds
    /// no boolean.
    pub fn boolean(&self, column: &str) -> (value: Option<bool>)
        ensures
            value == boolean_spec(self.view(), column@),
    {
        match self.get(column) {
            Some(FieldValue::Boolean(b)) => Some(*b),
            _ => None,
        }
    }

    /// The columns in the order they were first set, for a store that
    /// writes the row.
    pub fn columns(&self) -> (columns: &Vec<(String, FieldValue)>)
        ensures
            entries_map(columns@) == self.view(),
    {
        &self.entries
    }
}

proof fn lemma_len_of(entries: Seq<(String, FieldValue)>)
    requires
        unique_names(entries),
    ensures
        entries_map(entries).dom().len() == entries.len(),
        entries_map(entries).dom().finite(),
    decreases entries.len(),
{
    if entries.len() > 0 {
        let init = entries.drop_last();
        assert(unique_names(init)) by {
            assert forall|a: int, b: int|
                0 <= a < init.len() && 0 <= b < init.len() && a != b implies #[trigger] init[a].0@
                != #[trigger] init[b].0@ by {
                assert(init[a] == entries[a] && init[b] == entries[b]);
            }
        }
        lemma_len_of(init);
        lemma_entries_map_dom(init, entries.last().0@);
        if entries_map(init).dom().contains(entries.last().0@) {
            let i = choose|i: int| 0 <= i < init.len() && #[trigger] init[i].0@ == entries.last().0@;
            assert(entries[i].0@ == entries[entries.len() - 1].0@);
        }
    }
}

/// The text a column holds, `None` for a NULL or non-text column.
pub open spec fn text_spec(view: Map<Seq<char>, Stored>, column: Seq<char>) -> Option<Seq<char>> {
    if view.dom().contains(column) {
        match view[column] {
            Stored::Text(t) => Some(t),
            _ => None,
        }
    } else {
        None
    }
}

/// The integer a column holds, `None` for a NULL or non-integer column.
pub open spec fn integer_spec(view: Map<Seq<char>, Stored>, column: Seq<char>) -> Option<i64> {
    if view.dom().contains(column) {
        match view[column] {
            Stored::Integer(i) => Some(i),
            _ => None,
        }
    } else {
        None
    }
}

/// The boolean a column holds, `None` for a NULL or non-boolean column.
pub open spec fn boolean_spec(view: Map<Seq<char>, Stored>, column: Seq<char>) -> Option<bool> {
    if view.dom().contains(column) {
        match view[column] {
            Stored::Boolean(b) => Some(b),
            _ => None,
        }
    } else {
        None
    }
}

} // verus!

//! A JSON object whose members are kept in insertion order, as the
//! storage layer keeps them.

use vstd::prelude::*;

verus! {

/// A JSON value. Numbers are held as their JSON text; arrays and objects,
/// which the rules here only carry along, as their serialized JSON text.
#[derive(PartialEq, Eq, Debug)]
pub enum JsonValue {
    Null,
    Bool(bool),
    Number(String),
    Text(String),
    Raw(String),
}

impl Clone for JsonValue {
    fn clone(&self) -> (r: Self)
        ensures
            r == *self,
    {
        match self {
            JsonValue::Null => JsonValue::Null,
            JsonValue::Bool(b) => JsonValue::Bool(*b),
            JsonValue::Number(n) => JsonValue::Number(n.clone()),
            JsonValue::Text(t) => JsonValue::Text(t.clone()),
            JsonValue::Raw(r) => JsonValue::Raw(r.clone()),
        }
    }
}

/// A JSON value as plain text values.
pub enum JsonValueView {
    Null,
    Bool(bool),
    Number(Seq<char>),
    Text(Seq<char>),
    Raw(Seq<char>),
}

impl View for JsonValue {
    type V = JsonValueView;

    open spec fn view(&self) -> JsonValueView {
        match self {
            JsonValue::Null => JsonValueView::Null,
            JsonValue::Bool(b) => JsonValueView::Bool(*b),
            JsonValue::Number(n) => JsonValueView::Number(n@),
            JsonValue::Text(t) => JsonValueView::Text(t@),
            JsonValue::Raw(r) => JsonValueView::Raw(r@),
        }
    }
}

pub type Entries = Seq<(Seq<char>, JsonValueView)>;

pub open spec fn entries_view(entries: Seq<(String, JsonValue)>) -> Entries {
    entries.map_values(|e: (String, JsonValue)| (e.0@, e.1@))
}

/// The position of the first member named `key`.
pub open spec fn key_index(entries: Entries, key: Seq<char>) -> Option<int>
    decreases entries.len(),
{
    if entries.len() == 0 {
        None
    } else {
        match key_index(entries.drop_last(), key) {
            Some(i) => Some(i),
            None => if entries.last().0 == key {
                Some(entries.len() - 1)
            } else {
                None
            },
        }
    }
}

/// Inserting a member: an existing member keeps its place and takes the
/// value; a new member goes last.
pub open spec fn map_insert(entries: Entries, key: Seq<char>, value: JsonValueView) -> Entries {
    match key_index(entries, key) {
        Some(i) => entries.update(i, (key, value)),
        None => entries.push((key, value)),
    }
}

/// Removing a member: the last member takes its place (a swap removal).
pub open spec fn map_remove(entries: Entries, key: Seq<char>) -> (Entries, Option<JsonValueView>) {
    match key_index(entries, key) {
        Some(i) => (entries.update(i, entries.last()).drop_last(), Some(entries[i].1)),
        None => (entries, None),
    }
}

/// A JSON object with its members in order.
#[derive(PartialEq, Eq, Debug)]
pub struct JsonMap {
    pub entries: Vec<(String, JsonValue)>,
}

impl View for JsonMap {
    type V = Entries;

    open spec fn view(&self) -> Entries {
        entries_view(self.entries@)
    }
}

impl JsonMap {
    fn find(&self, key: &str) -> (r: Option<usize>)
        ensures
            match r {
                Some(i) => key_index(self@, key@) == Some(i as int) && i < self.entries.len(),
                None => key_index(self@, key@) is None,
            },
    {
        let mut i: usize = 0;
        while i < self.entries.len()
            invariant
                i <= self.entries.len(),
                key_index(entries_view(self.entries@.take(i as int)), key@) is None,
            decreases self.entries.len() - i,
        {
            assert(entries_view(self.entries@.take(i + 1)).drop_last() =~= entries_view(
                self.entries@.take(i as int),
            ));
            if crate::text::str_eq(self.entries[i].0.as_str(), key) {
                proof {
                    lemma_key_index_prefix(self.entries@, key@, (i + 1) as int);
                }
                return Some(i);
            }
            i = i + 1;
        }
        assert(self.entries@.take(self.entries.len() as int) =~= self.entries@);
        None
    }

    /// Inserts a member, as [`map_insert`] describes.
    pub fn insert(&mut self, key: String, value: JsonValue)
        ensures
            final(self)@ == map_insert(old(self)@, key@, value@),
    {
        match self.find(key.as_str()) {
            Some(i) => {
                self.entries.set(i, (key, value));
                assert(final(self)@ =~= map_insert(old(self)@, key@, value@));
            },
            None => {
                self.entries.push((key, value));
                assert(final(self)@ =~= map_insert(old(self)@, key@, value@));
            },
        }
    }

    /// Removes a member, as [`map_remove`] describes, and gives its value.
    pub fn remove(&mut self, key: &str) -> (r: Option<JsonValue>)
        ensures
            final(self)@ == map_remove(old(self)@, key@).0,
            match r {
                Some(v) => map_remove(old(self)@, key@).1 == Some(v@),
                None => map_remove(old(self)@, key@).1 is None,
            },
    {
        match self.find(key) {
            Some(i) => {
                let removed = self.entries.swap_remove(i);
                assert(final(self)@ =~= map_remove(old(self)@, key@).0);
                Some(removed.1)
            },
            None => None,
        }
    }
}

proof fn lemma_key_index_prefix(entries: Seq<(String, JsonValue)>, key: Seq<char>, n: int)
    requires
        0 < n <= entries.len(),
        key_index(entries_view(entries.take(n)), key) == Some(n - 1),
    ensures
        key_index(entries_view(entries), key) == Some(n - 1),
    decreases entries.len(),
{
    if entries.len() > n {
        assert(entries.drop_last().take(n) =~= entries.take(n));
        assert(entries_view(entries).drop_last() =~= entries_view(entries.drop_last()));
        lemma_key_index_prefix(entries.drop_last(), key, n);
    } else {
        assert(entries.take(n) =~= entries);
    }
}


fn same_value(a: &JsonValue, b: &JsonValue) -> (r: bool)
    ensures
        r == (a@ == b@),
{
    match (a, b) {
        (JsonValue::Null, JsonValue::Null) => true,
        (JsonValue::Bool(x), JsonValue::Bool(y)) => *x == *y,
        (JsonValue::Number(x), JsonValue::Number(y)) => crate::text::str_eq(x.as_str(), y.as_str()),
        (JsonValue::Text(x), JsonValue::Text(y)) => crate::text::str_eq(x.as_str(), y.as_str()),
        (JsonValue::Raw(x), JsonValue::Raw(y)) => crate::text::str_eq(x.as_str(), y.as_str()),
        _ => false,
    }
}

impl JsonMap {
    /// An object without members.
    pub fn new() -> (r: JsonMap)
        ensures
            r@.len() == 0,
    {
        let r = JsonMap { entries: Vec::new() };
        assert(r@ =~= Seq::<(Seq<char>, JsonValueView)>::empty());
        r
    }

    /// A copy of the object.
    pub fn duplicate(&self) -> (r: JsonMap)
        ensures
            r@ == self@,
    {
        let mut entries: Vec<(String, JsonValue)> = Vec::new();
        let mut i: usize = 0;
        while i < self.entries.len()
            invariant
                i <= self.entries.len(),
                entries_view(entries@) == entries_view(self.entries@.take(i as int)),
            decreases self.entries.len() - i,
        {
            let ghost before = entries@;
            let key = self.entries[i].0.clone();
            let value = self.entries[i].1.clone();
            entries.push((key, value));
            assert(entries_view(entries@) =~= entries_view(before).push(
                (self.entries@[i as int].0@, self.entries@[i as int].1@),
            ));
            assert(entries_view(self.entries@.take(i + 1)) =~= entries_view(self.entries@.take(i as int)).push(
                (self.entries@[i as int].0@, self.entries@[i as int].1@),
            ));
            i = i + 1;
        }
        assert(self.entries@.take(self.entries.len() as int) =~= self.entries@);
        JsonMap { entries }
    }

    /// Whether two objects have the same members in the same order.
    pub fn same_as(&self, other: &JsonMap) -> (r: bool)
        ensures
            r == (self@ == other@),
    {
        if self.entries.len() != other.entries.len() {
            proof {
                if self@ == other@ {
                    assert(self@.len() == self.entries@.len());
                }
            }
            return false;
        }
        let mut i: usize = 0;
        while i < self.entries.len()
            invariant
                i <= self.entries.len(),
                self.entries.len() == other.entries.len(),
                forall|q: int| 0 <= q < i ==> self@[q] == #[trigger] other@[q],
            decreases self.entries.len() - i,
        {
            if !(crate::text::str_eq(self.entries[i].0.as_str(), other.entries[i].0.as_str()) && same_value(
                &self.entries[i].1,
                &other.entries[i].1,
            )) {
                proof {
                    assert(self@[i as int] != other@[i as int]);
                }
                return false;
            }
            i = i + 1;
        }
        assert(self@ =~= other@);
        true
    }
}

} // verus!

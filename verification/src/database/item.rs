//! Stored items: small maps from attribute names to typed values.

use vstd::prelude::*;
use vstd::string::StringExecFns;
use crate::domain::errors::{ErrorKind, LogicError};
use crate::text::same_text;

verus! {

/// The value of one attribute of a stored item.
#[derive(Clone, Debug)]
pub enum AttributeValue {
    /// A string.
    S(String),
    /// A whole number.
    N(i64),
}

/// An [`AttributeValue`] as a value of the model.
pub enum AttributeView {
    S(Seq<char>),
    N(i64),
}

impl View for AttributeValue {
    type V = AttributeView;

    open spec fn view(&self) -> AttributeView {
        match self {
            AttributeValue::S(s) => AttributeView::S(s@),
            AttributeValue::N(n) => AttributeView::N(*n),
        }
    }
}

impl AttributeValue {
    /// A copy of this value.
    pub fn duplicate(&self) -> (copy: AttributeValue)
        ensures
            copy@ == self@,
    {
        match self {
            AttributeValue::S(s) => AttributeValue::S(s.clone()),
            AttributeValue::N(n) => AttributeValue::N(*n),
        }
    }
}

/// One named attribute.
#[derive(Clone, Debug)]
pub struct Attribute {
    pub name: String,
    pub value: AttributeValue,
}

/// An item as a value of the model: a map from attribute names to values.
pub type ItemView = Map<Seq<char>, AttributeView>;

/// A stored item. Where a name occurs more than once in `attributes`, the
/// last occurrence is the attribute's value.
#[derive(Clone, Debug)]
pub struct Item {
    pub attributes: Vec<Attribute>,
}

/// The map that a list of attributes stands for: later entries win.
pub open spec fn attributes_map(s: Seq<Attribute>) -> ItemView
    decreases s.len(),
{
    if s.len() == 0 {
        Map::empty()
    } else {
        attributes_map(s.drop_last()).insert(s.last().name@, s.last().value@)
    }
}

impl View for Item {
    type V = ItemView;

    open spec fn view(&self) -> ItemView {
        attributes_map(self.attributes@)
    }
}

/// The string stored under `name`, if the item has one there.
pub open spec fn string_at(item: ItemView, name: Seq<char>) -> Option<Seq<char>> {
    if item.contains_key(name) {
        match item[name] {
            AttributeView::S(s) => Some(s),
            AttributeView::N(_) => None,
        }
    } else {
        None
    }
}

/// The number stored under `name`, if the item has one there.
pub open spec fn number_at(item: ItemView, name: Seq<char>) -> Option<i64> {
    if item.contains_key(name) {
        match item[name] {
            AttributeView::S(_) => None,
            AttributeView::N(n) => Some(n),
        }
    } else {
        None
    }
}

/// The entry at `i` decides the value of its name when no later entry has
/// that name.
pub proof fn lemma_last_occurrence_decides(s: Seq<Attribute>, i: int)
    requires
        0 <= i < s.len(),
        forall|j: int| i < j < s.len() ==> s[j].name@ != s[i].name@,
    ensures
        attributes_map(s).contains_key(s[i].name@),
        attributes_map(s)[s[i].name@] == s[i].value@,
    decreases s.len(),
{
    if i < s.len() - 1 {
        let rest = s.drop_last();
        assert(rest[i] == s[i]);
        assert forall|j: int| i < j < rest.len() implies rest[j].name@ != rest[i].name@ by {
            assert(rest[j] == s[j]);
        }
        lemma_last_occurrence_decides(rest, i);
    }
}

/// A name that no entry has is not in the map.
pub proof fn lemma_absent_name(s: Seq<Attribute>, name: Seq<char>)
    requires
        forall|j: int| 0 <= j < s.len() ==> s[j].name@ != name,
    ensures
        !attributes_map(s).contains_key(name),
    decreases s.len(),
{
    if s.len() > 0 {
        let rest = s.drop_last();
        assert forall|j: int| 0 <= j < rest.len() implies rest[j].name@ != name by {
            assert(rest[j] == s[j]);
        }
        lemma_absent_name(rest, name);
    }
}

/// Replacing the last entry of a name changes the map as an insertion
/// under that name does.
pub proof fn lemma_replace_last_occurrence(s: Seq<Attribute>, i: int, a: Attribute)
    requires
        0 <= i < s.len(),
        s[i].name@ == a.name@,
        forall|j: int| i < j < s.len() ==> s[j].name@ != a.name@,
    ensures
        attributes_map(s.update(i, a)) == attributes_map(s).insert(a.name@, a.value@),
    decreases s.len(),
{
    let t = s.update(i, a);
    if i == s.len() - 1 {
        assert(t.drop_last() == s.drop_last());
        assert(attributes_map(t) =~= attributes_map(s).insert(a.name@, a.value@));
    } else {
        let rest = s.drop_last();
        assert(rest[i] == s[i]);
        assert forall|j: int| i < j < rest.len() implies rest[j].name@ != a.name@ by {
            assert(rest[j] == s[j]);
        }
        lemma_replace_last_occurrence(rest, i, a);
        assert(t.drop_last() == rest.update(i, a));
        assert(t.last() == s.last());
        assert(s.last().name@ != a.name@);
        assert(attributes_map(t) =~= attributes_map(s).insert(a.name@, a.value@));
    }
}

impl Item {
    /// The item with no attribute.
    pub fn new() -> (item: Item)
        ensures
            item@ == Map::<Seq<char>, AttributeView>::empty(),
    {
        Item { attributes: Vec::new() }
    }

    /// The index of the last entry named `name`, or the number of entries
    /// where there is none.
    fn position(&self, name: &str) -> (i: usize)
        ensures
            i <= self.attributes.len(),
            i < self.attributes.len() ==> self.attributes[i as int].name@ == name@,
            forall|j: int| i < j < self.attributes.len() ==> self.attributes[j].name@ != name@,
            i == self.attributes.len() ==> forall|j: int|
                0 <= j < self.attributes.len() ==> self.attributes[j].name@ != name@,
    {
        let n = self.attributes.len();
        let mut i: usize = n;
        while i > 0
            invariant
                i <= n,
                n == self.attributes.len(),
                forall|j: int| i <= j < n ==> self.attributes[j].name@ != name@,
            decreases i,
        {
            i -= 1;
            if same_text(self.attributes[i].name.as_str(), name) {
                return i;
            }
        }
        n
    }

    /// The value stored under `name`, if there is one.
    pub fn get(&self, name: &str) -> (value: Option<&AttributeValue>)
        ensures
            match value {
                Some(v) => self@.contains_key(name@) && self@[name@] == v@,
                None => !self@.contains_key(name@),
            },
    {
        let i = self.position(name);
        if i < self.attributes.len() {
            proof {
                lemma_last_occurrence_decides(self.attributes@, i as int);
            }
            Some(&self.attributes[i].value)
        } else {
            proof {
                lemma_absent_name(self.attributes@, name@);
            }
            None
        }
    }

    /// Stores `value` under `name`, in place of any value that was there.
    pub fn insert(&mut self, name: &str, value: AttributeValue)
        ensures
            final(self)@ == old(self)@.insert(name@, value@),
    {
        let i = self.position(name);
        let entry = Attribute { name: String::from_str(name), value };
        if i < self.attributes.len() {
            proof {
                lemma_replace_last_occurrence(self.attributes@, i as int, entry);
            }
            self.attributes.set(i, entry);
        } else {
            proof {
                assert(self.attributes@.push(entry).drop_last() == self.attributes@);
            }
            self.attributes.push(entry);
        }
    }

    /// The string stored under `name`. Fails with `Conflict` where the item
    /// has no string there.
    pub fn get_string(&self, name: &str) -> (res: Result<String, LogicError>)
        ensures
            match res {
                Ok(s) => string_at(self@, name@) == Some(s@),
                Err(e) => string_at(self@, name@) is None && e@.kind == ErrorKind::Conflict,
            },
    {
        match self.get(name) {
            Some(AttributeValue::S(s)) => Ok(s.clone()),
            Some(AttributeValue::N(_)) => Err(
                LogicError::Conflict(String::from_str("attribute is not a string")),
            ),
            None => Err(LogicError::Conflict(String::from_str("attribute is missing"))),
        }
    }

    /// The number stored under `name`. Fails with `Conflict` where the item
    /// has no number there.
    pub fn get_number(&self, name: &str) -> (res: Result<i64, LogicError>)
        ensures
            match res {
                Ok(n) => number_at(self@, name@) == Some(n),
                Err(e) => number_at(self@, name@) is None && e@.kind == ErrorKind::Conflict,
            },
    {
        match self.get(name) {
            Some(AttributeValue::N(n)) => Ok(*n),
            Some(AttributeValue::S(_)) => Err(
                LogicError::Conflict(String::from_str("attribute is not a number")),
            ),
            None => Err(LogicError::Conflict(String::from_str("attribute is missing"))),
        }
    }

    /// A copy of this item.
    pub fn duplicate(&self) -> (copy: Item)
        ensures
            copy@ == self@,
    {
        let mut attributes: Vec<Attribute> = Vec::new();
        let mut i: usize = 0;
        while i < self.attributes.len()
            invariant
                i <= self.attributes.len(),
                attributes.len() == i,
                forall|j: int|
                    0 <= j < i ==> attributes[j].name@ == self.attributes[j].name@
                        && attributes[j].value@ == self.attributes[j].value@,
            decreases self.attributes.len() - i,
        {
            attributes.push(
                Attribute {
                    name: self.attributes[i].name.clone(),
                    value: self.attributes[i].value.duplicate(),
                },
            );
            i += 1;
        }
        proof {
            lemma_same_entries_same_map(attributes@, self.attributes@);
        }
        Item { attributes }
    }
}

/// Lists that agree entry by entry, in name and value, stand for the same
/// map.
pub proof fn lemma_same_entries_same_map(a: Seq<Attribute>, b: Seq<Attribute>)
    requires
        a.len() == b.len(),
        forall|j: int|
            0 <= j < a.len() ==> a[j].name@ == b[j].name@ && a[j].value@ == b[j].value@,
    ensures
        attributes_map(a) == attributes_map(b),
    decreases a.len(),
{
    if a.len() > 0 {
        let x = a.drop_last();
        let y = b.drop_last();
        assert forall|j: int| 0 <= j < x.len() implies x[j].name@ == y[j].name@ && x[j].value@
            == y[j].value@ by {
            assert(x[j] == a[j]);
            assert(y[j] == b[j]);
        }
        lemma_same_entries_same_map(x, y);
    }
}

} // verus!

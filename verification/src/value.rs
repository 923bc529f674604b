//! The JSON-like value model shared by arguments, schemas and results.

use vstd::prelude::*;

verus! {

/// The mathematical model of a structured value.
///
/// Integers are unbounded; a floating-point number is identified by its
/// IEEE-754 bit pattern, which is carried around but never computed with.
pub enum Json {
    Null,
    Bool(bool),
    Int(int),
    Float(u64),
    String(Seq<char>),
    Array(Seq<Json>),
    Object(Map<Seq<char>, Json>),
}

/// A JSON number: a non-negative integer, a signed integer, or a
/// floating-point number given by its IEEE-754 bit pattern.
#[derive(Debug, Clone, Copy, PartialEq, Eq)]
pub enum Number {
    PosInt(u64),
    NegInt(i64),
    Float(u64),
}

/// A structured value: null, a boolean, a number, a string, a sequence of
/// values, or a mapping from names to values.
#[derive(Debug, PartialEq, Eq)]
pub enum Value {
    Null,
    Bool(bool),
    Number(Number),
    String(String),
    Array(Vec<Value>),
    Object(Object),
}

/// A mapping from names to values, such as the members of a JSON object or
/// the arguments of one invocation. No name occurs twice.
///
/// Entries are kept in the order in which their names were first inserted;
/// `==` compares entry by entry, in that order.
#[derive(Debug, PartialEq, Eq)]
pub struct Object {
    entries: Vec<(String, Value)>,
}

/// The arguments of one invocation, by parameter name.
pub type ArgumentMap = Object;

impl View for Number {
    type V = Json;

    open spec fn view(&self) -> Json {
        match *self {
            Number::PosInt(n) => Json::Int(n as int),
            Number::NegInt(n) => Json::Int(n as int),
            Number::Float(bits) => Json::Float(bits),
        }
    }
}

impl View for Value {
    type V = Json;

    /// The mathematical value that this value stands for.
    open spec fn view(&self) -> Json
        decreases self,
    {
        match self {
            Value::Null => Json::Null,
            Value::Bool(b) => Json::Bool(*b),
            Value::Number(n) => n@,
            Value::String(s) => Json::String(s@),
            Value::Array(items) => Json::Array(items_model(items@)),
            Value::Object(o) => Json::Object(o@),
        }
    }
}

impl View for Object {
    type V = Map<Seq<char>, Json>;

    /// The mapping that this object stands for.
    closed spec fn view(&self) -> Map<Seq<char>, Json>
        decreases self,
    {
        entries_model(self.entries@)
    }
}

/// The models of a sequence of values, item by item.
pub open spec fn items_model(items: Seq<Value>) -> Seq<Json>
    decreases items,
{
    Seq::new(
        items.len(),
        |i: int|
            if 0 <= i < items.len() {
                items[i]@
            } else {
                Json::Null
            },
    )
}

/// The mapping that a sequence of entries builds up, entry by entry.
spec fn entries_model(entries: Seq<(String, Value)>) -> Map<Seq<char>, Json>
    decreases entries,
{
    if entries.len() == 0 {
        Map::empty()
    } else {
        entries_model(entries.drop_last()).insert(entries.last().0@, entries.last().1@)
    }
}

/// The names of a sequence of entries, in order.
spec fn names_of(entries: Seq<(String, Value)>) -> Seq<Seq<char>> {
    Seq::new(entries.len(), |i: int| entries[i].0@)
}

/// What `entries_model` yields in terms of the names and values of the
/// entries.
proof fn lemma_entries_model(entries: Seq<(String, Value)>)
    ensures
        entries_model(entries).dom() =~= names_of(entries).to_set(),
        names_of(entries).no_duplicates() ==> forall|i: int|
            0 <= i < entries.len() ==> entries_model(entries)[#[trigger] names_of(entries)[i]]
                == entries[i].1@,
    decreases entries.len(),
{
    if entries.len() > 0 {
        let front = entries.drop_last();
        let last = entries.last();
        let n = front.len() as int;
        let names = names_of(entries);
        lemma_entries_model(front);
        assert(names_of(front) =~= names.drop_last());
        assert(names[n] == last.0@);
        assert(entries_model(entries) == entries_model(front).insert(last.0@, last.1@));
        assert forall|k: Seq<char>| entries_model(entries).dom().contains(k) implies names.contains(
            k,
        ) by {
            if k != last.0@ {
                assert(names_of(front).contains(k));
                let i = choose|i: int| 0 <= i < n && names_of(front)[i] == k;
                assert(names[i] == k);
            }
        }
        assert forall|k: Seq<char>| names.contains(k) implies entries_model(
            entries,
        ).dom().contains(k) by {
            let i = choose|i: int| 0 <= i < names.len() && names[i] == k;
            if i < n {
                assert(names_of(front)[i] == k);
                assert(names_of(front).contains(k));
            }
        }
        if names.no_duplicates() {
            assert forall|i: int| 0 <= i < entries.len() implies entries_model(
                entries,
            )[#[trigger] names[i]] == entries[i].1@ by {
                if i < n {
                    assert(names_of(front)[i] == names[i]);
                    assert(names[i] != names[n]);
                    assert(front[i] == entries[i]);
                }
            }
        }
    }
}

impl Number {
    /// Whether the number is an integer that fits in an `i64`.
    pub fn is_i64(&self) -> (r: bool)
        ensures
            r == (self@ matches Json::Int(i) && i64::MIN <= i <= i64::MAX),
    {
        match self {
            Number::PosInt(n) => *n <= 0x7fff_ffff_ffff_ffffu64,
            Number::NegInt(_) => true,
            Number::Float(_) => false,
        }
    }

    /// The number as an `i64`, if it is an integer in that range.
    pub fn as_i64(&self) -> (r: Option<i64>)
        ensures
            r == (if self@ matches Json::Int(i) && i64::MIN <= i <= i64::MAX {
                Some(self@->Int_0 as i64)
            } else {
                None
            }),
    {
        match self {
            Number::PosInt(n) => if *n <= 0x7fff_ffff_ffff_ffffu64 {
                Some(*n as i64)
            } else {
                None
            },
            Number::NegInt(n) => Some(*n),
            Number::Float(_) => None,
        }
    }
}

impl Object {
    #[verifier::type_invariant]
    spec fn names_are_distinct(self) -> bool {
        names_of(self.entries@).no_duplicates()
    }

    /// The names of the entries, in the order in which they were first
    /// inserted.
    pub closed spec fn names(&self) -> Seq<Seq<char>> {
        names_of(self.entries@)
    }

    /// An object without entries.
    pub fn new() -> (r: Self)
        ensures
            r@ == Map::<Seq<char>, Json>::empty(),
            r.names() == Seq::<Seq<char>>::empty(),
    {
        let r = Object { entries: Vec::new() };
        assert(r.names() =~= Seq::<Seq<char>>::empty());
        r
    }

    /// Where the entry called `name` stands, if there is one.
    fn position(&self, name: &str) -> (r: Option<usize>)
        ensures
            match r {
                Some(i) => i < self.entries.len() && names_of(self.entries@)[i as int] == name@,
                None => !names_of(self.entries@).contains(name@),
            },
    {
        let wanted = name.to_owned();
        let mut i: usize = 0;
        while i < self.entries.len()
            invariant
                i <= self.entries.len(),
                wanted@ == name@,
                forall|j: int| 0 <= j < i ==> names_of(self.entries@)[j] != name@,
            decreases self.entries.len() - i,
        {
            if self.entries[i].0 == wanted {
                return Some(i);
            }
            i += 1;
        }
        None
    }

    /// Whether the object has an entry called `name`.
    pub fn contains_key(&self, name: &str) -> (r: bool)
        ensures
            r == self@.contains_key(name@),
    {
        proof {
            lemma_entries_model(self.entries@);
        }
        self.position(name).is_some()
    }

    /// The value of the entry called `name`, if there is one.
    pub fn get(&self, name: &str) -> (r: Option<&Value>)
        ensures
            match r {
                Some(v) => self@.contains_key(name@) && v@ == self@[name@],
                None => !self@.contains_key(name@),
            },
    {
        proof {
            use_type_invariant(self);
            lemma_entries_model(self.entries@);
        }
        match self.position(name) {
            Some(i) => Some(&self.entries[i].1),
            None => None,
        }
    }

    /// Sets the entry called `name` to `value`, and hands back the value
    /// that the name had before, if it had one. A name that is new comes
    /// last; one that was there keeps its place.
    pub fn insert(&mut self, name: String, value: Value) -> (previous: Option<Value>)
        ensures
            final(self)@ == old(self)@.insert(name@, value@),
            match previous {
                Some(p) => old(self)@.contains_key(name@) && p@ == old(self)@[name@],
                None => !old(self)@.contains_key(name@),
            },
            final(self).names() == if old(self)@.contains_key(name@) {
                old(self).names()
            } else {
                old(self).names().push(name@)
            },
    {
        proof {
            use_type_invariant(&*self);
            lemma_entries_model(self.entries@);
        }
        let ghost before = self.entries@;
        let found = self.position(name.as_str());
        let mut entries: Vec<(String, Value)> = Vec::new();
        assert(names_of(entries@) =~= Seq::<Seq<char>>::empty());
        std::mem::swap(&mut self.entries, &mut entries);
        match found {
            Some(i) => {
                let replaced = entries.remove(i);
                entries.insert(i, (name, value));
                proof {
                    let after = entries@;
                    assert(after =~= before.update(i as int, (name, value)));
                    assert(names_of(after) =~= names_of(before));
                    lemma_entries_model(after);
                    assert forall|k: Seq<char>| #[trigger]
                        entries_model(after).contains_key(k) implies entries_model(after)[k]
                        == entries_model(before).insert(name@, value@)[k] by {
                        let j = choose|j: int| 0 <= j < after.len() && names_of(after)[j] == k;
                        assert(entries_model(after)[names_of(after)[j]] == after[j].1@);
                        if j != i {
                            assert(entries_model(before)[names_of(before)[j]] == before[j].1@);
                        }
                    }
                    assert(entries_model(after) =~= entries_model(before).insert(name@, value@));
                    assert(entries_model(before)[names_of(before)[i as int]] == before[i as int].1@);
                }
                self.entries = entries;
                Some(replaced.1)
            },
            None => {
                entries.push((name, value));
                proof {
                    let after = entries@;
                    assert(after.drop_last() =~= before);
                    assert(names_of(after) =~= names_of(before).push(name@));
                }
                self.entries = entries;
                None
            },
        }
    }

    /// The number of entries. The names of the entries are pairwise
    /// distinct, and they are the names that the object maps.
    pub fn len(&self) -> (r: usize)
        ensures
            r == self.names().len(),
            r == self@.dom().len(),
            self@.dom().finite(),
            self.names().no_duplicates(),
            self.names().to_set() == self@.dom(),
    {
        proof {
            use_type_invariant(self);
            lemma_entries_model(self.entries@);
            names_of(self.entries@).unique_seq_to_set();
            vstd::seq_lib::seq_to_set_is_finite(names_of(self.entries@));
        }
        self.entries.len()
    }

    /// Whether the object has no entries.
    pub fn is_empty(&self) -> (r: bool)
        ensures
            r == (self.names().len() == 0),
            r == (self@ == Map::<Seq<char>, Json>::empty()),
    {
        proof {
            lemma_entries_model(self.entries@);
            if self.entries@.len() > 0 {
                assert(names_of(self.entries@)[0] == self.entries@[0].0@);
                assert(names_of(self.entries@).contains(self.entries@[0].0@));
                assert(self@.dom().contains(self.entries@[0].0@));
            } else {
                assert(self@ =~= Map::<Seq<char>, Json>::empty());
            }
        }
        self.entries.len() == 0
    }

    /// The entry at `index`, counting in the order of `names`, or `None`
    /// when the object has no more than `index` entries.
    pub fn entry(&self, index: usize) -> (r: Option<(&str, &Value)>)
        ensures
            match r {
                Some((name, value)) => index < self.names().len() && name@
                    == self.names()[index as int] && self@.contains_key(name@) && value@
                    == self@[name@],
                None => index >= self.names().len(),
            },
    {
        proof {
            use_type_invariant(self);
            lemma_entries_model(self.entries@);
        }
        if index < self.entries.len() {
            assert(names_of(self.entries@).contains(names_of(self.entries@)[index as int]));
            Some((self.entries[index].0.as_str(), &self.entries[index].1))
        } else {
            None
        }
    }
}

/// A copy of a sequence of values, item by item.
fn clone_items(items: &Vec<Value>) -> (r: Vec<Value>)
    ensures
        items_model(r@) == items_model(items@),
    decreases items,
{
    let mut copy: Vec<Value> = Vec::new();
    let mut i: usize = 0;
    while i < items.len()
        invariant
            i <= items.len(),
            copy.len() == i,
            forall|j: int| 0 <= j < i ==> copy@[j]@ == items@[j]@,
        decreases items.len() - i,
    {
        copy.push(items[i].clone());
        i += 1;
    }
    assert(items_model(copy@) =~= items_model(items@));
    copy
}

impl Clone for Value {
    /// A copy that stands for the same value.
    fn clone(&self) -> (r: Self)
        ensures
            r@ == self@,
        decreases self,
    {
        match self {
            Value::Null => Value::Null,
            Value::Bool(b) => Value::Bool(*b),
            Value::Number(n) => Value::Number(*n),
            Value::String(s) => Value::String(s.clone()),
            Value::Array(items) => Value::Array(clone_items(items)),
            Value::Object(o) => Value::Object(o.clone()),
        }
    }
}

impl Clone for Object {
    /// A copy with the same entries in the same order.
    fn clone(&self) -> (r: Self)
        ensures
            r@ == self@,
            r.names() == self.names(),
        decreases self,
    {
        proof {
            use_type_invariant(self);
        }
        let mut copy: Vec<(String, Value)> = Vec::new();
        let mut i: usize = 0;
        while i < self.entries.len()
            invariant
                i <= self.entries.len(),
                copy.len() == i,
                forall|j: int|
                    0 <= j < i ==> copy@[j].0@ == self.entries@[j].0@ && copy@[j].1@
                        == self.entries@[j].1@,
            decreases self.entries.len() - i,
        {
            copy.push((self.entries[i].0.clone(), self.entries[i].1.clone()));
            i += 1;
        }
        proof {
            assert(names_of(copy@) =~= names_of(self.entries@));
            lemma_entries_model_agree(copy@, self.entries@);
        }
        Object { entries: copy }
    }
}

/// Entries that agree in their names and in what their values stand for
/// build up the same mapping.
proof fn lemma_entries_model_agree(a: Seq<(String, Value)>, b: Seq<(String, Value)>)
    requires
        a.len() == b.len(),
        forall|j: int| 0 <= j < a.len() ==> a[j].0@ == b[j].0@ && a[j].1@ == b[j].1@,
    ensures
        entries_model(a) == entries_model(b),
    decreases a.len(),
{
    if a.len() > 0 {
        lemma_entries_model_agree(a.drop_last(), b.drop_last());
    }
}

impl Value {
    /// Whether the value is null.
    pub fn is_null(&self) -> (r: bool)
        ensures
            r == (self@ is Null),
    {
        match self {
            Value::Null => true,
            _ => false,
        }
    }

    /// Whether the value is a boolean.
    pub fn is_boolean(&self) -> (r: bool)
        ensures
            r == (self@ is Bool),
    {
        match self {
            Value::Bool(_) => true,
            _ => false,
        }
    }

    /// Whether the value is a number, integral or floating.
    pub fn is_number(&self) -> (r: bool)
        ensures
            r == (self@ is Int || self@ is Float),
    {
        match self {
            Value::Number(_) => true,
            _ => false,
        }
    }

    /// Whether the value is a string.
    pub fn is_string(&self) -> (r: bool)
        ensures
            r == (self@ is String),
    {
        match self {
            Value::String(_) => true,
            _ => false,
        }
    }

    /// Whether the value is a sequence of values.
    pub fn is_array(&self) -> (r: bool)
        ensures
            r == (self@ is Array),
    {
        match self {
            Value::Array(_) => true,
            _ => false,
        }
    }

    /// Whether the value is a mapping from names to values.
    pub fn is_object(&self) -> (r: bool)
        ensures
            r == (self@ is Object),
    {
        match self {
            Value::Object(_) => true,
            _ => false,
        }
    }

    /// The boolean that the value holds, if it is one.
    pub fn as_bool(&self) -> (r: Option<bool>)
        ensures
            r == (match self@ {
                Json::Bool(b) => Some(b),
                _ => None,
            }),
    {
        match self {
            Value::Bool(b) => Some(*b),
            _ => None,
        }
    }

    /// The integer that the value holds, if it is one that fits in an `i64`.
    pub fn as_i64(&self) -> (r: Option<i64>)
        ensures
            r == (match self@ {
                Json::Int(i) if i64::MIN <= i <= i64::MAX => Some(i as i64),
                _ => None,
            }),
    {
        match self {
            Value::Number(n) => n.as_i64(),
            _ => None,
        }
    }

    /// The text that the value holds, if it is a string.
    pub fn as_str(&self) -> (r: Option<&str>)
        ensures
            match self@ {
                Json::String(s) => r matches Some(t) && t@ == s,
                _ => r is None,
            },
    {
        match self {
            Value::String(s) => Some(s.as_str()),
            _ => None,
        }
    }

    /// The items that the value holds, if it is a sequence.
    pub fn as_array(&self) -> (r: Option<&Vec<Value>>)
        ensures
            match self@ {
                Json::Array(items) => r matches Some(v) && items_model(v@) == items,
                _ => r is None,
            },
    {
        match self {
            Value::Array(items) => Some(items),
            _ => None,
        }
    }

    /// The mapping that the value holds, if it is one.
    pub fn as_object(&self) -> (r: Option<&Object>)
        ensures
            match self@ {
                Json::Object(members) => r matches Some(o) && o@ == members,
                _ => r is None,
            },
    {
        match self {
            Value::Object(o) => Some(o),
            _ => None,
        }
    }

    /// The member called `name`, if the value is a mapping that has one.
    pub fn get(&self, name: &str) -> (r: Option<&Value>)
        ensures
            match self@ {
                Json::Object(members) if members.contains_key(name@) => r matches Some(v) && v@
                    == members[name@],
                _ => r is None,
            },
    {
        match self {
            Value::Object(o) => o.get(name),
            _ => None,
        }
    }
}

} // verus!

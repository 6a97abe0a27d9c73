//! The values of the wire protocol.

use indexmap::IndexMap;
use vstd::prelude::*;

verus! {

/// What a [`Value`] denotes. Every contract on values is stated over trees.
pub enum Tree {
    Null,
    Bool(bool),
    Int(i64),
    /// The decimal text of the number.
    Real(Seq<char>),
    Text(Seq<char>),
    Bytes(Seq<u8>),
    Array(Seq<Tree>),
    /// The members in the order in which they were first inserted.
    Object(Seq<(Seq<char>, Tree)>),
    Template { keys: Seq<Seq<char>>, rows: Seq<Seq<Tree>> },
}

/// A value of the wire protocol.
#[derive(Debug, PartialEq)]
pub enum Value {
    Null,
    Bool(bool),
    Int(i64),
    /// A floating-point number, held as the decimal text that denotes it.
    Real(String),
    String(String),
    Bytes(Vec<u8>),
    Array(Vec<Value>),
    Object(Members),
    /// A table: each row gives the values of the keys, in the order of the keys.
    Template { keys: Vec<String>, rows: Vec<Vec<Value>> },
}

/// The members of an object, in insertion order, with no key twice.
#[verifier::external_body]
#[derive(Debug, PartialEq)]
pub struct Members {
    entries: IndexMap<String, Value>,
}

/// The keys and the values that the map of `m` holds, in the map's order.
pub uninterp spec fn members_of(m: Members) -> Seq<(Seq<char>, Tree)>;

/// The tree that `v` denotes.
pub open spec fn tree_of(v: Value) -> Tree
    decreases v,
{
    match v {
        Value::Null => Tree::Null,
        Value::Bool(b) => Tree::Bool(b),
        Value::Int(i) => Tree::Int(i),
        Value::Real(r) => Tree::Real(r@),
        Value::String(s) => Tree::Text(s@),
        Value::Bytes(b) => Tree::Bytes(b@),
        Value::Array(a) => Tree::Array(
            Seq::new(
                a@.len(),
                |i: int|
                    if 0 <= i < a@.len() {
                        tree_of(a@[i])
                    } else {
                        Tree::Null
                    },
            ),
        ),
        Value::Object(m) => Tree::Object(members_of(m)),
        Value::Template { keys, rows } => Tree::Template {
            keys: texts_of(keys@),
            rows: Seq::new(
                rows@.len(),
                |i: int|
                    if 0 <= i < rows@.len() {
                        Seq::new(
                            rows@[i]@.len(),
                            |j: int|
                                if 0 <= j < rows@[i]@.len() {
                                    tree_of(rows@[i]@[j])
                                } else {
                                    Tree::Null
                                },
                        )
                    } else {
                        Seq::empty()
                    },
            ),
        },
    }
}

/// The texts of a sequence of strings.
pub open spec fn texts_of(s: Seq<String>) -> Seq<Seq<char>> {
    Seq::new(s.len(), |i: int| s[i]@)
}

/// The trees of a sequence of values.
pub open spec fn trees_of(s: Seq<Value>) -> Seq<Tree> {
    Seq::new(s.len(), |i: int| tree_of(s[i]))
}

/// An array denotes the array of what its elements denote.
pub proof fn array_tree(a: Vec<Value>)
    ensures
        tree_of(Value::Array(a)) == Tree::Array(trees_of(a@)),
{
    assert(tree_of(Value::Array(a))->Array_0 =~= trees_of(a@));
}

impl View for Value {
    type V = Tree;

    open spec fn view(&self) -> Tree {
        tree_of(*self)
    }
}

impl View for Members {
    type V = Seq<(Seq<char>, Tree)>;

    open spec fn view(&self) -> Seq<(Seq<char>, Tree)> {
        members_of(*self)
    }
}

/// `key` is the key of some entry.
pub open spec fn has_key<T>(entries: Seq<(Seq<char>, T)>, key: Seq<char>) -> bool {
    exists|i: int| 0 <= i < entries.len() && (#[trigger] entries[i]).0 == key
}

/// The index of the entry with the key `key`.
pub open spec fn position<T>(entries: Seq<(Seq<char>, T)>, key: Seq<char>) -> int
    recommends
        has_key(entries, key),
{
    choose|i: int| 0 <= i < entries.len() && (#[trigger] entries[i]).0 == key
}

/// What the entry with the key `key` holds, if there is one.
pub open spec fn lookup<T>(entries: Seq<(Seq<char>, T)>, key: Seq<char>) -> Option<T> {
    if has_key(entries, key) {
        Some(entries[position(entries, key)].1)
    } else {
        None
    }
}

/// The entries after `value` was stored under `key`: an entry with that key keeps its place, a
/// new one goes last.
pub open spec fn stored<T>(entries: Seq<(Seq<char>, T)>, key: Seq<char>, value: T) -> Seq<
    (Seq<char>, T),
> {
    if has_key(entries, key) {
        entries.update(position(entries, key), (key, value))
    } else {
        entries.push((key, value))
    }
}

/// No two entries have the same key.
pub open spec fn keys_distinct<T>(entries: Seq<(Seq<char>, T)>) -> bool {
    forall|i: int, j: int|
        0 <= i < j < entries.len() ==> (#[trigger] entries[i]).0 != (#[trigger] entries[j]).0
}

/// `IndexMap::new` makes a map without entries.
#[verifier::external_body]
fn indexmap_new() -> (m: Members)
    ensures
        members_of(m) == Seq::<(Seq<char>, Tree)>::empty(),
{
    Members { entries: IndexMap::new() }
}

/// `IndexMap::insert` stores the value under the key. An entry that already has the key keeps
/// its place in the order; otherwise the new entry goes last.
#[verifier::external_body]
fn indexmap_insert(m: &mut Members, key: String, value: Value)
    ensures
        members_of(*final(m)) == stored(members_of(*old(m)), key@, tree_of(value)),
{
    m.entries.insert(key, value);
}

/// `IndexMap::get` returns the value under the key, or nothing where no entry has the key.
#[verifier::external_body]
fn indexmap_get<'a>(m: &'a Members, key: &str) -> (r: Option<&'a Value>)
    ensures
        r is Some <==> lookup(members_of(*m), key@) is Some,
        r matches Some(v) ==> lookup(members_of(*m), key@) == Some(tree_of(*v)),
{
    m.entries.get(key)
}

/// `IndexMap::contains_key` tells whether some entry has the key.
#[verifier::external_body]
fn indexmap_contains_key(m: &Members, key: &str) -> (r: bool)
    ensures
        r == has_key(members_of(*m), key@),
{
    m.entries.contains_key(key)
}

/// `IndexMap::len` returns the number of entries.
#[verifier::external_body]
fn indexmap_len(m: &Members) -> (r: usize)
    ensures
        r == members_of(*m).len(),
{
    m.entries.len()
}

/// `IndexMap::get_index` returns the entry at an index of the map's order, or nothing where the
/// index is not below the number of entries. No other entry has the key of the one returned.
#[verifier::external_body]
fn indexmap_get_index(m: &Members, i: usize) -> (r: Option<(&String, &Value)>)
    ensures
        r is Some <==> i < members_of(*m).len(),
        r matches Some(e) ==> members_of(*m)[i as int] == (e.0@, tree_of(*e.1)),
        r matches Some(e) ==> forall|k: int|
            0 <= k < members_of(*m).len() && (#[trigger] members_of(*m)[k]).0 == e.0@ ==> k == i,
{
    m.entries.get_index(i)
}

impl Members {
    /// An object without members.
    pub fn new() -> (m: Members)
        ensures
            m@ == Seq::<(Seq<char>, Tree)>::empty(),
    {
        indexmap_new()
    }

    /// Stores `value` under `key`.
    pub fn insert(&mut self, key: String, value: Value)
        ensures
            final(self)@ == stored(old(self)@, key@, value@),
    {
        indexmap_insert(self, key, value)
    }

    /// The value under `key`.
    pub fn get(&self, key: &str) -> (r: Option<&Value>)
        ensures
            r is Some <==> lookup(self@, key@) is Some,
            r matches Some(v) ==> lookup(self@, key@) == Some(v@),
    {
        indexmap_get(self, key)
    }

    /// Tells whether there is a member with the key `key`.
    pub fn contains_key(&self, key: &str) -> (r: bool)
        ensures
            r == has_key(self@, key@),
    {
        indexmap_contains_key(self, key)
    }

    /// The number of members.
    pub fn len(&self) -> (r: usize)
        ensures
            r == self@.len(),
    {
        indexmap_len(self)
    }

    /// The member at index `i`. It alone has its key.
    pub fn get_index(&self, i: usize) -> (r: Option<(&String, &Value)>)
        ensures
            r is Some <==> i < self@.len(),
            r matches Some(e) ==> self@[i as int] == (e.0@, e.1@),
            r matches Some(e) ==> forall|k: int|
                0 <= k < self@.len() && (#[trigger] self@[k]).0 == e.0@ ==> k == i,
    {
        indexmap_get_index(self, i)
    }
}

impl Value {
    /// The members of an object.
    pub fn as_object(&self) -> (r: Option<&Members>)
        ensures
            r is Some <==> self@ is Object,
            r matches Some(m) ==> self@ == Tree::Object(m@),
    {
        match self {
            Value::Object(m) => Some(m),
            _ => None,
        }
    }

    /// The elements of an array.
    pub fn as_array(&self) -> (r: Option<&Vec<Value>>)
        ensures
            r is Some <==> self@ is Array,
            r matches Some(a) ==> self@ == Tree::Array(trees_of(a@)),
    {
        match self {
            Value::Array(a) => {
                proof {
                    array_tree(*a);
                }
                Some(a)
            },
            _ => None,
        }
    }

    /// The number of an integer.
    pub fn as_i64(&self) -> (r: Option<i64>)
        ensures
            r is Some <==> self@ is Int,
            r matches Some(i) ==> self@ == Tree::Int(i),
    {
        match self {
            Value::Int(i) => Some(*i),
            _ => None,
        }
    }

    /// The text of a string.
    pub fn as_str(&self) -> (r: Option<&str>)
        ensures
            r is Some <==> self@ is Text,
            r matches Some(s) ==> self@ == Tree::Text(s@),
    {
        match self {
            Value::String(s) => Some(s.as_str()),
            _ => None,
        }
    }
}

/// A lookup finds what stands under the key, and nothing where no entry has the key.
pub proof fn lookup_finds_each_entry<T>(entries: Seq<(Seq<char>, T)>, i: int, key: Seq<char>)
    requires
        keys_distinct(entries),
    ensures
        0 <= i < entries.len() ==> lookup(entries, entries[i].0) == Some(entries[i].1),
        lookup(entries, key) is None <==> forall|k: int|
            0 <= k < entries.len() ==> (#[trigger] entries[k]).0 != key,
        lookup(entries, key) is Some <==> has_key(entries, key),
{
    if 0 <= i < entries.len() {
        assert(has_key(entries, entries[i].0));
        assert(position(entries, entries[i].0) == i);
    }
}

/// Storing moves no entry: an entry that is there keeps its place and its key, and only a key that
/// is new adds an entry, at the end.
pub proof fn storing_moves_no_entry<T>(
    entries: Seq<(Seq<char>, T)>,
    key: Seq<char>,
    value: T,
    i: int,
)
    requires
        0 <= i < entries.len(),
    ensures
        stored(entries, key, value)[i].0 == entries[i].0,
        entries[i].0 != key ==> stored(entries, key, value)[i] == entries[i],
        has_key(entries, key) ==> stored(entries, key, value).len() == entries.len(),
        !has_key(entries, key) ==> stored(entries, key, value).len() == entries.len() + 1
            && stored(entries, key, value).last() == (key, value),
{
    if has_key(entries, key) {
        assert(entries[position(entries, key)].0 == key);
    }
}

/// What was stored under a key is what a lookup of that key finds, and every other key finds
/// what it found before.
pub proof fn stored_then_found<T>(
    entries: Seq<(Seq<char>, T)>,
    key: Seq<char>,
    value: T,
    other: Seq<char>,
)
    requires
        keys_distinct(entries),
    ensures
        keys_distinct(stored(entries, key, value)),
        lookup(stored(entries, key, value), key) == Some(value),
        other != key ==> lookup(stored(entries, key, value), other) == lookup(entries, other),
{
    let after = stored(entries, key, value);
    if has_key(entries, key) {
        let p = position(entries, key);
        assert(entries[p].0 == key);
        assert(after[p] == (key, value));
        assert(forall|i: int|
            0 <= i < entries.len() ==> (#[trigger] after[i]).0 == entries[i].0);
    } else {
        assert(after[entries.len() as int] == (key, value));
        assert(forall|i: int| 0 <= i < entries.len() ==> #[trigger] after[i] == entries[i]);
    }
    assert(has_key(after, key));
    if has_key(entries, other) {
        let p = position(entries, other);
        assert(after[p].0 == other);
    }
    if has_key(after, other) && other != key {
        let p = position(after, other);
        assert(entries[p].0 == other);
    }
}

} // verus!

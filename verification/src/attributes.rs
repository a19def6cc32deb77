//! Attributes and the insertion-ordered mapping that collects them.
//!
//! An attribute has a typed value. Collected, every value is text. A mapping
//! is seen as a sequence of entries, each a key and a value, in
//! which no key occurs twice. Putting a key that is there replaces its value
//! in place; putting a new key appends it.

use crate::text::{push_signed, signed_decimal, starts_with};
use vstd::prelude::*;
use vstd::string::*;

verus! {

// The attributes that the conversion knows by name.
pub const ENDUSER_ID: &'static str = "enduser.id";

pub const HTTP_METHOD: &'static str = "http.method";

pub const HTTP_ROUTE: &'static str = "http.route";

pub const HTTP_STATUS_CODE: &'static str = "http.status_code";

pub const HTTP_URL: &'static str = "http.url";

pub const HTTP_TARGET: &'static str = "http.target";

pub const HTTP_HOST: &'static str = "http.host";

pub const NET_PEER_NAME: &'static str = "net.peer.name";

pub const DB_STATEMENT: &'static str = "db.statement";

pub const DB_NAME: &'static str = "db.name";

pub const DB_SYSTEM: &'static str = "db.system";

pub const MESSAGING_SYSTEM: &'static str = "messaging.system";

/// What the keys of all HTTP attributes begin with.
pub const HTTP_PREFIX: &'static str = "http.";

/// What the keys of all database attributes begin with.
pub const DB_PREFIX: &'static str = "db.";

/// What is written for a truth value that holds.
pub const TRUE_TEXT: &'static str = "true";

/// What is written for a truth value that does not hold.
pub const FALSE_TEXT: &'static str = "false";

/// The value of an attribute: a truth value, a whole number, a
/// floating-point number or a string. A floating-point number is held in
/// its decimal writing.
pub enum Value {
    Bool(bool),
    I64(i64),
    F64(String),
    String(String),
}

/// A value as contracts see it.
pub enum ValueView {
    Bool(bool),
    I64(i64),
    F64(Seq<char>),
    String(Seq<char>),
}

impl View for Value {
    type V = ValueView;

    open spec fn view(&self) -> ValueView {
        match self {
            Value::Bool(b) => ValueView::Bool(*b),
            Value::I64(n) => ValueView::I64(*n),
            Value::F64(text) => ValueView::F64(text@),
            Value::String(text) => ValueView::String(text@),
        }
    }
}

impl DeepView for Value {
    type V = ValueView;

    open spec fn deep_view(&self) -> ValueView {
        self@
    }
}

/// A value as text: `true` or `false`, the number in decimal, or the string
/// as it is.
pub open spec fn value_text(value: ValueView) -> Seq<char> {
    match value {
        ValueView::Bool(b) => if b {
            TRUE_TEXT@
        } else {
            FALSE_TEXT@
        },
        ValueView::I64(n) => signed_decimal(n as int),
        ValueView::F64(text) => text,
        ValueView::String(text) => text,
    }
}

impl Value {
    /// The value as text.
    pub fn to_text(&self) -> (text: String)
        ensures
            text@ == value_text(self@),
    {
        match self {
            Value::Bool(b) => if *b {
                String::from_str(TRUE_TEXT)
            } else {
                String::from_str(FALSE_TEXT)
            },
            Value::I64(n) => {
                let mut text = String::new();
                push_signed(&mut text, *n);
                assert(text@ =~= signed_decimal(*n as int));
                text
            },
            Value::F64(text) => text.clone(),
            Value::String(text) => text.clone(),
        }
    }
}

/// An attribute: a key with its typed value.
pub struct Attribute {
    pub key: String,
    pub value: Value,
}

impl View for Attribute {
    type V = (Seq<char>, ValueView);

    open spec fn view(&self) -> (Seq<char>, ValueView) {
        (self.key@, self.value@)
    }
}

impl DeepView for Attribute {
    type V = (Seq<char>, ValueView);

    open spec fn deep_view(&self) -> (Seq<char>, ValueView) {
        self@
    }
}

impl Attribute {
    /// An attribute with a string for its value.
    pub fn string(key: &str, value: &str) -> (attribute: Attribute)
        ensures
            attribute@ == (key@, ValueView::String(value@)),
    {
        Attribute { key: String::from_str(key), value: Value::String(String::from_str(value)) }
    }

    /// An attribute with a whole number for its value.
    pub fn integer(key: &str, value: i64) -> (attribute: Attribute)
        ensures
            attribute@ == (key@, ValueView::I64(value)),
    {
        Attribute { key: String::from_str(key), value: Value::I64(value) }
    }

    /// An attribute with a truth value for its value.
    pub fn boolean(key: &str, value: bool) -> (attribute: Attribute)
        ensures
            attribute@ == (key@, ValueView::Bool(value)),
    {
        Attribute { key: String::from_str(key), value: Value::Bool(value) }
    }
}

/// The attributes with every value as text, in their order.
pub open spec fn coerced(items: Seq<(Seq<char>, ValueView)>) -> Seq<(Seq<char>, Seq<char>)> {
    Seq::new(items.len(), |i: int| (items[i].0, value_text(items[i].1)))
}

/// A key with its value, both as text.
pub struct KeyValue {
    pub key: String,
    pub value: String,
}

impl View for KeyValue {
    type V = (Seq<char>, Seq<char>);

    open spec fn view(&self) -> (Seq<char>, Seq<char>) {
        (self.key@, self.value@)
    }
}

impl DeepView for KeyValue {
    type V = (Seq<char>, Seq<char>);

    open spec fn deep_view(&self) -> (Seq<char>, Seq<char>) {
        self@
    }
}

impl KeyValue {
    /// An entry from two string slices.
    pub fn new(key: &str, value: &str) -> (entry: KeyValue)
        ensures
            entry@ == (key@, value@),
    {
        KeyValue { key: String::from_str(key), value: String::from_str(value) }
    }

    /// A copy of the entry.
    pub fn duplicate(&self) -> (entry: KeyValue)
        ensures
            entry@ == self@,
    {
        KeyValue { key: self.key.clone(), value: self.value.clone() }
    }
}

/// The position of the first entry with the key, if there is one.
pub open spec fn find(m: Seq<(Seq<char>, Seq<char>)>, key: Seq<char>) -> Option<int>
    decreases m.len(),
{
    if m.len() == 0 {
        None
    } else {
        match find(m.drop_last(), key) {
            Some(i) => Some(i),
            None => if m.last().0 == key {
                Some(m.len() - 1)
            } else {
                None
            },
        }
    }
}

/// The value under the key, if the key is there.
pub open spec fn value_of(m: Seq<(Seq<char>, Seq<char>)>, key: Seq<char>) -> Option<Seq<char>> {
    match find(m, key) {
        Some(i) => Some(m[i].1),
        None => None,
    }
}

/// Whether the key is there.
pub open spec fn has_key(m: Seq<(Seq<char>, Seq<char>)>, key: Seq<char>) -> bool {
    find(m, key) is Some
}

/// Whether some key begins with the prefix.
pub open spec fn any_key_with_prefix(m: Seq<(Seq<char>, Seq<char>)>, prefix: Seq<char>) -> bool {
    exists|i: int| 0 <= i < m.len() && prefix.is_prefix_of(#[trigger] m[i].0)
}

/// No key occurs twice.
pub open spec fn unique_keys(m: Seq<(Seq<char>, Seq<char>)>) -> bool {
    forall|i: int, j: int| 0 <= i < j < m.len() ==> m[i].0 != m[j].0
}

/// The mapping with `value` under `key`: in the key's place where the key is
/// there, at the end where it is new.
pub open spec fn put(m: Seq<(Seq<char>, Seq<char>)>, key: Seq<char>, value: Seq<char>) -> Seq<
    (Seq<char>, Seq<char>),
> {
    match find(m, key) {
        Some(i) => m.update(i, (key, value)),
        None => m.push((key, value)),
    }
}

/// The mapping that putting the items one after the other gives: a later
/// item wins over an earlier one with the same key.
pub open spec fn collect(items: Seq<(Seq<char>, Seq<char>)>) -> Seq<(Seq<char>, Seq<char>)>
    decreases items.len(),
{
    if items.len() == 0 {
        Seq::empty()
    } else {
        put(collect(items.drop_last()), items.last().0, items.last().1)
    }
}

/// The attributes of a span over those of its resource, every value as
/// text: the resource's come first, and the span's win where both have a key.
pub open spec fn merged(
    attributes: Seq<(Seq<char>, ValueView)>,
    resource: Seq<(Seq<char>, ValueView)>,
) -> Seq<(Seq<char>, Seq<char>)> {
    collect(coerced(resource + attributes))
}

/// What `find` returns is the first position of the key, and it returns
/// nothing only where the key is nowhere.
pub proof fn lemma_find(m: Seq<(Seq<char>, Seq<char>)>, key: Seq<char>)
    ensures
        match find(m, key) {
            Some(i) => 0 <= i < m.len() && m[i].0 == key && forall|j: int|
                0 <= j < i ==> (#[trigger] m[j]).0 != key,
            None => forall|j: int| 0 <= j < m.len() ==> (#[trigger] m[j]).0 != key,
        },
    decreases m.len(),
{
    if m.len() > 0 {
        lemma_find(m.drop_last(), key);
        match find(m.drop_last(), key) {
            Some(i) => {
                assert(m.drop_last()[i] == m[i]);
                assert forall|j: int| 0 <= j < i implies (#[trigger] m[j]).0 != key by {
                    assert(m.drop_last()[j] == m[j]);
                }
            },
            None => {
                assert forall|j: int| 0 <= j < m.len() - 1 implies (#[trigger] m[j]).0 != key by {
                    assert(m.drop_last()[j] == m[j]);
                }
            },
        }
    }
}

/// The first position of a key is what `find` returns.
pub proof fn lemma_find_first(m: Seq<(Seq<char>, Seq<char>)>, key: Seq<char>, i: int)
    requires
        0 <= i < m.len(),
        m[i].0 == key,
        forall|j: int| 0 <= j < i ==> (#[trigger] m[j]).0 != key,
    ensures
        find(m, key) == Some(i),
{
    lemma_find(m, key);
}

/// Putting keeps the keys apart, keeps the other keys' values, and leaves
/// the new value under its key.
pub proof fn lemma_put(m: Seq<(Seq<char>, Seq<char>)>, key: Seq<char>, value: Seq<char>)
    requires
        unique_keys(m),
    ensures
        unique_keys(put(m, key, value)),
        value_of(put(m, key, value), key) == Some(value),
        forall|other: Seq<char>|
            other != key ==> #[trigger] value_of(put(m, key, value), other) == value_of(m, other),
{
    let after = put(m, key, value);
    lemma_find(m, key);
    lemma_find(after, key);
    assert forall|other: Seq<char>| other != key implies #[trigger] value_of(after, other)
        == value_of(m, other) by {
        lemma_find(m, other);
        lemma_find(after, other);
        match find(m, other) {
            Some(i) => {
                assert(after[i] == m[i]);
                lemma_find_first(after, other, i);
            },
            None => {
                if find(after, other) is Some {
                    let i = find(after, other)->0;
                    if i < m.len() {
                        assert(m[i].0 == other);
                    }
                }
            },
        }
    }
    match find(m, key) {
        Some(i) => {
            lemma_find_first(after, key, i);
        },
        None => {
            lemma_find_first(after, key, m.len() as int);
        },
    }
}

/// Collected items form a mapping: no key occurs twice.
pub proof fn lemma_collect_unique(items: Seq<(Seq<char>, Seq<char>)>)
    ensures
        unique_keys(collect(items)),
    decreases items.len(),
{
    if items.len() > 0 {
        lemma_collect_unique(items.drop_last());
        lemma_put(collect(items.drop_last()), items.last().0, items.last().1);
    }
}

/// The position of the first entry with the key, if there is one.
pub fn find_key(entries: &Vec<KeyValue>, key: &String) -> (at: Option<usize>)
    ensures
        match at {
            Some(i) => i < entries.len() && find(entries.deep_view(), key@) == Some(i as int),
            None => find(entries.deep_view(), key@) is None,
        },
{
    let ghost m = entries.deep_view();
    let n = entries.len();
    let mut i: usize = 0;
    while i < n
        invariant
            i <= n,
            n == entries.len(),
            m == entries.deep_view(),
            forall|j: int| 0 <= j < i ==> (#[trigger] m[j]).0 != key@,
        decreases n - i,
    {
        if entries[i].key == *key {
            proof {
                lemma_find_first(m, key@, i as int);
            }
            return Some(i);
        }
        i += 1;
    }
    proof {
        lemma_find(m, key@);
    }
    None
}

/// An insertion-ordered mapping from keys to values.
pub struct AttributeMap {
    entries: Vec<KeyValue>,
}

impl View for AttributeMap {
    type V = Seq<(Seq<char>, Seq<char>)>;

    closed spec fn view(&self) -> Seq<(Seq<char>, Seq<char>)> {
        self.entries.deep_view()
    }
}

impl AttributeMap {
    #[verifier::type_invariant]
    spec fn keys_apart(self) -> bool {
        unique_keys(self.entries.deep_view())
    }

    /// The empty mapping.
    pub fn new() -> (m: AttributeMap)
        ensures
            m@ == Seq::<(Seq<char>, Seq<char>)>::empty(),
    {
        let m = AttributeMap { entries: Vec::new() };
        assert(m.entries.deep_view() =~= Seq::<(Seq<char>, Seq<char>)>::empty());
        m
    }

    /// The number of entries.
    pub fn len(&self) -> (n: usize)
        ensures
            n == self@.len(),
    {
        self.entries.len()
    }

    /// The entry at a position, in insertion order.
    pub fn entry(&self, i: usize) -> (entry: &KeyValue)
        requires
            i < self@.len(),
        ensures
            entry@ == self@[i as int],
    {
        &self.entries[i]
    }

    /// The position of the key, if it is there.
    fn position(&self, key: &String) -> (at: Option<usize>)
        ensures
            match at {
                Some(i) => i < self@.len() && find(self@, key@) == Some(i as int),
                None => find(self@, key@) is None,
            },
    {
        find_key(&self.entries, key)
    }

    /// The value under the key, if the key is there.
    pub fn get(&self, key: &str) -> (value: Option<&String>)
        ensures
            value.deep_view() == value_of(self@, key@),
    {
        let wanted = String::from_str(key);
        match self.position(&wanted) {
            Some(i) => {
                assert(self@[i as int] == self.entries@[i as int]@);
                Some(&self.entries[i].value)
            },
            None => None,
        }
    }

    /// Whether the key is there.
    pub fn contains_key(&self, key: &str) -> (found: bool)
        ensures
            found == has_key(self@, key@),
    {
        let wanted = String::from_str(key);
        self.position(&wanted).is_some()
    }

    /// Whether some key begins with the prefix.
    pub fn any_key_starts_with(&self, prefix: &str) -> (found: bool)
        ensures
            found == any_key_with_prefix(self@, prefix@),
    {
        let n = self.entries.len();
        let mut i: usize = 0;
        while i < n
            invariant
                i <= n,
                n == self.entries.len(),
                forall|j: int| 0 <= j < i ==> !prefix@.is_prefix_of((#[trigger] self@[j]).0),
            decreases n - i,
        {
            if starts_with(self.entries[i].key.as_str(), prefix) {
                assert(prefix@.is_prefix_of(self@[i as int].0));
                return true;
            }
            i += 1;
        }
        false
    }

    /// Puts `value` under `key`: in the key's place where the key is there,
    /// at the end where it is new.
    pub fn put(&mut self, key: String, value: String)
        ensures
            final(self)@ == put(old(self)@, key@, value@),
            unique_keys(final(self)@),
    {
        proof {
            use_type_invariant(&*self);
            lemma_put(self@, key@, value@);
        }
        let at = self.position(&key);
        let ghost before = self.entries.deep_view();
        let ghost k = key@;
        let ghost v = value@;
        let mut entries: Vec<KeyValue> = Vec::new();
        core::mem::swap(&mut entries, &mut self.entries);
        match at {
            Some(i) => {
                entries.set(i, KeyValue { key: key, value: value });
                assert(entries.deep_view() =~= before.update(i as int, (k, v)));
            },
            None => {
                entries.push(KeyValue { key: key, value: value });
                assert(entries.deep_view() =~= before.push((k, v)));
            },
        }
        self.entries = entries;
    }
}

/// Collects the attributes of a span over those of its resource, every
/// value as text.
pub fn collect_attrs(attributes: &Vec<Attribute>, resource: &Vec<Attribute>) -> (m: AttributeMap)
    ensures
        m@ == merged(attributes.deep_view(), resource.deep_view()),
        unique_keys(m@),
{
    let ghost r = resource.deep_view();
    let ghost a = attributes.deep_view();
    let mut m = AttributeMap::new();
    let mut i: usize = 0;
    assert(coerced(r.take(0)) =~= Seq::<(Seq<char>, Seq<char>)>::empty());
    while i < resource.len()
        invariant
            i <= resource.len(),
            r == resource.deep_view(),
            m@ == collect(coerced(r.take(i as int))),
        decreases resource.len() - i,
    {
        assert(coerced(r.take(i + 1)).drop_last() =~= coerced(r.take(i as int)));
        m.put(resource[i].key.clone(), resource[i].value.to_text());
        i += 1;
    }
    assert(r.take(i as int) =~= r + a.take(0));
    let mut j: usize = 0;
    while j < attributes.len()
        invariant
            j <= attributes.len(),
            r == resource.deep_view(),
            a == attributes.deep_view(),
            m@ == collect(coerced(r + a.take(j as int))),
        decreases attributes.len() - j,
    {
        assert(coerced(r + a.take(j + 1)).drop_last() =~= coerced(r + a.take(j as int)));
        m.put(attributes[j].key.clone(), attributes[j].value.to_text());
        j += 1;
    }
    assert(a.take(j as int) =~= a);
    proof {
        lemma_collect_unique(coerced(r + a));
    }
    m
}

} // verus!

//! The generic value tree that documents are parsed into before the codecs
//! give them a type, and the key lookup that object decoding relies on.

use vstd::prelude::*;

verus! {

/// A parsed JSON value. Numbers that are integers within `i64` are kept as
/// such; any other number keeps its decimal text.
#[derive(Debug)]
pub enum JsonValue {
    Null,
    Bool(bool),
    Integer(i64),
    Decimal(String),
    Text(String),
    Array(Vec<JsonValue>),
    Object(Vec<(String, JsonValue)>),
}

/// The kind of a value, as named in shape errors. The last six are
/// expectations only: no single value has them as its kind.
#[derive(Clone, Copy, Debug, PartialEq, Eq, Structural)]
pub enum Shape {
    Null,
    Boolean,
    Integer,
    Decimal,
    Text,
    Array,
    Object,
    Int32,
    Node,
    Definition,
    TextOrArray,
    Frequency,
    NumberOrArray,
}

/// The kind of `v`.
pub open spec fn shape_of(v: JsonValue) -> Shape {
    match v {
        JsonValue::Null => Shape::Null,
        JsonValue::Bool(_) => Shape::Boolean,
        JsonValue::Integer(_) => Shape::Integer,
        JsonValue::Decimal(_) => Shape::Decimal,
        JsonValue::Text(_) => Shape::Text,
        JsonValue::Array(_) => Shape::Array,
        JsonValue::Object(_) => Shape::Object,
    }
}

impl JsonValue {
    /// The kind of this value.
    pub fn shape(&self) -> (r: Shape)
        ensures
            r == shape_of(*self),
    {
        match self {
            JsonValue::Null => Shape::Null,
            JsonValue::Bool(_) => Shape::Boolean,
            JsonValue::Integer(_) => Shape::Integer,
            JsonValue::Decimal(_) => Shape::Decimal,
            JsonValue::Text(_) => Shape::Text,
            JsonValue::Array(_) => Shape::Array,
            JsonValue::Object(_) => Shape::Object,
        }
    }
}

/// The index of the last member of `es` whose key is `name`: where a key
/// occurs more than once, the later member wins.
pub open spec fn find_key(es: Seq<(String, JsonValue)>, name: Seq<char>) -> Option<int>
    decreases es.len(),
{
    if es.len() == 0 {
        None
    } else if es.last().0@ == name {
        Some(es.len() - 1)
    } else {
        find_key(es.drop_last(), name)
    }
}

/// A found index lies within the members and carries the key looked for.
pub proof fn lemma_find_key_bounds(es: Seq<(String, JsonValue)>, name: Seq<char>)
    ensures
        find_key(es, name) matches Some(j) ==> 0 <= j < es.len() && es[j].0@ == name,
        find_key(es, name) is None ==> forall|j: int| 0 <= j < es.len() ==> es[j].0@ != name,
    decreases es.len(),
{
    if es.len() > 0 && es.last().0@ != name {
        lemma_find_key_bounds(es.drop_last(), name);
        if find_key(es, name) is None {
            assert forall|j: int| 0 <= j < es.len() implies es[j].0@ != name by {
                if j < es.len() - 1 {
                    assert(es.drop_last()[j] == es[j]);
                }
            }
        }
    }
}

/// Looks up a member by key, with the last occurrence winning.
pub fn find_member(es: &Vec<(String, JsonValue)>, name: &str) -> (r: Option<usize>)
    ensures
        r matches Some(j) ==> find_key(es@, name@) == Some(j as int),
        r is None ==> find_key(es@, name@) is None,
{
    let mut i = es.len();
    assert(es@.subrange(0, i as int) =~= es@);
    while i > 0
        invariant
            i <= es@.len(),
            find_key(es@, name@) == find_key(es@.subrange(0, i as int), name@),
        decreases i,
    {
        let ghost prefix = es@.subrange(0, i as int);
        assert(prefix.last() == es@[i - 1]);
        assert(prefix.drop_last() =~= es@.subrange(0, i - 1));
        if crate::text::str_equal(es[i - 1].0.as_str(), name) {
            return Some(i - 1);
        }
        i = i - 1;
    }
    assert(es@.subrange(0, 0) =~= Seq::<(String, JsonValue)>::empty());
    None
}

/// Looking a key up in members to which one was appended.
pub proof fn lemma_find_key_push(es: Seq<(String, JsonValue)>, m: (String, JsonValue), name: Seq<char>)
    ensures
        find_key(es.push(m), name) == if m.0@ == name {
            Some(es.len() as int)
        } else {
            find_key(es, name)
        },
{
    assert(es.push(m).drop_last() =~= es);
}

/// A name spelled by exactly one member is found at that member.
pub proof fn lemma_find_key_only(es: Seq<(String, JsonValue)>, name: Seq<char>, k: int)
    requires
        0 <= k < es.len(),
        es[k].0@ == name,
        forall|j: int| 0 <= j < es.len() && j != k ==> (#[trigger] es[j]).0@ != name,
    ensures
        find_key(es, name) == Some(k),
    decreases es.len(),
{
    if k < es.len() - 1 {
        let q = es.drop_last();
        assert(es.last() == es[es.len() - 1]);
        assert forall|j: int| 0 <= j < q.len() && j != k implies (#[trigger] q[j]).0@ != name by {
            assert(q[j] == es[j]);
        }
        lemma_find_key_only(q, name, k);
        assert(q[k] == es[k]);
    }
}

} // verus!

//! A JSON document model for the Snapcast JSON-RPC messages.
//!
//! Numbers keep serde_json's three representations; a floating-point number
//! is held by its IEEE-754 bit pattern.

use vstd::prelude::*;

verus! {

/// A JSON number.
#[derive(Debug, Clone, PartialEq, Eq)]
pub enum JsonNumber {
    /// A non-negative integer.
    PosInt(u64),
    /// A negative integer.
    NegInt(i64),
    /// A floating-point number, by the bits of its `f64`.
    Float(u64),
}

/// One `key: value` entry of a JSON object.
#[derive(Debug, PartialEq, Eq)]
pub struct JsonMember {
    pub key: String,
    pub value: JsonValue,
}

/// A JSON value. An object lists its members in order; its keys are distinct.
#[derive(Debug, PartialEq, Eq)]
pub enum JsonValue {
    Null,
    Bool(bool),
    Number(JsonNumber),
    Str(String),
    Array(Vec<JsonValue>),
    Object(Vec<JsonMember>),
}

/// The value of the first member named `key`.
pub open spec fn members_get(m: Seq<JsonMember>, key: Seq<char>) -> Option<JsonValue>
    decreases m.len(),
{
    if m.len() == 0 {
        None
    } else if m[0].key@ == key {
        Some(m[0].value)
    } else {
        members_get(m.drop_first(), key)
    }
}

/// `v[key]` when `v` is an object with a member `key`.
pub open spec fn json_get(v: JsonValue, key: Seq<char>) -> Option<JsonValue> {
    match v {
        JsonValue::Object(m) => members_get(m@, key),
        _ => None,
    }
}

/// The value behind an optional reference.
pub open spec fn deref_opt(r: Option<&JsonValue>) -> Option<JsonValue> {
    match r {
        Some(v) => Some(*v),
        None => None,
    }
}

/// The elements of `v` if it is an array, else nothing.
pub open spec fn array_items(v: Option<JsonValue>) -> Seq<JsonValue> {
    match v {
        Some(JsonValue::Array(a)) => a@,
        _ => Seq::empty(),
    }
}

/// Position of the first member named `key`.
pub fn member_index(members: &Vec<JsonMember>, key: &str) -> (r: Option<usize>)
    ensures
        match r {
            Some(i) => {
                &&& i < members.len()
                &&& members@[i as int].key@ == key@
                &&& forall|k: int| 0 <= k < i ==> #[trigger] members@[k].key@ != key@
                &&& members_get(members@, key@) == Some(members@[i as int].value)
            },
            None => {
                &&& forall|k: int| 0 <= k < members.len() ==> #[trigger] members@[k].key@ != key@
                &&& members_get(members@, key@) is None
            },
        },
{
    let k = String::from_str(key);
    let mut i: usize = 0;
    assert(members@.skip(0) =~= members@);
    while i < members.len()
        invariant
            i <= members.len(),
            k@ == key@,
            members_get(members@, key@) == members_get(members@.skip(i as int), key@),
            forall|k: int| 0 <= k < i ==> #[trigger] members@[k].key@ != key@,
        decreases members.len() - i,
    {
        assert(members@.skip(i as int).drop_first() =~= members@.skip(i + 1));
        assert(members@.skip(i as int)[0] == members@[i as int]);
        if members[i].key == k {
            return Some(i);
        }
        i += 1;
    }
    None
}

proof fn lemma_members_get_index(m: Seq<JsonMember>, key: Seq<char>, i: int)
    requires
        0 <= i < m.len(),
        m[i].key@ == key,
        forall|j: int| 0 <= j < i ==> #[trigger] m[j].key@ != key,
    ensures
        members_get(m, key) == Some(m[i].value),
    decreases i,
{
    if i > 0 {
        let r = m.drop_first();
        assert forall|j: int| 0 <= j < i - 1 implies #[trigger] r[j].key@ != key by {
            assert(r[j] == m[j + 1]);
        }
        lemma_members_get_index(r, key, i - 1);
    }
}

proof fn lemma_members_get_absent(m: Seq<JsonMember>, key: Seq<char>)
    requires
        forall|j: int| 0 <= j < m.len() ==> #[trigger] m[j].key@ != key,
    ensures
        members_get(m, key) is None,
    decreases m.len(),
{
    if m.len() > 0 {
        let r = m.drop_first();
        assert(m[0].key@ != key);
        assert forall|j: int| 0 <= j < r.len() implies #[trigger] r[j].key@ != key by {
            assert(r[j] == m[j + 1]);
        }
        lemma_members_get_absent(r, key);
    }
}

/// Looking up `key` in an object gives the value of its first member named
/// `key`, and nothing when no member has that name; a value that is not an
/// object has no members.
pub proof fn law_json_get(v: JsonValue, key: Seq<char>, i: int)
    ensures
        match v {
            JsonValue::Object(ms) => {
                &&& (0 <= i < ms@.len() && ms@[i].key@ == key && (forall|j: int|
                    0 <= j < i ==> #[trigger] ms@[j].key@ != key)) ==> json_get(v, key) == Some(
                    ms@[i].value,
                )
                &&& (forall|j: int| 0 <= j < ms@.len() ==> #[trigger] ms@[j].key@ != key)
                    ==> json_get(v, key) is None
            },
            _ => json_get(v, key) is None,
        },
{
    match v {
        JsonValue::Object(ms) => {
            if 0 <= i < ms@.len() && ms@[i].key@ == key && (forall|j: int|
                0 <= j < i ==> #[trigger] ms@[j].key@ != key) {
                lemma_members_get_index(ms@, key, i);
            }
            if forall|j: int| 0 <= j < ms@.len() ==> #[trigger] ms@[j].key@ != key {
                lemma_members_get_absent(ms@, key);
            }
        },
        _ => {},
    }
}

/// The items of an array are its elements; anything else has none.
pub proof fn law_array_items(v: Option<JsonValue>)
    ensures
        v matches Some(JsonValue::Array(a)) ==> array_items(v) == a@,
        !(v matches Some(JsonValue::Array(_))) ==> array_items(v) == Seq::<JsonValue>::empty(),
{
}

impl JsonValue {
    /// The member `key` of an object; `None` for a missing key or a value
    /// that is not an object.
    pub fn get(&self, key: &str) -> (r: Option<&JsonValue>)
        ensures
            deref_opt(r) == json_get(*self, key@),
    {
        match self {
            JsonValue::Object(members) => match member_index(members, key) {
                Some(i) => Some(&members[i].value),
                None => None,
            },
            _ => None,
        }
    }

    /// The elements of an array.
    pub fn as_array(&self) -> (r: Option<&Vec<JsonValue>>)
        ensures
            match r {
                Some(a) => *self == JsonValue::Array(*a),
                None => !(*self is Array),
            },
    {
        match self {
            JsonValue::Array(a) => Some(a),
            _ => None,
        }
    }

    /// The text of a string.
    pub fn as_str(&self) -> (r: Option<&String>)
        ensures
            match r {
                Some(s) => *self == JsonValue::Str(*s),
                None => !(*self is Str),
            },
    {
        match self {
            JsonValue::Str(s) => Some(s),
            _ => None,
        }
    }

    /// The value of a non-negative integer.
    pub fn as_u64(&self) -> (r: Option<u64>)
        ensures
            match r {
                Some(n) => *self == JsonValue::Number(JsonNumber::PosInt(n)),
                None => !(*self matches JsonValue::Number(JsonNumber::PosInt(_))),
            },
    {
        match self {
            JsonValue::Number(JsonNumber::PosInt(n)) => Some(*n),
            _ => None,
        }
    }

    /// The value of a boolean.
    pub fn as_bool(&self) -> (r: Option<bool>)
        ensures
            match r {
                Some(b) => *self == JsonValue::Bool(b),
                None => !(*self is Bool),
            },
    {
        match self {
            JsonValue::Bool(b) => Some(*b),
            _ => None,
        }
    }
}

} // verus!

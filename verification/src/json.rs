//! A JSON value model that the guard inspects.
use vstd::prelude::*;

verus! {

/// A JSON value as the guard reads it.
///
/// Numbers keep the integer they denote when it fits `i64` or `u64`; any
/// other number keeps its decimal text.
#[derive(Debug)]
pub enum JsonValue {
    Null,
    Bool(bool),
    Int(i64),
    UInt(u64),
    Float(String),
    Str(String),
    Array(Vec<JsonValue>),
    Object(Vec<(String, JsonValue)>),
}

/// The mathematical content of a [`JsonValue`].
pub enum JsonData {
    Null,
    Bool(bool),
    Int(int),
    Float(Seq<char>),
    Str(Seq<char>),
    Array(Seq<JsonData>),
    Object(Seq<(Seq<char>, JsonData)>),
}

impl JsonValue {
    pub open spec fn data(self) -> JsonData
        decreases self,
    {
        match self {
            JsonValue::Null => JsonData::Null,
            JsonValue::Bool(b) => JsonData::Bool(b),
            JsonValue::Int(i) => JsonData::Int(i as int),
            JsonValue::UInt(u) => JsonData::Int(u as int),
            JsonValue::Float(s) => JsonData::Float(s@),
            JsonValue::Str(s) => JsonData::Str(s@),
            JsonValue::Array(items) => JsonData::Array(
                Seq::new(items@.len(), |i: int| if 0 <= i < items@.len() { items@[i].data() } else { JsonData::Null }),
            ),
            JsonValue::Object(entries) => JsonData::Object(
                Seq::new(entries@.len(), |i: int| if 0 <= i < entries@.len() { (entries@[i].0@, entries@[i].1.data()) } else { (Seq::empty(), JsonData::Null) }),
            ),
        }
    }
}


/// The content of an optional value.
pub open spec fn opt_data(v: Option<JsonValue>) -> Option<JsonData> {
    match v {
        Some(x) => Some(x.data()),
        None => None,
    }
}

/// Whether `key` names the entry at `i` and no entry before it.
pub open spec fn is_first_key(entries: Seq<(String, JsonValue)>, key: Seq<char>, i: int) -> bool {
    &&& 0 <= i < entries.len()
    &&& entries[i].0@ == key
    &&& forall|j: int| 0 <= j < i ==> entries[j].0@ != key
}

/// Whether no entry is named `key`.
pub open spec fn has_no_key(entries: Seq<(String, JsonValue)>, key: Seq<char>) -> bool {
    forall|j: int| 0 <= j < entries.len() ==> entries[j].0@ != key
}

impl Clone for JsonValue {
    /// A copy with the same content.
    fn clone(&self) -> (r: JsonValue)
        ensures
            r.data() == self.data(),
    {
        self.duplicate()
    }
}

/// There is one first entry with a given key.
pub proof fn lemma_first_key_unique(entries: Seq<(String, JsonValue)>, key: Seq<char>, a: int, b: int)
    requires
        is_first_key(entries, key, a),
        is_first_key(entries, key, b),
    ensures
        a == b,
{
}

impl JsonValue {
    /// A copy of this value with the same content.
    pub fn duplicate(&self) -> (r: JsonValue)
        ensures
            r.data() == self.data(),
        decreases self,
    {
        match self {
            JsonValue::Null => JsonValue::Null,
            JsonValue::Bool(b) => JsonValue::Bool(*b),
            JsonValue::Int(i) => JsonValue::Int(*i),
            JsonValue::UInt(u) => JsonValue::UInt(*u),
            JsonValue::Float(s) => JsonValue::Float(s.clone()),
            JsonValue::Str(s) => JsonValue::Str(s.clone()),
            JsonValue::Array(items) => {
                let mut out: Vec<JsonValue> = Vec::new();
                let mut i: usize = 0;
                while i < items.len()
                    invariant
                        *self == JsonValue::Array(*items),
                        i <= items@.len(),
                        out@.len() == i,
                        forall|j: int| 0 <= j < i ==> #[trigger] out@[j].data() == items@[j].data(),
                    decreases items@.len() - i,
                {
                    proof {
                        vstd::std_specs::vec::axiom_vec_index_decreases(*items, i as int);
                        assert(decreases_to!(*self => self->Array_0));
                    }
                    let c = items[i].duplicate();
                    out.push(c);
                    i = i + 1;
                }
                let r = JsonValue::Array(out);
                assert(r.data() == self.data()) by {
                    if let JsonData::Array(a) = r.data() {
                        if let JsonData::Array(b) = self.data() {
                            assert forall|j: int| 0 <= j < a.len() implies a[j] == b[j] by {
                                assert(out@[j].data() == items@[j].data());
                            }
                            assert(a =~= b);
                        }
                    }
                }
                r
            },
            JsonValue::Object(entries) => {
                let mut out: Vec<(String, JsonValue)> = Vec::new();
                let mut i: usize = 0;
                while i < entries.len()
                    invariant
                        *self == JsonValue::Object(*entries),
                        i <= entries@.len(),
                        out@.len() == i,
                        forall|j: int|
                            0 <= j < i ==> #[trigger] out@[j].0@ == entries@[j].0@ && out@[j].1.data()
                                == entries@[j].1.data(),
                    decreases entries@.len() - i,
                {
                    proof {
                        vstd::std_specs::vec::axiom_vec_index_decreases(*entries, i as int);
                        assert(decreases_to!(*self => self->Object_0));
                        assert(decreases_to!(entries@[i as int] => entries@[i as int].1));
                    }
                    let k = entries[i].0.clone();
                    let c = entries[i].1.duplicate();
                    out.push((k, c));
                    i = i + 1;
                }
                let r = JsonValue::Object(out);
                assert(r.data() == self.data()) by {
                    if let JsonData::Object(a) = r.data() {
                        if let JsonData::Object(b) = self.data() {
                            assert(a =~= b);
                        }
                    }
                }
                r
            },
        }
    }

    /// Whether this is the JSON `null`.
    pub fn is_null(&self) -> (r: bool)
        ensures
            r == (self is Null),
    {
        match self {
            JsonValue::Null => true,
            _ => false,
        }
    }

    /// The text of a JSON string, and `None` for any other value.
    pub fn as_str(&self) -> (r: Option<&str>)
        ensures
            match self {
                JsonValue::Str(s) => r matches Some(t) && t@ == s@,
                _ => r is None,
            },
    {
        match self {
            JsonValue::Str(s) => Some(s.as_str()),
            _ => None,
        }
    }

    /// The number as an `i64`, where it is an integer in that range.
    pub fn as_i64(&self) -> (r: Option<i64>)
        ensures
            match self.data() {
                JsonData::Int(n) => if i64::MIN <= n <= i64::MAX {
                    r == Some(n as i64)
                } else {
                    r is None
                },
                _ => r is None,
            },
    {
        match self {
            JsonValue::Int(i) => Some(*i),
            JsonValue::UInt(u) => if *u <= 9223372036854775807u64 {
                Some(*u as i64)
            } else {
                None
            },
            _ => None,
        }
    }

    /// The value under `key` in an object: that of the first entry so
    /// named; `None` where there is none or this is not an object.
    pub fn get(&self, key: &str) -> (r: Option<&JsonValue>)
        ensures
            match self {
                JsonValue::Object(entries) => match r {
                    Some(v) => exists|i: int| is_first_key(entries@, key@, i) && *v == entries@[i].1,
                    None => has_no_key(entries@, key@),
                },
                _ => r is None,
            },
    {
        match self {
            JsonValue::Object(entries) => {
                let wanted = String::from_str(key);
                let mut i: usize = 0;
                while i < entries.len()
                    invariant
                        *self == JsonValue::Object(*entries),
                        i <= entries@.len(),
                        wanted@ == key@,
                        forall|j: int| 0 <= j < i ==> entries@[j].0@ != key@,
                    decreases entries@.len() - i,
                {
                    if entries[i].0 == wanted {
                        let found = &entries[i].1;
                        assert(is_first_key(entries@, key@, i as int) && *found == entries@[i as int].1);
                        assert(match self {
                            JsonValue::Object(es) => exists|k: int| is_first_key(es@, key@, k) && *found == es@[k].1,
                            _ => false,
                        });
                        return Some(found);
                    }
                    i = i + 1;
                }
                None
            },
            _ => None,
        }
    }
}

} // verus!

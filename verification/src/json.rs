//! A JSON document as plain values, and the lookups that reading a
//! tsconfig file makes on it.
use vstd::prelude::*;
use crate::text::text_eq;

verus! {

/// A JSON value. Numbers are kept by their text; an object keeps its
/// members in order, each key once.
pub enum JsonValue {
    Null,
    Bool(bool),
    Number(String),
    String(String),
    Array(Vec<JsonValue>),
    Object(Vec<(String, JsonValue)>),
}

pub enum JsonV {
    Null,
    Bool(bool),
    Number(Seq<char>),
    String(Seq<char>),
    Array(Seq<JsonV>),
    Object(Seq<(Seq<char>, JsonV)>),
}

pub open spec fn json_view(v: JsonValue) -> JsonV
    decreases v,
{
    match v {
        JsonValue::Null => JsonV::Null,
        JsonValue::Bool(b) => JsonV::Bool(b),
        JsonValue::Number(s) => JsonV::Number(s@),
        JsonValue::String(s) => JsonV::String(s@),
        JsonValue::Array(a) => JsonV::Array(
            Seq::new(
                a@.len(),
                |i: int|
                    if 0 <= i < a@.len() {
                        json_view(a@[i])
                    } else {
                        JsonV::Null
                    },
            ),
        ),
        JsonValue::Object(m) => JsonV::Object(
            Seq::new(
                m@.len(),
                |i: int|
                    if 0 <= i < m@.len() {
                        (m@[i].0@, json_view(m@[i].1))
                    } else {
                        (Seq::empty(), JsonV::Null)
                    },
            ),
        ),
    }
}

impl View for JsonValue {
    type V = JsonV;

    open spec fn view(&self) -> JsonV {
        json_view(*self)
    }
}

/// The value of the first member named `key`.
pub open spec fn member(m: Seq<(Seq<char>, JsonV)>, key: Seq<char>) -> Option<JsonV>
    decreases m.len(),
{
    if m.len() == 0 {
        None
    } else if m[0].0 == key {
        Some(m[0].1)
    } else {
        member(m.drop_first(), key)
    }
}

/// `value.get(key)`: the member `key` of an object; nothing for any other
/// value.
pub open spec fn get_spec(v: JsonV, key: Seq<char>) -> Option<JsonV> {
    match v {
        JsonV::Object(m) => member(m, key),
        _ => None,
    }
}

impl JsonValue {
    /// The member `key` of an object; `None` for a missing member and for
    /// any value that is not an object.
    pub fn get(&self, key: &str) -> (r: Option<&JsonValue>)
        ensures
            match r {
                Some(x) => get_spec(self@, key@) == Some(x@),
                None => get_spec(self@, key@) is None,
            },
    {
        match self {
            JsonValue::Object(m) => {
                let ghost mv = match self@ {
                    JsonV::Object(mv) => mv,
                    _ => Seq::empty(),
                };
                assert(self@ == JsonV::Object(mv));
                assert(mv.subrange(0, mv.len() as int) =~= mv);
                let mut i: usize = 0;
                while i < m.len()
                    invariant
                        i <= m@.len(),
                        self@ == JsonV::Object(mv),
                        mv.len() == m@.len(),
                        forall|j: int| 0 <= j < m@.len() ==> #[trigger] mv[j] == (m@[j].0@, json_view(m@[j].1)),
                        member(mv, key@) == member(mv.subrange(i as int, mv.len() as int), key@),
                    decreases m@.len() - i,
                {
                    assert(mv[i as int] == (m@[i as int].0@, json_view(m@[i as int].1)));
                    if text_eq(m[i].0.as_str(), key) {
                        let ghost sub = mv.subrange(i as int, mv.len() as int);
                        assert(sub[0] == mv[i as int]);
                        return Some(&m[i].1);
                    }
                    assert(mv.subrange(i as int, mv.len() as int).drop_first() =~= mv.subrange(
                        i + 1,
                        mv.len() as int,
                    ));
                    i = i + 1;
                }
                None
            },
            _ => None,
        }
    }

    /// The text of a string value.
    pub fn as_str(&self) -> (r: Option<&String>)
        ensures
            match r {
                Some(s) => self@ == JsonV::String(s@),
                None => !(self@ is String),
            },
    {
        match self {
            JsonValue::String(s) => Some(s),
            _ => None,
        }
    }
}

} // verus!

//! The crate's own JSON tree: the engine data files are JSON, and the
//! extraction and injection logic walks values of this type.  Callers parse
//! file text into this tree and serialise it back outside the library.
//!
//! A number is held either as an `i64` or, where it is not an integer, as
//! the raw bits of an IEEE double, so that trees carrying fractional
//! numbers still round-trip; the engine itself only ever reads integers
//! and strings.

use vstd::prelude::*;

verus! {

broadcast use {
    vstd::std_specs::vec::axiom_vec_index_decreases,
    vstd::std_specs::vec::axiom_vec_decreases_to_view,
    vstd::seq::axiom_seq_index_decreases,
};

/// Mathematical model of a JSON value.
pub enum Json {
    Null,
    Bool(bool),
    Int(i64),
    FloatBits(u64),
    Str(Seq<char>),
    Arr(Seq<Json>),
    Obj(Seq<(Seq<char>, Json)>),
}

/// A JSON value.
#[derive(Debug)]
pub enum JsonValue {
    /// JSON `null`.
    Null,
    /// A boolean.
    Bool(bool),
    /// An integer number.
    Int(i64),
    /// A non-integer number, carried as the bits of an IEEE double.
    FloatBits(u64),
    /// A string.
    Str(String),
    /// An array.
    Array(Vec<JsonValue>),
    /// An object: a list of key/value fields in document order.
    Object(Vec<(String, JsonValue)>),
}

/// The model of a JSON value.
pub open spec fn json_view(v: JsonValue) -> Json
    decreases v,
{
    match v {
        JsonValue::Null => Json::Null,
        JsonValue::Bool(b) => Json::Bool(b),
        JsonValue::Int(i) => Json::Int(i),
        JsonValue::FloatBits(x) => Json::FloatBits(x),
        JsonValue::Str(s) => Json::Str(s@),
        JsonValue::Array(elems) => Json::Arr(json_view_list(elems@)),
        JsonValue::Object(fields) => Json::Obj(json_view_fields(fields@)),
    }
}

/// The models of a list of JSON values.
pub open spec fn json_view_list(elems: Seq<JsonValue>) -> Seq<Json>
    decreases elems,
{
    if elems.len() == 0 {
        Seq::empty()
    } else {
        seq![json_view(elems[0])] + json_view_list(elems.subrange(1, elems.len() as int))
    }
}

/// The models of an object's field list.
pub open spec fn json_view_fields(fields: Seq<(String, JsonValue)>) -> Seq<(Seq<char>, Json)>
    decreases fields,
{
    if fields.len() == 0 {
        Seq::empty()
    } else {
        seq![(fields[0].0@, json_view(fields[0].1))] + json_view_fields(
            fields.subrange(1, fields.len() as int),
        )
    }
}

/// Pointwise characterisation of `json_view_list`.
pub broadcast proof fn lemma_json_view_list(elems: Seq<JsonValue>)
    ensures
        (#[trigger] json_view_list(elems)).len() == elems.len(),
        forall|i: int| 0 <= i < elems.len() ==> json_view_list(elems)[i] == json_view(elems[i]),
    decreases elems.len(),
{
    if elems.len() > 0 {
        lemma_json_view_list(elems.subrange(1, elems.len() as int));
    }
}

/// Pointwise characterisation of `json_view_fields`.
pub broadcast proof fn lemma_json_view_fields(fields: Seq<(String, JsonValue)>)
    ensures
        (#[trigger] json_view_fields(fields)).len() == fields.len(),
        forall|i: int|
            0 <= i < fields.len() ==> json_view_fields(fields)[i] == (
                fields[i].0@,
                json_view(fields[i].1),
            ),
    decreases fields.len(),
{
    if fields.len() > 0 {
        lemma_json_view_fields(fields.subrange(1, fields.len() as int));
    }
}

impl View for JsonValue {
    type V = Json;

    open spec fn view(&self) -> Json {
        json_view(*self)
    }
}

/// First-match lookup in an object's field list.
pub open spec fn spec_obj_get(fields: Seq<(Seq<char>, Json)>, key: Seq<char>) -> Option<Json>
    decreases fields.len(),
{
    if fields.len() == 0 {
        None
    } else if fields[0].0 == key {
        Some(fields[0].1)
    } else {
        spec_obj_get(fields.drop_first(), key)
    }
}

impl JsonValue {
    /// Whether this value is `null`.
    pub fn is_null(&self) -> (r: bool)
        ensures
            r == (self@ is Null),
    {
        match self {
            JsonValue::Null => true,
            _ => false,
        }
    }

    /// Whether this value is a string.
    pub fn is_string(&self) -> (r: bool)
        ensures
            r == (self@ is Str),
    {
        match self {
            JsonValue::Str(_) => true,
            _ => false,
        }
    }

    /// The string payload, if this value is a string.
    pub fn as_str(&self) -> (r: Option<&String>)
        ensures
            match r {
                Some(s) => self@ == Json::Str(s@),
                None => !(self@ is Str),
            },
    {
        match self {
            JsonValue::Str(s) => Some(s),
            _ => None,
        }
    }

    /// The integer payload, if this value is an integer.
    pub fn as_i64(&self) -> (r: Option<i64>)
        ensures
            match r {
                Some(i) => self@ == Json::Int(i),
                None => !(self@ is Int),
            },
    {
        match self {
            JsonValue::Int(i) => Some(*i),
            _ => None,
        }
    }

    /// The element list, if this value is an array.
    pub fn as_array(&self) -> (r: Option<&Vec<JsonValue>>)
        ensures
            match r {
                Some(v) => self@ == Json::Arr(json_view_list(v@)),
                None => !(self@ is Arr),
            },
    {
        match self {
            JsonValue::Array(v) => Some(v),
            _ => None,
        }
    }

    /// The field list, if this value is an object.
    pub fn as_object(&self) -> (r: Option<&Vec<(String, JsonValue)>>)
        ensures
            match r {
                Some(v) => self@ == Json::Obj(json_view_fields(v@)),
                None => !(self@ is Obj),
            },
    {
        match self {
            JsonValue::Object(v) => Some(v),
            _ => None,
        }
    }

    /// Look a key up in an object value; `None` for other values or a
    /// missing key.
    pub fn get_key(&self, key: &str) -> (r: Option<&JsonValue>)
        ensures
            match r {
                Some(v) => self@ matches Json::Obj(fields) && spec_obj_get(fields, key@) == Some(
                    v@,
                ),
                None => !(self@ matches Json::Obj(fields) && spec_obj_get(fields, key@) is Some),
            },
    {
        match self {
            JsonValue::Object(fields) => {
                let ghost obj = json_view_fields(fields@);
                proof {
                    lemma_json_view_fields(fields@);
                    assert(obj.skip(0) =~= obj);
                }
                let mut i: usize = 0;
                let n = fields.len();
                while i < n
                    invariant
                        i <= n,
                        n == fields@.len(),
                        obj == json_view_fields(fields@),
                        self@ == Json::Obj(obj),
                        spec_obj_get(obj.skip(i as int), key@) == spec_obj_get(obj, key@),
                    decreases n - i,
                {
                    let eq = crate::strutil::str_eq(fields[i].0.as_str(), key);
                    proof {
                        lemma_json_view_fields(fields@);
                        assert(obj.skip(i as int)[0] == obj[i as int]);
                        assert(obj.skip(i as int).drop_first() =~= obj.skip(i as int + 1));
                    }
                    if eq {
                        assert(spec_obj_get(obj, key@) == Some(obj[i as int].1));
                        return Some(&fields[i].1);
                    }
                    i = i + 1;
                }
                proof {
                    lemma_json_view_fields(fields@);
                    assert(obj.skip(n as int) =~= Seq::<(Seq<char>, Json)>::empty());
                }
                None
            },
            _ => None,
        }
    }

    /// Index into an array value; `None` for other values or an index out
    /// of range.
    pub fn get_index(&self, index: usize) -> (r: Option<&JsonValue>)
        ensures
            match r {
                Some(v) => self@ matches Json::Arr(elems) && index < elems.len() && elems[
                    index as int
                ] == v@,
                None => !(self@ matches Json::Arr(elems) && index < elems.len()),
            },
    {
        match self {
            JsonValue::Array(elems) => {
                proof {
                    lemma_json_view_list(elems@);
                }
                if index < elems.len() {
                    Some(&elems[index])
                } else {
                    None
                }
            },
            _ => None,
        }
    }

    /// A deep copy of the value.
    #[verifier::loop_isolation(false)]
    pub fn duplicate(&self) -> (r: Self)
        ensures
            r@ == self@,
        decreases self,
    {
        match self {
            JsonValue::Null => JsonValue::Null,
            JsonValue::Bool(b) => JsonValue::Bool(*b),
            JsonValue::Int(i) => JsonValue::Int(*i),
            JsonValue::FloatBits(x) => JsonValue::FloatBits(*x),
            JsonValue::Str(s) => JsonValue::Str(s.clone()),
            JsonValue::Array(v) => {
                let mut out: Vec<JsonValue> = Vec::new();
                let mut i: usize = 0;
                let n = v.len();
                while i < n
                    invariant
                        i <= n,
                        n == v@.len(),
                        out@.len() == i,
                        forall|k: int| 0 <= k < i ==> json_view(#[trigger] out@[k]) == json_view(
                            v@[k],
                        ),
                    decreases n - i,
                {
                    proof {
                        assert(decreases_to!(*self => *v));
                        assert(decreases_to!(v@ => v@[i as int]));
                        assert(decreases_to!(*self => v@[i as int]));
                    }
                    out.push(v[i].duplicate());
                    i = i + 1;
                }
                let r = JsonValue::Array(out);
                proof {
                    lemma_json_view_list(out@);
                    lemma_json_view_list(v@);
                    assert(json_view_list(out@) =~= json_view_list(v@));
                }
                r
            },
            JsonValue::Object(v) => {
                let mut out: Vec<(String, JsonValue)> = Vec::new();
                let mut i: usize = 0;
                let n = v.len();
                while i < n
                    invariant
                        i <= n,
                        n == v@.len(),
                        out@.len() == i,
                        forall|k: int|
                            0 <= k < i ==> (#[trigger] out@[k]).0@ == v@[k].0@ && json_view(
                                out@[k].1,
                            ) == json_view(v@[k].1),
                    decreases n - i,
                {
                    proof {
                        assert(decreases_to!(*self => *v));
                        assert(decreases_to!(v@ => v@[i as int]));
                        assert(decreases_to!(v@[i as int] => v@[i as int].1));
                        assert(decreases_to!(*self => v@[i as int].1));
                    }
                    let key = v[i].0.clone();
                    let val = v[i].1.duplicate();
                    out.push((key, val));
                    i = i + 1;
                }
                let r = JsonValue::Object(out);
                proof {
                    lemma_json_view_fields(out@);
                    lemma_json_view_fields(v@);
                    assert(json_view_fields(out@) =~= json_view_fields(v@));
                }
                r
            },
        }
    }

    /// Build a string value from a string slice.
    pub fn string_from(s: &str) -> (r: Self)
        ensures
            r@ == Json::Str(s@),
    {
        JsonValue::Str(String::from_str(s))
    }
}

} // verus!

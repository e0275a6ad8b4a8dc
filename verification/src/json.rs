//! A plain-value model of a JSON document, as the protocol logic reads it.

use vstd::prelude::*;
use crate::text::str_eq;

verus! {

/// A JSON value. Numbers representable as `i64` are held exactly; every
/// other number (larger unsigned values, fractions) keeps its textual form.
#[derive(Debug)]
pub enum JsonValue {
    Null,
    Bool(bool),
    Int(i64),
    Number(String),
    Str(String),
    Array(Vec<JsonValue>),
    Object(Vec<(String, JsonValue)>),
}

/// The mathematical content of a JSON value.
pub enum JsonView {
    Null,
    Bool(bool),
    Int(i64),
    Number(Seq<char>),
    Str(Seq<char>),
    Array(Seq<JsonView>),
    Object(Seq<(Seq<char>, JsonView)>),
}

/// The content of a JSON value.
pub open spec fn json_view(v: JsonValue) -> JsonView
    decreases v, 0int,
{
    match v {
        JsonValue::Null => JsonView::Null,
        JsonValue::Bool(b) => JsonView::Bool(b),
        JsonValue::Int(n) => JsonView::Int(n),
        JsonValue::Number(t) => JsonView::Number(t@),
        JsonValue::Str(s) => JsonView::Str(s@),
        JsonValue::Array(items) => JsonView::Array(items_view(items@)),
        JsonValue::Object(fields) => JsonView::Object(fields_view(fields@)),
    }
}

/// The content of a list of JSON values.
pub open spec fn items_view(items: Seq<JsonValue>) -> Seq<JsonView>
    decreases items, 1int,
{
    if items.len() == 0 {
        Seq::empty()
    } else {
        seq![json_view(items[0])] + items_view(items.subrange(1, items.len() as int))
    }
}

/// The content of a list of JSON object fields.
pub open spec fn fields_view(fields: Seq<(String, JsonValue)>) -> Seq<(Seq<char>, JsonView)>
    decreases fields, 1int,
{
    if fields.len() == 0 {
        Seq::empty()
    } else {
        seq![(fields[0].0@, json_view(fields[0].1))] + fields_view(fields.subrange(1, fields.len() as int))
    }
}

/// First field named `key` in `fields`, searching from the front.
pub open spec fn fields_lookup(fields: Seq<(String, JsonValue)>, key: Seq<char>) -> Option<JsonValue>
    decreases fields.len(),
{
    if fields.len() == 0 {
        None
    } else if fields[0].0@ == key {
        Some(fields[0].1)
    } else {
        fields_lookup(fields.drop_first(), key)
    }
}

/// `v[key]` when `v` is an object that carries `key`.
pub open spec fn json_get(v: JsonValue, key: Seq<char>) -> Option<JsonValue> {
    match v {
        JsonValue::Object(fields) => fields_lookup(fields@, key),
        _ => None,
    }
}

/// `v[key]` as a string, when present and a string.
pub open spec fn json_get_str(v: JsonValue, key: Seq<char>) -> Option<Seq<char>> {
    match json_get(v, key) {
        Some(JsonValue::Str(s)) => Some(s@),
        _ => None,
    }
}

/// `v[key]` as an `i64`, when present and an integer in range.
pub open spec fn json_get_i64(v: JsonValue, key: Seq<char>) -> Option<i64> {
    match json_get(v, key) {
        Some(JsonValue::Int(n)) => Some(n),
        _ => None,
    }
}

/// Whether `v` is an object.
pub open spec fn json_is_object(v: JsonValue) -> bool {
    v is Object
}

pub proof fn lemma_lookup_index(fields: Seq<(String, JsonValue)>, key: Seq<char>, i: int)
    requires
        0 <= i < fields.len(),
        fields[i].0@ == key,
        forall|j: int| 0 <= j < i ==> (#[trigger] fields[j]).0@ != key,
    ensures
        fields_lookup(fields, key) == Some(fields[i].1),
    decreases i,
{
    if i > 0 {
        lemma_lookup_index(fields.drop_first(), key, i - 1);
    }
}

pub proof fn lemma_lookup_absent(fields: Seq<(String, JsonValue)>, key: Seq<char>)
    requires
        forall|j: int| 0 <= j < fields.len() ==> (#[trigger] fields[j]).0@ != key,
    ensures
        fields_lookup(fields, key) is None,
    decreases fields.len(),
{
    if fields.len() > 0 {
        assert forall|j: int| 0 <= j < fields.drop_first().len()
            implies (#[trigger] fields.drop_first()[j]).0@ != key by {
            assert(fields.drop_first()[j] == fields[j + 1]);
        }
        lemma_lookup_absent(fields.drop_first(), key);
    }
}

/// Appending a value appends its content.
pub proof fn lemma_items_view_push(s: Seq<JsonValue>, x: JsonValue)
    ensures
        items_view(s.push(x)) == items_view(s).push(json_view(x)),
    decreases s.len(),
{
    let t = s.push(x);
    if s.len() == 0 {
        assert(t.subrange(1, t.len() as int) =~= Seq::<JsonValue>::empty());
        assert(items_view(Seq::<JsonValue>::empty()) =~= Seq::<JsonView>::empty());
        assert(items_view(t) =~= seq![json_view(x)]);
    } else {
        let rest = s.subrange(1, s.len() as int);
        assert(t.subrange(1, t.len() as int) =~= rest.push(x));
        lemma_items_view_push(rest, x);
        assert(items_view(t) =~= items_view(s).push(json_view(x)));
    }
}

/// Appending a field appends its content.
pub proof fn lemma_fields_view_push(s: Seq<(String, JsonValue)>, x: (String, JsonValue))
    ensures
        fields_view(s.push(x)) == fields_view(s).push((x.0@, json_view(x.1))),
    decreases s.len(),
{
    let t = s.push(x);
    if s.len() == 0 {
        assert(t.subrange(1, t.len() as int) =~= Seq::<(String, JsonValue)>::empty());
        assert(fields_view(Seq::<(String, JsonValue)>::empty()) =~= Seq::<(Seq<char>, JsonView)>::empty());
        assert(fields_view(t) =~= seq![(x.0@, json_view(x.1))]);
    } else {
        let rest = s.subrange(1, s.len() as int);
        assert(t.subrange(1, t.len() as int) =~= rest.push(x));
        lemma_fields_view_push(rest, x);
        assert(fields_view(t) =~= fields_view(s).push((x.0@, json_view(x.1))));
    }
}

impl JsonValue {
    /// A copy with the same content.
    pub fn deep_clone(&self) -> (res: JsonValue)
        ensures
            json_view(res) == json_view(*self),
        decreases self,
    {
        match self {
            JsonValue::Null => JsonValue::Null,
            JsonValue::Bool(b) => JsonValue::Bool(*b),
            JsonValue::Int(n) => JsonValue::Int(*n),
            JsonValue::Number(t) => JsonValue::Number(t.clone()),
            JsonValue::Str(s) => JsonValue::Str(s.clone()),
            JsonValue::Array(items) => {
                let mut out: Vec<JsonValue> = Vec::new();
                let mut i: usize = 0;
                while i < items.len()
                    invariant
                        *self == JsonValue::Array(*items),
                        i <= items@.len(),
                        items_view(out@) == items_view(items@.subrange(0, i as int)),
                    decreases items@.len() - i,
                {
                    proof {
                        assert((*self)->Array_0 == *items);
                        assert(decreases_to!(*self => (*self)->Array_0));
                        assert(decreases_to!(*items => items@));
                        assert(decreases_to!(items@ => items@[i as int]));
                    }
                    let c = items[i].deep_clone();
                    proof {
                        lemma_items_view_push(out@, c);
                        lemma_items_view_push(items@.subrange(0, i as int), items@[i as int]);
                        assert(items@.subrange(0, i as int).push(items@[i as int]) =~= items@.subrange(0, i + 1));
                    }
                    out.push(c);
                    i = i + 1;
                }
                assert(items@.subrange(0, items@.len() as int) =~= items@);
                JsonValue::Array(out)
            },
            JsonValue::Object(fields) => {
                let mut out: Vec<(String, JsonValue)> = Vec::new();
                let mut i: usize = 0;
                while i < fields.len()
                    invariant
                        *self == JsonValue::Object(*fields),
                        i <= fields@.len(),
                        fields_view(out@) == fields_view(fields@.subrange(0, i as int)),
                    decreases fields@.len() - i,
                {
                    proof {
                        assert((*self)->Object_0 == *fields);
                        assert(decreases_to!(*self => (*self)->Object_0));
                        assert(decreases_to!(*fields => fields@));
                        assert(decreases_to!(fields@ => fields@[i as int]));
                        assert(decreases_to!(fields@[i as int] => fields@[i as int].1));
                    }
                    let c = fields[i].1.deep_clone();
                    let k = fields[i].0.clone();
                    proof {
                        lemma_fields_view_push(out@, (k, c));
                        lemma_fields_view_push(fields@.subrange(0, i as int), fields@[i as int]);
                        assert(fields@.subrange(0, i as int).push(fields@[i as int]) =~= fields@.subrange(0, i + 1));
                    }
                    out.push((k, c));
                    i = i + 1;
                }
                assert(fields@.subrange(0, fields@.len() as int) =~= fields@);
                JsonValue::Object(out)
            },
        }
    }

    /// `self[key]`: the field named `key` when `self` is an object.
    pub fn get<'a>(&'a self, key: &str) -> (res: Option<&'a JsonValue>)
        ensures
            match json_get(*self, key@) {
                Some(v) => res is Some && *res->0 == v,
                None => res is None,
            },
    {
        match self {
            JsonValue::Object(fields) => {
                let mut i: usize = 0;
                while i < fields.len()
                    invariant
                        json_get(*self, key@) == fields_lookup(fields@, key@),
                        i <= fields@.len(),
                        forall|j: int| 0 <= j < i ==> (#[trigger] fields@[j]).0@ != key@,
                    decreases fields@.len() - i,
                {
                    if str_eq(fields[i].0.as_str(), key) {
                        proof {
                            lemma_lookup_index(fields@, key@, i as int);
                        }
                        return Some(&fields[i].1);
                    }
                    i = i + 1;
                }
                proof {
                    lemma_lookup_absent(fields@, key@);
                }
                None
            },
            _ => None,
        }
    }

    /// Whether `self[key]` is present.
    pub fn has(&self, key: &str) -> (res: bool)
        ensures
            res == (json_get(*self, key@) is Some),
    {
        self.get(key).is_some()
    }

    /// `self[key]` as a string slice.
    pub fn get_str<'a>(&'a self, key: &str) -> (res: Option<&'a String>)
        ensures
            match json_get_str(*self, key@) {
                Some(s) => res is Some && res->0@ == s,
                None => res is None,
            },
    {
        match self.get(key) {
            Some(JsonValue::Str(s)) => Some(s),
            _ => None,
        }
    }

    /// `self[key]` as an `i64`.
    pub fn get_i64(&self, key: &str) -> (res: Option<i64>)
        ensures
            res == json_get_i64(*self, key@),
    {
        match self.get(key) {
            Some(JsonValue::Int(n)) => Some(*n),
            _ => None,
        }
    }

    /// Whether `self` is an object.
    pub fn is_object(&self) -> (res: bool)
        ensures
            res == json_is_object(*self),
    {
        match self {
            JsonValue::Object(_) => true,
            _ => false,
        }
    }
}

} // verus!

use vstd::prelude::*;

use crate::text::str_eq;

verus! {

/// One JSON value, the shape every schema fragment, request body and
/// generated response body takes.
///
/// Numbers are held as fixed-point values in hundredths: `Num(h)` stands for
/// the number `h / 100`. Two decimal places are the resolution the engine
/// works at — generated numbers are rounded to at most two decimals, and
/// numeric bounds read from a schema are held the same way.
#[derive(Debug, PartialEq)]
pub enum JsonValue {
    Null,
    Bool(bool),
    Num(i64),
    Str(String),
    Arr(Vec<JsonValue>),
    Obj(Vec<(String, JsonValue)>),
}

/// The mathematical model of a JSON value, over which every contract of the
/// engine is stated.
#[verifier::ext_equal]
pub enum JsonV {
    Null,
    Bool(bool),
    Num(int),
    Str(Seq<char>),
    Arr(Seq<JsonV>),
    Obj(Seq<(Seq<char>, JsonV)>),
}

impl JsonValue {
    /// The model of this value.
    pub open spec fn m(&self) -> JsonV
        decreases self,
    {
        match self {
            JsonValue::Null => JsonV::Null,
            JsonValue::Bool(b) => JsonV::Bool(*b),
            JsonValue::Num(h) => JsonV::Num(*h as int),
            JsonValue::Str(s) => JsonV::Str(s@),
            JsonValue::Arr(items) => JsonV::Arr(arr_m(items@)),
            JsonValue::Obj(fields) => JsonV::Obj(obj_m(fields@)),
        }
    }
}

/// The models of a list of values.
pub open spec fn arr_m(items: Seq<JsonValue>) -> Seq<JsonV>
    decreases items,
{
    if items.len() == 0 {
        Seq::empty()
    } else {
        seq![items[0].m()] + arr_m(items.drop_first())
    }
}

/// The models of a list of named fields.
pub open spec fn obj_m(fields: Seq<(String, JsonValue)>) -> Seq<(Seq<char>, JsonV)>
    decreases fields,
{
    if fields.len() == 0 {
        Seq::empty()
    } else {
        seq![(fields[0].0@, fields[0].1.m())] + obj_m(fields.drop_first())
    }
}

pub broadcast proof fn lemma_arr_m_len(items: Seq<JsonValue>)
    ensures
        (#[trigger] arr_m(items)).len() == items.len(),
    decreases items,
{
    if items.len() > 0 {
        lemma_arr_m_len(items.drop_first());
    }
}

pub broadcast proof fn lemma_arr_m_index(items: Seq<JsonValue>, i: int)
    requires
        0 <= i < items.len(),
    ensures
        #[trigger] arr_m(items)[i] == items[i].m(),
    decreases items,
{
    lemma_arr_m_len(items);
    if i > 0 {
        lemma_arr_m_index(items.drop_first(), i - 1);
    }
}

pub broadcast proof fn lemma_obj_m_len(fields: Seq<(String, JsonValue)>)
    ensures
        (#[trigger] obj_m(fields)).len() == fields.len(),
    decreases fields,
{
    if fields.len() > 0 {
        lemma_obj_m_len(fields.drop_first());
    }
}

pub broadcast proof fn lemma_obj_m_index(fields: Seq<(String, JsonValue)>, i: int)
    requires
        0 <= i < fields.len(),
    ensures
        #[trigger] obj_m(fields)[i] == (fields[i].0@, fields[i].1.m()),
    decreases fields,
{
    lemma_obj_m_len(fields);
    if i > 0 {
        lemma_obj_m_index(fields.drop_first(), i - 1);
    }
}

/// The value under `key` in an object's field list: the first pair whose
/// name has exactly those characters.
pub open spec fn obj_lookup(fields: Seq<(Seq<char>, JsonV)>, key: Seq<char>) -> Option<JsonV>
    decreases fields.len(),
{
    if fields.len() == 0 {
        None
    } else if fields[0].0 == key {
        Some(fields[0].1)
    } else {
        obj_lookup(fields.drop_first(), key)
    }
}

/// Field access as the engine reads it: only an object has fields.
pub open spec fn jv_get(v: JsonV, key: Seq<char>) -> Option<JsonV> {
    match v {
        JsonV::Obj(fields) => obj_lookup(fields, key),
        _ => None,
    }
}

/// The string a field holds, if the field is there and holds a string.
pub open spec fn get_str(v: JsonV, key: Seq<char>) -> Option<Seq<char>> {
    match jv_get(v, key) {
        Some(JsonV::Str(s)) => Some(s),
        _ => None,
    }
}

/// The raw fixed-point number a field holds.
pub open spec fn get_num(v: JsonV, key: Seq<char>) -> Option<int> {
    match jv_get(v, key) {
        Some(JsonV::Num(h)) => Some(h),
        _ => None,
    }
}

/// The whole number a field holds, read the way `as_u64` reads a JSON
/// number: only a non-negative value with no fractional part counts.
pub open spec fn get_whole(v: JsonV, key: Seq<char>) -> Option<int> {
    match jv_get(v, key) {
        Some(JsonV::Num(h)) => if h >= 0 && h % 100 == 0 {
            Some(h / 100)
        } else {
            None
        },
        _ => None,
    }
}

/// The boolean a field holds, if the field is there and holds a boolean.
pub open spec fn get_bool(v: JsonV, key: Seq<char>) -> Option<bool> {
    match jv_get(v, key) {
        Some(JsonV::Bool(b)) => Some(b),
        _ => None,
    }
}

/// A found field is one of the pairs of the list.
pub proof fn lemma_obj_lookup_index(fields: Seq<(Seq<char>, JsonV)>, key: Seq<char>)
    requires
        obj_lookup(fields, key) is Some,
    ensures
        exists|i: int|
            0 <= i < fields.len() && fields[i].0 == key && obj_lookup(fields, key) == Some(
                fields[i].1,
            ),
    decreases fields.len(),
{
    if fields.len() == 0 {
    } else if fields[0].0 == key {
        assert(fields[0] == fields.index(0));
    } else {
        lemma_obj_lookup_index(fields.drop_first(), key);
        let i = choose|i: int|
            0 <= i < fields.drop_first().len() && fields.drop_first()[i].0 == key && obj_lookup(
                fields.drop_first(),
                key,
            ) == Some(fields.drop_first()[i].1);
        assert(fields[i + 1] == fields.drop_first()[i]);
    }
}

/// A field read from a model sits below that model, which lets the
/// recursive walks over a schema fragment terminate.
pub proof fn lemma_jv_get_decreases(v: JsonV, key: Seq<char>)
    requires
        jv_get(v, key) is Some,
    ensures
        decreases_to!(v => jv_get(v, key)->Some_0),
{
    match v {
        JsonV::Obj(fields) => {
            lemma_obj_lookup_index(fields, key);
            let i = choose|i: int|
                0 <= i < fields.len() && fields[i].0 == key && obj_lookup(fields, key) == Some(
                    fields[i].1,
                );
            assert(decreases_to!(v => v->Obj_0));
            assert(decreases_to!(fields => fields[i]));
            assert(decreases_to!(fields[i] => fields[i].1));
        },
        _ => {},
    }
}

impl JsonValue {
    /// The first field of this object named `key`, or nothing when the
    /// value is not an object or has no such field.
    pub fn get<'a>(&'a self, key: &str) -> (r: Option<&'a JsonValue>)
        ensures
            match r {
                Some(x) => jv_get(self.m(), key@) == Some(x.m()) && decreases_to!(*self => *x),
                None => jv_get(self.m(), key@) is None,
            },
    {
        match self {
            JsonValue::Obj(fields) => {
                let ghost m = obj_m(fields@);
                let n = fields.len();
                let mut i: usize = 0;
                proof {
                    broadcast use {lemma_obj_m_len, lemma_obj_m_index};

                    assert(m.subrange(0, n as int) =~= m);
                }
                while i < n
                    invariant
                        *self is Obj,
                        (*self)->Obj_0 == *fields,
                        self.m() == JsonV::Obj(m),
                        n == fields.len(),
                        m == obj_m(fields@),
                        m.len() == n,
                        0 <= i <= n,
                        obj_lookup(m, key@) == obj_lookup(m.subrange(i as int, n as int), key@),
                    decreases n - i,
                {
                    proof {
                        broadcast use {lemma_obj_m_len, lemma_obj_m_index};

                        assert(m.subrange(i as int, n as int)[0] == m[i as int]);
                        assert(m[i as int] == (fields@[i as int].0@, fields@[i as int].1.m()));
                    }
                    if str_eq(fields[i].0.as_str(), key) {
                        proof {
                            assert(decreases_to!(*self => (*self)->Obj_0));
                            assert(decreases_to!(*fields => fields@));
                            assert(decreases_to!(fields@ => fields@[i as int]));
                            assert(decreases_to!(fields@[i as int] => fields@[i as int].1));
                        }
                        return Some(&fields[i].1);
                    }
                    proof {
                        assert(m.subrange(i as int, n as int).drop_first() =~= m.subrange(
                            i as int + 1,
                            n as int,
                        ));
                    }
                    i = i + 1;
                }
                proof {
                    assert(m.subrange(n as int, n as int).len() == 0);
                }
                None
            },
            _ => None,
        }
    }

    /// The whole number under `key`, read the way `as_u64` reads a JSON
    /// number.
    pub fn get_field_whole(&self, key: &str) -> (r: Option<u64>)
        ensures
            match r {
                Some(w) => get_whole(self.m(), key@) == Some(w as int),
                None => get_whole(self.m(), key@) is None,
            },
    {
        match self.get(key) {
            Some(JsonValue::Num(h)) => {
                let h = *h;
                if h >= 0 && (h as u64) % 100 == 0 {
                    Some((h as u64) / 100)
                } else {
                    None
                }
            },
            _ => None,
        }
    }

    /// The raw fixed-point number under `key`.
    pub fn get_field_num(&self, key: &str) -> (r: Option<i64>)
        ensures
            match r {
                Some(h) => get_num(self.m(), key@) == Some(h as int),
                None => get_num(self.m(), key@) is None,
            },
    {
        match self.get(key) {
            Some(JsonValue::Num(h)) => Some(*h),
            _ => None,
        }
    }

    /// The string under `key`.
    pub fn get_field_str<'a>(&'a self, key: &str) -> (r: Option<&'a String>)
        ensures
            match r {
                Some(s) => get_str(self.m(), key@) == Some(s@),
                None => get_str(self.m(), key@) is None,
            },
    {
        match self.get(key) {
            Some(JsonValue::Str(s)) => Some(s),
            _ => None,
        }
    }

    /// The boolean under `key`.
    pub fn get_field_bool(&self, key: &str) -> (r: Option<bool>)
        ensures
            match r {
                Some(b) => get_bool(self.m(), key@) == Some(b),
                None => get_bool(self.m(), key@) is None,
            },
    {
        match self.get(key) {
            Some(JsonValue::Bool(b)) => Some(*b),
            _ => None,
        }
    }
}

/// An exact copy of a JSON value: the copy has the same model as the source.
pub fn clone_value(v: &JsonValue) -> (r: JsonValue)
    ensures
        r.m() == v.m(),
    decreases *v,
{
    match v {
        JsonValue::Null => JsonValue::Null,
        JsonValue::Bool(b) => JsonValue::Bool(*b),
        JsonValue::Num(h) => JsonValue::Num(*h),
        JsonValue::Str(s) => JsonValue::Str(s.clone()),
        JsonValue::Arr(items) => {
            let n = items.len();
            let mut out: Vec<JsonValue> = Vec::new();
            let mut i: usize = 0;
            while i < n
                invariant
                    *v is Arr,
                    (*v)->Arr_0 == *items,
                    n == items.len(),
                    0 <= i <= n,
                    out@.len() == i,
                    forall|k: int|
                        0 <= k < i ==> out@[k].m() == #[trigger] items@[k].m(),
                decreases n - i,
            {
                proof {
                    assert(decreases_to!(*v => (*v)->Arr_0));
                    assert(decreases_to!(*items => items@));
                    assert(decreases_to!(items@ => items@[i as int]));
                }
                let c = clone_value(&items[i]);
                out.push(c);
                i = i + 1;
            }
            proof {
                broadcast use {lemma_arr_m_len, lemma_arr_m_index};

                assert(arr_m(out@) =~= arr_m(items@));
            }
            JsonValue::Arr(out)
        },
        JsonValue::Obj(fields) => {
            let n = fields.len();
            let mut out: Vec<(String, JsonValue)> = Vec::new();
            let mut i: usize = 0;
            while i < n
                invariant
                    *v is Obj,
                    (*v)->Obj_0 == *fields,
                    n == fields.len(),
                    0 <= i <= n,
                    out@.len() == i,
                    forall|k: int|
                        0 <= k < i ==> #[trigger] out@[k].0@ == fields@[k].0@ && out@[k].1.m()
                            == fields@[k].1.m(),
                decreases n - i,
            {
                proof {
                    assert(decreases_to!(*v => (*v)->Obj_0));
                    assert(decreases_to!(*fields => fields@));
                    assert(decreases_to!(fields@ => fields@[i as int]));
                    assert(decreases_to!(fields@[i as int] => fields@[i as int].1));
                }
                let name = fields[i].0.clone();
                let val = clone_value(&fields[i].1);
                out.push((name, val));
                i = i + 1;
            }
            proof {
                broadcast use {lemma_obj_m_len, lemma_obj_m_index};

                assert(obj_m(out@) =~= obj_m(fields@));
            }
            JsonValue::Obj(out)
        },
    }
}

} // verus!

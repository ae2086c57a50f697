//! The library's own model of a JSON document.
//!
//! Run state, host receipts and worker reports are JSON documents. The library
//! reads and edits them as `Json` values; the view `JsonV` is the mathematical
//! document the contracts speak of. Object fields keep their order, and a
//! lookup answers the first field with the requested name.
use vstd::prelude::*;
use crate::text::str_eq;

verus! {

pub enum Json {
    Null,
    Bool(bool),
    /// A non-negative integer.
    UInt(u64),
    /// A negative integer.
    NegInt(i64),
    /// A number with a fraction or exponent, kept as its decimal text.
    Float(String),
    Str(String),
    Array(Vec<Json>),
    Object(Vec<(String, Json)>),
}

pub enum JsonV {
    Null,
    Bool(bool),
    UInt(u64),
    NegInt(i64),
    Float(Seq<char>),
    Str(Seq<char>),
    Array(Seq<JsonV>),
    Object(Seq<(Seq<char>, JsonV)>),
}

pub open spec fn view_arr(s: Seq<Json>) -> Seq<JsonV>
    decreases s,
{
    if s.len() == 0 {
        Seq::empty()
    } else {
        view_arr(s.drop_last()).push(s.last().view_rec())
    }
}

pub open spec fn view_obj(s: Seq<(String, Json)>) -> Seq<(Seq<char>, JsonV)>
    decreases s,
{
    if s.len() == 0 {
        Seq::empty()
    } else {
        view_obj(s.drop_last()).push((s.last().0@, s.last().1.view_rec()))
    }
}

impl Json {
    pub open spec fn view_rec(self) -> JsonV
        decreases self,
    {
        match self {
            Json::Null => JsonV::Null,
            Json::Bool(b) => JsonV::Bool(b),
            Json::UInt(n) => JsonV::UInt(n),
            Json::NegInt(n) => JsonV::NegInt(n),
            Json::Float(s) => JsonV::Float(s@),
            Json::Str(s) => JsonV::Str(s@),
            Json::Array(v) => JsonV::Array(view_arr(v@)),
            Json::Object(v) => JsonV::Object(view_obj(v@)),
        }
    }
}

impl View for Json {
    type V = JsonV;

    open spec fn view(&self) -> JsonV {
        self.view_rec()
    }
}

pub broadcast proof fn lemma_view_arr(s: Seq<Json>)
    ensures
        #[trigger] view_arr(s).len() == s.len(),
        forall|i: int| 0 <= i < s.len() ==> #[trigger] view_arr(s)[i] == s[i].view_rec(),
    decreases s.len(),
{
    if s.len() > 0 {
        lemma_view_arr(s.drop_last());
        assert forall|i: int| 0 <= i < s.len() implies #[trigger] view_arr(s)[i]
            == s[i].view_rec() by {
            if i < s.len() - 1 {
                assert(s.drop_last()[i] == s[i]);
            }
        }
    }
}

pub broadcast proof fn lemma_view_obj(s: Seq<(String, Json)>)
    ensures
        #[trigger] view_obj(s).len() == s.len(),
        forall|i: int|
            0 <= i < s.len() ==> #[trigger] view_obj(s)[i] == (s[i].0@, s[i].1.view_rec()),
    decreases s.len(),
{
    if s.len() > 0 {
        lemma_view_obj(s.drop_last());
        assert forall|i: int| 0 <= i < s.len() implies #[trigger] view_obj(s)[i] == (
            s[i].0@,
            s[i].1.view_rec(),
        ) by {
            if i < s.len() - 1 {
                assert(s.drop_last()[i] == s[i]);
            }
        }
    }
}

pub broadcast group group_json_view {
    lemma_view_arr,
    lemma_view_obj,
}

// ---------------------------------------------------------------------------
// The document model

/// The position of the first field named `key`.
pub open spec fn field_index(fields: Seq<(Seq<char>, JsonV)>, key: Seq<char>) -> Option<int>
    decreases fields.len(),
{
    if fields.len() == 0 {
        None
    } else if fields[0].0 == key {
        Some(0)
    } else {
        match field_index(fields.drop_first(), key) {
            Some(i) => Some(i + 1),
            None => None,
        }
    }
}

pub proof fn lemma_field_index(fields: Seq<(Seq<char>, JsonV)>, key: Seq<char>)
    ensures
        field_index(fields, key) matches Some(i) ==> 0 <= i < fields.len() && fields[i].0 == key
            && forall|j: int| 0 <= j < i ==> fields[j].0 != key,
        field_index(fields, key) is None ==> forall|j: int|
            0 <= j < fields.len() ==> fields[j].0 != key,
    decreases fields.len(),
{
    if fields.len() > 0 && fields[0].0 != key {
        lemma_field_index(fields.drop_first(), key);
        assert forall|j: int| 1 <= j < fields.len() implies fields[j] == fields.drop_first()[j
            - 1] by {}
    }
}

/// Characterizes `field_index` by the first matching position.
pub proof fn lemma_field_index_is(fields: Seq<(Seq<char>, JsonV)>, key: Seq<char>, i: int)
    requires
        0 <= i <= fields.len(),
        forall|j: int| 0 <= j < i ==> fields[j].0 != key,
        i < fields.len() ==> fields[i].0 == key,
    ensures
        i < fields.len() ==> field_index(fields, key) == Some(i),
        i == fields.len() ==> field_index(fields, key) is None,
{
    lemma_field_index(fields, key);
    match field_index(fields, key) {
        Some(k) => {
            if k < i {
            } else if k > i {
                assert(i < fields.len());
            }
        },
        None => {
            if i < fields.len() {
                assert(fields[i].0 == key);
            }
        },
    }
}

/// `Value::get(key)` on a document.
pub open spec fn get_v(v: JsonV, key: Seq<char>) -> Option<JsonV> {
    match v {
        JsonV::Object(fields) => match field_index(fields, key) {
            Some(i) => Some(fields[i].1),
            None => None,
        },
        _ => None,
    }
}

pub open spec fn str_v(v: JsonV) -> Option<Seq<char>> {
    match v {
        JsonV::Str(s) => Some(s),
        _ => None,
    }
}

pub open spec fn bool_v(v: JsonV) -> Option<bool> {
    match v {
        JsonV::Bool(b) => Some(b),
        _ => None,
    }
}

pub open spec fn u64_v(v: JsonV) -> Option<u64> {
    match v {
        JsonV::UInt(n) => Some(n),
        _ => None,
    }
}

pub open spec fn i64_v(v: JsonV) -> Option<i64> {
    match v {
        JsonV::UInt(n) => if n <= i64::MAX {
            Some(n as i64)
        } else {
            None
        },
        JsonV::NegInt(n) => Some(n),
        _ => None,
    }
}

pub open spec fn array_v(v: JsonV) -> Option<Seq<JsonV>> {
    match v {
        JsonV::Array(items) => Some(items),
        _ => None,
    }
}

pub open spec fn is_object_v(v: JsonV) -> bool {
    v is Object
}

/// `value.get(key).and_then(Value::as_str)`.
pub open spec fn get_str_v(v: JsonV, key: Seq<char>) -> Option<Seq<char>> {
    match get_v(v, key) {
        Some(x) => str_v(x),
        None => None,
    }
}

/// `value.get(key).and_then(Value::as_bool)`.
pub open spec fn get_bool_v(v: JsonV, key: Seq<char>) -> Option<bool> {
    match get_v(v, key) {
        Some(x) => bool_v(x),
        None => None,
    }
}

/// `value.get(key).and_then(Value::as_u64)`.
pub open spec fn get_u64_v(v: JsonV, key: Seq<char>) -> Option<u64> {
    match get_v(v, key) {
        Some(x) => u64_v(x),
        None => None,
    }
}

/// `value.get(key).and_then(Value::as_array)`, empty when absent (the
/// `.into_iter().flatten()` idiom).
pub open spec fn get_items_v(v: JsonV, key: Seq<char>) -> Seq<JsonV> {
    match get_v(v, key) {
        Some(JsonV::Array(items)) => items,
        _ => Seq::empty(),
    }
}

/// Writing `document[key] = value`: the first field named `key` is replaced,
/// otherwise the field is appended; `null` becomes an object first.
pub open spec fn set_v(v: JsonV, key: Seq<char>, value: JsonV) -> JsonV {
    let fields = match v {
        JsonV::Object(fields) => fields,
        _ => Seq::empty(),
    };
    match field_index(fields, key) {
        Some(i) => JsonV::Object(fields.update(i, (key, value))),
        None => JsonV::Object(fields.push((key, value))),
    }
}

/// Whether `document[key] = value` is defined (`serde_json` panics on other
/// documents).
pub open spec fn settable_v(v: JsonV) -> bool {
    v is Object || v is Null
}

pub open spec fn obj2(k1: Seq<char>, v1: JsonV, k2: Seq<char>, v2: JsonV) -> JsonV {
    JsonV::Object(seq![(k1, v1), (k2, v2)])
}

pub open spec fn obj3(
    k1: Seq<char>,
    v1: JsonV,
    k2: Seq<char>,
    v2: JsonV,
    k3: Seq<char>,
    v3: JsonV,
) -> JsonV {
    JsonV::Object(seq![(k1, v1), (k2, v2), (k3, v3)])
}

pub open spec fn opt_str_v(s: Option<Seq<char>>) -> JsonV {
    match s {
        Some(s) => JsonV::Str(s),
        None => JsonV::Null,
    }
}

pub open spec fn strs_v(s: Seq<Seq<char>>) -> JsonV {
    JsonV::Array(s.map_values(|x: Seq<char>| JsonV::Str(x)))
}

/// Removing field `key` from an object (`Map::remove`): the first field of
/// that name goes; other documents are unchanged.
pub open spec fn remove_v(v: JsonV, key: Seq<char>) -> JsonV {
    match v {
        JsonV::Object(fields) => match field_index(fields, key) {
            Some(i) => JsonV::Object(fields.remove(i)),
            None => v,
        },
        _ => v,
    }
}

/// Removing a field just written gives what removing it before the write
/// gave.
pub proof fn lemma_remove_set(v: JsonV, key: Seq<char>, value: JsonV)
    requires
        v is Object,
    ensures
        remove_v(set_v(v, key, value), key) == remove_v(v, key),
{
    let fields = match v {
        JsonV::Object(fields) => fields,
        _ => Seq::empty(),
    };
    lemma_field_index(fields, key);
    match field_index(fields, key) {
        Some(i) => {
            let updated = fields.update(i, (key, value));
            lemma_field_index_is(updated, key, i);
            assert(updated.remove(i) =~= fields.remove(i));
        },
        None => {
            let updated = fields.push((key, value));
            lemma_field_index_is(updated, key, fields.len() as int);
            assert(updated.remove(fields.len() as int) =~= fields);
        },
    }
}

/// A field of another name reads the same after a removal.
pub proof fn lemma_get_remove(v: JsonV, key: Seq<char>, other: Seq<char>)
    requires
        other != key,
    ensures
        get_v(remove_v(v, key), other) == get_v(v, other),
{
    match v {
        JsonV::Object(fields) => {
            lemma_field_index(fields, key);
            lemma_field_index(fields, other);
            match field_index(fields, key) {
                Some(i) => {
                    let removed = fields.remove(i);
                    match field_index(fields, other) {
                        Some(j) => {
                            if j < i {
                                lemma_field_index_is(removed, other, j);
                            } else {
                                assert(removed[j - 1] == fields[j]);
                                assert forall|m: int| 0 <= m < j - 1 implies removed[m].0
                                    != other by {
                                    if m < i {
                                        assert(removed[m] == fields[m]);
                                    } else {
                                        assert(removed[m] == fields[m + 1]);
                                    }
                                }
                                lemma_field_index_is(removed, other, j - 1);
                            }
                        },
                        None => {
                            assert forall|m: int| 0 <= m < removed.len() implies removed[m].0
                                != other by {
                                if m < i {
                                    assert(removed[m] == fields[m]);
                                } else {
                                    assert(removed[m] == fields[m + 1]);
                                }
                            }
                            lemma_field_index_is(removed, other, removed.len() as int);
                        },
                    }
                },
                None => {},
            }
        },
        _ => {},
    }
}

/// Writing a field with the value it already holds changes nothing.
pub proof fn lemma_set_same(v: JsonV, key: Seq<char>, value: JsonV)
    requires
        v is Object,
        get_v(v, key) == Some(value),
    ensures
        set_v(v, key, value) == v,
{
    let fields = match v {
        JsonV::Object(fields) => fields,
        _ => Seq::empty(),
    };
    lemma_field_index(fields, key);
    let i = field_index(fields, key).unwrap();
    assert(fields.update(i, (key, value)) =~= fields);
}

/// A read after a write gives back the written value, and other fields are
/// unchanged.
pub proof fn lemma_get_set(v: JsonV, key: Seq<char>, value: JsonV, other: Seq<char>)
    requires
        settable_v(v),
    ensures
        get_v(set_v(v, key, value), key) == Some(value),
        other != key ==> get_v(set_v(v, key, value), other) == get_v(v, other),
{
    let fields = match v {
        JsonV::Object(fields) => fields,
        _ => Seq::empty(),
    };
    lemma_field_index(fields, key);
    lemma_field_index(fields, other);
    let updated = match field_index(fields, key) {
        Some(i) => fields.update(i, (key, value)),
        None => fields.push((key, value)),
    };
    match field_index(fields, key) {
        Some(i) => {
            lemma_field_index_is(updated, key, i);
            if other != key {
                match field_index(fields, other) {
                    Some(j) => lemma_field_index_is(updated, other, j),
                    None => lemma_field_index_is(updated, other, updated.len() as int),
                }
            }
        },
        None => {
            lemma_field_index_is(updated, key, fields.len() as int);
            if other != key {
                match field_index(fields, other) {
                    Some(j) => lemma_field_index_is(updated, other, j),
                    None => lemma_field_index_is(updated, other, updated.len() as int),
                }
            }
        },
    }
}

// ---------------------------------------------------------------------------
// Reading a document

impl Json {
    /// `Value::get(key)`.
    pub fn get(&self, key: &str) -> (r: Option<&Json>)
        ensures
            r matches Some(x) ==> get_v(self@, key@) == Some(x@),
            r is None ==> get_v(self@, key@) is None,
    {
        broadcast use group_json_view;

        match self {
            Json::Object(fields) => {
                proof {
                    lemma_view_obj(fields@);
                }
                let mut i: usize = 0;
                while i < fields.len()
                    invariant
                        i <= fields.len(),
                        view_obj(fields@).len() == fields@.len(),
                        forall|j: int|
                            0 <= j < fields@.len() ==> #[trigger] view_obj(fields@)[j] == (
                                fields@[j].0@,
                                fields@[j].1.view_rec(),
                            ),
                        self@ == JsonV::Object(view_obj(fields@)),
                        forall|j: int| 0 <= j < i ==> view_obj(fields@)[j].0 != key@,
                    decreases fields.len() - i,
                {
                    if str_eq(fields[i].0.as_str(), key) {
                        proof {
                            lemma_field_index_is(view_obj(fields@), key@, i as int);
                        }
                        return Some(&fields[i].1);
                    }
                    i = i + 1;
                }
                proof {
                    lemma_field_index_is(view_obj(fields@), key@, i as int);
                }
                None
            },
            _ => None,
        }
    }

    /// `Value::as_str`.
    pub fn as_str(&self) -> (r: Option<&str>)
        ensures
            r matches Some(s) ==> str_v(self@) == Some(s@),
            r is None ==> str_v(self@) is None,
    {
        match self {
            Json::Str(s) => Some(s.as_str()),
            _ => None,
        }
    }

    /// `Value::as_bool`.
    pub fn as_bool(&self) -> (r: Option<bool>)
        ensures
            r == bool_v(self@),
    {
        match self {
            Json::Bool(b) => Some(*b),
            _ => None,
        }
    }

    /// `Value::as_u64`.
    pub fn as_u64(&self) -> (r: Option<u64>)
        ensures
            r == u64_v(self@),
    {
        match self {
            Json::UInt(n) => Some(*n),
            _ => None,
        }
    }

    /// `Value::as_i64`.
    pub fn as_i64(&self) -> (r: Option<i64>)
        ensures
            r == i64_v(self@),
    {
        match self {
            Json::UInt(n) => if *n <= 0x7fff_ffff_ffff_ffffu64 {
                Some(*n as i64)
            } else {
                None
            },
            Json::NegInt(n) => Some(*n),
            _ => None,
        }
    }

    /// `Value::as_array`.
    pub fn as_array(&self) -> (r: Option<&Vec<Json>>)
        ensures
            r matches Some(items) ==> array_v(self@) == Some(view_arr(items@)),
            r is None ==> array_v(self@) is None,
    {
        match self {
            Json::Array(items) => Some(items),
            _ => None,
        }
    }

    /// `Value::is_object`.
    pub fn is_object(&self) -> (r: bool)
        ensures
            r == is_object_v(self@),
    {
        match self {
            Json::Object(_) => true,
            _ => false,
        }
    }

    /// `Value::is_null`.
    pub fn is_null(&self) -> (r: bool)
        ensures
            r == (self@ is Null),
    {
        match self {
            Json::Null => true,
            _ => false,
        }
    }

    /// `value.get(key).and_then(Value::as_str)`.
    pub fn get_str(&self, key: &str) -> (r: Option<&str>)
        ensures
            r matches Some(s) ==> get_str_v(self@, key@) == Some(s@),
            r is None ==> get_str_v(self@, key@) is None,
    {
        match self.get(key) {
            Some(x) => x.as_str(),
            None => None,
        }
    }

    /// `value.get(key).and_then(Value::as_bool)`.
    pub fn get_bool(&self, key: &str) -> (r: Option<bool>)
        ensures
            r == get_bool_v(self@, key@),
    {
        match self.get(key) {
            Some(x) => x.as_bool(),
            None => None,
        }
    }

    /// `value.get(key).and_then(Value::as_u64)`.
    pub fn get_u64(&self, key: &str) -> (r: Option<u64>)
        ensures
            r == get_u64_v(self@, key@),
    {
        match self.get(key) {
            Some(x) => x.as_u64(),
            None => None,
        }
    }

    /// The array under `key`, or an empty slice when absent.
    pub fn get_items(&self, key: &str) -> (r: &[Json])
        ensures
            view_arr(r@) == get_items_v(self@, key@),
    {
        match self.get(key) {
            Some(Json::Array(items)) => items.as_slice(),
            _ => {
                proof {
                    broadcast use group_json_view;

                    let e: Seq<Json> = Seq::empty();
                    assert(view_arr(e) =~= Seq::<JsonV>::empty());
                }
                &[]
            },
        }
    }

    /// A deep copy.
    pub fn duplicate(&self) -> (r: Json)
        ensures
            r@ == self@,
        decreases self,
    {
        match self {
            Json::Null => Json::Null,
            Json::Bool(b) => Json::Bool(*b),
            Json::UInt(n) => Json::UInt(*n),
            Json::NegInt(n) => Json::NegInt(*n),
            Json::Float(s) => Json::Float(s.clone()),
            Json::Str(s) => Json::Str(s.clone()),
            Json::Array(items) => Json::Array(duplicate_items(items)),
            Json::Object(fields) => Json::Object(duplicate_fields(fields)),
        }
    }

    /// Whether two documents are the same, value for value and field for
    /// field in order.
    pub fn same_as(&self, other: &Json) -> (r: bool)
        ensures
            r == (self@ == other@),
        decreases self,
    {
        match (self, other) {
            (Json::Null, Json::Null) => true,
            (Json::Bool(a), Json::Bool(b)) => *a == *b,
            (Json::UInt(a), Json::UInt(b)) => *a == *b,
            (Json::NegInt(a), Json::NegInt(b)) => *a == *b,
            (Json::Float(a), Json::Float(b)) => str_eq(a.as_str(), b.as_str()),
            (Json::Str(a), Json::Str(b)) => str_eq(a.as_str(), b.as_str()),
            (Json::Array(a), Json::Array(b)) => same_items(a, b),
            (Json::Object(a), Json::Object(b)) => same_fields(a, b),
            _ => false,
        }
    }

    // -----------------------------------------------------------------------
    // Editing a document

    /// `document[key] = value`.
    pub fn set(&mut self, key: &str, value: Json)
        requires
            settable_v(old(self)@),
        ensures
            final(self)@ == set_v(old(self)@, key@, value@),
    {
        broadcast use group_json_view;

        if let Json::Null = self {
            *self = Json::Object(Vec::new());
            assert(view_obj(Seq::<(String, Json)>::empty()) =~= Seq::empty());
        }
        let ghost before = self@;
        match self {
            Json::Object(fields) => {
                let position = field_position(fields, key);
                let ghost fv = view_obj(fields@);
                let ghost old_fields = fields@;
                let name = String::from_str(key);
                proof {
                    lemma_view_obj(fields@);
                    lemma_field_index(fv, key@);
                }
                match position {
                    Some(i) => {
                        fields.set(i, (name, value));
                        proof {
                            lemma_view_obj(fields@);
                            lemma_view_obj(old_fields);
                        }
                        assert(view_obj(fields@) =~= fv.update(i as int, (key@, value@)));
                    },
                    None => {
                        fields.push((name, value));
                        proof {
                            lemma_view_obj(fields@);
                            lemma_view_obj(old_fields);
                        }
                        assert(view_obj(fields@) =~= fv.push((key@, value@)));
                    },
                }
            },
            _ => {},
        }
    }
}

impl Json {
    /// `map.remove(key)` on an object; other documents are left as they are.
    pub fn remove(&mut self, key: &str)
        ensures
            final(self)@ == remove_v(old(self)@, key@),
    {
        broadcast use group_json_view;

        match self {
            Json::Object(fields) => {
                let ghost old_fields = fields@;
                proof {
                    lemma_view_obj(fields@);
                }
                proof {
                    lemma_field_index(view_obj(fields@), key@);
                }
                match field_position(fields, key) {
                    Some(i) => {
                        fields.remove(i);
                        proof {
                            lemma_view_obj(fields@);
                            lemma_view_obj(old_fields);
                        }
                        assert(fields@ =~= old_fields.remove(i as int));
                        assert forall|m: int| 0 <= m < fields@.len() implies view_obj(fields@)[m]
                            == view_obj(old_fields).remove(i as int)[m] by {
                            if m < i {
                                assert(fields@[m] == old_fields[m]);
                            } else {
                                assert(fields@[m] == old_fields[m + 1]);
                            }
                        }
                        assert(view_obj(fields@) =~= view_obj(old_fields).remove(i as int));
                    },
                    None => {},
                }
            },
            _ => {},
        }
    }
}

/// The index of the first field named `key`.
pub fn field_position(fields: &Vec<(String, Json)>, key: &str) -> (r: Option<usize>)
    ensures
        r matches Some(i) ==> field_index(view_obj(fields@), key@) == Some(i as int),
        r is None ==> field_index(view_obj(fields@), key@) is None,
{
    proof {
        lemma_view_obj(fields@);
    }
    let mut i: usize = 0;
    while i < fields.len()
        invariant
            i <= fields.len(),
            view_obj(fields@).len() == fields@.len(),
            forall|j: int|
                0 <= j < fields@.len() ==> #[trigger] view_obj(fields@)[j] == (
                    fields@[j].0@,
                    fields@[j].1.view_rec(),
                ),
            forall|j: int| 0 <= j < i ==> view_obj(fields@)[j].0 != key@,
        decreases fields.len() - i,
    {
        if str_eq(fields[i].0.as_str(), key) {
            proof {
                lemma_field_index_is(view_obj(fields@), key@, i as int);
            }
            return Some(i);
        }
        i = i + 1;
    }
    proof {
        lemma_field_index_is(view_obj(fields@), key@, i as int);
    }
    None
}

fn duplicate_items(items: &Vec<Json>) -> (r: Vec<Json>)
    ensures
        view_arr(r@) == view_arr(items@),
    decreases items,
{
    broadcast use group_json_view;

    let mut out: Vec<Json> = Vec::new();
    let mut i: usize = 0;
    while i < items.len()
        invariant
            i <= items.len(),
            out@.len() == i,
            forall|j: int| 0 <= j < i ==> out@[j]@ == items@[j]@,
        decreases items.len() - i,
    {
        proof {
            broadcast use vstd::std_specs::vec::axiom_vec_index_decreases;

            assert(decreases_to!(*items => items[i as int]));
        }
        out.push(items[i].duplicate());
        i = i + 1;
    }
    proof {
        lemma_view_arr(out@);
        lemma_view_arr(items@);
    }
    assert(view_arr(out@) =~= view_arr(items@));
    out
}

fn duplicate_fields(fields: &Vec<(String, Json)>) -> (r: Vec<(String, Json)>)
    ensures
        view_obj(r@) == view_obj(fields@),
    decreases fields,
{
    broadcast use group_json_view;

    let mut out: Vec<(String, Json)> = Vec::new();
    let mut i: usize = 0;
    while i < fields.len()
        invariant
            i <= fields.len(),
            out@.len() == i,
            forall|j: int|
                0 <= j < i ==> out@[j].0@ == fields@[j].0@ && out@[j].1@ == fields@[j].1@,
        decreases fields.len() - i,
    {
        proof {
            broadcast use vstd::std_specs::vec::axiom_vec_index_decreases;

            assert(decreases_to!(*fields => fields[i as int]));
            assert(decreases_to!(*fields => fields[i as int].1));
        }
        let k = fields[i].0.clone();
        let v = fields[i].1.duplicate();
        out.push((k, v));
        i = i + 1;
    }
    proof {
        lemma_view_obj(out@);
        lemma_view_obj(fields@);
    }
    assert(view_obj(out@) =~= view_obj(fields@));
    out
}

fn same_items(a: &Vec<Json>, b: &Vec<Json>) -> (r: bool)
    ensures
        r == (view_arr(a@) == view_arr(b@)),
    decreases a,
{
    broadcast use group_json_view;

    if a.len() != b.len() {
        assert(view_arr(a@).len() != view_arr(b@).len());
        return false;
    }
    let mut i: usize = 0;
    while i < a.len()
        invariant
            i <= a.len() == b.len(),
            forall|j: int| 0 <= j < i ==> a@[j]@ == b@[j]@,
        decreases a.len() - i,
    {
        proof {
            broadcast use vstd::std_specs::vec::axiom_vec_index_decreases;

            assert(decreases_to!(*a => a[i as int]));
        }
        if !a[i].same_as(&b[i]) {
            proof {
                lemma_view_arr(a@);
                lemma_view_arr(b@);
            }
            assert(view_arr(a@)[i as int] != view_arr(b@)[i as int]);
            return false;
        }
        i = i + 1;
    }
    assert(view_arr(a@) =~= view_arr(b@));
    true
}

fn same_fields(a: &Vec<(String, Json)>, b: &Vec<(String, Json)>) -> (r: bool)
    ensures
        r == (view_obj(a@) == view_obj(b@)),
    decreases a,
{
    broadcast use group_json_view;

    if a.len() != b.len() {
        assert(view_obj(a@).len() != view_obj(b@).len());
        return false;
    }
    let mut i: usize = 0;
    while i < a.len()
        invariant
            i <= a.len() == b.len(),
            forall|j: int| 0 <= j < i ==> a@[j].0@ == b@[j].0@ && a@[j].1@ == b@[j].1@,
        decreases a.len() - i,
    {
        proof {
            broadcast use vstd::std_specs::vec::axiom_vec_index_decreases;

            assert(decreases_to!(*a => a[i as int]));
            assert(decreases_to!(*a => a[i as int].1));
        }
        if !str_eq(a[i].0.as_str(), b[i].0.as_str()) || !a[i].1.same_as(&b[i].1) {
            proof {
                lemma_view_obj(a@);
                lemma_view_obj(b@);
            }
            assert(view_obj(a@)[i as int] != view_obj(b@)[i as int]);
            return false;
        }
        i = i + 1;
    }
    assert(view_obj(a@) =~= view_obj(b@));
    true
}

/// An empty object.
pub fn empty_object() -> (r: Json)
    ensures
        r@ == JsonV::Object(Seq::empty()),
{
    broadcast use group_json_view;

    let r = Json::Object(Vec::new());
    assert(view_obj(Seq::<(String, Json)>::empty()) =~= Seq::empty());
    r
}

/// A string document from a slice.
pub fn jstr(s: &str) -> (r: Json)
    ensures
        r@ == JsonV::Str(s@),
{
    Json::Str(String::from_str(s))
}

/// A string document, or `null`.
pub fn jopt_str(s: Option<&str>) -> (r: Json)
    ensures
        r@ == opt_str_v(match s {
            Some(x) => Some(x@),
            None => None,
        }),
{
    match s {
        Some(x) => jstr(x),
        None => Json::Null,
    }
}

/// An array of strings.
pub fn jstrs(items: &[&str]) -> (r: Json)
    ensures
        r@ == strs_v(items@.map_values(|x: &str| x@)),
{
    broadcast use group_json_view;

    let mut out: Vec<Json> = Vec::new();
    let mut i: usize = 0;
    while i < items.len()
        invariant
            i <= items.len(),
            out@.len() == i,
            forall|j: int| 0 <= j < i ==> out@[j]@ == JsonV::Str(items@[j]@),
        decreases items.len() - i,
    {
        out.push(jstr(items[i]));
        i = i + 1;
    }
    assert(view_arr(out@) =~= items@.map_values(|x: &str| x@).map_values(
        |x: Seq<char>| JsonV::Str(x),
    ));
    Json::Array(out)
}

/// A two-field object.
pub fn jobj2(k1: &str, v1: Json, k2: &str, v2: Json) -> (r: Json)
    ensures
        r@ == obj2(k1@, v1@, k2@, v2@),
{
    broadcast use group_json_view;

    let mut fields: Vec<(String, Json)> = Vec::new();
    fields.push((String::from_str(k1), v1));
    fields.push((String::from_str(k2), v2));
    let r = Json::Object(fields);
    assert(view_obj(fields@) =~= seq![(k1@, v1@), (k2@, v2@)]);
    r
}

/// A three-field object.
pub fn jobj3(k1: &str, v1: Json, k2: &str, v2: Json, k3: &str, v3: Json) -> (r: Json)
    ensures
        r@ == obj3(k1@, v1@, k2@, v2@, k3@, v3@),
{
    broadcast use group_json_view;

    let mut fields: Vec<(String, Json)> = Vec::new();
    fields.push((String::from_str(k1), v1));
    fields.push((String::from_str(k2), v2));
    fields.push((String::from_str(k3), v3));
    let r = Json::Object(fields);
    assert(view_obj(fields@) =~= seq![(k1@, v1@), (k2@, v2@), (k3@, v3@)]);
    r
}

/// Append a field to an object's fields.
pub fn push_field(fields: &mut Vec<(String, Json)>, name: &str, value: Json)
    ensures
        view_obj(final(fields)@) == view_obj(old(fields)@).push((name@, value@)),
{
    broadcast use group_json_view;

    let ghost before = fields@;
    let ghost vv = value@;
    fields.push((String::from_str(name), value));
    proof {
        lemma_view_obj(fields@);
        lemma_view_obj(before);
    }
    assert(view_obj(fields@) =~= view_obj(before).push((name@, vv)));
}

/// An object from its fields, in order.
pub fn jobj(fields: Vec<(String, Json)>) -> (r: Json)
    ensures
        r@ == JsonV::Object(view_obj(fields@)),
{
    Json::Object(fields)
}

} // verus!

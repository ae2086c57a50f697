//! Reading a JSON value as a typed record the way serde's derived readers
//! do: from an object by field name, or from an array by position, with
//! optional and defaulted fields, and unknown fields denied where the type
//! says so.
use vstd::prelude::*;
use crate::json::{get_v, group_json_view, view_arr, view_obj, Json, JsonV};
use crate::text::str_eq;

verus! {

/// The JSON shapes a field's type accepts.
#[derive(PartialEq, Eq, Structural, Clone, Copy)]
pub enum FieldKind {
    /// `String`.
    Str,
    /// `Option<String>`: `null` or a string.
    OptStr,
    /// `bool`.
    Bool,
    /// `u32`.
    U32,
    /// `u64`.
    U64,
    /// `Vec<String>`.
    StrList,
    /// `BTreeMap<String, String>`.
    StrMap,
}

/// The fields of a typed record: each one's name, its type, and whether a
/// missing field takes its default.
pub open spec fn field_views(fields: Seq<(&'static str, FieldKind, bool)>) -> Seq<
    (Seq<char>, FieldKind, bool),
> {
    fields.map_values(|f: (&'static str, FieldKind, bool)| (f.0@, f.1, f.2))
}

pub open spec fn all_str(items: Seq<JsonV>) -> bool {
    forall|i: int| 0 <= i < items.len() ==> #[trigger] items[i] is Str
}

pub open spec fn all_str_values(fields: Seq<(Seq<char>, JsonV)>) -> bool {
    forall|i: int| 0 <= i < fields.len() ==> #[trigger] fields[i].1 is Str
}

/// Whether a value has the shape of a field's type.
pub open spec fn kind_ok(kind: FieldKind, v: JsonV) -> bool {
    match kind {
        FieldKind::Str => v is Str,
        FieldKind::OptStr => v is Null || v is Str,
        FieldKind::Bool => v is Bool,
        FieldKind::U32 => match v {
            JsonV::UInt(n) => n <= u32::MAX,
            _ => false,
        },
        FieldKind::U64 => v is UInt,
        FieldKind::StrList => match v {
            JsonV::Array(items) => all_str(items),
            _ => false,
        },
        FieldKind::StrMap => match v {
            JsonV::Object(fields) => all_str_values(fields),
            _ => false,
        },
    }
}

/// The value a missing field takes.
pub open spec fn default_of(kind: FieldKind) -> JsonV {
    match kind {
        FieldKind::StrList => JsonV::Array(Seq::empty()),
        FieldKind::StrMap => JsonV::Object(Seq::empty()),
        _ => JsonV::Null,
    }
}

/// Whether a field may be missing from an object: it has a default, or it
/// is optional.
pub open spec fn may_be_absent(kind: FieldKind, default: bool) -> bool {
    default || kind == FieldKind::OptStr
}

/// Whether the `j`-th field is read well from an array of `items`: its
/// element has the field's shape, or the field is missing and defaulted.
pub open spec fn position_ok(fields: Seq<(Seq<char>, FieldKind, bool)>, items: Seq<JsonV>, j: int) -> bool {
    if j < items.len() {
        kind_ok(fields[j].1, items[j])
    } else {
        fields[j].2
    }
}

pub open spec fn names_of(fields: Seq<(Seq<char>, FieldKind, bool)>) -> Seq<Seq<char>> {
    fields.map_values(|f: (Seq<char>, FieldKind, bool)| f.0)
}

/// The field values of a typed record read from `v`, missing fields at
/// their defaults; `None` when serde's derived reader refuses `v`.
pub open spec fn read_struct(v: JsonV, fields: Seq<(Seq<char>, FieldKind, bool)>, deny_unknown: bool) -> Option<
    Seq<JsonV>,
> {
    match v {
        JsonV::Object(fs) => if (deny_unknown ==> forall|i: int|
            0 <= i < fs.len() ==> names_of(fields).contains(#[trigger] fs[i].0)) && (forall|j: int|
            0 <= j < fields.len() ==> match get_v(v, #[trigger] fields[j].0) {
                Some(x) => kind_ok(fields[j].1, x),
                None => may_be_absent(fields[j].1, fields[j].2),
            }) {
            Some(
                Seq::new(
                    fields.len(),
                    |j: int|
                        match get_v(v, fields[j].0) {
                            Some(x) => x,
                            None => default_of(fields[j].1),
                        },
                ),
            )
        } else {
            None
        },
        JsonV::Array(items) => if items.len() <= fields.len() && (forall|j: int|
            0 <= j < fields.len() ==> #[trigger] position_ok(fields, items, j)) {
            Some(
                Seq::new(
                    fields.len(),
                    |j: int|
                        if j < items.len() {
                            items[j]
                        } else {
                            default_of(fields[j].1)
                        },
                ),
            )
        } else {
            None
        },
        _ => None,
    }
}

fn default_value(kind: FieldKind) -> (r: Json)
    ensures
        r@ == default_of(kind),
{
    broadcast use group_json_view;

    match kind {
        FieldKind::StrList => {
            let v: Vec<Json> = Vec::new();
            proof {
                crate::json::lemma_view_arr(v@);
            }
            Json::Array(v)
        },
        FieldKind::StrMap => {
            let v: Vec<(String, Json)> = Vec::new();
            proof {
                crate::json::lemma_view_obj(v@);
            }
            Json::Object(v)
        },
        _ => Json::Null,
    }
}

/// Whether a value has the shape of a field's type.
#[verifier::loop_isolation(false)]
pub fn kind_ok_exec(kind: FieldKind, v: &Json) -> (r: bool)
    ensures
        r == kind_ok(kind, v@),
{
    broadcast use group_json_view;

    match kind {
        FieldKind::Str => matches!(v, Json::Str(_)),
        FieldKind::OptStr => matches!(v, Json::Null) || matches!(v, Json::Str(_)),
        FieldKind::Bool => matches!(v, Json::Bool(_)),
        FieldKind::U32 => match v {
            Json::UInt(n) => *n <= 0xffff_ffffu64,
            _ => false,
        },
        FieldKind::U64 => matches!(v, Json::UInt(_)),
        FieldKind::StrList => match v {
            Json::Array(items) => {
                proof {
                    crate::json::lemma_view_arr(items@);
                }
                let mut i: usize = 0;
                while i < items.len()
                    invariant
                        i <= items@.len(),
                        view_arr(items@).len() == items@.len(),
                        forall|j: int| 0 <= j < items@.len() ==> #[trigger] view_arr(items@)[j] == items@[j]@,
                        forall|j: int| 0 <= j < i ==> #[trigger] view_arr(items@)[j] is Str,
                    decreases items.len() - i,
                {
                    if !matches!(&items[i], Json::Str(_)) {
                        assert(!(view_arr(items@)[i as int] is Str));
                        return false;
                    }
                    i = i + 1;
                }
                true
            },
            _ => false,
        },
        FieldKind::StrMap => match v {
            Json::Object(fields) => {
                proof {
                    crate::json::lemma_view_obj(fields@);
                }
                let mut i: usize = 0;
                while i < fields.len()
                    invariant
                        i <= fields@.len(),
                        view_obj(fields@).len() == fields@.len(),
                        forall|j: int|
                            0 <= j < fields@.len() ==> #[trigger] view_obj(fields@)[j] == (
                                fields@[j].0@,
                                fields@[j].1@,
                            ),
                        forall|j: int| 0 <= j < i ==> #[trigger] view_obj(fields@)[j].1 is Str,
                    decreases fields.len() - i,
                {
                    if !matches!(&fields[i].1, Json::Str(_)) {
                        assert(!(view_obj(fields@)[i as int].1 is Str));
                        return false;
                    }
                    i = i + 1;
                }
                true
            },
            _ => false,
        },
    }
}

fn listed(fields: &[(&'static str, FieldKind, bool)], name: &str) -> (r: bool)
    ensures
        r == names_of(field_views(fields@)).contains(name@),
{
    let ghost nv = names_of(field_views(fields@));
    let mut i: usize = 0;
    while i < fields.len()
        invariant
            i <= fields@.len(),
            nv == names_of(field_views(fields@)),
            nv.len() == fields@.len(),
            forall|j: int| 0 <= j < fields@.len() ==> #[trigger] nv[j] == fields@[j].0@,
            forall|j: int| 0 <= j < i ==> nv[j] != name@,
        decreases fields.len() - i,
    {
        if str_eq(fields[i].0, name) {
            assert(nv[i as int] == name@);
            return true;
        }
        i = i + 1;
    }
    false
}

/// Read a typed record from `v` as serde's derived reader does.
#[verifier::loop_isolation(false)]
pub fn read_struct_exec(v: &Json, fields: &[(&'static str, FieldKind, bool)], deny_unknown: bool) -> (r: Option<Vec<Json>>)
    ensures
        match r {
            Some(vals) => read_struct(v@, field_views(fields@), deny_unknown) == Some(view_arr(vals@)),
            None => read_struct(v@, field_views(fields@), deny_unknown) is None,
        },
{
    broadcast use group_json_view;

    let ghost fv = field_views(fields@);
    match v {
        Json::Object(fs) => {
            proof {
                crate::json::lemma_view_obj(fs@);
            }
            let ghost ov = view_obj(fs@);
            if deny_unknown {
                let mut i: usize = 0;
                while i < fs.len()
                    invariant
                        i <= fs@.len(),
                        ov == view_obj(fs@),
                        ov.len() == fs@.len(),
                        fv == field_views(fields@),
                        forall|j: int| 0 <= j < fs@.len() ==> #[trigger] ov[j] == (fs@[j].0@, fs@[j].1@),
                        forall|j: int| 0 <= j < i ==> names_of(fv).contains(#[trigger] ov[j].0),
                    decreases fs.len() - i,
                {
                    assert(ov[i as int].0 == fs@[i as int].0@);
                    if !listed(fields, fs[i].0.as_str()) {
                        assert(!names_of(fv).contains(ov[i as int].0));
                        return None;
                    }
                    i = i + 1;
                }
            }
            let mut out: Vec<Json> = Vec::new();
            let mut k: usize = 0;
            while k < fields.len()
                invariant
                    k <= fields@.len(),
                    fv == field_views(fields@),
                    fv.len() == fields@.len(),
                    forall|j: int| 0 <= j < fields@.len() ==> #[trigger] fv[j] == (
                        fields@[j].0@,
                        fields@[j].1,
                        fields@[j].2,
                    ),
                    v@ == JsonV::Object(ov),
                    view_arr(out@).len() == k,
                    forall|j: int|
                        0 <= j < k ==> match get_v(v@, #[trigger] fv[j].0) {
                            Some(x) => kind_ok(fv[j].1, x),
                            None => may_be_absent(fv[j].1, fv[j].2),
                        },
                    forall|j: int|
                        0 <= j < k ==> #[trigger] view_arr(out@)[j] == match get_v(v@, fv[j].0) {
                            Some(x) => x,
                            None => default_of(fv[j].1),
                        },
                decreases fields.len() - k,
            {
                let f = fields[k];
                assert(fv[k as int] == (f.0@, f.1, f.2));
                let ghost before = out@;
                match v.get(f.0) {
                    Some(x) => {
                        if !kind_ok_exec(f.1, x) {
                            assert(!(match get_v(v@, fv[k as int].0) {
                                Some(y) => kind_ok(fv[k as int].1, y),
                                None => may_be_absent(fv[k as int].1, fv[k as int].2),
                            }));
                            return None;
                        }
                        out.push(x.duplicate());
                    },
                    None => {
                        if !(f.2 || f.1 == FieldKind::OptStr) {
                            assert(!(match get_v(v@, fv[k as int].0) {
                                Some(y) => kind_ok(fv[k as int].1, y),
                                None => may_be_absent(fv[k as int].1, fv[k as int].2),
                            }));
                            return None;
                        }
                        out.push(default_value(f.1));
                    },
                }
                proof {
                    crate::json::lemma_view_arr(out@);
                    crate::json::lemma_view_arr(before);
                    assert(view_arr(out@) == view_arr(before).push(out@.last()@));
                }
                k = k + 1;
            }
            proof {
                crate::json::lemma_view_arr(out@);
                assert(view_arr(out@) =~= Seq::new(
                    fv.len(),
                    |j: int|
                        match get_v(v@, fv[j].0) {
                            Some(x) => x,
                            None => default_of(fv[j].1),
                        },
                ));
                assert(deny_unknown ==> forall|i: int|
                    0 <= i < ov.len() ==> names_of(fv).contains(#[trigger] ov[i].0));
                assert(forall|j: int|
                    0 <= j < fv.len() ==> match get_v(v@, #[trigger] fv[j].0) {
                        Some(x) => kind_ok(fv[j].1, x),
                        None => may_be_absent(fv[j].1, fv[j].2),
                    });
                assert(v@ == JsonV::Object(ov));
                assert(read_struct(v@, fv, deny_unknown) == Some(view_arr(out@)));
            }
            Some(out)
        },
        Json::Array(items) => {
            proof {
                crate::json::lemma_view_arr(items@);
            }
            let ghost iv = view_arr(items@);
            if items.len() > fields.len() {
                return None;
            }
            let mut out: Vec<Json> = Vec::new();
            let mut k: usize = 0;
            while k < fields.len()
                invariant
                    k <= fields@.len(),
                    items@.len() <= fields@.len(),
                    fv == field_views(fields@),
                    fv.len() == fields@.len(),
                    forall|j: int| 0 <= j < fields@.len() ==> #[trigger] fv[j] == (
                        fields@[j].0@,
                        fields@[j].1,
                        fields@[j].2,
                    ),
                    iv == view_arr(items@),
                    iv.len() == items@.len(),
                    forall|j: int| 0 <= j < items@.len() ==> #[trigger] iv[j] == items@[j]@,
                    view_arr(out@).len() == k,
                    forall|j: int| 0 <= j < k ==> #[trigger] position_ok(fv, iv, j),
                    forall|j: int|
                        0 <= j < k ==> #[trigger] view_arr(out@)[j] == if j < iv.len() {
                            iv[j]
                        } else {
                            default_of(fv[j].1)
                        },
                decreases fields.len() - k,
            {
                let f = fields[k];
                assert(fv[k as int] == (f.0@, f.1, f.2));
                let ghost before = out@;
                if k < items.len() {
                    if !kind_ok_exec(f.1, &items[k]) {
                        assert(!position_ok(fv, iv, k as int));
                        return None;
                    }
                    out.push(items[k].duplicate());
                    assert(position_ok(fv, iv, k as int));
                } else {
                    if !f.2 {
                        assert(!position_ok(fv, iv, k as int));
                        return None;
                    }
                    out.push(default_value(f.1));
                    assert(position_ok(fv, iv, k as int));
                }
                proof {
                    crate::json::lemma_view_arr(out@);
                    crate::json::lemma_view_arr(before);
                    assert(view_arr(out@) == view_arr(before).push(out@.last()@));
                }
                k = k + 1;
            }
            proof {
                crate::json::lemma_view_arr(out@);
                assert(view_arr(out@) =~= Seq::new(
                    fv.len(),
                    |j: int|
                        if j < iv.len() {
                            iv[j]
                        } else {
                            default_of(fv[j].1)
                        },
                ));
                assert(v@ == JsonV::Array(iv));
                assert(k == fv.len());
                assert(iv.len() <= fv.len());
                assert(read_struct(v@, fv, deny_unknown) is Some);
                assert(read_struct(v@, fv, deny_unknown).unwrap() =~= view_arr(out@));
            }
            Some(out)
        },
        _ => None,
    }
}

/// Fields that take a default are optional strings, lists or maps, whose
/// defaults have their shapes.
pub open spec fn defaults_sound(fields: Seq<(Seq<char>, FieldKind, bool)>) -> bool {
    forall|j: int|
        0 <= j < fields.len() && #[trigger] fields[j].2 ==> (fields[j].1 == FieldKind::OptStr
            || fields[j].1 == FieldKind::StrList || fields[j].1 == FieldKind::StrMap)
}

/// What a read record holds has the shapes of its fields' types.
pub proof fn lemma_read_struct_kinds(v: JsonV, fields: Seq<(Seq<char>, FieldKind, bool)>, deny_unknown: bool)
    requires
        read_struct(v, fields, deny_unknown) is Some,
        defaults_sound(fields),
    ensures
        read_struct(v, fields, deny_unknown).unwrap().len() == fields.len(),
        forall|j: int|
            0 <= j < fields.len() ==> kind_ok(
                fields[j].1,
                #[trigger] read_struct(v, fields, deny_unknown).unwrap()[j],
            ),
{
    let vals = read_struct(v, fields, deny_unknown).unwrap();
    assert forall|j: int| 0 <= j < fields.len() implies kind_ok(fields[j].1, #[trigger] vals[j]) by {
        match v {
            JsonV::Object(_) => {
                match get_v(v, fields[j].0) {
                    Some(x) => {},
                    None => {
                        assert(may_be_absent(fields[j].1, fields[j].2));
                        assert(vals[j] == default_of(fields[j].1));
                        if fields[j].2 {
                            assert(fields[j].1 == FieldKind::OptStr || fields[j].1 == FieldKind::StrList
                                || fields[j].1 == FieldKind::StrMap);
                        }
                    },
                }
            },
            JsonV::Array(items) => {
                assert(position_ok(fields, items, j));
                if j >= items.len() {
                    assert(fields[j].2);
                    assert(vals[j] == default_of(fields[j].1));
                }
            },
            _ => {},
        }
    }
}

} // verus!

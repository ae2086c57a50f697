//! The one JSON document every crawl operation prints: the run's catalogs,
//! narrowed to one record when asked, and how many are in each state.
use vstd::prelude::*;
use crate::json::{
    get_items_v, get_str_v, get_v, group_json_view, set_v, view_arr, view_obj, Json, JsonV,
};
use crate::text::{chars_of, seq_lt, split_once_char, str_eq, string_of};

verus! {

pub const OP_SCHEMA: &'static str = "wisent.crawl-operation.v1";

// ---------------------------------------------------------------------------
// Narrowing to one record

/// Whether a record answers a `--record` filter: its slug, or its slug after
/// the first `-`.
pub open spec fn record_selected(item: JsonV, filter: Seq<char>) -> bool {
    match get_str_v(item, "record"@) {
        Some(v) => v == filter || match split_once_char(v, '-') {
            Some((_, tail)) => tail == filter,
            None => false,
        },
        None => false,
    }
}

pub open spec fn selects(filter: Seq<char>) -> spec_fn(JsonV) -> bool {
    |i: JsonV| record_selected(i, filter)
}

/// A catalog entry with only the records that answer the filter.
pub open spec fn filter_catalog(cat: JsonV, filter: Seq<char>) -> JsonV {
    match get_v(cat, "records"@) {
        Some(JsonV::Array(items)) => set_v(cat, "records"@, JsonV::Array(items.filter(selects(filter)))),
        _ => cat,
    }
}

/// A catalog entry that still lists a record.
pub open spec fn catalog_kept(cat: JsonV) -> bool {
    match get_v(cat, "records"@) {
        Some(JsonV::Array(items)) => items.len() > 0,
        _ => false,
    }
}

/// The catalogs an operation reports.
pub open spec fn reported_catalogs(run: JsonV, filter: Option<Seq<char>>) -> Seq<JsonV> {
    let cats = get_items_v(run, "catalogs"@);
    match filter {
        None => cats,
        Some(f) => cats.map_values(|c: JsonV| filter_catalog(c, f)).filter(
            |c: JsonV| catalog_kept(c),
        ),
    }
}

// ---------------------------------------------------------------------------
// Counting states

/// A state, or `unknown` when there is no state string.
pub open spec fn state_or_unknown(v: JsonV) -> Seq<char> {
    match get_str_v(v, "state"@) {
        Some(s) => s,
        None => "unknown"@,
    }
}

pub open spec fn record_keys(items: Seq<JsonV>) -> Seq<Seq<char>>
    decreases items.len(),
{
    if items.len() == 0 {
        Seq::empty()
    } else {
        record_keys(items.drop_last()).push("record_"@ + state_or_unknown(items.last()))
    }
}

/// What is counted for each catalog, in order: its state, then `record_`
/// and the state of each of its records.
pub open spec fn count_keys(cats: Seq<JsonV>) -> Seq<Seq<char>>
    decreases cats.len(),
{
    if cats.len() == 0 {
        Seq::empty()
    } else {
        let c = cats.last();
        let records = match get_v(c, "records"@) {
            Some(JsonV::Array(items)) => items,
            _ => Seq::empty(),
        };
        count_keys(cats.drop_last()).push(state_or_unknown(c)) + record_keys(records)
    }
}

/// The count fields after counting `k` once more: in `String` order, each
/// name once.
pub open spec fn count_insert(fields: Seq<(Seq<char>, nat)>, k: Seq<char>) -> Seq<(Seq<char>, nat)>
    decreases fields.len(),
{
    if fields.len() == 0 {
        seq![(k, 1nat)]
    } else if fields[0].0 == k {
        seq![(k, fields[0].1 + 1)] + fields.drop_first()
    } else if seq_lt(k, fields[0].0) {
        seq![(k, 1nat)] + fields
    } else {
        seq![fields[0]] + count_insert(fields.drop_first(), k)
    }
}

/// How many times each name occurs, in `String` order (a `BTreeMap` of
/// counts).
pub open spec fn counts_of(keys: Seq<Seq<char>>) -> Seq<(Seq<char>, nat)>
    decreases keys.len(),
{
    if keys.len() == 0 {
        Seq::empty()
    } else {
        count_insert(counts_of(keys.drop_last()), keys.last())
    }
}

pub open spec fn counts_json(c: Seq<(Seq<char>, nat)>) -> Seq<(Seq<char>, JsonV)> {
    c.map_values(|p: (Seq<char>, nat)| (p.0, JsonV::UInt(p.1 as u64)))
}

/// A document field, or `null` when absent.
pub open spec fn field_or_null(v: JsonV, key: Seq<char>) -> JsonV {
    match get_v(v, key) {
        Some(x) => x,
        None => JsonV::Null,
    }
}

/// The document an operation prints.
pub open spec fn operation_document_spec(
    operation: Seq<char>,
    run: JsonV,
    filter: Option<Seq<char>>,
) -> JsonV {
    let cats = reported_catalogs(run, filter);
    JsonV::Object(
        seq![
            ("schema"@, JsonV::Str(OP_SCHEMA@)),
            ("operation"@, JsonV::Str(operation)),
            ("run_id"@, field_or_null(run, "run_id"@)),
            ("state"@, field_or_null(run, "state"@)),
            ("source_revision"@, field_or_null(run, "source_revision"@)),
            ("updated_at"@, field_or_null(run, "updated_at"@)),
            ("counts"@, JsonV::Object(counts_json(counts_of(count_keys(cats))))),
            ("catalogs"@, JsonV::Array(cats)),
        ],
    )
}

// ---------------------------------------------------------------------------
// Executably

fn is_selected(item: &Json, filter: &str) -> (r: bool)
    ensures
        r == record_selected(item@, filter@),
{
    match item.get_str("record") {
        Some(v) => {
            if str_eq(v, filter) {
                return true;
            }
            match crate::text::split_once_char_exec(&chars_of(v), '-') {
                Some((_, tail)) => crate::text::seq_eq(&tail, &chars_of(filter)),
                None => false,
            }
        },
        None => false,
    }
}

fn filter_catalog_exec(cat: &Json, filter: &str) -> (r: Json)
    ensures
        r@ == filter_catalog(cat@, filter@),
{
    broadcast use group_json_view;

    match cat.get("records") {
        Some(Json::Array(items)) => {
            proof {
                crate::json::lemma_view_arr(items@);
            }
            let ghost iv = view_arr(items@);
            let mut kept: Vec<Json> = Vec::new();
            let mut i: usize = 0;
            while i < items.len()
                invariant
                    i <= items@.len(),
                    iv == view_arr(items@),
                    iv.len() == items@.len(),
                    forall|j: int| 0 <= j < items@.len() ==> #[trigger] iv[j] == items@[j]@,
                    view_arr(kept@) == iv.take(i as int).filter(selects(filter@)),
                decreases items.len() - i,
            {
                proof {
                    reveal(Seq::filter);
                    assert(iv.take(i + 1).drop_last() =~= iv.take(i as int));
                    assert(iv.take(i + 1).last() == items@[i as int]@);
                }
                if is_selected(&items[i], filter) {
                    let ghost before = kept@;
                    kept.push(items[i].duplicate());
                    proof {
                        crate::json::lemma_view_arr(kept@);
                        crate::json::lemma_view_arr(before);
                    }
                    assert(view_arr(kept@) =~= view_arr(before).push(iv[i as int]));
                }
                i = i + 1;
            }
            assert(iv.take(items@.len() as int) =~= iv);
            let mut out = cat.duplicate();
            out.set("records", Json::Array(kept));
            out
        },
        _ => cat.duplicate(),
    }
}

fn catalog_kept_exec(cat: &Json) -> (r: bool)
    ensures
        r == catalog_kept(cat@),
{
    broadcast use group_json_view;

    match cat.get("records") {
        Some(Json::Array(items)) => items.len() > 0,
        _ => false,
    }
}

fn reported_catalogs_exec(run: &Json, filter: Option<&str>) -> (r: Vec<Json>)
    ensures
        view_arr(r@) == reported_catalogs(
            run@,
            match filter {
                Some(f) => Some(f@),
                None => None,
            },
        ),
{
    let cats = run.get_items("catalogs");
    proof {
        crate::json::lemma_view_arr(cats@);
    }
    let ghost cv = view_arr(cats@);
    let mut out: Vec<Json> = Vec::new();
    let mut i: usize = 0;
    match filter {
        None => {
            while i < cats.len()
                invariant
                    i <= cats@.len(),
                    cv == view_arr(cats@),
                    cv.len() == cats@.len(),
                    forall|j: int| 0 <= j < cats@.len() ==> #[trigger] cv[j] == cats@[j]@,
                    out@.len() == i,
                    forall|j: int| 0 <= j < i ==> #[trigger] out@[j]@ == cats@[j]@,
                decreases cats.len() - i,
            {
                out.push(cats[i].duplicate());
                i = i + 1;
            }
            proof {
                crate::json::lemma_view_arr(out@);
            }
            assert forall|j: int| 0 <= j < out@.len() implies #[trigger] view_arr(out@)[j] == cv[j] by {
                assert(view_arr(out@)[j] == out@[j]@);
            }
            assert(view_arr(out@) =~= cv);
        },
        Some(f) => {
            let ghost mapped = cv.map_values(|c: JsonV| filter_catalog(c, f@));
            while i < cats.len()
                invariant
                    i <= cats@.len(),
                    cv == view_arr(cats@),
                    cv.len() == cats@.len(),
                    forall|j: int| 0 <= j < cats@.len() ==> #[trigger] cv[j] == cats@[j]@,
                    mapped == cv.map_values(|c: JsonV| filter_catalog(c, f@)),
                    view_arr(out@) == mapped.take(i as int).filter(|c: JsonV| catalog_kept(c)),
                decreases cats.len() - i,
            {
                proof {
                    reveal(Seq::filter);
                    assert(mapped.take(i + 1).drop_last() =~= mapped.take(i as int));
                    assert(mapped.take(i + 1).last() == filter_catalog(cats@[i as int]@, f@));
                }
                let narrowed = filter_catalog_exec(&cats[i], f);
                if catalog_kept_exec(&narrowed) {
                    let ghost before = out@;
                    out.push(narrowed);
                    proof {
                        crate::json::lemma_view_arr(out@);
                        crate::json::lemma_view_arr(before);
                    }
                    assert(view_arr(out@) =~= view_arr(before).push(
                        filter_catalog(cats@[i as int]@, f@),
                    ));
                }
                i = i + 1;
            }
            assert(mapped.take(cats@.len() as int) =~= mapped);
        },
    }
    out
}

fn state_key(v: &Json) -> (r: String)
    ensures
        r@ == state_or_unknown(v@),
{
    match v.get_str("state") {
        Some(s) => String::from_str(s),
        None => String::from_str("unknown"),
    }
}

fn count_insert_exec(fields: &mut Vec<(String, u64)>, k: &str)
    requires
        old(fields)@.len() < usize::MAX,
        forall|j: int| 0 <= j < old(fields)@.len() ==> #[trigger] old(fields)@[j].1 < u64::MAX,
    ensures
        counted(final(fields)@) == count_insert(counted(old(fields)@), k@),
{
    let ghost start = counted(fields@);
    let kv = chars_of(k);
    let mut i: usize = 0;
    assert(start.skip(0) =~= start);
    assert(start.take(0) + count_insert(start, k@) =~= count_insert(start, k@));
    while i < fields.len()
        invariant
            i <= fields@.len(),
            kv@ == k@,
            fields@ == old(fields)@,
            start == counted(fields@),
            forall|j: int| 0 <= j < fields@.len() ==> #[trigger] fields@[j].1 < u64::MAX,
            count_insert(start, k@) == start.take(i as int) + count_insert(start.skip(i as int), k@),
        decreases fields.len() - i,
    {
        let here = chars_of(fields[i].0.as_str());
        let ghost rest = start.skip(i as int);
        assert(rest[0] == start[i as int]);
        if crate::text::seq_eq(&here, &kv) {
            let n = fields[i].1;
            let name = fields[i].0.clone();
            fields.set(i, (name, n + 1));
            assert(counted(fields@) =~= start.take(i as int) + (seq![(k@, start[i as int].1 + 1)]
                + rest.drop_first()));
            return;
        }
        if crate::text::seq_lt_exec(&kv, &here) {
            fields.insert(i, (String::from_str(k), 1));
            assert(counted(fields@) =~= start.take(i as int) + (seq![(k@, 1nat)] + rest));
            return;
        }
        assert(start.take(i + 1) =~= start.take(i as int).push(rest[0]));
        assert(rest.drop_first() =~= start.skip(i + 1));
        assert(start.take(i as int) + (seq![rest[0]] + count_insert(rest.drop_first(), k@)) =~= start.take(
            i + 1,
        ) + count_insert(start.skip(i + 1), k@));
        i = i + 1;
    }
    fields.push((String::from_str(k), 1));
    assert(start.skip(i as int) =~= Seq::<(Seq<char>, nat)>::empty());
    assert(start.take(i as int) =~= start);
    assert(counted(fields@) =~= start + seq![(k@, 1nat)]);
}

pub open spec fn counted(v: Seq<(String, u64)>) -> Seq<(Seq<char>, nat)> {
    v.map_values(|p: (String, u64)| (p.0@, p.1 as nat))
}

/// Every count is at most the number of names counted.
proof fn lemma_count_insert_bounds(fields: Seq<(Seq<char>, nat)>, k: Seq<char>, n: nat)
    requires
        forall|j: int| 0 <= j < fields.len() ==> #[trigger] fields[j].1 <= n,
    ensures
        forall|j: int| 0 <= j < count_insert(fields, k).len() ==> #[trigger] count_insert(
            fields,
            k,
        )[j].1 <= n + 1,
        count_insert(fields, k).len() <= fields.len() + 1,
    decreases fields.len(),
{
    if fields.len() > 0 && fields[0].0 != k && !seq_lt(k, fields[0].0) {
        lemma_count_insert_bounds(fields.drop_first(), k, n);
        let t = count_insert(fields.drop_first(), k);
        assert forall|j: int| 0 <= j < count_insert(fields, k).len() implies #[trigger] count_insert(
            fields,
            k,
        )[j].1 <= n + 1 by {
            if j > 0 {
                assert(count_insert(fields, k)[j] == t[j - 1]);
            }
        }
    }
}

fn count_all(keys: &Vec<String>) -> (r: Vec<(String, u64)>)
    ensures
        counted(r@) == counts_of(crate::text::string_views(keys@)),
{
    let ghost kv = crate::text::string_views(keys@);
    let mut fields: Vec<(String, u64)> = Vec::new();
    let mut i: usize = 0;
    while i < keys.len()
        invariant
            i <= keys@.len(),
            kv == crate::text::string_views(keys@),
            counted(fields@) == counts_of(kv.take(i as int)),
            fields@.len() <= i,
            forall|j: int| 0 <= j < fields@.len() ==> #[trigger] fields@[j].1 <= i,
        decreases keys.len() - i,
    {
        assert(kv.take(i + 1).drop_last() =~= kv.take(i as int));
        assert(kv.take(i + 1).last() == keys@[i as int]@);
        proof {
            let c = counted(fields@);
            assert forall|j: int| 0 <= j < c.len() implies #[trigger] c[j].1 <= i by {
                assert(c[j].1 == fields@[j].1);
            }
            lemma_count_insert_bounds(c, keys@[i as int]@, i as nat);
        }
        let n = keys.len();
        count_insert_exec(&mut fields, keys[i].as_str());
        proof {
            let c = counted(fields@);
            assert forall|j: int| 0 <= j < fields@.len() implies #[trigger] fields@[j].1 <= i + 1 by {
                assert(c[j].1 == fields@[j].1);
            }
        }
        i = i + 1;
    }
    assert(kv.take(keys@.len() as int) =~= kv);
    fields
}

fn count_keys_exec(cats: &Vec<Json>) -> (r: Vec<String>)
    ensures
        crate::text::string_views(r@) == count_keys(view_arr(cats@)),
{
    broadcast use group_json_view;

    proof {
        crate::json::lemma_view_arr(cats@);
    }
    let ghost cv = view_arr(cats@);
    let mut keys: Vec<String> = Vec::new();
    let mut i: usize = 0;
    while i < cats.len()
        invariant
            i <= cats@.len(),
            cv == view_arr(cats@),
            cv.len() == cats@.len(),
            forall|j: int| 0 <= j < cats@.len() ==> #[trigger] cv[j] == cats@[j]@,
            crate::text::string_views(keys@) == count_keys(cv.take(i as int)),
        decreases cats.len() - i,
    {
        assert(cv.take(i + 1).drop_last() =~= cv.take(i as int));
        assert(cv.take(i + 1).last() == cats@[i as int]@);
        let ghost before = crate::text::string_views(keys@);
        keys.push(state_key(&cats[i]));
        let ghost with_state = crate::text::string_views(keys@);
        assert(with_state =~= before.push(state_or_unknown(cats@[i as int]@)));
        let records: &[Json] = match cats[i].get("records") {
            Some(Json::Array(items)) => items.as_slice(),
            _ => {
                assert(record_keys(Seq::<JsonV>::empty()) =~= Seq::<Seq<char>>::empty());
                &[]
            },
        };
        proof {
            crate::json::lemma_view_arr(records@);
        }
        let ghost rv = view_arr(records@);
        assert(rv == match get_v(cats@[i as int]@, "records"@) {
            Some(JsonV::Array(items)) => items,
            _ => Seq::<JsonV>::empty(),
        }) by {
            assert(view_arr(Seq::<Json>::empty()) =~= Seq::<JsonV>::empty());
        }
        let mut k: usize = 0;
        while k < records.len()
            invariant
                k <= records@.len(),
                rv == view_arr(records@),
                rv.len() == records@.len(),
                forall|j: int| 0 <= j < records@.len() ==> #[trigger] rv[j] == records@[j]@,
                crate::text::string_views(keys@) == with_state + record_keys(rv.take(k as int)),
            decreases records.len() - k,
        {
            assert(rv.take(k + 1).drop_last() =~= rv.take(k as int));
            assert(rv.take(k + 1).last() == records@[k as int]@);
            let ghost prev = crate::text::string_views(keys@);
            let key = crate::text::concat("record_", state_key(&records[k]).as_str());
            keys.push(key);
            assert(crate::text::string_views(keys@) =~= prev.push(
                "record_"@ + state_or_unknown(records@[k as int]@),
            ));
            assert(crate::text::string_views(keys@) =~= with_state + record_keys(rv.take(k + 1)));
            k = k + 1;
        }
        assert(rv.take(records@.len() as int) =~= rv);
        i = i + 1;
    }
    assert(cv.take(cats@.len() as int) =~= cv);
    keys
}

/// The document an operation prints about a run, narrowed to the records a
/// `--record` filter selects (catalogs left without a record are dropped).
pub fn operation_document(operation: &str, run: &Json, filter: Option<&str>) -> (r: Json)
    ensures
        r@ == operation_document_spec(
            operation@,
            run@,
            match filter {
                Some(f) => Some(f@),
                None => None,
            },
        ),
{
    broadcast use group_json_view;

    let cats = reported_catalogs_exec(run, filter);
    let keys = count_keys_exec(&cats);
    let counts = count_all(&keys);
    let mut count_fields: Vec<(String, Json)> = Vec::new();
    let mut i: usize = 0;
    while i < counts.len()
        invariant
            i <= counts@.len(),
            count_fields@.len() == i,
            forall|j: int|
                0 <= j < i ==> #[trigger] count_fields@[j].0@ == counts@[j].0@ && count_fields@[j].1@
                    == JsonV::UInt(counts@[j].1),
        decreases counts.len() - i,
    {
        count_fields.push((counts[i].0.clone(), Json::UInt(counts[i].1)));
        i = i + 1;
    }
    proof {
        crate::json::lemma_view_obj(count_fields@);
    }
    assert(view_obj(count_fields@) =~= counts_json(counted(counts@)));
    let field = |key: &str| -> (r: Json)
        ensures
            r@ == field_or_null(run@, key@),
        {
            match run.get(key) {
                Some(v) => v.duplicate(),
                None => Json::Null,
            }
        };
    let mut fields: Vec<(String, Json)> = Vec::new();
    fields.push((String::from_str("schema"), crate::json::jstr(OP_SCHEMA)));
    fields.push((String::from_str("operation"), crate::json::jstr(operation)));
    fields.push((String::from_str("run_id"), field("run_id")));
    fields.push((String::from_str("state"), field("state")));
    fields.push((String::from_str("source_revision"), field("source_revision")));
    fields.push((String::from_str("updated_at"), field("updated_at")));
    let ghost cf = view_obj(count_fields@);
    fields.push((String::from_str("counts"), crate::json::jobj(count_fields)));
    let ghost cats_v = view_arr(cats@);
    fields.push((String::from_str("catalogs"), Json::Array(cats)));
    assert(view_obj(fields@) =~= match operation_document_spec(
        operation@,
        run@,
        match filter {
            Some(f) => Some(f@),
            None => None,
        },
    ) {
        JsonV::Object(f) => f,
        _ => Seq::empty(),
    });
    crate::json::jobj(fields)
}

// ---------------------------------------------------------------------------
// What the counts are

/// The count a list of count fields gives a name: its first field's, or 0.
pub open spec fn tally(fields: Seq<(Seq<char>, nat)>, x: Seq<char>) -> nat
    decreases fields.len(),
{
    if fields.len() == 0 {
        0
    } else if fields[0].0 == x {
        fields[0].1
    } else {
        tally(fields.drop_first(), x)
    }
}

/// Count fields whose names are in strictly increasing `String` order.
pub open spec fn names_increasing(fields: Seq<(Seq<char>, nat)>) -> bool {
    forall|i: int, j: int| 0 <= i < j < fields.len() ==> seq_lt(#[trigger] fields[i].0, #[trigger] fields[j].0)
}

proof fn lemma_tally_absent(fields: Seq<(Seq<char>, nat)>, x: Seq<char>)
    requires
        forall|j: int| 0 <= j < fields.len() ==> #[trigger] fields[j].0 != x,
    ensures
        tally(fields, x) == 0,
    decreases fields.len(),
{
    if fields.len() > 0 {
        assert(fields[0].0 != x);
        assert forall|j: int| 0 <= j < fields.drop_first().len() implies #[trigger] fields.drop_first()[j].0
            != x by {
            assert(fields.drop_first()[j] == fields[j + 1]);
        }
        lemma_tally_absent(fields.drop_first(), x);
    }
}

proof fn lemma_count_insert(fields: Seq<(Seq<char>, nat)>, k: Seq<char>)
    requires
        names_increasing(fields),
    ensures
        names_increasing(count_insert(fields, k)),
        forall|x: Seq<char>|
            #[trigger] tally(count_insert(fields, k), x) == tally(fields, x) + if x == k {
                1nat
            } else {
                0nat
            },
        forall|j: int|
            0 <= j < count_insert(fields, k).len() ==> (#[trigger] count_insert(fields, k)[j].0 == k
                || exists|m: int| 0 <= m < fields.len() && fields[m].0 == count_insert(fields, k)[j].0),
    decreases fields.len(),
{
    let r = count_insert(fields, k);
    if fields.len() == 0 {
        assert forall|x: Seq<char>| #[trigger] tally(r, x) == tally(fields, x) + if x == k {
            1nat
        } else {
            0nat
        } by {
            assert(r.len() == 1 && r[0] == (k, 1nat));
            assert(r.drop_first() =~= Seq::<(Seq<char>, nat)>::empty());
            assert(tally(r.drop_first(), x) == 0);
            assert(tally(fields, x) == 0);
        }
    } else if fields[0].0 == k {
        assert(r.drop_first() =~= fields.drop_first());
        assert forall|i: int, j: int| 0 <= i < j < r.len() implies seq_lt(#[trigger] r[i].0, #[trigger] r[j].0) by {
            assert(r[i].0 == fields[i].0);
            assert(r[j].0 == fields[j].0);
        }
        assert forall|j: int| 0 <= j < r.len() implies (#[trigger] r[j].0 == k || exists|m: int|
            0 <= m < fields.len() && fields[m].0 == r[j].0) by {
            assert(r[j].0 == fields[j].0);
        }
    } else if seq_lt(k, fields[0].0) {
        assert(r.drop_first() =~= fields);
        assert forall|j: int| 0 <= j < fields.len() implies #[trigger] fields[j].0 != k by {
            if j > 0 {
                crate::text::lemma_seq_lt_transitive(k, fields[0].0, fields[j].0);
            }
            crate::text::lemma_seq_lt_total(k, fields[j].0);
        }
        lemma_tally_absent(fields, k);
        assert forall|i: int, j: int| 0 <= i < j < r.len() implies seq_lt(#[trigger] r[i].0, #[trigger] r[j].0) by {
            if i == 0 {
                assert(r[j] == fields[j - 1]);
                if j - 1 > 0 {
                    crate::text::lemma_seq_lt_transitive(k, fields[0].0, fields[j - 1].0);
                }
            } else {
                assert(r[i] == fields[i - 1]);
                assert(r[j] == fields[j - 1]);
            }
        }
        assert forall|j: int| 0 <= j < r.len() implies (#[trigger] r[j].0 == k || exists|m: int|
            0 <= m < fields.len() && fields[m].0 == r[j].0) by {
            if j > 0 {
                assert(r[j] == fields[j - 1]);
            }
        }
    } else {
        let rest = fields.drop_first();
        assert(names_increasing(rest)) by {
            assert forall|i: int, j: int| 0 <= i < j < rest.len() implies seq_lt(#[trigger] rest[i].0, #[trigger] rest[j].0) by {
                assert(rest[i] == fields[i + 1]);
                assert(rest[j] == fields[j + 1]);
            }
        }
        lemma_count_insert(rest, k);
        let t = count_insert(rest, k);
        assert(r.drop_first() =~= t);
        crate::text::lemma_seq_lt_total(k, fields[0].0);
        assert forall|i: int, j: int| 0 <= i < j < r.len() implies seq_lt(#[trigger] r[i].0, #[trigger] r[j].0) by {
            if i == 0 {
                assert(r[j] == t[j - 1]);
                if t[j - 1].0 == k {
                } else {
                    let m = choose|m: int| 0 <= m < rest.len() && rest[m].0 == t[j - 1].0;
                    assert(rest[m] == fields[m + 1]);
                }
            } else {
                assert(r[i] == t[i - 1]);
                assert(r[j] == t[j - 1]);
            }
        }
        assert forall|j: int| 0 <= j < r.len() implies (#[trigger] r[j].0 == k || exists|m: int|
            0 <= m < fields.len() && fields[m].0 == r[j].0) by {
            if j > 0 {
                assert(r[j] == t[j - 1]);
                if t[j - 1].0 != k {
                    let m = choose|m: int| 0 <= m < rest.len() && rest[m].0 == t[j - 1].0;
                    assert(fields[m + 1].0 == r[j].0);
                }
            }
        }
        assert forall|x: Seq<char>| #[trigger] tally(r, x) == tally(fields, x) + if x == k {
            1nat
        } else {
            0nat
        } by {
            assert(r[0] == fields[0]);
            assert(fields[0].0 != k);
            assert(r.len() > 0);
            assert(tally(t, x) == tally(rest, x) + if x == k {
                1nat
            } else {
                0nat
            });
            if x != fields[0].0 {
                assert(tally(r, x) == tally(r.drop_first(), x));
                assert(tally(r, x) == tally(t, x));
                assert(tally(fields, x) == tally(rest, x));
            } else {
                assert(tally(r, x) == r[0].1);
                assert(tally(fields, x) == fields[0].1);
            }
        }
    }
}

/// The counts an operation reports name each counted state once, in
/// `String` order, with the number of times it was counted.
pub proof fn law_counts_are_tallies(keys: Seq<Seq<char>>)
    ensures
        names_increasing(counts_of(keys)),
        forall|x: Seq<char>| #[trigger] tally(counts_of(keys), x) == crate::runstate::count_of(keys, x),
    decreases keys.len(),
{
    if keys.len() > 0 {
        law_counts_are_tallies(keys.drop_last());
        lemma_count_insert(counts_of(keys.drop_last()), keys.last());
    }
}

} // verus!

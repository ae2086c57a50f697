//! The states of a crawl run, of each catalog in it and of each record: how
//! the state of a whole is read off the states of its parts.
use vstd::prelude::*;
use crate::json::{
    get_items_v, get_str_v, get_v, group_json_view, jobj, jstr, set_v, settable_v, str_v,
    view_arr, view_obj, Json, JsonV,
};
use crate::text::str_eq;

verus! {

// ---------------------------------------------------------------------------
// The states present in a list of documents

/// The `state` strings of `items`, in order, skipping items without one.
pub open spec fn present_states(items: Seq<JsonV>) -> Seq<Seq<char>>
    decreases items.len(),
{
    if items.len() == 0 {
        Seq::empty()
    } else {
        present_states(items.drop_last()) + match get_str_v(items.last(), "state"@) {
            Some(s) => seq![s],
            None => Seq::empty(),
        }
    }
}

/// The `state` strings of a slice of documents.
pub fn collect_states(items: &[Json]) -> (r: Vec<String>)
    ensures
        crate::text::string_views(r@) == present_states(view_arr(items@)),
{
    proof {
        crate::json::lemma_view_arr(items@);
    }
    let ghost iv = view_arr(items@);
    let mut out: Vec<String> = Vec::new();
    let mut i: usize = 0;
    while i < items.len()
        invariant
            i <= items@.len(),
            iv == view_arr(items@),
            iv.len() == items@.len(),
            forall|j: int| 0 <= j < items@.len() ==> #[trigger] iv[j] == items@[j]@,
            crate::text::string_views(out@) == present_states(iv.take(i as int)),
        decreases items.len() - i,
    {
        assert(iv.take(i + 1).drop_last() =~= iv.take(i as int));
        assert(iv.take(i + 1).last() == items@[i as int]@);
        match items[i].get_str("state") {
            Some(s) => {
                out.push(s.to_string());
                assert(crate::text::string_views(out@) =~= present_states(iv.take(i as int))
                    + seq![s@]);
            },
            None => {
                assert(present_states(iv.take(i + 1)) =~= present_states(iv.take(i as int)));
            },
        }
        i = i + 1;
    }
    assert(iv.take(items@.len() as int) =~= iv);
    out
}

/// Whether a state occurs.
pub fn has_state(states: &Vec<String>, w: &str) -> (r: bool)
    ensures
        r == crate::text::string_views(states@).contains(w@),
{
    let ghost sv = crate::text::string_views(states@);
    let mut i: usize = 0;
    while i < states.len()
        invariant
            i <= states@.len(),
            sv == crate::text::string_views(states@),
            forall|j: int| 0 <= j < i ==> sv[j] != w@,
        decreases states.len() - i,
    {
        if str_eq(states[i].as_str(), w) {
            assert(sv[i as int] == w@);
            return true;
        }
        i = i + 1;
    }
    false
}

/// Whether every state is one of `allowed`.
pub fn all_states_in(states: &Vec<String>, allowed: &[&str]) -> (r: bool)
    ensures
        r == forall|j: int|
            0 <= j < states@.len() ==> crate::host::words_view(allowed@).contains(
                #[trigger] crate::text::string_views(states@)[j],
            ),
{
    let ghost sv = crate::text::string_views(states@);
    let ghost av = crate::host::words_view(allowed@);
    let mut i: usize = 0;
    while i < states.len()
        invariant
            i <= states@.len(),
            sv == crate::text::string_views(states@),
            av == crate::host::words_view(allowed@),
            forall|j: int| 0 <= j < i ==> av.contains(#[trigger] sv[j]),
        decreases states.len() - i,
    {
        let mut found = false;
        let mut k: usize = 0;
        while k < allowed.len()
            invariant
                k <= allowed@.len(),
                i < states@.len(),
                av == crate::host::words_view(allowed@),
                found == exists|m: int| 0 <= m < k && av[m] == states@[i as int]@,
            decreases allowed.len() - k,
        {
            if str_eq(allowed[k], states[i].as_str()) {
                assert(av[k as int] == states@[i as int]@);
                found = true;
            }
            k = k + 1;
        }
        if !found {
            assert(!av.contains(sv[i as int])) by {
                if av.contains(sv[i as int]) {
                    let m = choose|m: int| 0 <= m < av.len() && av[m] == sv[i as int];
                }
            }
            return false;
        }
        assert(av.contains(sv[i as int]));
        i = i + 1;
    }
    true
}

// ---------------------------------------------------------------------------
// The state of a run

pub open spec fn any_of(states: Seq<Seq<char>>, words: Seq<Seq<char>>) -> bool {
    exists|j: int| 0 <= j < states.len() && words.contains(#[trigger] states[j])
}

pub open spec fn all_of(states: Seq<Seq<char>>, words: Seq<Seq<char>>) -> bool {
    forall|j: int| 0 <= j < states.len() ==> words.contains(#[trigger] states[j])
}

/// The state of a run, read off the states of its catalogs.
pub open spec fn run_state_spec(states: Seq<Seq<char>>) -> Seq<char> {
    if states.contains("running"@) {
        "running"@
    } else if states.contains("cancel_pending"@) {
        "cancel_pending"@
    } else if states.contains("pending_review"@) {
        "pending_review"@
    } else if states.contains("queued"@) {
        "queued"@
    } else if states.contains("planned"@) {
        "planned"@
    } else if states.len() > 0 && all_of(states, seq!["imported"@]) {
        "imported"@
    } else if states.len() > 0 && all_of(states, seq!["completed"@, "uploaded"@, "imported"@]) {
        "completed"@
    } else if any_of(states, seq!["partial"@, "completed"@, "uploaded"@, "imported"@]) {
        "partial"@
    } else {
        "failed"@
    }
}

/// The run with its `state` and `partial` fields recomputed.
pub open spec fn update_run_state_spec(run: JsonV) -> JsonV {
    let states = present_states(get_items_v(run, "catalogs"@));
    set_v(
        set_v(run, "state"@, JsonV::Str(run_state_spec(states))),
        "partial"@,
        JsonV::Bool(states.contains("partial"@)),
    )
}

fn any_state_in(states: &Vec<String>, allowed: &[&str]) -> (r: bool)
    ensures
        r == any_of(crate::text::string_views(states@), crate::host::words_view(allowed@)),
{
    let ghost sv = crate::text::string_views(states@);
    let ghost av = crate::host::words_view(allowed@);
    let mut k: usize = 0;
    while k < allowed.len()
        invariant
            k <= allowed@.len(),
            sv == crate::text::string_views(states@),
            av == crate::host::words_view(allowed@),
            forall|m: int| 0 <= m < k ==> !sv.contains(#[trigger] av[m]),
        decreases allowed.len() - k,
    {
        if has_state(states, allowed[k]) {
            let ghost j = choose|j: int| 0 <= j < sv.len() && sv[j] == av[k as int];
            assert(av.contains(sv[j]));
            return true;
        }
        k = k + 1;
    }
    assert(!any_of(sv, av)) by {
        if any_of(sv, av) {
            let j = choose|j: int| 0 <= j < sv.len() && av.contains(#[trigger] sv[j]);
            let m = choose|m: int| 0 <= m < av.len() && av[m] == sv[j];
            assert(sv.contains(av[m]));
        }
    }
    false
}

/// The state a run's catalogs add up to.
pub fn run_state(states: &Vec<String>) -> (r: &'static str)
    ensures
        r@ == run_state_spec(crate::text::string_views(states@)),
{
    let ghost sv = crate::text::string_views(states@);
    if has_state(states, "running") {
        "running"
    } else if has_state(states, "cancel_pending") {
        "cancel_pending"
    } else if has_state(states, "pending_review") {
        "pending_review"
    } else if has_state(states, "queued") {
        "queued"
    } else if has_state(states, "planned") {
        "planned"
    } else if states.len() > 0 && all_states_in(states, &["imported"]) {
        assert(crate::host::words_view(["imported"]@) =~= seq!["imported"@]);
        "imported"
    } else if states.len() > 0 && all_states_in(states, &["completed", "uploaded", "imported"]) {
        assert(crate::host::words_view(["imported"]@) =~= seq!["imported"@]);
        assert(crate::host::words_view(["completed", "uploaded", "imported"]@) =~= seq![
            "completed"@,
            "uploaded"@,
            "imported"@,
        ]);
        "completed"
    } else if any_state_in(states, &["partial", "completed", "uploaded", "imported"]) {
        assert(crate::host::words_view(["imported"]@) =~= seq!["imported"@]);
        assert(crate::host::words_view(["completed", "uploaded", "imported"]@) =~= seq![
            "completed"@,
            "uploaded"@,
            "imported"@,
        ]);
        assert(crate::host::words_view(["partial", "completed", "uploaded", "imported"]@)
            =~= seq!["partial"@, "completed"@, "uploaded"@, "imported"@]);
        "partial"
    } else {
        assert(crate::host::words_view(["imported"]@) =~= seq!["imported"@]);
        assert(crate::host::words_view(["completed", "uploaded", "imported"]@) =~= seq![
            "completed"@,
            "uploaded"@,
            "imported"@,
        ]);
        assert(crate::host::words_view(["partial", "completed", "uploaded", "imported"]@)
            =~= seq!["partial"@, "completed"@, "uploaded"@, "imported"@]);
        "failed"
    }
}

/// Recompute a run's `state` and `partial` from the states of its catalogs.
pub fn update_run_state(run: &mut Json)
    requires
        settable_v(old(run)@),
    ensures
        final(run)@ == update_run_state_spec(old(run)@),
{
    let states = collect_states(run.get_items("catalogs"));
    let state = run_state(&states);
    let partial = has_state(&states, "partial");
    run.set("state", jstr(state));
    run.set("partial", Json::Bool(partial));
}

/// Recomputing a run's state twice gives what recomputing it once gave.
pub proof fn law_update_run_state_idempotent(run: JsonV)
    requires
        settable_v(run),
    ensures
        update_run_state_spec(update_run_state_spec(run)) == update_run_state_spec(run),
{
    let states = present_states(get_items_v(run, "catalogs"@));
    let a = JsonV::Str(run_state_spec(states));
    let b = JsonV::Bool(states.contains("partial"@));
    let x = set_v(run, "state"@, a);
    let y = set_v(x, "partial"@, b);
    crate::json::lemma_get_set(run, "state"@, a, "catalogs"@);
    crate::json::lemma_get_set(x, "partial"@, b, "catalogs"@);
    crate::json::lemma_get_set(x, "partial"@, b, "state"@);
    crate::json::lemma_get_set(run, "state"@, a, "partial"@);
    assert("partial"@ != "state"@) by {
        reveal_strlit("partial");
        reveal_strlit("state");
        assert("partial"@.len() != "state"@.len());
    }
    assert("catalogs"@ != "state"@) by {
        reveal_strlit("catalogs");
        reveal_strlit("state");
        assert("catalogs"@.len() != "state"@.len());
    }
    assert("catalogs"@ != "partial"@) by {
        reveal_strlit("catalogs");
        reveal_strlit("partial");
        assert("catalogs"@.len() != "partial"@.len());
    }
    assert(get_items_v(y, "catalogs"@) == get_items_v(run, "catalogs"@));
    crate::json::lemma_set_same(y, "state"@, a);
    crate::json::lemma_set_same(y, "partial"@, b);
}

// ---------------------------------------------------------------------------
// The state of a catalog

/// The record states that count as failures.
pub open spec fn failure_words() -> Seq<Seq<char>> {
    seq![
        "unavailable"@,
        "preflight_failed"@,
        "submission_failed"@,
        "lost"@,
        "failed"@,
        "cancelled"@,
        "partial"@,
    ]
}

/// The failure states in `String` order, the order of a `BTreeMap`'s keys.
pub open spec fn failure_order() -> Seq<Seq<char>> {
    seq![
        "cancelled"@,
        "failed"@,
        "lost"@,
        "partial"@,
        "preflight_failed"@,
        "submission_failed"@,
        "unavailable"@,
    ]
}

/// The state a catalog's records add up to.
pub open spec fn catalog_state_spec(states: Seq<Seq<char>>) -> Seq<char> {
    if states.contains("running"@) {
        "running"@
    } else if states.contains("cancel_pending"@) {
        "cancel_pending"@
    } else if states.contains("pending_review"@) {
        "pending_review"@
    } else if any_of(states, seq!["queued"@, "submitting"@, "preflight_passed"@]) {
        "queued"@
    } else if any_of(states, seq!["planned"@, "preflighting"@]) {
        "planned"@
    } else if states.len() > 0 && all_of(states, seq!["imported"@]) {
        "imported"@
    } else if states.len() > 0 && all_of(states, seq!["completed"@, "uploaded"@, "imported"@]) {
        "completed"@
    } else if any_of(states, failure_words()) {
        "partial"@
    } else {
        "failed"@
    }
}

/// How many times `w` occurs.
pub open spec fn count_of(states: Seq<Seq<char>>, w: Seq<char>) -> nat
    decreases states.len(),
{
    if states.len() == 0 {
        0
    } else {
        count_of(states.drop_last(), w) + if states.last() == w {
            1nat
        } else {
            0nat
        }
    }
}

proof fn lemma_count_of_le(states: Seq<Seq<char>>, w: Seq<char>)
    ensures
        count_of(states, w) <= states.len(),
    decreases states.len(),
{
    if states.len() > 0 {
        lemma_count_of_le(states.drop_last(), w);
    }
}

/// The failure counts of a catalog, one field per failure state that
/// occurs, in the order of `names`.
pub open spec fn failure_count_fields(states: Seq<Seq<char>>, names: Seq<Seq<char>>) -> Seq<
    (Seq<char>, JsonV),
>
    decreases names.len(),
{
    if names.len() == 0 {
        Seq::empty()
    } else {
        let n = count_of(states, names.last());
        failure_count_fields(states, names.drop_last()) + if n > 0 {
            seq![(names.last(), JsonV::UInt(n as u64))]
        } else {
            Seq::empty()
        }
    }
}

/// The message of a catalog with nothing planned.
pub open spec fn no_planned_records_v() -> JsonV {
    JsonV::Object(
        seq![
            ("code"@, JsonV::Str("no_planned_records"@)),
            ("message"@, JsonV::Str(
                "catalog carries no record attempts; nothing was planned, submitted or imported for it"@,
            )),
        ],
    )
}

/// A catalog entry with `state`, `partial` and `failure_counts` recomputed
/// from its records, and a diagnostic when it has none.
pub open spec fn aggregate_catalog_spec(entry: JsonV) -> JsonV {
    let states = present_states(get_items_v(entry, "records"@));
    let e1 = set_v(entry, "state"@, JsonV::Str(catalog_state_spec(states)));
    let e2 = set_v(e1, "partial"@, JsonV::Bool(any_of(states, failure_words())));
    let e3 = set_v(
        e2,
        "failure_counts"@,
        JsonV::Object(failure_count_fields(states, failure_order())),
    );
    if states.len() == 0 {
        set_v(e3, "diagnostic"@, no_planned_records_v())
    } else {
        e3
    }
}

proof fn lemma_get_pushed(a: Seq<(Seq<char>, JsonV)>, x: Seq<char>, v: JsonV, w: Seq<char>)
    requires
        w != x,
    ensures
        get_v(JsonV::Object(a.push((x, v))), w) == get_v(JsonV::Object(a), w),
{
    let b = a.push((x, v));
    crate::json::lemma_field_index(a, w);
    match crate::json::field_index(a, w) {
        Some(i) => {
            assert forall|j: int| 0 <= j < i implies b[j].0 != w by {
                assert(b[j] == a[j]);
            }
            assert(b[i] == a[i]);
            crate::json::lemma_field_index_is(b, w, i);
        },
        None => {
            assert forall|j: int| 0 <= j < b.len() implies b[j].0 != w by {
                if j < a.len() {
                    assert(b[j] == a[j]);
                }
            }
            crate::json::lemma_field_index_is(b, w, b.len() as int);
        },
    }
}

proof fn lemma_failure_count_fields(states: Seq<Seq<char>>, names: Seq<Seq<char>>)
    requires
        names.no_duplicates(),
        states.len() <= u64::MAX,
    ensures
        forall|k: int|
            0 <= k < failure_count_fields(states, names).len() ==> names.contains(
                #[trigger] failure_count_fields(states, names)[k].0,
            ),
        forall|w: Seq<char>|
            #[trigger] get_v(JsonV::Object(failure_count_fields(states, names)), w) == if names.contains(w)
                && count_of(states, w) > 0 {
                Some(JsonV::UInt(count_of(states, w) as u64))
            } else {
                None
            },
    decreases names.len(),
{
    let f = failure_count_fields(states, names);
    if names.len() == 0 {
        assert forall|w: Seq<char>| #[trigger] get_v(JsonV::Object(f), w) == None::<JsonV> by {
            assert(f.len() == 0);
        }
    } else {
        let d = names.drop_last();
        let x = names.last();
        assert forall|i: int, j: int| 0 <= i < j < d.len() implies d[i] != d[j] by {
            assert(d[i] == names[i] && d[j] == names[j]);
        }
        lemma_failure_count_fields(states, d);
        let fd = failure_count_fields(states, d);
        let n = count_of(states, x);
        lemma_count_of_le(states, x);
        assert(!d.contains(x)) by {
            if d.contains(x) {
                let j = choose|j: int| 0 <= j < d.len() && d[j] == x;
                assert(names[j] == names[names.len() - 1]);
            }
        }
        assert forall|k: int| 0 <= k < f.len() implies names.contains(#[trigger] f[k].0) by {
            if k < fd.len() {
                assert(f[k] == fd[k]);
                let j = choose|j: int| 0 <= j < d.len() && d[j] == fd[k].0;
                assert(names[j] == d[j]);
            } else {
                assert(f[k].0 == x);
                assert(names[names.len() - 1] == x);
            }
        }
        assert forall|w: Seq<char>| #[trigger] get_v(JsonV::Object(f), w) == if names.contains(w) && count_of(
            states,
            w,
        ) > 0 {
            Some(JsonV::UInt(count_of(states, w) as u64))
        } else {
            None
        } by {
            assert(names.contains(w) <==> d.contains(w) || w == x) by {
                if names.contains(w) {
                    let j = choose|j: int| 0 <= j < names.len() && names[j] == w;
                    if j < d.len() {
                        assert(d[j] == w);
                    }
                }
                if d.contains(w) {
                    let j = choose|j: int| 0 <= j < d.len() && d[j] == w;
                    assert(names[j] == w);
                }
                if w == x {
                    assert(names[names.len() - 1] == w);
                }
            }
            if w == x {
                if n > 0 {
                    assert(f == fd.push((x, JsonV::UInt(n as u64))));
                    assert forall|j: int| 0 <= j < fd.len() implies f[j].0 != x by {
                        assert(f[j] == fd[j]);
                    }
                    crate::json::lemma_field_index_is(f, x, fd.len() as int);
                } else {
                    assert(f =~= fd);
                }
            } else {
                if n > 0 {
                    assert(f == fd.push((x, JsonV::UInt(n as u64))));
                    lemma_get_pushed(fd, x, JsonV::UInt(n as u64), w);
                } else {
                    assert(f =~= fd);
                }
            }
        }
    }
}

/// A catalog's failure counts count each failure state among its records'
/// states: a state that occurs has its count, and nothing else is counted;
/// a catalog without records is `failed` with the `no_planned_records`
/// diagnostic.
pub proof fn law_failure_counts(entry: JsonV, w: Seq<char>)
    requires
        settable_v(entry),
        present_states(get_items_v(entry, "records"@)).len() <= u64::MAX,
    ensures
        ({
            let states = present_states(get_items_v(entry, "records"@));
            &&& get_v(aggregate_catalog_spec(entry), "failure_counts"@) matches Some(counts)
                && get_v(counts, w) == if failure_words().contains(w) && count_of(states, w) > 0 {
                Some(JsonV::UInt(count_of(states, w) as u64))
            } else {
                None
            }
            &&& states.len() == 0 ==> (get_str_v(aggregate_catalog_spec(entry), "state"@) == Some(
                "failed"@,
            ) && (get_v(aggregate_catalog_spec(entry), "diagnostic"@) matches Some(d) && get_str_v(
                d,
                "code"@,
            ) == Some("no_planned_records"@)))
        }),
{
    reveal_strlit("cancelled");
    reveal_strlit("failed");
    reveal_strlit("lost");
    reveal_strlit("partial");
    reveal_strlit("preflight_failed");
    reveal_strlit("submission_failed");
    reveal_strlit("unavailable");
    reveal_strlit("code");
    let order = failure_order();
    assert(order.no_duplicates()) by {
        assert("cancelled"@.len() == 9 && "failed"@.len() == 6 && "lost"@.len() == 4 && "partial"@.len()
            == 7 && "preflight_failed"@.len() == 16 && "submission_failed"@.len() == 17
            && "unavailable"@.len() == 11);
    }
    assert(order.contains(w) <==> failure_words().contains(w)) by {
        if order.contains(w) {
            let j = choose|j: int| 0 <= j < order.len() && order[j] == w;
            assert(failure_words()[6 - j] == w || failure_words().contains(w)) by {
                if j == 0 { assert(failure_words()[5] == w); }
                else if j == 1 { assert(failure_words()[4] == w); }
                else if j == 2 { assert(failure_words()[3] == w); }
                else if j == 3 { assert(failure_words()[6] == w); }
                else if j == 4 { assert(failure_words()[1] == w); }
                else if j == 5 { assert(failure_words()[2] == w); }
                else { assert(failure_words()[0] == w); }
            }
        }
        if failure_words().contains(w) {
            let j = choose|j: int| 0 <= j < failure_words().len() && failure_words()[j] == w;
            if j == 0 { assert(order[6] == w); }
            else if j == 1 { assert(order[4] == w); }
            else if j == 2 { assert(order[5] == w); }
            else if j == 3 { assert(order[2] == w); }
            else if j == 4 { assert(order[1] == w); }
            else if j == 5 { assert(order[0] == w); }
            else { assert(order[3] == w); }
        }
    }
    let states = present_states(get_items_v(entry, "records"@));
    lemma_failure_count_fields(states, order);
    assert(get_v(JsonV::Object(failure_count_fields(states, order)), w) == get_v(
        JsonV::Object(failure_count_fields(states, order)),
        w,
    ));
    reveal_strlit("records");
    reveal_strlit("state");
    reveal_strlit("failure_counts");
    reveal_strlit("diagnostic");
    assert("records"@[0] == 'r' && "partial"@[0] == 'p' && "records"@.len() == 7 && "state"@.len() == 5
        && "failure_counts"@.len() == 14 && "diagnostic"@.len() == 10);
    law_aggregate_catalog_fields(entry, "records"@);
    if states.len() == 0 {
        reveal_strlit("no_planned_records");
        crate::json::lemma_field_index_is(no_planned_records_v()->Object_0, "code"@, 0);
    }
}

/// A run's state follows its catalogs' states in order of precedence:
/// `running`, then `cancel_pending`, `pending_review`, `queued` and
/// `planned`; then `imported` when every catalog is imported, `completed`
/// when every one is completed, uploaded or imported; then `partial` when
/// any is partial, completed, uploaded or imported; else `failed`. The run
/// is partial exactly when a catalog is, and no other field changes.
pub proof fn law_run_state_precedence(run: JsonV, other: Seq<char>)
    requires
        settable_v(run),
        other != "state"@,
        other != "partial"@,
    ensures
        ({
            let s = present_states(get_items_v(run, "catalogs"@));
            let after = update_run_state_spec(run);
            let state = get_str_v(after, "state"@);
            &&& s.contains("running"@) ==> state == Some("running"@)
            &&& !s.contains("running"@) && s.contains("cancel_pending"@) ==> state == Some("cancel_pending"@)
            &&& !s.contains("running"@) && !s.contains("cancel_pending"@) && s.contains("pending_review"@)
                ==> state == Some("pending_review"@)
            &&& !s.contains("running"@) && !s.contains("cancel_pending"@) && !s.contains("pending_review"@)
                && s.contains("queued"@) ==> state == Some("queued"@)
            &&& !s.contains("running"@) && !s.contains("cancel_pending"@) && !s.contains("pending_review"@)
                && !s.contains("queued"@) && s.contains("planned"@) ==> state == Some("planned"@)
            &&& !s.contains("running"@) && !s.contains("cancel_pending"@) && !s.contains("pending_review"@)
                && !s.contains("queued"@) && !s.contains("planned"@) ==> state == Some(
                if s.len() > 0 && all_of(s, seq!["imported"@]) {
                    "imported"@
                } else if s.len() > 0 && all_of(s, seq!["completed"@, "uploaded"@, "imported"@]) {
                    "completed"@
                } else if any_of(s, seq!["partial"@, "completed"@, "uploaded"@, "imported"@]) {
                    "partial"@
                } else {
                    "failed"@
                },
            )
            &&& get_v(after, "partial"@) == Some(JsonV::Bool(s.contains("partial"@)))
            &&& get_v(after, other) == get_v(run, other)
        }),
{
    reveal_strlit("state");
    reveal_strlit("partial");
    assert("state"@.len() == 5 && "partial"@.len() == 7);
    let s = present_states(get_items_v(run, "catalogs"@));
    let e1 = set_v(run, "state"@, JsonV::Str(run_state_spec(s)));
    crate::json::lemma_get_set(run, "state"@, JsonV::Str(run_state_spec(s)), other);
    crate::json::lemma_get_set(e1, "partial"@, JsonV::Bool(s.contains("partial"@)), other);
    crate::json::lemma_get_set(e1, "partial"@, JsonV::Bool(s.contains("partial"@)), "state"@);
}

/// Aggregating a catalog entry writes its state, whether it is partial,
/// its failure counts and, with no record states, the diagnostic that no
/// records were planned; the state is `running` exactly when a record is
/// running; every other field stays as it was.
pub proof fn law_aggregate_catalog_fields(entry: JsonV, other: Seq<char>)
    requires
        settable_v(entry),
        other != "state"@,
        other != "partial"@,
        other != "failure_counts"@,
        other != "diagnostic"@,
    ensures
        ({
            let states = present_states(get_items_v(entry, "records"@));
            let after = aggregate_catalog_spec(entry);
            &&& get_v(after, "state"@) == Some(JsonV::Str(catalog_state_spec(states)))
            &&& get_v(after, "partial"@) == Some(JsonV::Bool(any_of(states, failure_words())))
            &&& get_v(after, "failure_counts"@) == Some(
                JsonV::Object(failure_count_fields(states, failure_order())),
            )
            &&& states.len() == 0 ==> get_v(after, "diagnostic"@) == Some(no_planned_records_v())
            &&& (catalog_state_spec(states) == "running"@ <==> states.contains("running"@))
            &&& get_v(after, other) == get_v(entry, other)
        }),
{
    reveal_strlit("state");
    reveal_strlit("partial");
    reveal_strlit("failure_counts");
    reveal_strlit("diagnostic");
    reveal_strlit("running");
    reveal_strlit("cancel_pending");
    reveal_strlit("pending_review");
    reveal_strlit("queued");
    reveal_strlit("planned");
    reveal_strlit("imported");
    reveal_strlit("completed");
    reveal_strlit("failed");
    let states = present_states(get_items_v(entry, "records"@));
    let e1 = set_v(entry, "state"@, JsonV::Str(catalog_state_spec(states)));
    let e2 = set_v(e1, "partial"@, JsonV::Bool(any_of(states, failure_words())));
    let e3 = set_v(e2, "failure_counts"@, JsonV::Object(failure_count_fields(states, failure_order())));
    assert("state"@.len() == 5 && "partial"@.len() == 7 && "failure_counts"@.len() == 14
        && "diagnostic"@.len() == 10);
    crate::json::lemma_get_set(entry, "state"@, JsonV::Str(catalog_state_spec(states)), other);
    crate::json::lemma_get_set(e1, "partial"@, JsonV::Bool(any_of(states, failure_words())), other);
    crate::json::lemma_get_set(e1, "partial"@, JsonV::Bool(any_of(states, failure_words())), "state"@);
    crate::json::lemma_get_set(
        e2,
        "failure_counts"@,
        JsonV::Object(failure_count_fields(states, failure_order())),
        other,
    );
    crate::json::lemma_get_set(
        e2,
        "failure_counts"@,
        JsonV::Object(failure_count_fields(states, failure_order())),
        "state"@,
    );
    crate::json::lemma_get_set(
        e2,
        "failure_counts"@,
        JsonV::Object(failure_count_fields(states, failure_order())),
        "partial"@,
    );
    if states.len() == 0 {
        crate::json::lemma_get_set(e3, "diagnostic"@, no_planned_records_v(), other);
        crate::json::lemma_get_set(e3, "diagnostic"@, no_planned_records_v(), "state"@);
        crate::json::lemma_get_set(e3, "diagnostic"@, no_planned_records_v(), "partial"@);
        crate::json::lemma_get_set(e3, "diagnostic"@, no_planned_records_v(), "failure_counts"@);
    }
    assert("running"@[0] == 'r' && "cancel_pending"@.len() == 14 && "pending_review"@.len() == 14
        && "queued"@.len() == 6 && "planned"@[0] == 'p' && "imported"@.len() == 8 && "completed"@.len()
        == 9 && "partial"@[0] == 'p' && "failed"@.len() == 6 && "running"@.len() == 7);
}

fn count_state(states: &Vec<String>, w: &str) -> (r: usize)
    ensures
        r == count_of(crate::text::string_views(states@), w@),
{
    let ghost sv = crate::text::string_views(states@);
    let mut n: usize = 0;
    let mut i: usize = 0;
    while i < states.len()
        invariant
            i <= states@.len(),
            sv == crate::text::string_views(states@),
            n == count_of(sv.take(i as int), w@),
            n <= i,
        decreases states.len() - i,
    {
        assert(sv.take(i + 1).drop_last() =~= sv.take(i as int));
        if str_eq(states[i].as_str(), w) {
            n = n + 1;
        }
        i = i + 1;
    }
    assert(sv.take(states@.len() as int) =~= sv);
    n
}

fn failure_counts(states: &Vec<String>) -> (r: Json)
    ensures
        r@ == JsonV::Object(
            failure_count_fields(crate::text::string_views(states@), failure_order()),
        ),
{
    broadcast use group_json_view;

    let names = [
        "cancelled",
        "failed",
        "lost",
        "partial",
        "preflight_failed",
        "submission_failed",
        "unavailable",
    ];
    let ghost nv = crate::host::words_view(names@);
    assert(nv =~= failure_order());
    let ghost sv = crate::text::string_views(states@);
    let mut fields: Vec<(String, Json)> = Vec::new();
    let mut i: usize = 0;
    while i < 7
        invariant
            i <= 7,
            nv == crate::host::words_view(names@),
            sv == crate::text::string_views(states@),
            view_obj(fields@) == failure_count_fields(sv, nv.take(i as int)),
        decreases 7 - i,
    {
        assert(nv.take(i + 1).drop_last() =~= nv.take(i as int));
        let n = count_state(states, names[i]);
        assert(nv[i as int] == names@[i as int]@);
        assert(nv.take(i + 1).last() == nv[i as int]);
        let ghost before = fields@;
        if n > 0 {
            proof {
                lemma_count_of_le(sv, names@[i as int]@);
            }
            let key = names[i].to_string();
            assert(key@ == nv[i as int]);
            fields.push((key, Json::UInt(n as u64)));
            assert(fields@.drop_last() =~= before);
            assert(fields@.len() > 0);
            assert(fields@.last().0@ == nv[i as int]);
            assert(fields@.last().1.view_rec() == JsonV::UInt(n as u64));
            assert(view_obj(fields@) == view_obj(fields@.drop_last()).push(
                (fields@.last().0@, fields@.last().1.view_rec()),
            ));
            assert(view_obj(fields@) =~= view_obj(before).push(
                (nv[i as int], JsonV::UInt(n as u64)),
            ));
        }
        assert(view_obj(fields@) =~= failure_count_fields(sv, nv.take(i + 1)));
        i = i + 1;
    }
    assert(nv.take(7) =~= nv);
    jobj(fields)
}

/// The state a catalog's record states add up to.
pub fn catalog_state(states: &Vec<String>) -> (r: &'static str)
    ensures
        r@ == catalog_state_spec(crate::text::string_views(states@)),
{
    proof {
        assert(crate::host::words_view(["queued", "submitting", "preflight_passed"]@) =~= seq![
            "queued"@,
            "submitting"@,
            "preflight_passed"@,
        ]);
        assert(crate::host::words_view(["planned", "preflighting"]@) =~= seq![
            "planned"@,
            "preflighting"@,
        ]);
        assert(crate::host::words_view(["imported"]@) =~= seq!["imported"@]);
        assert(crate::host::words_view(["completed", "uploaded", "imported"]@) =~= seq![
            "completed"@,
            "uploaded"@,
            "imported"@,
        ]);
        assert(crate::host::words_view(
            [
                "unavailable",
                "preflight_failed",
                "submission_failed",
                "lost",
                "failed",
                "cancelled",
                "partial",
            ]@,
        ) =~= failure_words());
    }
    if has_state(states, "running") {
        "running"
    } else if has_state(states, "cancel_pending") {
        "cancel_pending"
    } else if has_state(states, "pending_review") {
        "pending_review"
    } else if any_state_in(states, &["queued", "submitting", "preflight_passed"]) {
        "queued"
    } else if any_state_in(states, &["planned", "preflighting"]) {
        "planned"
    } else if states.len() > 0 && all_states_in(states, &["imported"]) {
        "imported"
    } else if states.len() > 0 && all_states_in(states, &["completed", "uploaded", "imported"]) {
        "completed"
    } else if any_state_in(
        states,
        &[
            "unavailable",
            "preflight_failed",
            "submission_failed",
            "lost",
            "failed",
            "cancelled",
            "partial",
        ],
    ) {
        "partial"
    } else {
        "failed"
    }
}

/// Recompute a catalog entry's state, partial flag and failure counts from
/// its records; an entry with no records says that nothing was planned.
pub fn aggregate_catalog_entry(entry: &mut Json)
    requires
        settable_v(old(entry)@),
    ensures
        final(entry)@ == aggregate_catalog_spec(old(entry)@),
{
    broadcast use group_json_view;

    let states = collect_states(entry.get_items("records"));
    let state = catalog_state(&states);
    let failure_list = [
        "unavailable",
        "preflight_failed",
        "submission_failed",
        "lost",
        "failed",
        "cancelled",
        "partial",
    ];
    assert(crate::host::words_view(failure_list@) =~= failure_words());
    let partial = any_state_in(&states, &failure_list);
    let counts = failure_counts(&states);
    let empty = states.len() == 0;
    entry.set("state", jstr(state));
    entry.set("partial", Json::Bool(partial));
    entry.set("failure_counts", counts);
    if empty {
        let mut fields: Vec<(String, Json)> = Vec::new();
        fields.push(("code".to_string(), jstr("no_planned_records")));
        fields.push(
            (
                "message".to_string(),
                jstr(
                    "catalog carries no record attempts; nothing was planned, submitted or imported for it",
                ),
            ),
        );
        assert(view_obj(fields@) =~= seq![
            ("code"@, JsonV::Str("no_planned_records"@)),
            ("message"@, JsonV::Str(
                "catalog carries no record attempts; nothing was planned, submitted or imported for it"@,
            )),
        ]);
        entry.set("diagnostic", jobj(fields));
    }
}

// ---------------------------------------------------------------------------
// Single documents

/// Whether any catalog of a run ended in a failure state.
pub open spec fn has_failures_spec(run: JsonV) -> bool {
    exists|i: int|
        0 <= i < get_items_v(run, "catalogs"@).len() && match get_str_v(
            #[trigger] get_items_v(run, "catalogs"@)[i],
            "state"@,
        ) {
            Some(s) => failure_words().contains(s),
            None => false,
        }
}

fn is_failure_word(s: &str) -> (r: bool)
    ensures
        r == failure_words().contains(s@),
{
    let words = [
        "unavailable",
        "preflight_failed",
        "submission_failed",
        "lost",
        "failed",
        "cancelled",
        "partial",
    ];
    assert(crate::host::words_view(words@) =~= failure_words());
    let mut k: usize = 0;
    while k < 7
        invariant
            k <= 7,
            crate::host::words_view(words@) == failure_words(),
            forall|m: int| 0 <= m < k ==> failure_words()[m] != s@,
        decreases 7 - k,
    {
        if str_eq(words[k], s) {
            assert(failure_words()[k as int] == s@);
            return true;
        }
        k = k + 1;
    }
    false
}

/// Whether one or more catalogs of a run remain failed.
pub fn has_failures(run: &Json) -> (r: bool)
    ensures
        r == has_failures_spec(run@),
{
    let entries = run.get_items("catalogs");
    let ghost items = get_items_v(run@, "catalogs"@);
    proof {
        crate::json::lemma_view_arr(entries@);
    }
    let mut i: usize = 0;
    while i < entries.len()
        invariant
            i <= entries@.len(),
            items == get_items_v(run@, "catalogs"@),
            items == view_arr(entries@),
            items.len() == entries@.len(),
            forall|j: int| 0 <= j < entries@.len() ==> #[trigger] items[j] == entries@[j]@,
            forall|j: int|
                0 <= j < i ==> !(match get_str_v(#[trigger] items[j], "state"@) {
                    Some(s) => failure_words().contains(s),
                    None => false,
                }),
        decreases entries.len() - i,
    {
        assert(items[i as int] == entries@[i as int]@);
        match entries[i].get_str("state") {
            Some(s) => if is_failure_word(s) {
                return true;
            },
            None => {},
        }
        i = i + 1;
    }
    false
}

/// The record states that hold a slot on the host.
pub open spec fn occupies_host_spec(record: JsonV) -> bool {
    match get_str_v(record, "state"@) {
        Some(s) => s == "preflight_passed"@ || s == "submitting"@ || s == "queued"@ || s
            == "running"@,
        None => false,
    }
}

/// Whether a record is holding a slot on the host right now.
pub fn record_occupies_host(record: &Json) -> (r: bool)
    ensures
        r == occupies_host_spec(record@),
{
    match record.get_str("state") {
        Some(s) => str_eq(s, "preflight_passed") || str_eq(s, "submitting") || str_eq(s, "queued")
            || str_eq(s, "running"),
        None => false,
    }
}

/// How many records hold a slot on the host.
pub open spec fn occupying_count(records: Seq<JsonV>) -> nat
    decreases records.len(),
{
    if records.len() == 0 {
        0
    } else {
        occupying_count(records.drop_last()) + if occupies_host_spec(records.last()) {
            1nat
        } else {
            0nat
        }
    }
}

/// The named records that may continue, in order, starting with `occupied`
/// slots taken: a record already holding a slot always continues; another
/// continues only while fewer than `window` slots are taken, and takes one.
pub open spec fn admitted_from(records: Seq<JsonV>, occupied: nat, window: nat) -> Seq<Seq<char>>
    decreases records.len(),
{
    if records.len() == 0 {
        Seq::empty()
    } else {
        let r = records[0];
        let rest = records.drop_first();
        match get_str_v(r, "record"@) {
            None => admitted_from(rest, occupied, window),
            Some(name) => if occupies_host_spec(r) {
                seq![name] + admitted_from(rest, occupied, window)
            } else if occupied >= window {
                admitted_from(rest, occupied, window)
            } else {
                seq![name] + admitted_from(rest, occupied + 1, window)
            },
        }
    }
}

/// The records of a catalog that may continue on a host whose disk admits
/// `window` records in flight.
pub open spec fn admitted_spec(records: Seq<JsonV>, window: nat) -> Seq<Seq<char>> {
    admitted_from(records, occupying_count(records), window)
}

proof fn lemma_occupying_first(records: Seq<JsonV>)
    requires
        records.len() > 0,
    ensures
        occupying_count(records) == occupying_count(records.drop_first()) + if occupies_host_spec(
            records[0],
        ) {
            1nat
        } else {
            0nat
        },
    decreases records.len(),
{
    if records.len() > 1 {
        lemma_occupying_first(records.drop_last());
        assert(records.drop_last().drop_first() =~= records.drop_first().drop_last());
        assert(records.drop_last()[0] == records[0]);
        assert(records.drop_first().last() == records.last());
        let t = records.drop_first();
        assert(occupying_count(t) == occupying_count(t.drop_last()) + if occupies_host_spec(t.last()) {
            1nat
        } else {
            0nat
        });
    } else {
        assert(records.last() == records[0]);
        assert(occupying_count(records.drop_first()) == 0);
        assert(occupying_count(records.drop_last()) == 0);
    }
}

proof fn lemma_admitted_bound(records: Seq<JsonV>, occupied: nat, window: nat)
    ensures
        admitted_from(records, occupied, window).len() <= occupying_count(records) + if window
            > occupied {
            (window - occupied) as nat
        } else {
            0nat
        },
    decreases records.len(),
{
    if records.len() > 0 {
        let rest = records.drop_first();
        lemma_occupying_first(records);
        lemma_admitted_bound(rest, occupied, window);
        lemma_admitted_bound(rest, occupied + 1, window);
    }
}

/// Continuing a catalog never puts more of its records in flight on a host
/// than the host's window admits, beyond the records already holding a slot.
pub proof fn law_window_respected(records: Seq<JsonV>, window: nat)
    ensures
        admitted_spec(records, window).len() <= if window > occupying_count(records) {
            window
        } else {
            occupying_count(records)
        },
{
    lemma_admitted_bound(records, occupying_count(records), window);
}

fn count_occupying(records: &Vec<Json>) -> (r: usize)
    ensures
        r == occupying_count(crate::json::view_arr(records@)),
{
    broadcast use crate::json::group_json_view;

    proof {
        crate::json::lemma_view_arr(records@);
    }
    let ghost v = crate::json::view_arr(records@);
    let mut n: usize = 0;
    let mut i: usize = 0;
    while i < records.len()
        invariant
            i <= records@.len(),
            v == crate::json::view_arr(records@),
            v.len() == records@.len(),
            forall|j: int| 0 <= j < records@.len() ==> #[trigger] v[j] == records@[j]@,
            n == occupying_count(v.take(i as int)),
            n <= i,
        decreases records.len() - i,
    {
        assert(v.take(i + 1).drop_last() =~= v.take(i as int));
        assert(v.take(i + 1).last() == records@[i as int]@);
        if record_occupies_host(&records[i]) {
            n = n + 1;
        }
        i = i + 1;
    }
    assert(v.take(records@.len() as int) =~= v);
    n
}

/// Which records of a catalog continue now, given how many records the
/// host's disk admits in flight.
pub fn admitted_records(records: &Vec<Json>, window: usize) -> (r: Vec<String>)
    ensures
        r@.map_values(|x: String| x@) == admitted_spec(crate::json::view_arr(records@), window as nat),
{
    broadcast use crate::json::group_json_view;

    proof {
        crate::json::lemma_view_arr(records@);
    }
    let ghost v = crate::json::view_arr(records@);
    let mut occupied = count_occupying(records);
    let ghost total = admitted_spec(v, window as nat);
    let mut out: Vec<String> = Vec::new();
    let mut i: usize = 0;
    assert(v.skip(0) =~= v);
    while i < records.len()
        invariant
            i <= records@.len(),
            v == crate::json::view_arr(records@),
            v.len() == records@.len(),
            forall|j: int| 0 <= j < records@.len() ==> #[trigger] v[j] == records@[j]@,
            total == admitted_spec(v, window as nat),
            out@.map_values(|x: String| x@) + admitted_from(v.skip(i as int), occupied as nat, window as nat)
                == total,
        decreases records.len() - i,
    {
        let r = &records[i];
        assert(v.skip(i as int)[0] == r@);
        assert(v.skip(i as int).drop_first() =~= v.skip(i + 1));
        let ghost before = out@.map_values(|x: String| x@);
        match r.get_str("record") {
            None => {},
            Some(name) => {
                if record_occupies_host(r) {
                    out.push(String::from_str(name));
                    assert(out@.map_values(|x: String| x@) =~= before.push(name@));
                    assert(before.push(name@) + admitted_from(v.skip(i + 1), occupied as nat, window as nat)
                        =~= before + (seq![name@] + admitted_from(v.skip(i + 1), occupied as nat, window as nat)));
                } else if occupied < window {
                    out.push(String::from_str(name));
                    assert(out@.map_values(|x: String| x@) =~= before.push(name@));
                    assert(before.push(name@) + admitted_from(v.skip(i + 1), (occupied + 1) as nat, window as nat)
                        =~= before + (seq![name@] + admitted_from(v.skip(i + 1), (occupied + 1) as nat, window as nat)));
                    occupied = occupied + 1;
                }
            },
        }
        i = i + 1;
    }
    assert(admitted_from(v.skip(records@.len() as int), occupied as nat, window as nat) =~= Seq::empty());
    assert(out@.map_values(|x: String| x@) =~= total);
    out
}

/// The state Stado reports for a job: `state`, else `status`, else `unknown`.
pub open spec fn machine_state_spec(job: JsonV) -> Seq<char> {
    let v = match get_v(job, "state"@) {
        Some(x) => Some(x),
        None => get_v(job, "status"@),
    };
    match v {
        Some(x) => match str_v(x) {
            Some(s) => s,
            None => "unknown"@,
        },
        None => "unknown"@,
    }
}

pub fn machine_state(job: &Json) -> (r: &str)
    ensures
        r@ == machine_state_spec(job@),
{
    let v = match job.get("state") {
        Some(x) => Some(x),
        None => job.get("status"),
    };
    match v {
        Some(x) => match x.as_str() {
            Some(s) => s,
            None => "unknown",
        },
        None => "unknown",
    }
}

/// The machine states from which a job never moves again.
pub open spec fn terminal_machine_state_spec(state: Seq<char>) -> bool {
    terminal_words().contains(state)
}

pub open spec fn terminal_words() -> Seq<Seq<char>> {
    seq![
        "completed"@,
        "succeeded"@,
        "failed"@,
        "cancelled"@,
        "canceled"@,
        "lost"@,
        "reaped"@,
    ]
}

pub fn terminal_machine_state(state: &str) -> (r: bool)
    ensures
        r == terminal_machine_state_spec(state@),
{
    let words = ["completed", "succeeded", "failed", "cancelled", "canceled", "lost", "reaped"];
    let ghost wv = crate::host::words_view(words@);
    assert(wv =~= seq![
        "completed"@,
        "succeeded"@,
        "failed"@,
        "cancelled"@,
        "canceled"@,
        "lost"@,
        "reaped"@,
    ]);
    let mut k: usize = 0;
    while k < 7
        invariant
            k <= 7,
            wv == crate::host::words_view(words@),
            wv == terminal_words(),
            forall|m: int| 0 <= m < k ==> wv[m] != state@,
        decreases 7 - k,
    {
        if str_eq(words[k], state) {
            assert(wv[k as int] == state@);
            return true;
        }
        k = k + 1;
    }
    false
}

} // verus!

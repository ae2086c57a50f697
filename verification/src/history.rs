//! The attempt history of crawl records: every attempt a record has made is
//! kept as a snapshot under `attempts`, one per attempt id.
use vstd::prelude::*;
use crate::json::{
    get_str_v, get_u64_v, get_v, group_json_view, remove_v, set_v, view_arr, Json, JsonV,
};
use crate::text::{first_index, lemma_first_index};

verus! {

/// The attempt a record currently describes: its manifest's `attempt_id`,
/// else its own, else `legacy-job-` and its Stado job id.
pub open spec fn attempt_id_spec(record: JsonV) -> Option<Seq<char>> {
    let from_manifest = match get_v(record, "manifest"@) {
        Some(m) => get_str_v(m, "attempt_id"@),
        None => None,
    };
    match from_manifest {
        Some(a) => Some(a),
        None => match get_str_v(record, "attempt_id"@) {
            Some(a) => Some(a),
            None => match get_str_v(record, "stado_job_id"@) {
                Some(j) => Some("legacy-job-"@ + j),
                None => None,
            },
        },
    }
}

/// A record whose history can be written: when it names an attempt, its
/// `attempts` field is absent or an array.
pub open spec fn record_ready(record: JsonV) -> bool {
    attempt_id_spec(record) is Some ==> match get_v(record, "attempts"@) {
        None => true,
        Some(JsonV::Array(_)) => true,
        _ => false,
    }
}

/// The snapshot of a record for its attempt: the record without its history,
/// with the attempt id written in.
pub open spec fn snapshot_spec(record: JsonV, id: Seq<char>) -> JsonV {
    set_v(remove_v(record, "attempts"@), "attempt_id"@, JsonV::Str(id))
}

/// The attempts a record has recorded so far.
pub open spec fn attempts_of(record: JsonV) -> Seq<JsonV> {
    match get_v(record, "attempts"@) {
        Some(JsonV::Array(items)) => items,
        _ => Seq::empty(),
    }
}

/// An attempt snapshot for attempt `id`.
pub open spec fn is_attempt(id: Seq<char>) -> spec_fn(JsonV) -> bool {
    |a: JsonV| get_str_v(a, "attempt_id"@) == Some(id)
}

/// A record with the snapshot of its current attempt written into its
/// history: replacing the first snapshot of the same attempt, else appended.
pub open spec fn sync_record_spec(record: JsonV) -> JsonV {
    match attempt_id_spec(record) {
        None => record,
        Some(id) => {
            let snapshot = snapshot_spec(record, id);
            let attempts = attempts_of(record);
            let updated = match first_index(attempts, is_attempt(id)) {
                Some(k) => attempts.update(k, snapshot),
                None => attempts.push(snapshot),
            };
            set_v(record, "attempts"@, JsonV::Array(updated))
        },
    }
}

/// A catalog entry with the history of each of its records written.
pub open spec fn sync_catalog_spec(entry: JsonV) -> JsonV {
    match get_v(entry, "records"@) {
        Some(JsonV::Array(records)) => set_v(
            entry,
            "records"@,
            JsonV::Array(records.map_values(|r: JsonV| sync_record_spec(r))),
        ),
        _ => entry,
    }
}

/// A run with the history of every record of every catalog written.
pub open spec fn sync_run_spec(run: JsonV) -> JsonV {
    match get_v(run, "catalogs"@) {
        Some(JsonV::Array(catalogs)) => set_v(
            run,
            "catalogs"@,
            JsonV::Array(catalogs.map_values(|c: JsonV| sync_catalog_spec(c))),
        ),
        _ => run,
    }
}

pub open spec fn catalog_ready(entry: JsonV) -> bool {
    match get_v(entry, "records"@) {
        Some(JsonV::Array(records)) => forall|j: int|
            0 <= j < records.len() ==> record_ready(#[trigger] records[j]),
        _ => true,
    }
}

/// A run whose records' histories can all be written.
pub open spec fn sync_ready(run: JsonV) -> bool {
    match get_v(run, "catalogs"@) {
        Some(JsonV::Array(catalogs)) => forall|i: int|
            0 <= i < catalogs.len() ==> catalog_ready(#[trigger] catalogs[i]),
        _ => true,
    }
}

// ---------------------------------------------------------------------------
// Writing the history

fn attempt_id_of(record: &Json) -> (r: Option<String>)
    ensures
        match r {
            Some(s) => attempt_id_spec(record@) == Some(s@),
            None => attempt_id_spec(record@) is None,
        },
{
    let from_manifest = match record.get("manifest") {
        Some(m) => m.get_str("attempt_id"),
        None => None,
    };
    match from_manifest {
        Some(a) => Some(String::from_str(a)),
        None => match record.get_str("attempt_id") {
            Some(a) => Some(String::from_str(a)),
            None => match record.get_str("stado_job_id") {
                Some(j) => Some(crate::text::concat("legacy-job-", j)),
                None => None,
            },
        },
    }
}

fn attempt_position(attempts: &Vec<Json>, id: &str) -> (r: Option<usize>)
    ensures
        match r {
            Some(k) => first_index(view_arr(attempts@), is_attempt(id@)) == Some(k as int),
            None => first_index(view_arr(attempts@), is_attempt(id@)) is None,
        },
{
    let ghost av = view_arr(attempts@);
    let ghost f = is_attempt(id@);
    proof {
        crate::json::lemma_view_arr(attempts@);
    }
    let mut k: usize = 0;
    while k < attempts.len()
        invariant
            k <= attempts@.len(),
            av == view_arr(attempts@),
            av.len() == attempts@.len(),
            f == is_attempt(id@),
            forall|j: int| 0 <= j < attempts@.len() ==> #[trigger] av[j] == attempts@[j]@,
            forall|j: int| 0 <= j < k ==> !f(#[trigger] av[j]),
        decreases attempts.len() - k,
    {
        let hit = match attempts[k].get_str("attempt_id") {
            Some(a) => crate::text::str_eq(a, id),
            None => false,
        };
        assert(av[k as int] == attempts@[k as int]@);
        if hit {
            proof {
                lemma_first_index(av, f, k as int);
            }
            return Some(k);
        }
        k = k + 1;
    }
    proof {
        lemma_first_index(av, f, k as int);
    }
    None
}

/// Write the snapshot of a record's current attempt into its history.
pub fn sync_record(record: &mut Json)
    requires
        record_ready(old(record)@),
    ensures
        final(record)@ == sync_record_spec(old(record)@),
{
    broadcast use group_json_view;

    let id = match attempt_id_of(record) {
        Some(id) => id,
        None => return,
    };
    let mut snapshot = record.duplicate();
    snapshot.remove("attempts");
    proof {
        assert(record@ is Object) by {
            if !(record@ is Object) {
                assert(get_v(record@, "manifest"@) is None);
            }
        }
        if !(snapshot@ is Object) {
            assert(false);
        }
    }
    snapshot.set("attempt_id", Json::Str(id.clone()));
    let mut attempts: Vec<Json> = match record.get("attempts") {
        Some(a) => match a.duplicate() {
            Json::Array(items) => items,
            _ => Vec::new(),
        },
        None => Vec::new(),
    };
    assert(view_arr(attempts@) == attempts_of(record@)) by {
        if get_v(record@, "attempts"@) is None {
            assert(view_arr(attempts@) =~= Seq::<JsonV>::empty());
        }
    }
    let ghost before = attempts@;
    proof {
        crate::json::lemma_view_arr(attempts@);
        crate::text::lemma_first_index_found(view_arr(attempts@), is_attempt(id@));
    }
    match attempt_position(&attempts, id.as_str()) {
        Some(k) => {
            attempts.set(k, snapshot);
            proof {
                crate::json::lemma_view_arr(attempts@);
                crate::json::lemma_view_arr(before);
            }
            assert(view_arr(attempts@) =~= view_arr(before).update(
                k as int,
                snapshot_spec(record@, id@),
            ));
        },
        None => {
            attempts.push(snapshot);
            proof {
                crate::json::lemma_view_arr(attempts@);
                crate::json::lemma_view_arr(before);
            }
            assert(view_arr(attempts@) =~= view_arr(before).push(snapshot_spec(record@, id@)));
        },
    }
    record.set("attempts", Json::Array(attempts));
}

fn sync_records(records: &Vec<Json>) -> (r: Vec<Json>)
    requires
        forall|j: int| 0 <= j < records@.len() ==> record_ready(#[trigger] records@[j]@),
    ensures
        view_arr(r@) == view_arr(records@).map_values(|x: JsonV| sync_record_spec(x)),
{
    proof {
        crate::json::lemma_view_arr(records@);
    }
    let mut out: Vec<Json> = Vec::new();
    let mut i: usize = 0;
    while i < records.len()
        invariant
            i <= records@.len(),
            forall|j: int| 0 <= j < records@.len() ==> record_ready(#[trigger] records@[j]@),
            view_arr(records@).len() == records@.len(),
            forall|j: int| 0 <= j < records@.len() ==> #[trigger] view_arr(records@)[j] == records@[j]@,
            out@.len() == i,
            forall|j: int| 0 <= j < i ==> #[trigger] out@[j]@ == sync_record_spec(records@[j]@),
        decreases records.len() - i,
    {
        let mut r = records[i].duplicate();
        sync_record(&mut r);
        out.push(r);
        i = i + 1;
    }
    proof {
        crate::json::lemma_view_arr(out@);
    }
    assert forall|j: int| 0 <= j < out@.len() implies #[trigger] view_arr(out@)[j]
        == view_arr(records@).map_values(|x: JsonV| sync_record_spec(x))[j] by {
        assert(view_arr(out@)[j] == out@[j]@);
        assert(view_arr(records@)[j] == records@[j]@);
    }
    assert(view_arr(out@) =~= view_arr(records@).map_values(|x: JsonV| sync_record_spec(x)));
    out
}

fn sync_catalog(entry: &mut Json)
    requires
        catalog_ready(old(entry)@),
    ensures
        final(entry)@ == sync_catalog_spec(old(entry)@),
{
    broadcast use group_json_view;

    let updated = match entry.get("records") {
        Some(Json::Array(records)) => {
            proof {
                crate::json::lemma_view_arr(records@);
                assert forall|j: int| 0 <= j < records@.len() implies record_ready(
                    #[trigger] records@[j]@,
                ) by {
                    assert(view_arr(records@)[j] == records@[j]@);
                }
            }
            sync_records(records)
        },
        _ => return,
    };
    entry.set("records", Json::Array(updated));
}

/// Write every record's current attempt into its history, across a run.
pub fn sync_attempt_history(run: &mut Json)
    requires
        sync_ready(old(run)@),
    ensures
        final(run)@ == sync_run_spec(old(run)@),
{
    broadcast use group_json_view;

    let updated = match run.get("catalogs") {
        Some(Json::Array(catalogs)) => {
            proof {
                crate::json::lemma_view_arr(catalogs@);
            }
            let mut out: Vec<Json> = Vec::new();
            let mut i: usize = 0;
            while i < catalogs.len()
                invariant
                    i <= catalogs@.len(),
                    view_arr(catalogs@).len() == catalogs@.len(),
                    forall|j: int|
                        0 <= j < catalogs@.len() ==> #[trigger] view_arr(catalogs@)[j]
                            == catalogs@[j]@,
                    forall|j: int|
                        0 <= j < catalogs@.len() ==> catalog_ready(#[trigger] view_arr(catalogs@)[j]),
                    out@.len() == i,
                    forall|j: int|
                        0 <= j < i ==> #[trigger] out@[j]@ == sync_catalog_spec(catalogs@[j]@),
                decreases catalogs.len() - i,
            {
                let mut c = catalogs[i].duplicate();
                assert(view_arr(catalogs@)[i as int] == catalogs@[i as int]@);
                sync_catalog(&mut c);
                out.push(c);
                i = i + 1;
            }
            proof {
                crate::json::lemma_view_arr(out@);
            }
            assert forall|j: int| 0 <= j < out@.len() implies #[trigger] view_arr(out@)[j]
                == view_arr(catalogs@).map_values(|x: JsonV| sync_catalog_spec(x))[j] by {
                assert(view_arr(out@)[j] == out@[j]@);
                assert(view_arr(catalogs@)[j] == catalogs@[j]@);
            }
            assert(view_arr(out@) =~= view_arr(catalogs@).map_values(
                |x: JsonV| sync_catalog_spec(x),
            ));
            out
        },
        _ => return,
    };
    run.set("catalogs", Json::Array(updated));
}

// ---------------------------------------------------------------------------
// Writing the history twice

proof fn lemma_keys_distinct()
    ensures
        "attempts"@ != "manifest"@,
        "attempts"@ != "attempt_id"@,
        "attempts"@ != "stado_job_id"@,
{
    reveal_strlit("attempts");
    reveal_strlit("manifest");
    reveal_strlit("attempt_id");
    reveal_strlit("stado_job_id");
    assert("attempts"@[0] != "manifest"@[0]);
    assert("attempts"@.len() != "attempt_id"@.len());
    assert("attempts"@.len() != "stado_job_id"@.len());
}

proof fn lemma_sync_record_idempotent(r: JsonV)
    requires
        record_ready(r),
    ensures
        record_ready(sync_record_spec(r)),
        attempt_id_spec(sync_record_spec(r)) == attempt_id_spec(r),
        sync_record_spec(sync_record_spec(r)) == sync_record_spec(r),
{
    match attempt_id_spec(r) {
        None => {},
        Some(id) => {
            lemma_keys_distinct();
            assert(r is Object) by {
                if !(r is Object) {
                    assert(get_v(r, "manifest"@) is None);
                }
            }
            let f = is_attempt(id);
            let snap = snapshot_spec(r, id);
            let a = attempts_of(r);
            let upd = match first_index(a, f) {
                Some(k) => a.update(k, snap),
                None => a.push(snap),
            };
            let r1 = set_v(r, "attempts"@, JsonV::Array(upd));
            assert(r1 == sync_record_spec(r));
            crate::json::lemma_get_set(r, "attempts"@, JsonV::Array(upd), "manifest"@);
            crate::json::lemma_get_set(r, "attempts"@, JsonV::Array(upd), "attempt_id"@);
            crate::json::lemma_get_set(r, "attempts"@, JsonV::Array(upd), "stado_job_id"@);
            assert(attempt_id_spec(r1) == Some(id));
            assert(attempts_of(r1) == upd);
            crate::json::lemma_remove_set(r, "attempts"@, JsonV::Array(upd));
            assert(snapshot_spec(r1, id) == snap);
            let removed = remove_v(r, "attempts"@);
            assert(removed is Object);
            crate::json::lemma_get_set(removed, "attempt_id"@, JsonV::Str(id), "attempt_id"@);
            assert(f(snap));
            crate::text::lemma_first_index_found(a, f);
            match first_index(a, f) {
                Some(k) => {
                    assert forall|j: int| 0 <= j < k implies !f(#[trigger] upd[j]) by {
                        assert(upd[j] == a[j]);
                    }
                    lemma_first_index(upd, f, k);
                    assert(upd.update(k, snap) =~= upd);
                },
                None => {
                    assert forall|j: int| 0 <= j < a.len() implies !f(#[trigger] upd[j]) by {
                        assert(upd[j] == a[j]);
                    }
                    lemma_first_index(upd, f, a.len() as int);
                    assert(upd.update(a.len() as int, snap) =~= upd);
                },
            }
            crate::json::lemma_get_set(r, "attempts"@, JsonV::Array(upd), "attempts"@);
            crate::json::lemma_set_same(r1, "attempts"@, JsonV::Array(upd));
        },
    }
}

proof fn lemma_sync_catalog_idempotent(c: JsonV)
    requires
        catalog_ready(c),
    ensures
        catalog_ready(sync_catalog_spec(c)),
        sync_catalog_spec(sync_catalog_spec(c)) == sync_catalog_spec(c),
{
    match get_v(c, "records"@) {
        Some(JsonV::Array(records)) => {
            let g = |x: JsonV| sync_record_spec(x);
            let once = records.map_values(g);
            let c1 = set_v(c, "records"@, JsonV::Array(once));
            assert forall|j: int| 0 <= j < records.len() implies record_ready(#[trigger] once[j])
                && g(once[j]) == once[j] by {
                lemma_sync_record_idempotent(records[j]);
            }
            crate::json::lemma_get_set(c, "records"@, JsonV::Array(once), "records"@);
            assert(once.map_values(g) =~= once);
            crate::json::lemma_set_same(c1, "records"@, JsonV::Array(once));
        },
        _ => {},
    }
}

fn record_history_ready(record: &Json) -> (r: bool)
    ensures
        r == record_ready(record@),
{
    match attempt_id_of(record) {
        None => true,
        Some(_) => match record.get("attempts") {
            None => true,
            Some(Json::Array(_)) => true,
            Some(_) => false,
        },
    }
}

fn catalog_history_ready(entry: &Json) -> (r: bool)
    ensures
        r == catalog_ready(entry@),
{
    broadcast use group_json_view;

    match entry.get("records") {
        Some(Json::Array(records)) => {
            proof {
                crate::json::lemma_view_arr(records@);
            }
            assert(get_v(entry@, "records"@) == Some(JsonV::Array(view_arr(records@))));
            let mut i: usize = 0;
            while i < records.len()
                invariant
                    get_v(entry@, "records"@) == Some(JsonV::Array(view_arr(records@))),
                    i <= records@.len(),
                    view_arr(records@).len() == records@.len(),
                    forall|j: int| 0 <= j < records@.len() ==> #[trigger] view_arr(records@)[j] == records@[j]@,
                    forall|j: int| 0 <= j < i ==> record_ready(#[trigger] view_arr(records@)[j]),
                decreases records.len() - i,
            {
                if !record_history_ready(&records[i]) {
                    assert(!record_ready(view_arr(records@)[i as int]));
                    assert(get_v(entry@, "records"@) matches Some(JsonV::Array(x)) && x == view_arr(
                        records@,
                    ));
                    return false;
                }
                i = i + 1;
            }
            true
        },
        _ => true,
    }
}

/// Whether every record's history of a run can be written: a record that
/// names an attempt keeps its `attempts`, if any, as an array.
pub fn history_ready(run: &Json) -> (r: bool)
    ensures
        r == sync_ready(run@),
{
    broadcast use group_json_view;

    match run.get("catalogs") {
        Some(Json::Array(catalogs)) => {
            proof {
                crate::json::lemma_view_arr(catalogs@);
            }
            assert(get_v(run@, "catalogs"@) == Some(JsonV::Array(view_arr(catalogs@))));
            let mut i: usize = 0;
            while i < catalogs.len()
                invariant
                    get_v(run@, "catalogs"@) == Some(JsonV::Array(view_arr(catalogs@))),
                    i <= catalogs@.len(),
                    view_arr(catalogs@).len() == catalogs@.len(),
                    forall|j: int| 0 <= j < catalogs@.len() ==> #[trigger] view_arr(catalogs@)[j] == catalogs@[j]@,
                    forall|j: int| 0 <= j < i ==> catalog_ready(#[trigger] view_arr(catalogs@)[j]),
                decreases catalogs.len() - i,
            {
                if !catalog_history_ready(&catalogs[i]) {
                    assert(!catalog_ready(view_arr(catalogs@)[i as int]));
                    assert(get_v(run@, "catalogs"@) matches Some(JsonV::Array(x)) && x == view_arr(
                        catalogs@,
                    ));
                    return false;
                }
                i = i + 1;
            }
            true
        },
        _ => true,
    }
}

// ---------------------------------------------------------------------------
// Persisting a run

/// The mutation revision a run document carries; 0 when it has none.
pub open spec fn run_revision(run: JsonV) -> u64 {
    match get_u64_v(run, "mutation_revision"@) {
        Some(n) => n,
        None => 0,
    }
}

/// Why a run may not be written over what is on disk.
pub enum PersistError {
    /// The run on disk is at another revision (expected, found).
    ChangedConcurrently(u64, u64),
    /// No run is on disk although this one was loaded at a revision.
    Disappeared(u64),
}

/// The document written for a run: its histories written, its revision one
/// past the loaded one, and its update time `now`.
pub open spec fn staged_spec(run: JsonV, now: Seq<char>) -> JsonV {
    set_v(
        set_v(
            sync_run_spec(run),
            "mutation_revision"@,
            JsonV::UInt((run_revision(run) + 1) as u64),
        ),
        "updated_at"@,
        JsonV::Str(now),
    )
}

/// The document to write for a run loaded at its revision, given the run now
/// on disk (`None` when there is none); refused when they have diverged.
pub fn staged_run(run: &Json, on_disk: Option<&Json>, now: &str) -> (r: Result<Json, PersistError>)
    requires
        crate::json::settable_v(run@),
        sync_ready(run@),
        run_revision(run@) < u64::MAX,
    ensures
        match on_disk {
            Some(current) => if run_revision(current@) != run_revision(run@) {
                r matches Err(PersistError::ChangedConcurrently(e, a)) && e == run_revision(run@)
                    && a == run_revision(current@)
            } else {
                r matches Ok(s) && s@ == staged_spec(run@, now@)
            },
            None => if run_revision(run@) != 0 {
                r matches Err(PersistError::Disappeared(e)) && e == run_revision(run@)
            } else {
                r matches Ok(s) && s@ == staged_spec(run@, now@)
            },
        },
{
    broadcast use group_json_view;

    let expected: u64 = match run.get_u64("mutation_revision") {
        Some(n) => n,
        None => 0,
    };
    match on_disk {
        Some(current) => {
            let actual: u64 = match current.get_u64("mutation_revision") {
                Some(n) => n,
                None => 0,
            };
            if actual != expected {
                return Err(PersistError::ChangedConcurrently(expected, actual));
            }
        },
        None => {
            if expected != 0 {
                return Err(PersistError::Disappeared(expected));
            }
        },
    }
    let mut staged = run.duplicate();
    sync_attempt_history(&mut staged);
    staged.set("mutation_revision", Json::UInt(expected + 1));
    staged.set("updated_at", crate::json::jstr(now));
    Ok(staged)
}

/// Writing the attempt history of a run a second time changes nothing: each
/// record's current attempt is already its history's snapshot.
pub proof fn law_sync_attempt_history_idempotent(run: JsonV)
    requires
        sync_ready(run),
    ensures
        sync_ready(sync_run_spec(run)),
        sync_run_spec(sync_run_spec(run)) == sync_run_spec(run),
{
    match get_v(run, "catalogs"@) {
        Some(JsonV::Array(catalogs)) => {
            let g = |x: JsonV| sync_catalog_spec(x);
            let once = catalogs.map_values(g);
            let run1 = set_v(run, "catalogs"@, JsonV::Array(once));
            assert forall|i: int| 0 <= i < catalogs.len() implies catalog_ready(#[trigger] once[i])
                && g(once[i]) == once[i] by {
                lemma_sync_catalog_idempotent(catalogs[i]);
            }
            crate::json::lemma_get_set(run, "catalogs"@, JsonV::Array(once), "catalogs"@);
            assert(once.map_values(g) =~= once);
            crate::json::lemma_set_same(run1, "catalogs"@, JsonV::Array(once));
        },
        _ => {},
    }
}

} // verus!

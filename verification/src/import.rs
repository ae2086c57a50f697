//! Importing accepted crawl attempts: which records are ready, what binds a
//! worker's report to the immutable attempt and to the retained submission
//! receipt, and what an import writes on the record.
use vstd::prelude::*;
use crate::crawl::{selected_matches, selected_matches_spec};
use crate::json::{
    get_str_v, get_u64_v, get_v, group_json_view, jobj, jstr, obj2, set_v, settable_v, view_arr,
    view_obj, Json, JsonV,
};
use crate::submission::lower_digest;
use crate::text::{chars_of, str_eq};

verus! {

// ---------------------------------------------------------------------------
// What binds a worker report

/// The report fields that must equal the immutable attempt's, in the order
/// they are compared.
pub open spec fn bound_fields() -> Seq<Seq<char>> {
    seq![
        "run_id"@,
        "catalog"@,
        "record"@,
        "record_key"@,
        "attempt_id"@,
        "engine"@,
        "source_revision"@,
        "source_input_sha256"@,
        "reference_sha256"@,
        "bindings_file_sha256"@,
        "bindings_sha256"@,
    ]
}

/// Whether a report field equals the manifest's.
pub open spec fn field_bound(report: JsonV, manifest: JsonV, field: Seq<char>) -> bool {
    get_str_v(manifest, field) is Some && get_str_v(report, field) == get_str_v(manifest, field)
}

/// The first bound field the report does not carry as the manifest does.
pub open spec fn first_unbound(report: JsonV, manifest: JsonV) -> Option<int> {
    crate::text::first_index(bound_fields(), |f: Seq<char>| !field_bound(report, manifest, f))
}

/// Why a worker report does not prove its attempt.
pub enum ReportError {
    /// A bound field differs from the immutable attempt (the field).
    FieldDiffers(&'static str),
    /// The attempt number differs.
    AttemptDiffers,
    /// The report is not in the state the import requires.
    StateDiffers,
    /// The report has no published artifact object.
    NoArtifact,
    /// The artifact URI is not the attempt's.
    ArtifactUri,
    /// The artifact has no lowercase SHA-256 digest.
    NoArtifactDigest,
    /// The artifact has no positive byte count.
    NoArtifactBytes,
    /// The record retains no Stado job id.
    NoJobId,
    /// The receipt names another job.
    ReceiptJob,
    /// The receipt binds another source revision.
    ReceiptRevision,
    /// The receipt's output URI is not the attempt's.
    ReceiptOutput,
}

/// [`ReportError`] over character sequences.
pub enum ReportFault {
    FieldDiffers(Seq<char>),
    AttemptDiffers,
    StateDiffers,
    NoArtifact,
    ArtifactUri,
    NoArtifactDigest,
    NoArtifactBytes,
    NoJobId,
    ReceiptJob,
    ReceiptRevision,
    ReceiptOutput,
}

impl ReportError {
    pub open spec fn fault(&self) -> ReportFault {
        match self {
            ReportError::FieldDiffers(f) => ReportFault::FieldDiffers(f@),
            ReportError::AttemptDiffers => ReportFault::AttemptDiffers,
            ReportError::StateDiffers => ReportFault::StateDiffers,
            ReportError::NoArtifact => ReportFault::NoArtifact,
            ReportError::ArtifactUri => ReportFault::ArtifactUri,
            ReportError::NoArtifactDigest => ReportFault::NoArtifactDigest,
            ReportError::NoArtifactBytes => ReportFault::NoArtifactBytes,
            ReportError::NoJobId => ReportFault::NoJobId,
            ReportError::ReceiptJob => ReportFault::ReceiptJob,
            ReportError::ReceiptRevision => ReportFault::ReceiptRevision,
            ReportError::ReceiptOutput => ReportFault::ReceiptOutput,
        }
    }
}

/// The first element of an array, or the field `0` of an object: the
/// `/0` step of a JSON pointer.
pub open spec fn pointer_zero(v: JsonV) -> Option<JsonV> {
    match v {
        JsonV::Array(items) => if items.len() > 0 {
            Some(items[0])
        } else {
            None
        },
        JsonV::Object(_) => get_v(v, "0"@),
        _ => None,
    }
}

/// The output URI a receipt binds: `/stado_receipt/jobs/0/output_uri`.
pub open spec fn receipt_output_uri(receipt: JsonV) -> Option<Seq<char>> {
    match get_v(receipt, "stado_receipt"@) {
        Some(r) => match get_v(r, "jobs"@) {
            Some(jobs) => match pointer_zero(jobs) {
                Some(job) => get_str_v(job, "output_uri"@),
                None => None,
            },
            None => None,
        },
        None => None,
    }
}

/// The receipt's source revision: `/stado_receipt/source_revision`.
pub open spec fn receipt_revision(receipt: JsonV) -> Option<Seq<char>> {
    match get_v(receipt, "stado_receipt"@) {
        Some(r) => get_str_v(r, "source_revision"@),
        None => None,
    }
}

/// The artifact a report publishes, when it is an object.
pub open spec fn report_artifact(report: JsonV) -> Option<JsonV> {
    match get_v(report, "artifact"@) {
        Some(a) => if a is Object {
            Some(a)
        } else {
            None
        },
        None => None,
    }
}

/// What checking a worker report against its attempt gives: the first
/// refusal, or the proven artifact (digest, byte count, artifact object).
pub open spec fn report_check(
    report: JsonV,
    manifest: JsonV,
    entry: JsonV,
    receipt: JsonV,
    expected_state: Seq<char>,
) -> Result<(Seq<char>, u64, JsonV), ReportFault> {
    match first_unbound(report, manifest) {
        Some(i) => Err(ReportFault::FieldDiffers(bound_fields()[i])),
        None => if get_u64_v(manifest, "attempt"@) is None || get_u64_v(report, "attempt"@)
            != get_u64_v(manifest, "attempt"@) {
            Err(ReportFault::AttemptDiffers)
        } else if get_str_v(report, "state"@) != Some(expected_state) {
            Err(ReportFault::StateDiffers)
        } else {
            match report_artifact(report) {
                None => Err(ReportFault::NoArtifact),
                Some(artifact) => if get_str_v(artifact, "uri"@) is None || get_str_v(
                    artifact,
                    "uri"@,
                ) != get_str_v(manifest, "artifact_uri"@) {
                    Err(ReportFault::ArtifactUri)
                } else {
                    match get_str_v(artifact, "sha256"@) {
                        Some(d) if lower_digest(d) => match get_u64_v(artifact, "bytes"@) {
                            Some(n) if n > 0 => match get_str_v(entry, "stado_job_id"@) {
                                None => Err(ReportFault::NoJobId),
                                Some(job) => if get_str_v(receipt, "stado_job_id"@) != Some(job) {
                                    Err(ReportFault::ReceiptJob)
                                } else if receipt_revision(receipt) is None || receipt_revision(
                                    receipt,
                                ) != get_str_v(manifest, "source_revision"@) {
                                    Err(ReportFault::ReceiptRevision)
                                } else if receipt_output_uri(receipt) is None
                                    || receipt_output_uri(receipt) != get_str_v(
                                    manifest,
                                    "output_uri"@,
                                ) {
                                    Err(ReportFault::ReceiptOutput)
                                } else {
                                    Ok((d, n, artifact))
                                },
                            },
                            _ => Err(ReportFault::NoArtifactBytes),
                        },
                        _ => Err(ReportFault::NoArtifactDigest),
                    }
                },
            }
        },
    }
}

fn same_str(a: &Json, b: &Json, key: &str) -> (r: bool)
    ensures
        r == (get_str_v(b@, key@) is Some && get_str_v(a@, key@) == get_str_v(b@, key@)),
{
    match (a.get_str(key), b.get_str(key)) {
        (Some(x), Some(y)) => str_eq(x, y),
        _ => false,
    }
}

fn pointer_zero_exec(v: &Json) -> (r: Option<&Json>)
    ensures
        match r {
            Some(x) => pointer_zero(v@) == Some(x@),
            None => pointer_zero(v@) is None,
        },
{
    broadcast use group_json_view;

    match v {
        Json::Array(items) => {
            proof {
                crate::json::lemma_view_arr(items@);
            }
            if items.len() > 0 {
                Some(&items[0])
            } else {
                None
            }
        },
        Json::Object(_) => v.get("0"),
        _ => None,
    }
}

/// Check that a worker report proves the immutable attempt it claims, in
/// the state the import requires, against the record and its retained
/// submission receipt; the proof is the artifact's digest, byte count and
/// object.
pub fn verify_worker_report(
    report: &Json,
    manifest: &Json,
    entry: &Json,
    receipt: &Json,
    expected_state: &str,
) -> (r: Result<Json, ReportError>)
    ensures
        match report_check(report@, manifest@, entry@, receipt@, expected_state@) {
            Ok((d, n, artifact)) => r matches Ok(p) && p@ == JsonV::Object(
                seq![
                    ("sha256"@, JsonV::Str(d)),
                    ("bytes"@, JsonV::UInt(n)),
                    ("artifact"@, artifact),
                ],
            ),
            Err(f) => r matches Err(e) && e.fault() == f,
        },
{
    broadcast use group_json_view;

    let fields: [&'static str; 11] = [
        "run_id",
        "catalog",
        "record",
        "record_key",
        "attempt_id",
        "engine",
        "source_revision",
        "source_input_sha256",
        "reference_sha256",
        "bindings_file_sha256",
        "bindings_sha256",
    ];
    let ghost fv = crate::host::words_view(fields@);
    let ghost f = |x: Seq<char>| !field_bound(report@, manifest@, x);
    assert(fv =~= bound_fields());
    let mut i: usize = 0;
    while i < 11
        invariant
            i <= 11,
            fv == crate::host::words_view(fields@),
            fv == bound_fields(),
            f == (|x: Seq<char>| !field_bound(report@, manifest@, x)),
            forall|j: int| 0 <= j < i ==> !f(#[trigger] fv[j]),
        decreases 11 - i,
    {
        if !same_str(report, manifest, fields[i]) {
            assert(f(fv[i as int]));
            proof {
                crate::text::lemma_first_index(fv, f, i as int);
            }
            return Err(ReportError::FieldDiffers(fields[i]));
        }
        i = i + 1;
    }
    proof {
        crate::text::lemma_first_index(fv, f, 11);
    }
    match manifest.get_u64("attempt") {
        Some(n) => if report.get_u64("attempt") != Some(n) {
            return Err(ReportError::AttemptDiffers);
        },
        None => return Err(ReportError::AttemptDiffers),
    }
    match report.get_str("state") {
        Some(s) => if !str_eq(s, expected_state) {
            return Err(ReportError::StateDiffers);
        },
        None => return Err(ReportError::StateDiffers),
    }
    let artifact = match report.get("artifact") {
        Some(a) => if a.is_object() {
            a
        } else {
            return Err(ReportError::NoArtifact);
        },
        None => return Err(ReportError::NoArtifact),
    };
    match (artifact.get_str("uri"), manifest.get_str("artifact_uri")) {
        (Some(u), Some(m)) => if !str_eq(u, m) {
            return Err(ReportError::ArtifactUri);
        },
        _ => return Err(ReportError::ArtifactUri),
    }
    let digest = match artifact.get_str("sha256") {
        Some(d) => if crate::submission::is_lower_digest(d) {
            d
        } else {
            return Err(ReportError::NoArtifactDigest);
        },
        None => return Err(ReportError::NoArtifactDigest),
    };
    let bytes = match artifact.get_u64("bytes") {
        Some(n) => if n > 0 {
            n
        } else {
            return Err(ReportError::NoArtifactBytes);
        },
        None => return Err(ReportError::NoArtifactBytes),
    };
    let job = match entry.get_str("stado_job_id") {
        Some(j) => j,
        None => return Err(ReportError::NoJobId),
    };
    match receipt.get_str("stado_job_id") {
        Some(j) => if !str_eq(j, job) {
            return Err(ReportError::ReceiptJob);
        },
        None => return Err(ReportError::ReceiptJob),
    }
    let bound = match receipt.get("stado_receipt") {
        Some(r) => r,
        None => return Err(ReportError::ReceiptRevision),
    };
    match (bound.get_str("source_revision"), manifest.get_str("source_revision")) {
        (Some(a), Some(b)) => if !str_eq(a, b) {
            return Err(ReportError::ReceiptRevision);
        },
        _ => return Err(ReportError::ReceiptRevision),
    }
    let output = match bound.get("jobs") {
        Some(jobs) => match pointer_zero_exec(jobs) {
            Some(first) => first.get_str("output_uri"),
            None => None,
        },
        None => None,
    };
    match (output, manifest.get_str("output_uri")) {
        (Some(a), Some(b)) => if !str_eq(a, b) {
            return Err(ReportError::ReceiptOutput);
        },
        _ => return Err(ReportError::ReceiptOutput),
    }
    Ok(crate::json::jobj3("sha256", jstr(digest), "bytes", Json::UInt(bytes), "artifact", artifact.duplicate()))
}

// ---------------------------------------------------------------------------
// Which records are imported

/// The name an entry carries under `key`, or empty.
pub open spec fn name_of(v: JsonV, key: Seq<char>) -> Seq<char> {
    match get_str_v(v, key) {
        Some(s) => s,
        None => Seq::empty(),
    }
}

/// Whether a record's accepted attempt may be imported under a selection:
/// it answers the selection and its job completed or uploaded.
pub open spec fn import_ready_record(record: JsonV, selected: Option<Seq<char>>) -> bool {
    selected_matches_spec(name_of(record, "record"@), selected) && (get_str_v(record, "state"@)
        == Some("completed"@) || get_str_v(record, "state"@) == Some("uploaded"@))
}

/// The (catalog, engine, record) names of the records an import addresses,
/// in run order.
pub open spec fn import_candidates_from(catalogs: Seq<JsonV>, selected: Option<Seq<char>>) -> Seq<
    (Seq<char>, Seq<char>, Seq<char>),
>
    decreases catalogs.len(),
{
    if catalogs.len() == 0 {
        Seq::empty()
    } else {
        let c = catalogs.last();
        let records = crate::json::get_items_v(c, "records"@);
        import_candidates_from(catalogs.drop_last(), selected) + records.filter(
            |r: JsonV| import_ready_record(r, selected),
        ).map_values(|r: JsonV| (name_of(c, "catalog"@), name_of(c, "engine"@), name_of(r, "record"@)))
    }
}

proof fn lemma_filtered_member(items: Seq<JsonV>, pred: spec_fn(JsonV) -> bool, r: JsonV)
    requires
        items.filter(pred).contains(r),
    ensures
        items.contains(r),
    decreases items.len(),
{
    reveal(Seq::filter);
    if items.len() > 0 {
        let rest = items.drop_last();
        let sub = rest.filter(pred);
        if sub.contains(r) {
            lemma_filtered_member(rest, pred, r);
            let j = choose|j: int| 0 <= j < rest.len() && rest[j] == r;
            assert(items[j] == r);
        } else {
            let out = items.filter(pred);
            let k = choose|k: int| 0 <= k < out.len() && out[k] == r;
            if pred(items.last()) {
                if k < sub.len() {
                    assert(out[k] == sub[k]);
                }
                assert(items[items.len() - 1] == r);
            } else {
                assert(out[k] == sub[k]);
            }
        }
    }
}

/// Whether `t` names, with its catalog and engine, a record of `catalogs`
/// that answers the selection and whose job completed or uploaded.
pub open spec fn names_ready_record(
    catalogs: Seq<JsonV>,
    selected: Option<Seq<char>>,
    t: (Seq<char>, Seq<char>, Seq<char>),
) -> bool {
    exists|i: int, r: JsonV|
        0 <= i < catalogs.len() && #[trigger] crate::json::get_items_v(catalogs[i], "records"@).contains(r)
            && selected_matches_spec(name_of(r, "record"@), selected) && (get_str_v(r, "state"@) == Some(
            "completed"@,
        ) || get_str_v(r, "state"@) == Some("uploaded"@)) && t == (
            name_of(catalogs[i], "catalog"@),
            name_of(catalogs[i], "engine"@),
            name_of(r, "record"@),
        )
}

/// An import addresses exactly the records that answer its selection and
/// whose job completed or uploaded: each candidate names such a record with
/// its catalog and engine, and each such record of every catalog is a
/// candidate.
pub proof fn law_import_candidates(catalogs: Seq<JsonV>, selected: Option<Seq<char>>)
    ensures
        forall|k: int|
            0 <= k < import_candidates_from(catalogs, selected).len() ==> names_ready_record(
                catalogs,
                selected,
                #[trigger] import_candidates_from(catalogs, selected)[k],
            ),
        forall|i: int, r: JsonV|
            0 <= i < catalogs.len() && #[trigger] crate::json::get_items_v(catalogs[i], "records"@).contains(r)
                && selected_matches_spec(name_of(r, "record"@), selected) && (get_str_v(r, "state"@)
                == Some("completed"@) || get_str_v(r, "state"@) == Some("uploaded"@))
                ==> import_candidates_from(catalogs, selected).contains(
                (name_of(catalogs[i], "catalog"@), name_of(catalogs[i], "engine"@), name_of(r, "record"@)),
            ),
    decreases catalogs.len(),
{
    broadcast use vstd::seq_lib::group_filter_ensures;

    if catalogs.len() > 0 {
        let prev = catalogs.drop_last();
        law_import_candidates(prev, selected);
        let c = catalogs.last();
        let n = catalogs.len() - 1;
        let pred = |r: JsonV| import_ready_record(r, selected);
        let items = crate::json::get_items_v(c, "records"@);
        let fl = items.filter(pred);
        let tail = fl.map_values(|r: JsonV| (name_of(c, "catalog"@), name_of(c, "engine"@), name_of(r, "record"@)));
        let before = import_candidates_from(prev, selected);
        let all = import_candidates_from(catalogs, selected);
        assert(all == before + tail);
        assert forall|k: int| 0 <= k < all.len() implies names_ready_record(catalogs, selected, #[trigger] all[k]) by {
            if k < before.len() {
                assert(all[k] == before[k]);
                assert(names_ready_record(prev, selected, before[k]));
                let (i, r) = choose|i: int, r: JsonV|
                    0 <= i < prev.len() && #[trigger] crate::json::get_items_v(prev[i], "records"@).contains(r)
                        && selected_matches_spec(name_of(r, "record"@), selected) && (get_str_v(r, "state"@)
                        == Some("completed"@) || get_str_v(r, "state"@) == Some("uploaded"@)) && before[k]
                        == (name_of(prev[i], "catalog"@), name_of(prev[i], "engine"@), name_of(r, "record"@));
                assert(catalogs[i] == prev[i]);
                assert(crate::json::get_items_v(catalogs[i], "records"@).contains(r));
            } else {
                let j = k - before.len();
                assert(all[k] == tail[j]);
                let r = fl[j];
                assert(pred(r));
                assert(fl.contains(r));
                lemma_filtered_member(items, pred, r);
                assert(catalogs[n] == c);
                assert(crate::json::get_items_v(catalogs[n], "records"@).contains(r));
            }
        }
        assert forall|i: int, r: JsonV|
            0 <= i < catalogs.len() && #[trigger] crate::json::get_items_v(catalogs[i], "records"@).contains(r)
                && selected_matches_spec(name_of(r, "record"@), selected) && (get_str_v(r, "state"@)
                == Some("completed"@) || get_str_v(r, "state"@) == Some("uploaded"@)) implies all.contains(
            (name_of(catalogs[i], "catalog"@), name_of(catalogs[i], "engine"@), name_of(r, "record"@)),
        ) by {
            let t = (name_of(catalogs[i], "catalog"@), name_of(catalogs[i], "engine"@), name_of(r, "record"@));
            if i < n {
                assert(catalogs[i] == prev[i]);
                assert(crate::json::get_items_v(prev[i], "records"@).contains(r));
                assert(before.contains(t));
                let k = choose|k: int| 0 <= k < before.len() && before[k] == t;
                assert(all[k] == before[k]);
            } else {
                assert(catalogs[i] == c);
                let j = choose|j: int| 0 <= j < items.len() && items[j] == r;
                assert(pred(items[j]));
                assert(fl.contains(r));
                let m = choose|m: int| 0 <= m < fl.len() && fl[m] == r;
                assert(tail[m] == t);
                assert(all[before.len() + m] == t);
            }
        }
    }
}

pub open spec fn triple_views(v: Seq<(String, String, String)>) -> Seq<(Seq<char>, Seq<char>, Seq<char>)> {
    v.map_values(|t: (String, String, String)| (t.0@, t.1@, t.2@))
}

fn text_or_empty(v: &Json, key: &str) -> (r: String)
    ensures
        r@ == name_of(v@, key@),
{
    match v.get_str(key) {
        Some(s) => String::from_str(s),
        None => String::new(),
    }
}

fn is_import_ready(record: &Json, selected: Option<&str>) -> (r: bool)
    ensures
        r == import_ready_record(
            record@,
            match selected {
                Some(s) => Some(s@),
                None => None,
            },
        ),
{
    let name = text_or_empty(record, "record");
    if !selected_matches(name.as_str(), selected) {
        return false;
    }
    match record.get_str("state") {
        Some(s) => str_eq(s, "completed") || str_eq(s, "uploaded"),
        None => false,
    }
}

/// The records of a run whose accepted attempts an import takes, as
/// (catalog, engine, record) names.
pub fn import_candidates(run: &Json, selected: Option<&str>) -> (r: Vec<(String, String, String)>)
    ensures
        triple_views(r@) == import_candidates_from(
            crate::json::get_items_v(run@, "catalogs"@),
            match selected {
                Some(s) => Some(s@),
                None => None,
            },
        ),
{
    broadcast use group_json_view;

    let ghost sel = match selected {
        Some(s) => Some(s@),
        None => None,
    };
    let ghost ready = |r: JsonV| import_ready_record(r, sel);
    let cats = run.get_items("catalogs");
    proof {
        crate::json::lemma_view_arr(cats@);
    }
    let ghost cv = view_arr(cats@);
    let mut out: Vec<(String, String, String)> = Vec::new();
    let mut i: usize = 0;
    while i < cats.len()
        invariant
            i <= cats@.len(),
            cv == view_arr(cats@),
            cv.len() == cats@.len(),
            forall|j: int| 0 <= j < cats@.len() ==> #[trigger] cv[j] == cats@[j]@,
            sel == match selected {
                Some(s) => Some(s@),
                None => None::<Seq<char>>,
            },
            ready == (|r: JsonV| import_ready_record(r, sel)),
            triple_views(out@) == import_candidates_from(cv.take(i as int), sel),
        decreases cats.len() - i,
    {
        let c = &cats[i];
        let catalog_name = text_or_empty(c, "catalog");
        let engine = text_or_empty(c, "engine");
        let items = c.get_items("records");
        proof {
            crate::json::lemma_view_arr(items@);
            assert(cv.take(i + 1).drop_last() =~= cv.take(i as int));
            assert(cv.take(i + 1).last() == c@);
        }
        let ghost iv = view_arr(items@);
        let ghost g = |r: JsonV| (name_of(c@, "catalog"@), name_of(c@, "engine"@), name_of(r, "record"@));
        let ghost before = out@;
        let mut k: usize = 0;
        while k < items.len()
            invariant
                k <= items@.len(),
                iv == view_arr(items@),
                iv.len() == items@.len(),
                forall|j: int| 0 <= j < items@.len() ==> #[trigger] iv[j] == items@[j]@,
                catalog_name@ == name_of(c@, "catalog"@),
                engine@ == name_of(c@, "engine"@),
                g == (|r: JsonV| (name_of(c@, "catalog"@), name_of(c@, "engine"@), name_of(r, "record"@))),
                sel == match selected {
                    Some(s) => Some(s@),
                    None => None::<Seq<char>>,
                },
                ready == (|r: JsonV| import_ready_record(r, sel)),
                triple_views(out@) == triple_views(before) + iv.take(k as int).filter(ready).map_values(g),
            decreases items.len() - k,
        {
            proof {
                reveal(Seq::filter);
                assert(iv.take(k + 1).drop_last() =~= iv.take(k as int));
                assert(iv.take(k + 1).last() == items@[k as int]@);
            }
            if is_import_ready(&items[k], selected) {
                let name = text_or_empty(&items[k], "record");
                let ghost prior = out@;
                out.push((catalog_name.clone(), engine.clone(), name));
                assert(iv.take(k + 1).filter(ready) == iv.take(k as int).filter(ready).push(items@[k as int]@));
                assert(iv.take(k + 1).filter(ready).map_values(g) =~= iv.take(k as int).filter(ready).map_values(g).push(
                    g(items@[k as int]@),
                ));
                assert(triple_views(out@) =~= triple_views(prior).push(g(items@[k as int]@)));
            } else {
                assert(iv.take(k + 1).filter(ready) == iv.take(k as int).filter(ready));
            }
            k = k + 1;
        }
        assert(iv.take(items@.len() as int) =~= iv);
        i = i + 1;
    }
    assert(cv.take(cats@.len() as int) =~= cv);
    out
}

// ---------------------------------------------------------------------------
// What an import writes on the record

/// A record whose accepted attempt was imported.
pub open spec fn imported_spec(entry: JsonV, import: JsonV) -> JsonV {
    set_v(
        set_v(
            set_v(
                set_v(entry, "state"@, JsonV::Str("imported"@)),
                "weles_task_id"@,
                match get_v(import, "weles_task_id"@) {
                    Some(t) => t,
                    None => JsonV::Null,
                },
            ),
            "import"@,
            import,
        ),
        "diagnostic"@,
        JsonV::Null,
    )
}

/// Write an imported attempt on its record.
pub fn record_imported(entry: &mut Json, import: Json)
    requires
        settable_v(old(entry)@),
    ensures
        final(entry)@ == imported_spec(old(entry)@, import@),
{
    broadcast use group_json_view;

    let task = match import.get("weles_task_id") {
        Some(t) => t.duplicate(),
        None => Json::Null,
    };
    entry.set("state", jstr("imported"));
    entry.set("weles_task_id", task);
    entry.set("import", import);
    entry.set("diagnostic", Json::Null);
}

/// A record whose accepted attempt could not be imported.
pub open spec fn import_failed_spec(entry: JsonV, message: Seq<char>) -> JsonV {
    set_v(
        set_v(entry, "state"@, JsonV::Str("partial"@)),
        "diagnostic"@,
        obj2("code"@, JsonV::Str("attempt_import_failed"@), "message"@, JsonV::Str(message)),
    )
}

/// Write a failed import on its record.
pub fn record_import_failed(entry: &mut Json, message: &str)
    requires
        settable_v(old(entry)@),
    ensures
        final(entry)@ == import_failed_spec(old(entry)@, message@),
{
    entry.set("state", jstr("partial"));
    entry.set(
        "diagnostic",
        crate::json::jobj2("code", jstr("attempt_import_failed"), "message", jstr(message)),
    );
}

// ---------------------------------------------------------------------------
// Importing one record, one answer at a time

/// What the importer learned about one record since the last step.
pub enum ImportEvent {
    /// Its lock was taken; the record as it now stands.
    Locked(Json),
    /// Another process holds its lock.
    Busy,
    /// Its attempt was verified and installed; the import summary.
    Imported(Json),
    /// Verifying or installing its attempt failed; why.
    Failed(String),
}

/// What the importer does next for the record.
#[derive(PartialEq, Eq, Structural, Debug, Clone, Copy)]
pub enum ImportAction {
    /// Leave the record as it is.
    Skip,
    /// Verify its attempt and install it.
    Import,
    /// Persist the imported record; its catalog now needs maintenance.
    PersistImported,
    /// Persist the record's failed import.
    PersistFailed,
}

pub open spec fn importable_state(record: JsonV) -> bool {
    get_str_v(record, "state"@) == Some("completed"@) || get_str_v(record, "state"@) == Some("uploaded"@)
}

/// The record after a step, and what to do next: a locked record is
/// imported only while it is still completed or uploaded; a record whose
/// lock is busy is skipped, never failed.
pub open spec fn import_step_spec(record: JsonV, event: ImportEvent) -> (JsonV, ImportAction) {
    match event {
        ImportEvent::Locked(current) => if importable_state(current@) {
            (current@, ImportAction::Import)
        } else {
            (current@, ImportAction::Skip)
        },
        ImportEvent::Busy => (record, ImportAction::Skip),
        ImportEvent::Imported(import) => (imported_spec(record, import@), ImportAction::PersistImported),
        ImportEvent::Failed(message) => (import_failed_spec(record, message@), ImportAction::PersistFailed),
    }
}

pub fn import_step(record: Json, event: ImportEvent) -> (r: (Json, ImportAction))
    requires
        settable_v(record@),
    ensures
        (r.0@, r.1) == import_step_spec(record@, event),
{
    let mut record = record;
    match event {
        ImportEvent::Locked(current) => {
            let ready = match current.get_str("state") {
                Some(state) => str_eq(state, "completed") || str_eq(state, "uploaded"),
                None => false,
            };
            if ready {
                (current, ImportAction::Import)
            } else {
                (current, ImportAction::Skip)
            }
        },
        ImportEvent::Busy => (record, ImportAction::Skip),
        ImportEvent::Imported(import) => {
            record_imported(&mut record, import);
            (record, ImportAction::PersistImported)
        },
        ImportEvent::Failed(message) => {
            record_import_failed(&mut record, message.as_str());
            (record, ImportAction::PersistFailed)
        },
    }
}

/// An import installs an attempt only for a record that, under its lock,
/// is still completed or uploaded, and leaves a record it skips exactly as
/// it found it; an installed record is `imported`, a failed one `partial`.
pub proof fn law_import_only_when_ready(record: JsonV, event: ImportEvent)
    requires
        settable_v(record),
    ensures
        import_step_spec(record, event).1 == ImportAction::Import ==> (event matches ImportEvent::Locked(
            current,
        ) && importable_state(current@)),
        event is Busy ==> import_step_spec(record, event).0 == record,
        event is Imported ==> get_str_v(import_step_spec(record, event).0, "state"@) == Some("imported"@),
        event is Failed ==> get_str_v(import_step_spec(record, event).0, "state"@) == Some("partial"@),
{
    reveal_strlit("state");
    reveal_strlit("weles_task_id");
    reveal_strlit("import");
    reveal_strlit("diagnostic");
    assert("state"@.len() == 5 && "weles_task_id"@.len() == 13 && "import"@.len() == 6
        && "diagnostic"@.len() == 10);
    match event {
        ImportEvent::Imported(import) => {
            let t = match get_v(import@, "weles_task_id"@) {
                Some(t) => t,
                None => JsonV::Null,
            };
            let e1 = set_v(record, "state"@, JsonV::Str("imported"@));
            let e2 = set_v(e1, "weles_task_id"@, t);
            let e3 = set_v(e2, "import"@, import@);
            crate::json::lemma_get_set(record, "state"@, JsonV::Str("imported"@), "state"@);
            crate::json::lemma_get_set(e1, "weles_task_id"@, t, "state"@);
            crate::json::lemma_get_set(e2, "import"@, import@, "state"@);
            crate::json::lemma_get_set(e3, "diagnostic"@, JsonV::Null, "state"@);
        },
        ImportEvent::Failed(message) => {
            let e1 = set_v(record, "state"@, JsonV::Str("partial"@));
            crate::json::lemma_get_set(record, "state"@, JsonV::Str("partial"@), "state"@);
            crate::json::lemma_get_set(
                e1,
                "diagnostic"@,
                obj2("code"@, JsonV::Str("attempt_import_failed"@), "message"@, JsonV::Str(message@)),
                "state"@,
            );
        },
        _ => {},
    }
}

// ---------------------------------------------------------------------------
// Maintenance after an import

/// The commands that bring one imported catalog's derived files up to
/// date: a web catalog's structures are analyzed first, then every
/// catalog's reference evidence is verified and applied.
pub open spec fn catalog_maintenance(catalog: Seq<char>, engine: Seq<char>) -> Seq<Seq<Seq<char>>> {
    let verify = seq!["verify-reference-evidence"@, "--catalog"@, catalog, "--apply"@];
    if engine == "web"@ {
        seq![seq!["analyze-example-structures"@, catalog], verify]
    } else {
        seq![verify]
    }
}

pub open spec fn catalogs_maintenance(touched: Seq<(Seq<char>, Seq<char>)>) -> Seq<Seq<Seq<char>>>
    decreases touched.len(),
{
    if touched.len() == 0 {
        Seq::empty()
    } else {
        catalogs_maintenance(touched.drop_last()) + catalog_maintenance(
            touched.last().0,
            touched.last().1,
        )
    }
}

/// Every maintenance command after an import touched `touched` (catalogs
/// with their engines, in catalog order): each catalog's commands, then the
/// example catalogs regenerated once; nothing when no catalog was touched.
pub open spec fn maintenance_commands_spec(touched: Seq<(Seq<char>, Seq<char>)>) -> Seq<Seq<Seq<char>>> {
    if touched.len() == 0 {
        Seq::empty()
    } else {
        catalogs_maintenance(touched).push(seq!["generate-example-catalogs"@])
    }
}

pub open spec fn commands_views(v: Seq<Vec<String>>) -> Seq<Seq<Seq<char>>> {
    v.map_values(|c: Vec<String>| crate::text::string_views(c@))
}

fn push_command(out: &mut Vec<Vec<String>>, command: Vec<String>)
    ensures
        commands_views(final(out)@) == commands_views(old(out)@).push(crate::text::string_views(command@)),
{
    let ghost before = out@;
    out.push(command);
    assert(commands_views(out@) =~= commands_views(before).push(crate::text::string_views(command@)));
}

fn words(items: &[&str]) -> (r: Vec<String>)
    ensures
        crate::text::string_views(r@) == items@.map_values(|w: &str| w@),
{
    let mut command: Vec<String> = Vec::new();
    let mut i: usize = 0;
    while i < items.len()
        invariant
            i <= items@.len(),
            crate::text::string_views(command@) == items@.take(i as int).map_values(|w: &str| w@),
        decreases items.len() - i,
    {
        let ghost before = command@;
        command.push(String::from_str(items[i]));
        assert(items@.take(i + 1) =~= items@.take(i as int).push(items@[i as int]));
        assert(crate::text::string_views(command@) =~= crate::text::string_views(before).push(
            items@[i as int]@,
        ));
        i = i + 1;
    }
    assert(items@.take(items@.len() as int) =~= items@);
    command
}

/// The maintenance commands to run after an import, in order.
pub fn maintenance_commands(touched: &Vec<(String, String)>) -> (r: Vec<Vec<String>>)
    ensures
        commands_views(r@) == maintenance_commands_spec(crate::cancel::pair_views(touched@)),
{
    let ghost tv = crate::cancel::pair_views(touched@);
    let mut out: Vec<Vec<String>> = Vec::new();
    let mut i: usize = 0;
    proof {
        reveal_strlit("web");
    }
    while i < touched.len()
        invariant
            i <= touched@.len(),
            tv == crate::cancel::pair_views(touched@),
            tv.len() == touched@.len(),
            commands_views(out@) == catalogs_maintenance(tv.take(i as int)),
        decreases touched.len() - i,
    {
        assert(tv.take(i + 1).drop_last() =~= tv.take(i as int));
        assert(tv[i as int] == (touched@[i as int].0@, touched@[i as int].1@));
        let catalog = touched[i].0.as_str();
        let ghost before = commands_views(out@);
        if str_eq(touched[i].1.as_str(), "web") {
            let items = ["analyze-example-structures", catalog];
            assert(items@.map_values(|w: &str| w@) =~= seq!["analyze-example-structures"@, catalog@]);
            push_command(&mut out, words(&items));
        }
        let items = ["verify-reference-evidence", "--catalog", catalog, "--apply"];
        assert(items@.map_values(|w: &str| w@) =~= seq![
            "verify-reference-evidence"@,
            "--catalog"@,
            catalog@,
            "--apply"@,
        ]);
        push_command(&mut out, words(&items));
        assert(commands_views(out@) =~= before + catalog_maintenance(tv[i as int].0, tv[i as int].1));
        i = i + 1;
    }
    assert(tv.take(touched@.len() as int) =~= tv);
    if touched.len() > 0 {
        let items = ["generate-example-catalogs"];
        assert(items@.map_values(|w: &str| w@) =~= seq!["generate-example-catalogs"@]);
        push_command(&mut out, words(&items));
    }
    out
}

/// A maintenance command that failed, as the run records it.
pub open spec fn maintenance_failure_spec(command: Seq<Seq<char>>, message: Seq<char>) -> JsonV {
    crate::json::obj3(
        "command"@,
        JsonV::Str(crate::text::join_with(command, " "@)),
        "state"@,
        JsonV::Str("failed"@),
        "message"@,
        JsonV::Str(message),
    )
}

pub fn maintenance_failure(command: &Vec<String>, message: &str) -> (r: Json)
    ensures
        r@ == maintenance_failure_spec(crate::text::string_views(command@), message@),
{
    let mut pieces: Vec<Vec<char>> = Vec::new();
    let mut i: usize = 0;
    while i < command.len()
        invariant
            i <= command@.len(),
            pieces@.map_values(|x: Vec<char>| x@) == crate::text::string_views(command@).take(i as int),
        decreases command.len() - i,
    {
        let ghost before = pieces@;
        assert(crate::text::string_views(command@).take(i + 1) =~= crate::text::string_views(
            command@,
        ).take(i as int).push(command@[i as int]@));
        pieces.push(chars_of(command[i].as_str()));
        assert(pieces@.map_values(|x: Vec<char>| x@) =~= crate::text::string_views(command@).take(
            i + 1,
        ));
        i = i + 1;
    }
    assert(crate::text::string_views(command@).take(command@.len() as int) =~= crate::text::string_views(
        command@,
    ));
    let joined = crate::text::join_exec(&pieces, &chars_of(" "));
    crate::json::jobj3(
        "command",
        Json::Str(crate::text::string_of(&joined)),
        "state",
        jstr("failed"),
        "message",
        jstr(message),
    )
}

/// What a run records of the maintenance after an import: the touched
/// catalogs, in order, and the commands that failed.
pub open spec fn import_maintenance_spec(touched: Seq<(Seq<char>, Seq<char>)>, failures: Seq<JsonV>) -> JsonV {
    obj2(
        "catalogs"@,
        JsonV::Array(touched.map_values(|p: (Seq<char>, Seq<char>)| JsonV::Str(p.0))),
        "failures"@,
        JsonV::Array(failures),
    )
}

pub fn import_maintenance(touched: &Vec<(String, String)>, failures: Vec<Json>) -> (r: Json)
    ensures
        r@ == import_maintenance_spec(crate::cancel::pair_views(touched@), view_arr(failures@)),
{
    broadcast use group_json_view;

    let ghost tv = crate::cancel::pair_views(touched@);
    let mut names: Vec<Json> = Vec::new();
    let mut i: usize = 0;
    while i < touched.len()
        invariant
            i <= touched@.len(),
            tv == crate::cancel::pair_views(touched@),
            tv.len() == touched@.len(),
            view_arr(names@) == tv.take(i as int).map_values(|p: (Seq<char>, Seq<char>)| JsonV::Str(p.0)),
        decreases touched.len() - i,
    {
        let ghost before = names@;
        assert(tv[i as int] == (touched@[i as int].0@, touched@[i as int].1@));
        let name = jstr(touched[i].0.as_str());
        assert(name@ == JsonV::Str(tv[i as int].0));
        names.push(name);
        assert(names@.drop_last() =~= before);
        assert(view_arr(names@) == view_arr(names@.drop_last()).push(names@.last().view_rec()));
        assert(view_arr(names@) =~= view_arr(before).push(JsonV::Str(tv[i as int].0)));
        assert(tv.take(i + 1).map_values(|p: (Seq<char>, Seq<char>)| JsonV::Str(p.0)) =~= tv.take(
            i as int,
        ).map_values(|p: (Seq<char>, Seq<char>)| JsonV::Str(p.0)).push(JsonV::Str(tv[i as int].0)));
        i = i + 1;
    }
    assert(tv.take(touched@.len() as int) =~= tv);
    crate::json::jobj2("catalogs", Json::Array(names), "failures", Json::Array(failures))
}

// ---------------------------------------------------------------------------
// The crawl runs a reference record keeps

/// The attempt number an imported crawl run names, if any.
pub open spec fn attempt_key(run: JsonV) -> Option<u64> {
    get_u64_v(run, "attempt"@)
}

/// The order of `Option<u64>`: `None` first, then by number.
pub open spec fn key_le(a: Option<u64>, b: Option<u64>) -> bool {
    match (a, b) {
        (None, _) => true,
        (Some(_), None) => false,
        (Some(x), Some(y)) => x <= y,
    }
}

/// `run` placed after every run whose attempt orders at or before it, in a
/// list sorted by attempt.
pub open spec fn insert_by_attempt(runs: Seq<JsonV>, run: JsonV) -> Seq<JsonV>
    decreases runs.len(),
{
    if runs.len() == 0 || key_le(attempt_key(runs.last()), attempt_key(run)) {
        runs.push(run)
    } else {
        insert_by_attempt(runs.drop_last(), run).push(runs.last())
    }
}

/// The runs ordered by attempt, runs of equal attempt in their order (a
/// stable sort).
pub open spec fn sort_by_attempt(runs: Seq<JsonV>) -> Seq<JsonV>
    decreases runs.len(),
{
    if runs.len() == 0 {
        runs
    } else {
        insert_by_attempt(sort_by_attempt(runs.drop_last()), runs.last())
    }
}

/// The crawl runs after an import: the run of the same attempt id replaced,
/// else the run added, then ordered by attempt.
pub open spec fn upsert_run_spec(runs: Seq<JsonV>, run: JsonV, attempt_id: Seq<char>) -> Seq<JsonV> {
    let updated = match crate::text::first_index(
        runs,
        |v: JsonV| get_str_v(v, "attempt_id"@) == Some(attempt_id),
    ) {
        Some(k) => runs.update(k, run),
        None => runs.push(run),
    };
    sort_by_attempt(updated)
}

fn attempt_of(v: &Json) -> (r: Option<u64>)
    ensures
        r == attempt_key(v@),
{
    v.get_u64("attempt")
}

fn attempt_le(a: Option<u64>, b: Option<u64>) -> (r: bool)
    ensures
        r == key_le(a, b),
{
    match (a, b) {
        (None, _) => true,
        (Some(_), None) => false,
        (Some(x), Some(y)) => x <= y,
    }
}

fn insert_by_attempt_exec(runs: Vec<Json>, run: Json) -> (r: Vec<Json>)
    ensures
        view_arr(r@) == insert_by_attempt(view_arr(runs@), run@),
    decreases runs@.len(),
{
    broadcast use group_json_view;

    let mut runs = runs;
    proof {
        crate::json::lemma_view_arr(runs@);
    }
    let n = runs.len();
    if n == 0 || attempt_le(attempt_of(&runs[n - 1]), attempt_of(&run)) {
        let ghost before = runs@;
        runs.push(run);
        proof {
            crate::json::lemma_view_arr(runs@);
            assert(view_arr(runs@) =~= view_arr(before).push(run@));
            if n > 0 {
                assert(view_arr(before).last() == before[n - 1]@);
            }
        }
        runs
    } else {
        let ghost before = runs@;
        let last = runs.pop().unwrap();
        proof {
            crate::json::lemma_view_arr(runs@);
            assert(view_arr(runs@) =~= view_arr(before).drop_last());
            assert(view_arr(before).last() == last@);
        }
        let mut r = insert_by_attempt_exec(runs, run);
        let ghost mid = r@;
        r.push(last);
        proof {
            crate::json::lemma_view_arr(r@);
            crate::json::lemma_view_arr(mid);
            assert(view_arr(r@) =~= view_arr(mid).push(last@));
        }
        r
    }
}

/// Record an imported crawl run on a reference record's runs: the run of
/// the same attempt id is replaced, else the run is added; the runs are then
/// ordered by attempt, stably.
pub fn upsert_crawl_run(runs: Vec<Json>, run: Json, attempt_id: &str) -> (r: Vec<Json>)
    ensures
        view_arr(r@) == upsert_run_spec(view_arr(runs@), run@, attempt_id@),
{
    broadcast use group_json_view;

    let mut runs = runs;
    proof {
        crate::json::lemma_view_arr(runs@);
    }
    let ghost f = |v: JsonV| get_str_v(v, "attempt_id"@) == Some(attempt_id@);
    let ghost rv = view_arr(runs@);
    let mut k: usize = 0;
    let mut found = false;
    while !found && k < runs.len()
        invariant
            k <= runs@.len(),
            rv == view_arr(runs@),
            rv.len() == runs@.len(),
            forall|j: int| 0 <= j < runs@.len() ==> #[trigger] rv[j] == runs@[j]@,
            f == (|v: JsonV| get_str_v(v, "attempt_id"@) == Some(attempt_id@)),
            forall|j: int| 0 <= j < k ==> !f(#[trigger] rv[j]),
            found ==> k < rv.len() && f(rv[k as int]),
        decreases runs.len() - k + if found {
            0int
        } else {
            1int
        },
    {
        let hit = match runs[k].get_str("attempt_id") {
            Some(s) => str_eq(s, attempt_id),
            None => false,
        };
        assert(rv[k as int] == runs@[k as int]@);
        if hit {
            found = true;
        } else {
            k = k + 1;
        }
    }
    let ghost updated;
    if found {
        proof {
            crate::text::lemma_first_index(rv, f, k as int);
        }
        let ghost before = runs@;
        runs.set(k, run);
        proof {
            crate::json::lemma_view_arr(runs@);
            assert(view_arr(runs@) =~= rv.update(k as int, run@)) by {
                assert forall|j: int| 0 <= j < runs@.len() implies #[trigger] view_arr(runs@)[j]
                    == rv.update(k as int, run@)[j] by {
                    if j != k {
                        assert(runs@[j] == before[j]);
                    }
                }
            }
            updated = rv.update(k as int, run@);
        }
    } else {
        proof {
            crate::text::lemma_first_index(rv, f, rv.len() as int);
        }
        let ghost before = runs@;
        runs.push(run);
        proof {
            crate::json::lemma_view_arr(runs@);
            assert(view_arr(runs@) =~= rv.push(run@));
            updated = rv.push(run@);
        }
    }
    assert(view_arr(runs@) == updated);
    let mut sorted: Vec<Json> = Vec::new();
    proof {
        crate::json::lemma_view_arr(sorted@);
        crate::json::lemma_view_arr(runs@);
    }
    let n = runs.len();
    let mut i: usize = 0;
    while i < n
        invariant
            n == runs@.len(),
            i <= n,
            view_arr(runs@) == updated,
            updated.len() == n,
            forall|j: int| 0 <= j < n ==> #[trigger] updated[j] == runs@[j]@,
            view_arr(sorted@) == sort_by_attempt(updated.take(i as int)),
        decreases n - i,
    {
        let x = runs[i].duplicate();
        proof {
            assert(updated.take(i + 1).drop_last() =~= updated.take(i as int));
            assert(updated.take(i + 1).last() == x@);
        }
        sorted = insert_by_attempt_exec(sorted, x);
        i = i + 1;
    }
    assert(updated.take(n as int) =~= updated);
    sorted
}

// ---------------------------------------------------------------------------
// What ordering the crawl runs keeps

/// Runs in attempt order.
pub open spec fn sorted_by_attempt(runs: Seq<JsonV>) -> bool {
    forall|i: int, j: int|
        0 <= i < j < runs.len() ==> key_le(attempt_key(#[trigger] runs[i]), attempt_key(#[trigger] runs[j]))
}

proof fn lemma_key_le_order(a: Option<u64>, b: Option<u64>, c: Option<u64>)
    ensures
        key_le(a, b) || key_le(b, a),
        key_le(a, b) && key_le(b, c) ==> key_le(a, c),
        key_le(a, a),
{
}

proof fn lemma_insert_by_attempt(runs: Seq<JsonV>, run: JsonV)
    requires
        sorted_by_attempt(runs),
    ensures
        sorted_by_attempt(insert_by_attempt(runs, run)),
        insert_by_attempt(runs, run).to_multiset() == runs.to_multiset().insert(run),
        insert_by_attempt(runs, run).len() == runs.len() + 1,
        forall|i: int|
            0 <= i < insert_by_attempt(runs, run).len() ==> #[trigger] insert_by_attempt(runs, run)[i]
                == run || runs.contains(insert_by_attempt(runs, run)[i]),
    decreases runs.len(),
{
    broadcast use vstd::seq_lib::group_seq_properties;

    let r = insert_by_attempt(runs, run);
    if runs.len() == 0 || key_le(attempt_key(runs.last()), attempt_key(run)) {
        assert forall|i: int, j: int| 0 <= i < j < r.len() implies key_le(
            attempt_key(#[trigger] r[i]),
            attempt_key(#[trigger] r[j]),
        ) by {
            if j == runs.len() {
                if i < runs.len() - 1 {
                    lemma_key_le_order(attempt_key(runs[i]), attempt_key(runs.last()), attempt_key(run));
                }
            }
        }
        assert forall|i: int| 0 <= i < r.len() implies #[trigger] r[i] == run || runs.contains(r[i]) by {
            if i < runs.len() {
                assert(runs[i] == r[i]);
            }
        }
    } else {
        let init = runs.drop_last();
        let last = runs.last();
        assert(sorted_by_attempt(init)) by {
            assert forall|i: int, j: int| 0 <= i < j < init.len() implies key_le(
                attempt_key(#[trigger] init[i]),
                attempt_key(#[trigger] init[j]),
            ) by {
                assert(init[i] == runs[i] && init[j] == runs[j]);
            }
        }
        lemma_insert_by_attempt(init, run);
        let t = insert_by_attempt(init, run);
        lemma_key_le_order(attempt_key(last), attempt_key(run), attempt_key(run));
        assert forall|i: int| 0 <= i < t.len() implies key_le(
            attempt_key(#[trigger] t[i]),
            attempt_key(last),
        ) by {
            if t[i] != run {
                assert(init.contains(t[i]));
                let j = choose|j: int| 0 <= j < init.len() && init[j] == t[i];
                assert(runs[j] == init[j]);
                assert(key_le(attempt_key(runs[j]), attempt_key(runs[runs.len() - 1])));
            }
        }
        assert forall|i: int, j: int| 0 <= i < j < r.len() implies key_le(
            attempt_key(#[trigger] r[i]),
            attempt_key(#[trigger] r[j]),
        ) by {
            if j < t.len() {
                assert(r[i] == t[i] && r[j] == t[j]);
            } else {
                assert(r[i] == t[i]);
            }
        }
        assert forall|i: int| 0 <= i < r.len() implies #[trigger] r[i] == run || runs.contains(r[i]) by {
            if i < t.len() {
                assert(r[i] == t[i]);
                if t[i] != run {
                    let j = choose|j: int| 0 <= j < init.len() && init[j] == t[i];
                    assert(runs[j] == init[j]);
                }
            } else {
                assert(r[i] == runs[runs.len() - 1]);
            }
        }
        assert(runs =~= init.push(last));
        assert(r.to_multiset() =~= t.to_multiset().insert(last));
        assert(runs.to_multiset() =~= init.to_multiset().insert(last));
    }
}

proof fn lemma_sort_by_attempt(runs: Seq<JsonV>)
    ensures
        sorted_by_attempt(sort_by_attempt(runs)),
        sort_by_attempt(runs).to_multiset() == runs.to_multiset(),
    decreases runs.len(),
{
    broadcast use vstd::seq_lib::group_seq_properties;

    if runs.len() > 0 {
        lemma_sort_by_attempt(runs.drop_last());
        lemma_insert_by_attempt(sort_by_attempt(runs.drop_last()), runs.last());
        assert(runs =~= runs.drop_last().push(runs.last()));
        assert(runs.to_multiset() =~= runs.drop_last().to_multiset().insert(runs.last()));
    }
}

/// After an import, a record's crawl runs are in attempt order, hold the
/// imported run, and hold every run they held before but the one of the
/// same attempt id, which the imported run replaces.
pub proof fn law_crawl_runs_after_import(runs: Seq<JsonV>, run: JsonV, attempt_id: Seq<char>)
    ensures
        sorted_by_attempt(upsert_run_spec(runs, run, attempt_id)),
        upsert_run_spec(runs, run, attempt_id).contains(run),
        upsert_run_spec(runs, run, attempt_id).to_multiset() == match crate::text::first_index(
            runs,
            |v: JsonV| get_str_v(v, "attempt_id"@) == Some(attempt_id),
        ) {
            Some(k) => runs.to_multiset().remove(runs[k]).insert(run),
            None => runs.to_multiset().insert(run),
        },
{
    broadcast use vstd::seq_lib::group_seq_properties;

    let f = |v: JsonV| get_str_v(v, "attempt_id"@) == Some(attempt_id);
    crate::text::lemma_first_index_found(runs, f);
    let updated = match crate::text::first_index(runs, f) {
        Some(k) => runs.update(k, run),
        None => runs.push(run),
    };
    lemma_sort_by_attempt(updated);
    match crate::text::first_index(runs, f) {
        Some(k) => {
            let removed = runs.remove(k);
            assert(updated =~= removed.insert(k, run));
            vstd::seq_lib::lemma_seq_union_to_multiset_commutative(removed.take(k), seq![run]);
            assert(updated.to_multiset() =~= removed.to_multiset().insert(run)) by {
                let a = removed.take(k);
                let b = removed.skip(k);
                assert(removed =~= a + b);
                assert(updated =~= a.push(run) + b);
                vstd::seq_lib::lemma_multiset_commutative(a.push(run), b);
                vstd::seq_lib::lemma_multiset_commutative(a, b);
            }
            assert(updated[k] == run);
            assert(updated.to_multiset().count(run) > 0);
        },
        None => {
            assert(updated[runs.len() as int] == run);
            assert(updated.to_multiset().count(run) > 0);
        },
    }
    assert(upsert_run_spec(runs, run, attempt_id).to_multiset().count(run) > 0);
}

} // verus!

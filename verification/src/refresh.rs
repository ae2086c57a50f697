//! Refreshing crawl records from what Stado answers about their jobs, and
//! lifting runs written in the retired catalog-level shape.
use vstd::prelude::*;
use crate::json::{
    array_v, get_bool_v, get_str_v, get_v, group_json_view, jstr, obj3, set_v, settable_v,
    view_arr, view_obj, Json, JsonV,
};
use crate::text::{chars_of, eq_ignore_case, eq_ignore_case_exec, lower_seq, trim, trim_str};

verus! {

// ---------------------------------------------------------------------------
// What Stado answered

/// What running `stado machine status JOB` gave back.
pub enum StatusReply {
    /// Stado could not be run; why.
    Unreachable(String),
    /// Stado ran: whether it exited successfully, its standard output read as
    /// JSON (or why it could not be read), and its standard error.
    Answered(bool, Result<Json, String>, String),
}

/// A retryable lookup diagnostic.
pub open spec fn retryable_diagnostic(code: Seq<char>, message: Seq<char>) -> JsonV {
    obj3("code"@, JsonV::Str(code), "retryable"@, JsonV::Bool(true), "message"@, JsonV::Str(message))
}

/// The error a failed status answer carries: its own `error`, else one made
/// from the trimmed standard error.
pub open spec fn reply_error(document: JsonV, stderr: Seq<char>) -> JsonV {
    match get_v(document, "error"@) {
        Some(e) => e,
        None => retryable_diagnostic("status_failed"@, trim(stderr)),
    }
}

/// Whether an error's code, uppercased, is `NOT_FOUND` or `JOB_NOT_FOUND`.
pub open spec fn not_found_error(error: JsonV) -> bool {
    let code = match get_str_v(error, "code"@) {
        Some(c) => c,
        None => Seq::empty(),
    };
    eq_ignore_case(code, "NOT_FOUND"@) || eq_ignore_case(code, "JOB_NOT_FOUND"@)
}

/// The job document of a successful status answer: `result.job`.
pub open spec fn reply_job(document: JsonV) -> Option<JsonV> {
    match get_v(document, "result"@) {
        Some(result) => get_v(result, "job"@),
        None => None,
    }
}

/// What a status answer tells about a job.
pub open spec fn reply_outcome(reply: StatusReply) -> (int, JsonV) {
    match reply {
        StatusReply::Unreachable(m) => (2, retryable_diagnostic("transport_error"@, m@)),
        StatusReply::Answered(_, Err(m), stderr) => (
            2,
            JsonV::Object(
                seq![
                    ("code"@, JsonV::Str("invalid_response"@)),
                    ("retryable"@, JsonV::Bool(true)),
                    ("message"@, JsonV::Str(m@)),
                    ("stderr"@, JsonV::Str(trim(stderr@))),
                ],
            ),
        ),
        StatusReply::Answered(success, Ok(document), stderr) => {
            if !success || get_bool_v(document@, "ok"@) != Some(true) {
                let e = reply_error(document@, stderr@);
                if not_found_error(e) {
                    (1, e)
                } else {
                    (2, e)
                }
            } else {
                match reply_job(document@) {
                    Some(job) => (0, job),
                    None => (
                        2,
                        retryable_diagnostic(
                            "invalid_response"@,
                            "Stado status has no result.job"@,
                        ),
                    ),
                }
            }
        },
    }
}

/// The kind of a lookup outcome: found, not found, or failed.
pub open spec fn outcome_view(o: LookupOutcome) -> (int, JsonV) {
    match o {
        LookupOutcome::Found(j) => (0, j@),
        LookupOutcome::NotFound(j) => (1, j@),
        LookupOutcome::Failed(j) => (2, j@),
    }
}

fn diagnostic(code: &str, message: &str) -> (r: Json)
    ensures
        r@ == retryable_diagnostic(code@, message@),
{
    crate::json::jobj3("code", jstr(code), "retryable", Json::Bool(true), "message", jstr(message))
}

/// A status answer that failed (Stado exited unsuccessfully, or its document
/// is not `ok: true`) is a semantic not-found exactly when the error it
/// carries has the code `NOT_FOUND` or `JOB_NOT_FOUND`, ASCII case ignored:
/// the lookup is then not found, carrying that error; any other failure is
/// a failed lookup carrying its error. A successful answer with a
/// `result.job` is found, carrying the job.
pub proof fn law_not_found_lookups(success: bool, document: Json, stderr: String)
    ensures
        ({
            let reply = StatusReply::Answered(success, Ok(document), stderr);
            let failed = !success || get_bool_v(document@, "ok"@) != Some(true);
            &&& failed ==> ({
                let e = reply_error(document@, stderr@);
                let code = get_str_v(e, "code"@);
                &&& (code matches Some(c) && (eq_ignore_case(c, "NOT_FOUND"@) || eq_ignore_case(
                    c,
                    "JOB_NOT_FOUND"@,
                ))) ==> reply_outcome(reply) == (1int, e)
                &&& !(code matches Some(c) && (eq_ignore_case(c, "NOT_FOUND"@) || eq_ignore_case(
                    c,
                    "JOB_NOT_FOUND"@,
                ))) ==> reply_outcome(reply) == (2int, e)
            })
            &&& failed && get_v(document@, "error"@) is Some ==> reply_error(document@, stderr@) == get_v(
                document@,
                "error"@,
            )->0
            &&& !failed && reply_job(document@) is Some ==> reply_outcome(reply) == (
                0int,
                reply_job(document@)->0,
            )
        }),
{
    reveal_strlit("NOT_FOUND");
    reveal_strlit("JOB_NOT_FOUND");
    assert(lower_seq(Seq::<char>::empty()) =~= Seq::<char>::empty());
    assert(lower_seq("NOT_FOUND"@).len() == 9);
    assert(lower_seq("JOB_NOT_FOUND"@).len() == 13);
}

/// Read Stado's answer to a job status lookup.
pub fn status_outcome(reply: StatusReply) -> (r: LookupOutcome)
    ensures
        outcome_view(r) == reply_outcome(reply),
{
    broadcast use group_json_view;

    match reply {
        StatusReply::Unreachable(m) => LookupOutcome::Failed(diagnostic("transport_error", m.as_str())),
        StatusReply::Answered(_, Err(m), stderr) => {
            let trimmed = trim_str(stderr.as_str());
            let mut fields: Vec<(String, Json)> = Vec::new();
            fields.push((String::from_str("code"), jstr("invalid_response")));
            fields.push((String::from_str("retryable"), Json::Bool(true)));
            fields.push((String::from_str("message"), Json::Str(m)));
            fields.push((String::from_str("stderr"), Json::Str(trimmed)));
            let ghost fv = view_obj(fields@);
            proof {
                assert(fv =~= seq![
                    ("code"@, JsonV::Str("invalid_response"@)),
                    ("retryable"@, JsonV::Bool(true)),
                    ("message"@, JsonV::Str(m@)),
                    ("stderr"@, JsonV::Str(trim(stderr@))),
                ]);
            }
            LookupOutcome::Failed(crate::json::jobj(fields))
        },
        StatusReply::Answered(success, Ok(document), stderr) => {
            if !success || document.get_bool("ok") != Some(true) {
                let error = match document.get("error") {
                    Some(e) => e.duplicate(),
                    None => diagnostic("status_failed", trim_str(stderr.as_str()).as_str()),
                };
                let code = match error.get_str("code") {
                    Some(c) => chars_of(c),
                    None => Vec::new(),
                };
                if eq_ignore_case_exec(&code, &chars_of("NOT_FOUND")) || eq_ignore_case_exec(
                    &code,
                    &chars_of("JOB_NOT_FOUND"),
                ) {
                    LookupOutcome::NotFound(error)
                } else {
                    LookupOutcome::Failed(error)
                }
            } else {
                let job = match document.get("result") {
                    Some(result) => result.get("job"),
                    None => None,
                };
                match job {
                    Some(j) => LookupOutcome::Found(j.duplicate()),
                    None => LookupOutcome::Failed(
                        diagnostic("invalid_response", "Stado status has no result.job"),
                    ),
                }
            }
        },
    }
}

// ---------------------------------------------------------------------------
// Refreshing one record

/// What Stado answered when a record's job was looked up.
pub enum LookupOutcome {
    /// The job's machine status document.
    Found(Json),
    /// Stado answered a semantic NOT_FOUND; the diagnostic of the lookup.
    NotFound(Json),
    /// The lookup failed otherwise; the diagnostic of the lookup.
    Failed(Json),
}

/// The job a record should be refreshed from: its Stado job id.
pub open spec fn lookup_job_id_spec(entry: JsonV) -> Option<Seq<char>> {
    get_str_v(entry, "stado_job_id"@)
}

/// The job id to look up for a record, if it has one.
pub fn lookup_job_id(entry: &Json) -> (r: Option<String>)
    ensures
        match r {
            Some(id) => lookup_job_id_spec(entry@) == Some(id@),
            None => lookup_job_id_spec(entry@) is None,
        },
{
    match entry.get_str("stado_job_id") {
        Some(id) => Some(String::from_str(id)),
        None => None,
    }
}

/// The source revision a record's manifest was planned at.
pub open spec fn expected_revision(entry: JsonV) -> Option<Seq<char>> {
    match get_v(entry, "manifest"@) {
        Some(m) => get_str_v(m, "source_revision"@),
        None => None,
    }
}

/// The revision Stado reports for a job, when it reports a non-empty one.
pub open spec fn observed_revision(job: JsonV) -> Option<Seq<char>> {
    match get_str_v(job, "repo_ref"@) {
        Some(r) => if r.len() > 0 {
            Some(r)
        } else {
            None
        },
        None => None,
    }
}

pub open spec fn jstr_v(s: Seq<char>) -> JsonV {
    JsonV::Str(s)
}

/// A record refreshed from its job's machine status.
pub open spec fn refresh_found_spec(entry: JsonV, job_id: Seq<char>, job: JsonV) -> JsonV {
    match (expected_revision(entry), observed_revision(job)) {
        (Some(expected), Some(observed)) if observed != expected => {
            let e1 = set_v(entry, "state"@, jstr_v("failed"@));
            let e2 = set_v(
                e1,
                "diagnostic"@,
                JsonV::Object(
                    seq![
                        ("code"@, jstr_v("runtime_revision_mismatch"@)),
                        ("expected"@, jstr_v(expected)),
                        ("observed"@, jstr_v(observed)),
                        ("stado_job_id"@, jstr_v(job_id)),
                    ],
                ),
            );
            set_v(e2, "job"@, job)
        },
        _ => {
            let e1 = if get_str_v(entry, "state"@) != Some("imported"@) {
                set_v(
                    entry,
                    "state"@,
                    match get_v(job, "state"@) {
                        Some(s) => s,
                        None => jstr_v("failed"@),
                    },
                )
            } else {
                entry
            };
            let e2 = set_v(set_v(e1, "job"@, job), "lookup_error"@, JsonV::Null);
            if get_str_v(e2, "state"@) != Some("partial"@) {
                set_v(set_v(e2, "diagnostic"@, JsonV::Null), "error"@, JsonV::Null)
            } else {
                e2
            }
        },
    }
}

/// A record whose job Stado confirmed does not exist.
pub open spec fn refresh_lost_spec(entry: JsonV, job_id: Seq<char>, diagnostic: JsonV) -> JsonV {
    let e1 = set_v(entry, "state"@, jstr_v("lost"@));
    let e2 = set_v(e1, "lookup_error"@, diagnostic);
    let e3 = set_v(
        e2,
        "diagnostic"@,
        JsonV::Object(
            seq![
                ("code"@, jstr_v("stado_job_not_found"@)),
                ("message"@, jstr_v("Stado returned semantic NOT_FOUND for job "@ + job_id)),
                ("stado_job_id"@, jstr_v(job_id)),
            ],
        ),
    );
    let e4 = set_v(
        e3,
        "error"@,
        jstr_v("current Stado lookup confirmed that job "@ + job_id + " does not exist"@),
    );
    set_v(e4, "job"@, JsonV::Null)
}

/// A record refreshed from what a lookup of its job answered.
pub open spec fn apply_lookup_spec(entry: JsonV, job_id: Seq<char>, outcome: LookupOutcome) -> JsonV {
    match outcome {
        LookupOutcome::Found(job) => refresh_found_spec(entry, job_id, job@),
        LookupOutcome::NotFound(d) => refresh_lost_spec(entry, job_id, d@),
        LookupOutcome::Failed(d) => set_v(entry, "lookup_error"@, d@),
    }
}

/// What a lookup does to a record: a job Stado reports not found leaves the
/// record `lost`, with no job and the lookup's diagnostic as its lookup
/// error; a failed lookup only records its diagnostic as the lookup error,
/// the state and job kept; a found job is stored on the record and clears
/// the lookup error, and the record takes the job's state (`failed` when it
/// reports none) unless it was already imported, which it stays; but a job
/// running another revision than the record's manifest names fails the
/// record.
pub proof fn law_lookup_refresh(entry: JsonV, job_id: Seq<char>, outcome: LookupOutcome)
    requires
        settable_v(entry),
    ensures
        ({
            let new = apply_lookup_spec(entry, job_id, outcome);
            match outcome {
                LookupOutcome::NotFound(d) => get_v(new, "state"@) == Some(JsonV::Str("lost"@)) && get_v(
                    new,
                    "job"@,
                ) == Some(JsonV::Null) && get_v(new, "lookup_error"@) == Some(d@),
                LookupOutcome::Failed(d) => get_v(new, "state"@) == get_v(entry, "state"@) && get_v(
                    new,
                    "job"@,
                ) == get_v(entry, "job"@) && get_v(new, "lookup_error"@) == Some(d@),
                LookupOutcome::Found(job) => {
                    let mismatch = match (expected_revision(entry), observed_revision(job@)) {
                        (Some(x), Some(y)) => x != y,
                        _ => false,
                    };
                    &&& get_v(new, "job"@) == Some(job@)
                    &&& mismatch ==> get_v(new, "state"@) == Some(JsonV::Str("failed"@))
                    &&& !mismatch ==> get_v(new, "lookup_error"@) == Some(JsonV::Null)
                    &&& !mismatch && get_str_v(entry, "state"@) == Some("imported"@) ==> get_v(new, "state"@)
                        == get_v(entry, "state"@)
                    &&& !mismatch && get_str_v(entry, "state"@) != Some("imported"@) ==> get_v(new, "state"@)
                        == Some(
                        match get_v(job@, "state"@) {
                            Some(s) => s,
                            None => JsonV::Str("failed"@),
                        },
                    )
                },
            }
        }),
{
    reveal_strlit("state");
    reveal_strlit("job");
    reveal_strlit("lookup_error");
    reveal_strlit("diagnostic");
    reveal_strlit("error");
    assert("state"@ != "error"@) by {
        assert("state"@[0] != "error"@[0]);
    }
    assert("state"@.len() == 5 && "job"@.len() == 3 && "lookup_error"@.len() == 12 && "diagnostic"@.len()
        == 10 && "error"@.len() == 5);
    assert("state"@ != "job"@ && "state"@ != "lookup_error"@ && "state"@ != "diagnostic"@);
    assert("job"@ != "lookup_error"@ && "job"@ != "diagnostic"@ && "job"@ != "error"@);
    assert("lookup_error"@ != "diagnostic"@ && "lookup_error"@ != "error"@ && "diagnostic"@ != "error"@);
    match outcome {
        LookupOutcome::NotFound(d) => {
            let e1 = set_v(entry, "state"@, jstr_v("lost"@));
            let e2 = set_v(e1, "lookup_error"@, d@);
            let e3v = JsonV::Object(
                seq![
                    ("code"@, jstr_v("stado_job_not_found"@)),
                    ("message"@, jstr_v("Stado returned semantic NOT_FOUND for job "@ + job_id)),
                    ("stado_job_id"@, jstr_v(job_id)),
                ],
            );
            let e3 = set_v(e2, "diagnostic"@, e3v);
            let ev = jstr_v("current Stado lookup confirmed that job "@ + job_id + " does not exist"@);
            let e4 = set_v(e3, "error"@, ev);
            lemma_set_keeps(entry, "state"@, jstr_v("lost"@));
            lemma_set_keeps(e1, "lookup_error"@, d@);
            lemma_set_keeps(e2, "diagnostic"@, e3v);
            lemma_set_keeps(e3, "error"@, ev);
            lemma_set_keeps(e4, "job"@, JsonV::Null);
        },
        LookupOutcome::Failed(d) => {
            lemma_set_keeps(entry, "lookup_error"@, d@);
        },
        LookupOutcome::Found(job) => {
            let j = job@;
            match (expected_revision(entry), observed_revision(j)) {
                (Some(expected), Some(observed)) if observed != expected => {
                    let e1 = set_v(entry, "state"@, jstr_v("failed"@));
                    let dv = JsonV::Object(
                        seq![
                            ("code"@, jstr_v("runtime_revision_mismatch"@)),
                            ("expected"@, jstr_v(expected)),
                            ("observed"@, jstr_v(observed)),
                            ("stado_job_id"@, jstr_v(job_id)),
                        ],
                    );
                    let e2 = set_v(e1, "diagnostic"@, dv);
                    lemma_set_keeps(entry, "state"@, jstr_v("failed"@));
                    lemma_set_keeps(e1, "diagnostic"@, dv);
                    lemma_set_keeps(e2, "job"@, j);
                },
                _ => {
                    let sv = match get_v(j, "state"@) {
                        Some(s) => s,
                        None => jstr_v("failed"@),
                    };
                    let e1 = if get_str_v(entry, "state"@) != Some("imported"@) {
                        set_v(entry, "state"@, sv)
                    } else {
                        entry
                    };
                    lemma_set_keeps(entry, "state"@, sv);
                    let ej = set_v(e1, "job"@, j);
                    lemma_set_keeps(e1, "job"@, j);
                    let e2 = set_v(ej, "lookup_error"@, JsonV::Null);
                    lemma_set_keeps(ej, "lookup_error"@, JsonV::Null);
                    let ed = set_v(e2, "diagnostic"@, JsonV::Null);
                    lemma_set_keeps(e2, "diagnostic"@, JsonV::Null);
                    lemma_set_keeps(ed, "error"@, JsonV::Null);
                },
            }
        },
    }
}

/// A read after a write gives back the written value, and every other field
/// as it was.
proof fn lemma_set_keeps(v: JsonV, key: Seq<char>, value: JsonV)
    requires
        settable_v(v),
    ensures
        get_v(set_v(v, key, value), key) == Some(value),
        forall|other: Seq<char>| other != key ==> #[trigger] get_v(set_v(v, key, value), other) == get_v(v, other),
{
    assert forall|other: Seq<char>| other != key implies #[trigger] get_v(set_v(v, key, value), other) == get_v(
        v,
        other,
    ) by {
        crate::json::lemma_get_set(v, key, value, other);
    }
    crate::json::lemma_get_set(v, key, value, key);
}

proof fn lemma_set_object(v: JsonV, key: Seq<char>, value: JsonV)
    ensures
        set_v(v, key, value) is Object,
{
}

/// Refresh a record from what Stado answered about its job.
pub fn apply_lookup(entry: &mut Json, job_id: &str, outcome: LookupOutcome)
    requires
        settable_v(old(entry)@),
    ensures
        final(entry)@ == apply_lookup_spec(old(entry)@, job_id@, outcome),
{
    broadcast use group_json_view;

    match outcome {
        LookupOutcome::Found(job) => {
            let expected: Option<String> = match entry.get("manifest") {
                Some(m) => match m.get_str("source_revision") {
                    Some(s) => Some(String::from_str(s)),
                    None => None,
                },
                None => None,
            };
            let observed: Option<String> = match job.get_str("repo_ref") {
                Some(r) => if crate::text::chars_of(r).len() > 0 {
                    Some(String::from_str(r))
                } else {
                    None
                },
                None => None,
            };
            if let (Some(e), Some(o)) = (&expected, &observed) {
                if !crate::text::str_eq(o.as_str(), e.as_str()) {
                    entry.set("state", crate::json::jstr("failed"));
                    let mut fields: Vec<(String, Json)> = Vec::new();
                    fields.push((String::from_str("code"), crate::json::jstr("runtime_revision_mismatch")));
                    fields.push((String::from_str("expected"), Json::Str(e.clone())));
                    fields.push((String::from_str("observed"), Json::Str(o.clone())));
                    fields.push((String::from_str("stado_job_id"), crate::json::jstr(job_id)));
                    assert(view_obj(fields@) =~= seq![
                        ("code"@, jstr_v("runtime_revision_mismatch"@)),
                        ("expected"@, jstr_v(e@)),
                        ("observed"@, jstr_v(o@)),
                        ("stado_job_id"@, jstr_v(job_id@)),
                    ]);
                    entry.set("diagnostic", crate::json::jobj(fields));
                    entry.set("job", job);
                    return;
                }
            }
            let imported = match entry.get_str("state") {
                Some(s) => crate::text::str_eq(s, "imported"),
                None => false,
            };
            if !imported {
                let state = match job.get("state") {
                    Some(s) => s.duplicate(),
                    None => crate::json::jstr("failed"),
                };
                entry.set("state", state);
            }
            entry.set("job", job);
            entry.set("lookup_error", Json::Null);
            let partial = match entry.get_str("state") {
                Some(s) => crate::text::str_eq(s, "partial"),
                None => false,
            };
            if !partial {
                entry.set("diagnostic", Json::Null);
                entry.set("error", Json::Null);
            }
        },
        LookupOutcome::NotFound(diagnostic) => {
            entry.set("state", crate::json::jstr("lost"));
            entry.set("lookup_error", diagnostic);
            let mut fields: Vec<(String, Json)> = Vec::new();
            fields.push((String::from_str("code"), crate::json::jstr("stado_job_not_found")));
            fields.push(
                (
                    String::from_str("message"),
                    Json::Str(crate::text::concat("Stado returned semantic NOT_FOUND for job ", job_id)),
                ),
            );
            fields.push((String::from_str("stado_job_id"), crate::json::jstr(job_id)));
            assert(view_obj(fields@) =~= seq![
                ("code"@, jstr_v("stado_job_not_found"@)),
                ("message"@, jstr_v("Stado returned semantic NOT_FOUND for job "@ + job_id@)),
                ("stado_job_id"@, jstr_v(job_id@)),
            ]);
            entry.set("diagnostic", crate::json::jobj(fields));
            let first = crate::text::concat("current Stado lookup confirmed that job ", job_id);
            let message = crate::text::concat(first.as_str(), " does not exist");
            entry.set("error", Json::Str(message));
            entry.set("job", Json::Null);
        },
        LookupOutcome::Failed(diagnostic) => {
            entry.set("lookup_error", diagnostic);
        },
    }
}

// ---------------------------------------------------------------------------
// Runs in the retired catalog-level shape

/// A job id reduced to the characters a record slug may hold.
pub open spec fn legacy_suffix(job_id: Seq<char>) -> Seq<char> {
    job_id.filter(|c: char| crate::text::is_alnum_char(c) || c == '-' || c == '_')
}

/// A field's value, or `null` when absent.
pub open spec fn or_null_v(entry: JsonV, key: Seq<char>) -> JsonV {
    match get_v(entry, key) {
        Some(v) => v,
        None => JsonV::Null,
    }
}

/// The one synthetic record a catalog-level job becomes.
pub open spec fn legacy_record_spec(entry: JsonV, job_id: Seq<char>) -> JsonV {
    let suffix = legacy_suffix(job_id);
    JsonV::Object(
        seq![
            ("record"@, jstr_v("legacy-job-"@ + suffix)),
            ("state"@, match get_v(entry, "state"@) {
                Some(v) => v,
                None => jstr_v("unknown"@),
            }),
            ("stado_job_id"@, jstr_v(job_id)),
            ("attempt_id"@, jstr_v("legacy-attempt-"@ + suffix)),
            ("artifact_uri"@, or_null_v(entry, "artifact_uri"@)),
            ("output_uri"@, or_null_v(entry, "output_uri"@)),
            ("submission_receipt"@, or_null_v(entry, "submission_receipt"@)),
            ("diagnostic"@, JsonV::Object(
                seq![
                    ("code"@, jstr_v("legacy_catalog_attempt_migrated"@)),
                    ("message"@, jstr_v(
                        "legacy catalog-level job retained as one explicit synthetic record attempt"@,
                    )),
                ],
            )),
            ("attempts"@, JsonV::Array(Seq::empty())),
        ],
    )
}

/// A catalog entry with a catalog-level job and no records gains the one
/// record that job stands for; any other entry is unchanged.
pub open spec fn migrate_entry_spec(entry: JsonV) -> JsonV {
    let has_records = match get_v(entry, "records"@) {
        Some(JsonV::Array(records)) => records.len() > 0,
        _ => false,
    };
    match get_str_v(entry, "job_id"@) {
        None => entry,
        Some(job_id) => if has_records {
            entry
        } else {
            set_v(entry, "records"@, JsonV::Array(seq![legacy_record_spec(entry, job_id)]))
        },
    }
}

/// A run with every catalog-level job lifted into a record.
pub open spec fn migrate_run_spec(run: JsonV) -> JsonV {
    match get_v(run, "catalogs"@) {
        Some(JsonV::Array(catalogs)) => set_v(
            run,
            "catalogs"@,
            JsonV::Array(catalogs.map_values(|c: JsonV| migrate_entry_spec(c))),
        ),
        _ => run,
    }
}

fn field_or_null(entry: &Json, key: &str) -> (r: Json)
    ensures
        r@ == or_null_v(entry@, key@),
{
    match entry.get(key) {
        Some(v) => v.duplicate(),
        None => Json::Null,
    }
}

fn legacy_record(entry: &Json, job_id: &str) -> (r: Json)
    ensures
        r@ == legacy_record_spec(entry@, job_id@),
{
    broadcast use group_json_view;

    let chars = crate::text::chars_of(job_id);
    let mut suffix: Vec<char> = Vec::new();
    let mut i: usize = 0;
    while i < chars.len()
        invariant
            i <= chars@.len(),
            chars@ == job_id@,
            suffix@ == chars@.take(i as int).filter(
                |c: char| crate::text::is_alnum_char(c) || c == '-' || c == '_',
            ),
        decreases chars.len() - i,
    {
        let c = chars[i];
        proof {
            assert(chars@.take(i + 1).drop_last() =~= chars@.take(i as int));
            reveal(Seq::filter);
            assert(chars@.take(i + 1).last() == c);
        }
        if crate::text::is_alnum(c) || c == '-' || c == '_' {
            suffix.push(c);
        }
        i = i + 1;
    }
    assert(chars@.take(chars@.len() as int) =~= chars@);
    let suffix_s = crate::text::string_of(&suffix);
    let state = match entry.get("state") {
        Some(v) => v.duplicate(),
        None => crate::json::jstr("unknown"),
    };
    let mut diagnostic: Vec<(String, Json)> = Vec::new();
    diagnostic.push((String::from_str("code"), crate::json::jstr("legacy_catalog_attempt_migrated")));
    diagnostic.push(
        (
            String::from_str("message"),
            crate::json::jstr(
                "legacy catalog-level job retained as one explicit synthetic record attempt",
            ),
        ),
    );
    let ghost dv = view_obj(diagnostic@);
    assert(dv =~= seq![
        ("code"@, jstr_v("legacy_catalog_attempt_migrated"@)),
        ("message"@, jstr_v(
            "legacy catalog-level job retained as one explicit synthetic record attempt"@,
        )),
    ]);
    let mut fields: Vec<(String, Json)> = Vec::new();
    fields.push(
        (
            String::from_str("record"),
            Json::Str(crate::text::concat("legacy-job-", suffix_s.as_str())),
        ),
    );
    fields.push((String::from_str("state"), state));
    fields.push((String::from_str("stado_job_id"), crate::json::jstr(job_id)));
    fields.push(
        (
            String::from_str("attempt_id"),
            Json::Str(crate::text::concat("legacy-attempt-", suffix_s.as_str())),
        ),
    );
    fields.push((String::from_str("artifact_uri"), field_or_null(entry, "artifact_uri")));
    fields.push((String::from_str("output_uri"), field_or_null(entry, "output_uri")));
    fields.push((String::from_str("submission_receipt"), field_or_null(entry, "submission_receipt")));
    fields.push((String::from_str("diagnostic"), crate::json::jobj(diagnostic)));
    fields.push((String::from_str("attempts"), Json::Array(Vec::new())));
    assert(view_arr(Seq::<Json>::empty()) =~= Seq::<JsonV>::empty());
    assert(view_obj(fields@) =~= match legacy_record_spec(entry@, job_id@) {
        JsonV::Object(f) => f,
        _ => Seq::empty(),
    });
    crate::json::jobj(fields)
}

/// Lift every catalog-level job of a run written in the retired shape into
/// one explicit synthetic record.
pub fn migrate_legacy_catalog_jobs(run: &mut Json)
    ensures
        final(run)@ == migrate_run_spec(old(run)@),
{
    broadcast use group_json_view;

    let updated = match run.get("catalogs") {
        Some(Json::Array(catalogs)) => {
            proof {
                crate::json::lemma_view_arr(catalogs@);
            }
            let mut out: Vec<Json> = Vec::new();
            let mut i: usize = 0;
            while i < catalogs.len()
                invariant
                    i <= catalogs@.len(),
                    view_arr(catalogs@).len() == catalogs@.len(),
                    forall|j: int|
                        0 <= j < catalogs@.len() ==> #[trigger] view_arr(catalogs@)[j]
                            == catalogs@[j]@,
                    out@.len() == i,
                    forall|j: int|
                        0 <= j < i ==> #[trigger] out@[j]@ == migrate_entry_spec(catalogs@[j]@),
                decreases catalogs.len() - i,
            {
                let entry = &catalogs[i];
                let has_records = match entry.get("records") {
                    Some(Json::Array(records)) => records.len() > 0,
                    _ => false,
                };
                let migrated = match entry.get_str("job_id") {
                    None => entry.duplicate(),
                    Some(job_id) => if has_records {
                        entry.duplicate()
                    } else {
                        let record = legacy_record(entry, job_id);
                        let ghost rv = record@;
                        let mut copy = entry.duplicate();
                        let mut one: Vec<Json> = Vec::new();
                        one.push(record);
                        proof {
                            crate::json::lemma_view_arr(one@);
                        }
                        assert(view_arr(one@).len() == 1);
                        assert(view_arr(one@)[0] == one@[0]@);
                        assert(one@[0]@ == rv);
                        assert(view_arr(one@) =~= seq![legacy_record_spec(entry@, job_id@)]);
                        copy.set("records", Json::Array(one));
                        copy
                    },
                };
                out.push(migrated);
                i = i + 1;
            }
            proof {
                crate::json::lemma_view_arr(out@);
            }
            assert forall|j: int| 0 <= j < out@.len() implies #[trigger] view_arr(out@)[j]
                == view_arr(catalogs@).map_values(|x: JsonV| migrate_entry_spec(x))[j] by {
                assert(view_arr(out@)[j] == out@[j]@);
                assert(view_arr(catalogs@)[j] == catalogs@[j]@);
            }
            assert(view_arr(out@) =~= view_arr(catalogs@).map_values(
                |x: JsonV| migrate_entry_spec(x),
            ));
            out
        },
        _ => return,
    };
    run.set("catalogs", Json::Array(updated));
}

/// Lifting catalog-level jobs a second time changes nothing: every lifted
/// catalog now has a record.
pub proof fn law_migrate_idempotent(run: JsonV)
    ensures
        migrate_run_spec(migrate_run_spec(run)) == migrate_run_spec(run),
{
    match get_v(run, "catalogs"@) {
        Some(JsonV::Array(catalogs)) => {
            let g = |x: JsonV| migrate_entry_spec(x);
            let once = catalogs.map_values(g);
            let run1 = set_v(run, "catalogs"@, JsonV::Array(once));
            assert forall|i: int| 0 <= i < catalogs.len() implies g(#[trigger] once[i]) == once[i] by {
                let c = catalogs[i];
                match get_str_v(c, "job_id"@) {
                    None => {},
                    Some(job_id) => {
                        let has_records = match get_v(c, "records"@) {
                            Some(JsonV::Array(records)) => records.len() > 0,
                            _ => false,
                        };
                        if !has_records {
                            let c1 = set_v(
                                c,
                                "records"@,
                                JsonV::Array(seq![legacy_record_spec(c, job_id)]),
                            );
                            crate::json::lemma_get_set(
                                c,
                                "records"@,
                                JsonV::Array(seq![legacy_record_spec(c, job_id)]),
                                "records"@,
                            );
                            assert(settable_v(c)) by {
                                if !(c is Object) {
                                    assert(get_v(c, "job_id"@) is None);
                                }
                            }
                            crate::json::lemma_get_set(
                                c,
                                "records"@,
                                JsonV::Array(seq![legacy_record_spec(c, job_id)]),
                                "job_id"@,
                            );
                            assert("records"@ != "job_id"@) by {
                                reveal_strlit("records");
                                reveal_strlit("job_id");
                                assert("records"@.len() != "job_id"@.len());
                            }
                        }
                    },
                }
            }
            crate::json::lemma_get_set(run, "catalogs"@, JsonV::Array(once), "catalogs"@);
            assert(once.map_values(g) =~= once);
            crate::json::lemma_set_same(run1, "catalogs"@, JsonV::Array(once));
        },
        _ => {},
    }
}

} // verus!

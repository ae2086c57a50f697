//! Cancelling crawl records: the command line, which records a cancellation
//! addresses, the durable intent recorded before any external effect, what
//! is asked of Stado for each record, and the result retained with it.
use vstd::prelude::*;
use crate::crawl::{selected_matches, selected_matches_spec, strings_view};
use crate::json::{
    get_str_v, get_u64_v, get_v, group_json_view, jobj, jstr, obj2, set_v, settable_v, str_v,
    view_arr, view_obj, Json, JsonV,
};
use crate::refresh::LookupOutcome;
use crate::runstate::{machine_state, machine_state_spec, terminal_machine_state,
    terminal_machine_state_spec};
use crate::text::{chars_of, str_eq, trim, trim_chars, trim_str, utf8_bytes, utf8_encode};

verus! {

// ---------------------------------------------------------------------------
// The command line

/// The arguments of a cancellation, each value the last one given: the run,
/// the `--record` selection and the reason; an error says whether a flag
/// lacked its value, and which word was refused.
pub open spec fn cancel_arguments_from(
    rest: Seq<Seq<char>>,
    i: int,
    run: Option<Seq<char>>,
    record: Option<Seq<char>>,
    reason: Option<Seq<char>>,
) -> Result<(Option<Seq<char>>, Option<Seq<char>>, Option<Seq<char>>), (bool, Seq<char>)>
    decreases rest.len() - i,
{
    if i < 0 || i >= rest.len() {
        Ok((run, record, reason))
    } else if rest[i] == "--run"@ || rest[i] == "--record"@ || rest[i] == "--reason"@ {
        if i + 1 < rest.len() {
            let v = Some(rest[i + 1]);
            if rest[i] == "--run"@ {
                cancel_arguments_from(rest, i + 2, v, record, reason)
            } else if rest[i] == "--record"@ {
                cancel_arguments_from(rest, i + 2, run, v, reason)
            } else {
                cancel_arguments_from(rest, i + 2, run, record, v)
            }
        } else {
            Err((true, rest[i]))
        }
    } else {
        Err((false, rest[i]))
    }
}

/// A reason a cancellation may carry: not blank, and at most 1024 bytes.
pub open spec fn reason_ok(reason: Seq<char>) -> bool {
    trim(reason).len() > 0 && utf8_encode(reason).len() <= 1024
}

/// Why the arguments of a cancellation were refused.
pub enum CancelArgumentError {
    /// A flag was given without its value.
    MissingValue(String),
    /// An argument that is none of the flags.
    Unknown(String),
    /// `--run` was not given.
    RunRequired,
    /// The reason is missing, blank or longer than 1024 bytes.
    BadReason,
}

/// What a cancellation asks for.
pub struct CancelRequest {
    pub run_id: String,
    pub record: Option<String>,
    pub reason: String,
}

pub open spec fn opt_view(o: Option<String>) -> Option<Seq<char>> {
    match o {
        Some(s) => Some(s@),
        None => None,
    }
}

/// Read the arguments of `spis crawl cancel`.
pub fn parse_cancel_arguments(rest: &[String]) -> (r: Result<CancelRequest, CancelArgumentError>)
    ensures
        match cancel_arguments_from(strings_view(rest@), 0, None, None, None) {
            Err((true, flag)) => r matches Err(CancelArgumentError::MissingValue(f)) && f@ == flag,
            Err((false, word)) => r matches Err(CancelArgumentError::Unknown(w)) && w@ == word,
            Ok((None, _, _)) => r matches Err(CancelArgumentError::RunRequired),
            Ok((Some(run), record, reason)) => match reason {
                Some(text) => if reason_ok(text) {
                    r matches Ok(q) && q.run_id@ == run && opt_view(q.record) == record
                        && q.reason@ == text
                } else {
                    r matches Err(CancelArgumentError::BadReason)
                },
                None => r matches Err(CancelArgumentError::BadReason),
            },
        },
{
    let ghost rv = strings_view(rest@);
    let mut run: Option<String> = None;
    let mut record: Option<String> = None;
    let mut reason: Option<String> = None;
    let mut i: usize = 0;
    while i < rest.len()
        invariant
            i <= rest@.len(),
            rv == strings_view(rest@),
            cancel_arguments_from(rv, i as int, opt_view(run), opt_view(record), opt_view(reason))
                == cancel_arguments_from(rv, 0, None, None, None),
        decreases rest.len() - i,
    {
        let w = rest[i].as_str();
        assert(rv[i as int] == w@);
        let is_run = str_eq(w, "--run");
        let is_record = str_eq(w, "--record");
        let is_reason = str_eq(w, "--reason");
        if is_run || is_record || is_reason {
            if i + 1 >= rest.len() {
                return Err(CancelArgumentError::MissingValue(rest[i].clone()));
            }
            assert(rv[i + 1] == rest@[i + 1]@);
            let value = Some(rest[i + 1].clone());
            if is_run {
                run = value;
            } else if is_record {
                record = value;
            } else {
                reason = value;
            }
            i = i + 2;
        } else {
            return Err(CancelArgumentError::Unknown(rest[i].clone()));
        }
    }
    let run_id = match run {
        Some(r) => r,
        None => return Err(CancelArgumentError::RunRequired),
    };
    let text = match reason {
        Some(t) => t,
        None => return Err(CancelArgumentError::BadReason),
    };
    let trimmed = trim_chars(&chars_of(text.as_str()));
    let bytes = utf8_bytes(&chars_of(text.as_str()));
    if trimmed.len() == 0 || bytes.len() > 1024 {
        return Err(CancelArgumentError::BadReason);
    }
    Ok(CancelRequest { run_id, record, reason: text })
}

// ---------------------------------------------------------------------------
// Which records

/// The name a catalog or record entry carries under `key`, or empty.
pub open spec fn name_of(v: JsonV, key: Seq<char>) -> Seq<char> {
    match get_str_v(v, key) {
        Some(s) => s,
        None => Seq::empty(),
    }
}

/// The records of a run, as (catalog, record) names, in order.
pub open spec fn record_names(catalogs: Seq<JsonV>) -> Seq<(Seq<char>, Seq<char>)>
    decreases catalogs.len(),
{
    if catalogs.len() == 0 {
        Seq::empty()
    } else {
        let c = catalogs.last();
        let records = match get_v(c, "records"@) {
            Some(JsonV::Array(items)) => items,
            _ => Seq::empty(),
        };
        record_names(catalogs.drop_last()) + records.map_values(
            |r: JsonV| (name_of(c, "catalog"@), name_of(r, "record"@)),
        )
    }
}

/// The (catalog, record) names a `--record` selection addresses, in order.
pub open spec fn cancel_targets_spec(run: JsonV, selected: Option<Seq<char>>) -> Seq<
    (Seq<char>, Seq<char>),
> {
    let catalogs = match get_v(run, "catalogs"@) {
        Some(JsonV::Array(items)) => items,
        _ => Seq::empty(),
    };
    record_names(catalogs).filter(|p: (Seq<char>, Seq<char>)| selected_matches_spec(p.1, selected))
}

/// Why no record, or no single record, was addressed.
pub enum TargetError {
    /// No record answers the selection.
    NoMatch,
    /// A `--record` selection answers more than one record.
    Ambiguous,
}

pub open spec fn pair_views(v: Seq<(String, String)>) -> Seq<(Seq<char>, Seq<char>)> {
    v.map_values(|p: (String, String)| (p.0@, p.1@))
}

fn text_or_empty(v: &Json, key: &str) -> (r: String)
    ensures
        r@ == name_of(v@, key@),
{
    match v.get_str(key) {
        Some(s) => String::from_str(s),
        None => String::new(),
    }
}

/// The records a cancellation addresses; a `--record` selection must answer
/// exactly one.
pub fn cancel_targets(run: &Json, selected: Option<&str>) -> (r: Result<
    Vec<(String, String)>,
    TargetError,
>)
    ensures
        ({
            let t = cancel_targets_spec(
                run@,
                match selected {
                    Some(s) => Some(s@),
                    None => None,
                },
            );
            if t.len() == 0 {
                r matches Err(TargetError::NoMatch)
            } else if selected is Some && t.len() != 1 {
                r matches Err(TargetError::Ambiguous)
            } else {
                r matches Ok(v) && pair_views(v@) == t
            }
        }),
{
    broadcast use group_json_view;

    let ghost sel = match selected {
        Some(s) => Some(s@),
        None => None,
    };
    let ghost keep = |p: (Seq<char>, Seq<char>)| selected_matches_spec(p.1, sel);
    let cats = run.get_items("catalogs");
    proof {
        crate::json::lemma_view_arr(cats@);
    }
    let ghost cv = view_arr(cats@);
    let mut out: Vec<(String, String)> = Vec::new();
    let mut i: usize = 0;
    while i < cats.len()
        invariant
            i <= cats@.len(),
            cv == view_arr(cats@),
            cv.len() == cats@.len(),
            forall|j: int| 0 <= j < cats@.len() ==> #[trigger] cv[j] == cats@[j]@,
            keep == (|p: (Seq<char>, Seq<char>)| selected_matches_spec(p.1, sel)),
            sel == match selected {
                Some(s) => Some(s@),
                None => None::<Seq<char>>,
            },
            pair_views(out@) == record_names(cv.take(i as int)).filter(keep),
        decreases cats.len() - i,
    {
        let c = &cats[i];
        let catalog_name = text_or_empty(c, "catalog");
        let items: &[Json] = match c.get("records") {
            Some(Json::Array(items)) => items.as_slice(),
            _ => &[],
        };
        let ghost iv: Seq<JsonV> = match get_v(c@, "records"@) {
            Some(JsonV::Array(items)) => items,
            _ => Seq::empty(),
        };
        proof {
            crate::json::lemma_view_arr(items@);
            assert(cv.take(i + 1).drop_last() =~= cv.take(i as int));
            assert(cv.take(i + 1).last() == c@);
        }
        assert(view_arr(items@) == iv);
        let ghost mapped = iv.map_values(|r: JsonV| (name_of(c@, "catalog"@), name_of(r, "record"@)));
        let ghost before = out@;
        let mut k: usize = 0;
        while k < items.len()
            invariant
                k <= items@.len(),
                view_arr(items@) == iv,
                iv.len() == items@.len(),
                forall|j: int| 0 <= j < items@.len() ==> #[trigger] iv[j] == items@[j]@,
                catalog_name@ == name_of(c@, "catalog"@),
                mapped == iv.map_values(|r: JsonV| (name_of(c@, "catalog"@), name_of(r, "record"@))),
                keep == (|p: (Seq<char>, Seq<char>)| selected_matches_spec(p.1, sel)),
                sel == match selected {
                    Some(s) => Some(s@),
                    None => None::<Seq<char>>,
                },
                pair_views(out@) == pair_views(before) + mapped.take(k as int).filter(keep),
            decreases items.len() - k,
        {
            let record_name = text_or_empty(&items[k], "record");
            proof {
                reveal(Seq::filter);
                assert(mapped.take(k + 1).drop_last() =~= mapped.take(k as int));
                assert(iv[k as int] == items@[k as int]@);
                assert(mapped.take(k + 1).last() == (catalog_name@, record_name@));
            }
            if selected_matches(record_name.as_str(), selected) {
                let ghost prior = out@;
                out.push((catalog_name.clone(), record_name));
                assert(pair_views(out@) =~= pair_views(prior).push(
                    (catalog_name@, name_of(items@[k as int]@, "record"@)),
                ));
            }
            k = k + 1;
        }
        proof {
            assert(mapped.take(items@.len() as int) =~= mapped);
            Seq::filter_distributes_over_add(record_names(cv.take(i as int)), mapped, keep);
            assert(record_names(cv.take(i + 1)) == record_names(cv.take(i as int)) + mapped);
        }
        i = i + 1;
    }
    assert(cv.take(cats@.len() as int) =~= cv);
    if out.len() == 0 {
        return Err(TargetError::NoMatch);
    }
    if selected.is_some() && out.len() != 1 {
        return Err(TargetError::Ambiguous);
    }
    Ok(out)
}

// ---------------------------------------------------------------------------
// The durable intent

/// A record's manifest, when it is an object.
pub open spec fn manifest_of(record: JsonV) -> Option<JsonV> {
    match get_v(record, "manifest"@) {
        Some(m) => if m is Object {
            Some(m)
        } else {
            None
        },
        None => None,
    }
}

/// The attempt id a cancellation names: the manifest's `attempt_id` field
/// when the manifest has one, else the record's; it must be a string.
pub open spec fn intent_attempt_id(record: JsonV) -> Option<Seq<char>> {
    let field = match manifest_of(record) {
        Some(m) => match get_v(m, "attempt_id"@) {
            Some(x) => Some(x),
            None => get_v(record, "attempt_id"@),
        },
        None => get_v(record, "attempt_id"@),
    };
    match field {
        Some(x) => str_v(x),
        None => None,
    }
}

/// The attempt number a cancellation names: the manifest's, else the
/// record's.
pub open spec fn intent_attempt(record: JsonV) -> Option<u64> {
    let from_manifest = match manifest_of(record) {
        Some(m) => get_u64_v(m, "attempt"@),
        None => None,
    };
    match from_manifest {
        Some(n) => Some(n),
        None => get_u64_v(record, "attempt"@),
    }
}

pub open spec fn manifest_field(record: JsonV, key: Seq<char>) -> Option<JsonV> {
    match manifest_of(record) {
        Some(m) => get_v(m, key),
        None => None,
    }
}

pub open spec fn manifest_str(record: JsonV, key: Seq<char>) -> Option<Seq<char>> {
    match manifest_of(record) {
        Some(m) => get_str_v(m, key),
        None => None,
    }
}

pub const CANCEL_INTENT_SCHEMA: &'static str = "wisent.crawl-cancel-intent.v1";

/// The intent document recorded for cancelling one record's attempt.
pub open spec fn intent_spec(
    run_id: Seq<char>,
    catalog: Seq<char>,
    record_name: Seq<char>,
    record: JsonV,
    reason: Seq<char>,
    attempt: u64,
    attempt_id: Seq<char>,
) -> JsonV {
    JsonV::Object(
        seq![
            ("schema"@, JsonV::Str(CANCEL_INTENT_SCHEMA@)),
            ("run_id"@, JsonV::Str(run_id)),
            ("catalog"@, JsonV::Str(catalog)),
            ("record"@, JsonV::Str(record_name)),
            ("record_key"@, match manifest_field(record, "record_key"@) {
                Some(k) => k,
                None => JsonV::Null,
            }),
            ("attempt"@, JsonV::UInt(attempt)),
            ("attempt_id"@, JsonV::Str(attempt_id)),
            ("stado_run_id"@, crate::json::opt_str_v(manifest_str(record, "stado_run_id"@))),
            ("stado_job_id"@, crate::json::opt_str_v(get_str_v(record, "stado_job_id"@))),
            ("reason"@, JsonV::Str(reason)),
        ],
    )
}

/// Why a record cannot be cancelled.
pub enum IntentError {
    /// The record names no attempt id.
    NoAttemptId,
    /// The record names no attempt number.
    NoAttemptNumber,
}

fn manifest_ref(record: &Json) -> (r: Option<&Json>)
    ensures
        match r {
            Some(m) => manifest_of(record@) == Some(m@),
            None => manifest_of(record@) is None,
        },
{
    broadcast use group_json_view;

    match record.get("manifest") {
        Some(m) => if m.is_object() {
            Some(m)
        } else {
            None
        },
        None => None,
    }
}

/// The intent to cancel a record's current attempt.
pub fn cancel_intent(run_id: &str, catalog: &str, record_name: &str, record: &Json, reason: &str) -> (r:
    Result<Json, IntentError>)
    ensures
        match intent_attempt_id(record@) {
            None => r matches Err(IntentError::NoAttemptId),
            Some(id) => match intent_attempt(record@) {
                None => r matches Err(IntentError::NoAttemptNumber),
                Some(n) => r matches Ok(i) && i@ == intent_spec(
                    run_id@,
                    catalog@,
                    record_name@,
                    record@,
                    reason@,
                    n,
                    id,
                ),
            },
        },
{
    broadcast use group_json_view;

    let manifest = manifest_ref(record);
    let id_field = match manifest {
        Some(m) => match m.get("attempt_id") {
            Some(x) => Some(x),
            None => record.get("attempt_id"),
        },
        None => record.get("attempt_id"),
    };
    let attempt_id = match id_field {
        Some(x) => match x.as_str() {
            Some(s) => s,
            None => return Err(IntentError::NoAttemptId),
        },
        None => return Err(IntentError::NoAttemptId),
    };
    let from_manifest = match manifest {
        Some(m) => m.get_u64("attempt"),
        None => None,
    };
    let attempt = match from_manifest {
        Some(n) => n,
        None => match record.get_u64("attempt") {
            Some(n) => n,
            None => return Err(IntentError::NoAttemptNumber),
        },
    };
    let record_key = match manifest {
        Some(m) => match m.get("record_key") {
            Some(k) => k.duplicate(),
            None => Json::Null,
        },
        None => Json::Null,
    };
    let stado_run_id = match manifest {
        Some(m) => m.get_str("stado_run_id"),
        None => None,
    };
    let mut fields: Vec<(String, Json)> = Vec::new();
    fields.push((String::from_str("schema"), jstr(CANCEL_INTENT_SCHEMA)));
    fields.push((String::from_str("run_id"), jstr(run_id)));
    fields.push((String::from_str("catalog"), jstr(catalog)));
    fields.push((String::from_str("record"), jstr(record_name)));
    fields.push((String::from_str("record_key"), record_key));
    fields.push((String::from_str("attempt"), Json::UInt(attempt)));
    fields.push((String::from_str("attempt_id"), jstr(attempt_id)));
    fields.push((String::from_str("stado_run_id"), crate::json::jopt_str(stado_run_id)));
    fields.push(
        (String::from_str("stado_job_id"), crate::json::jopt_str(record.get_str("stado_job_id"))),
    );
    fields.push((String::from_str("reason"), jstr(reason)));
    let ghost fv = view_obj(fields@);
    assert(fv =~= intent_spec(
        run_id@,
        catalog@,
        record_name@,
        record@,
        reason@,
        attempt,
        attempt_id@,
    )->Object_0);
    Ok(jobj(fields))
}

/// Whether a record has not reached Stado yet, so recording the intent
/// cancels it outright.
pub open spec fn before_submission(state: Option<Seq<char>>) -> bool {
    state == Some("planned"@) || state == Some("preflighting"@) || state == Some(
        "preflight_passed"@,
    ) || state == Some("unavailable"@)
}

/// A record with a cancellation intent recorded: an intent already there is
/// kept, and a record that never reached Stado is cancelled.
pub open spec fn record_intent_spec(entry: JsonV, intent: JsonV) -> JsonV {
    let with_intent = match get_v(entry, "cancel_intent"@) {
        Some(existing) => if existing is Object {
            entry
        } else {
            set_v(entry, "cancel_intent"@, intent)
        },
        None => set_v(entry, "cancel_intent"@, intent),
    };
    if before_submission(get_str_v(entry, "state"@)) {
        set_v(
            set_v(with_intent, "state"@, JsonV::Str("cancelled"@)),
            "diagnostic"@,
            obj2(
                "code"@,
                JsonV::Str("cancelled_before_submission"@),
                "message"@,
                JsonV::Str("durable cancel intent recorded before any submission"@),
            ),
        )
    } else {
        with_intent
    }
}

/// Record the intent to cancel on the record, before any external effect.
pub fn record_cancel_intent(entry: &mut Json, intent: &Json)
    requires
        settable_v(old(entry)@),
    ensures
        final(entry)@ == record_intent_spec(old(entry)@, intent@),
{
    broadcast use group_json_view;

    let has_intent = match entry.get("cancel_intent") {
        Some(existing) => existing.is_object(),
        None => false,
    };
    let early = match entry.get_str("state") {
        Some(s) => str_eq(s, "planned") || str_eq(s, "preflighting") || str_eq(
            s,
            "preflight_passed",
        ) || str_eq(s, "unavailable"),
        None => false,
    };
    proof {
        reveal_strlit("planned");
        reveal_strlit("preflighting");
        reveal_strlit("preflight_passed");
        reveal_strlit("unavailable");
    }
    assert(early == before_submission(get_str_v(entry@, "state"@)));
    if !has_intent {
        entry.set("cancel_intent", intent.duplicate());
    }
    if early {
        entry.set("state", jstr("cancelled"));
        entry.set(
            "diagnostic",
            crate::json::jobj2(
                "code",
                jstr("cancelled_before_submission"),
                "message",
                jstr("durable cancel intent recorded before any submission"),
            ),
        );
    }
}

// ---------------------------------------------------------------------------
// What Stado is asked

/// What a job lookup says of a record's job, as the cancellation records it;
/// `None` when the record was never submitted.
pub open spec fn status_document_spec(lookup: Option<LookupOutcome>) -> JsonV {
    match lookup {
        None => JsonV::Object(seq![("state"@, JsonV::Str("not_submitted"@))]),
        Some(LookupOutcome::Found(job)) => obj2(
            "state"@,
            JsonV::Str(machine_state_spec(job@)),
            "job"@,
            job@,
        ),
        Some(LookupOutcome::NotFound(d)) => obj2(
            "state"@,
            JsonV::Str("not_found"@),
            "diagnostic"@,
            d@,
        ),
        Some(LookupOutcome::Failed(d)) => obj2(
            "state"@,
            JsonV::Str("lookup_failed"@),
            "diagnostic"@,
            d@,
        ),
    }
}

fn state_object(state: &str) -> (r: Json)
    ensures
        r@ == JsonV::Object(seq![("state"@, JsonV::Str(state@))]),
{
    broadcast use group_json_view;

    let mut fields: Vec<(String, Json)> = Vec::new();
    fields.push((String::from_str("state"), jstr(state)));
    assert(view_obj(fields@) =~= seq![("state"@, JsonV::Str(state@))]);
    jobj(fields)
}

/// The status document of a job lookup.
pub fn status_document(lookup: Option<LookupOutcome>) -> (r: Json)
    ensures
        r@ == status_document_spec(lookup),
{
    match lookup {
        None => state_object("not_submitted"),
        Some(LookupOutcome::Found(job)) => {
            let state = jstr(machine_state(&job));
            crate::json::jobj2("state", state, "job", job)
        },
        Some(LookupOutcome::NotFound(d)) => crate::json::jobj2(
            "state",
            jstr("not_found"),
            "diagnostic",
            d,
        ),
        Some(LookupOutcome::Failed(d)) => crate::json::jobj2(
            "state",
            jstr("lookup_failed"),
            "diagnostic",
            d,
        ),
    }
}

/// What is asked of Stado for one record.
#[derive(PartialEq, Eq, Structural, Debug, Clone, Copy)]
pub enum CancelStep {
    /// Cancel the queued or running job.
    Dispatch,
    /// The job already ended.
    AlreadyTerminal,
    /// The job is in a state Stado cannot cancel.
    NotCancellable,
    /// The record was never submitted.
    BeforeSubmission,
}

/// The state a status document reports, `lookup_failed` when it has none.
pub open spec fn reported_state(status: JsonV) -> Seq<char> {
    match get_str_v(status, "state"@) {
        Some(s) => s,
        None => "lookup_failed"@,
    }
}

pub open spec fn cancel_step_spec(submitted: bool, before: Seq<char>) -> CancelStep {
    if !submitted {
        CancelStep::BeforeSubmission
    } else if before == "queued"@ || before == "running"@ {
        CancelStep::Dispatch
    } else if terminal_machine_state_spec(before) {
        CancelStep::AlreadyTerminal
    } else {
        CancelStep::NotCancellable
    }
}

/// What is asked of Stado for a record follows the state its job reported
/// before cancelling: a record never submitted is cancelled before
/// submission; a submitted record whose job is `queued` or `running` is
/// dispatched to Stado for cancellation, and no other is; one whose job has
/// ended (`completed`, `succeeded`, `failed`, `cancelled`, `canceled`, `lost`
/// or `reaped`) is already terminal; one whose status reports no state is
/// not cancellable.
pub proof fn law_cancel_step_by_state(status: JsonV)
    ensures
        cancel_step_spec(false, reported_state(status)) == CancelStep::BeforeSubmission,
        get_str_v(status, "state"@) == Some("queued"@) ==> cancel_step_spec(true, reported_state(status))
            == CancelStep::Dispatch,
        get_str_v(status, "state"@) == Some("running"@) ==> cancel_step_spec(true, reported_state(status))
            == CancelStep::Dispatch,
        cancel_step_spec(true, reported_state(status)) == CancelStep::Dispatch ==> get_str_v(
            status,
            "state"@,
        ) == Some("queued"@) || get_str_v(status, "state"@) == Some("running"@),
        get_str_v(status, "state"@) matches Some(s) && (s == "completed"@ || s == "succeeded"@ || s
            == "failed"@ || s == "cancelled"@ || s == "canceled"@ || s == "lost"@ || s == "reaped"@)
            ==> cancel_step_spec(true, reported_state(status)) == CancelStep::AlreadyTerminal,
        get_str_v(status, "state"@) is None ==> cancel_step_spec(true, reported_state(status))
            == CancelStep::NotCancellable,
{
    reveal_strlit("queued");
    reveal_strlit("running");
    reveal_strlit("lookup_failed");
    reveal_strlit("completed");
    reveal_strlit("succeeded");
    reveal_strlit("failed");
    reveal_strlit("cancelled");
    reveal_strlit("canceled");
    reveal_strlit("lost");
    reveal_strlit("reaped");
    let w = crate::runstate::terminal_words();
    assert(w[0] == "completed"@ && w[1] == "succeeded"@ && w[2] == "failed"@ && w[3] == "cancelled"@
        && w[4] == "canceled"@ && w[5] == "lost"@ && w[6] == "reaped"@);
    if get_str_v(status, "state"@) is None {
        assert(reported_state(status) == "lookup_failed"@);
        assert forall|k: int| 0 <= k < w.len() implies w[k] != "lookup_failed"@ by {
            assert(w[k].len() != "lookup_failed"@.len());
        }
    }
    if let Some(s) = get_str_v(status, "state"@) {
        if s == "completed"@ || s == "succeeded"@ || s == "failed"@ || s == "cancelled"@ || s
            == "canceled"@ || s == "lost"@ || s == "reaped"@ {
            if s == "completed"@ { assert(w[0] == s); }
            if s == "succeeded"@ { assert(w[1] == s); }
            if s == "failed"@ { assert(w[2] == s); }
            if s == "cancelled"@ { assert(w[3] == s); }
            if s == "canceled"@ { assert(w[4] == s); }
            if s == "lost"@ { assert(w[5] == s); }
            if s == "reaped"@ { assert(w[6] == s); }
            assert(s != "queued"@ && s != "running"@) by {
                if s == "queued"@ || s == "running"@ {
                    assert(s[0] == 'q' || s[0] == 'r');
                    assert(s.len() == 6 || s.len() == 7);
                    if s == "reaped"@ {
                        assert(s[1] == 'e');
                        assert("queued"@[1] == 'u' && "running"@[1] == 'u');
                    }
                }
            }
        }
    }
}

/// Decide what to ask of Stado from whether the record has a job and the
/// status found before cancelling.
pub fn cancel_step(submitted: bool, status_before: &Json) -> (r: CancelStep)
    ensures
        r == cancel_step_spec(submitted, reported_state(status_before@)),
{
    if !submitted {
        return CancelStep::BeforeSubmission;
    }
    let before = match status_before.get_str("state") {
        Some(s) => s,
        None => "lookup_failed",
    };
    if str_eq(before, "queued") || str_eq(before, "running") {
        CancelStep::Dispatch
    } else if terminal_machine_state(before) {
        CancelStep::AlreadyTerminal
    } else {
        CancelStep::NotCancellable
    }
}

/// What came of asking Stado to cancel a job.
pub enum DispatchOutcome {
    /// Stado refused; its standard error.
    Refused(String),
    /// Stado accepted; the job lookup made afterwards.
    Dispatched(LookupOutcome),
}

/// The action recorded for a step, and the status after it.
pub open spec fn exchange_spec(step: CancelStep, before: JsonV, dispatch: Option<DispatchOutcome>) -> (
    JsonV,
    JsonV,
) {
    let state = |s: Seq<char>| JsonV::Object(seq![("state"@, JsonV::Str(s))]);
    match step {
        CancelStep::Dispatch => match dispatch {
            Some(DispatchOutcome::Refused(stderr)) => (
                obj2("state"@, JsonV::Str("cancel_failed"@), "stderr"@, JsonV::Str(trim(stderr@))),
                before,
            ),
            Some(DispatchOutcome::Dispatched(after)) => (
                state("cancel_dispatched"@),
                status_document_spec(Some(after)),
            ),
            None => (state("cancel_failed"@), before),
        },
        CancelStep::AlreadyTerminal => (state("already_terminal"@), before),
        CancelStep::NotCancellable => (state("not_cancellable"@), before),
        CancelStep::BeforeSubmission => (state("cancelled_before_submission"@), before),
    }
}

/// The action and the status after it, once the step was carried out;
/// `dispatch` is what Stado answered to a dispatched cancellation.
pub fn cancel_exchange(step: CancelStep, before: Json, dispatch: Option<DispatchOutcome>) -> (r: (
    Json,
    Json,
))
    requires
        (step == CancelStep::Dispatch) == dispatch is Some,
    ensures
        (r.0@, r.1@) == exchange_spec(step, before@, dispatch),
{
    match step {
        CancelStep::Dispatch => match dispatch {
            Some(DispatchOutcome::Refused(stderr)) => (
                crate::json::jobj2(
                    "state",
                    jstr("cancel_failed"),
                    "stderr",
                    Json::Str(trim_str(stderr.as_str())),
                ),
                before,
            ),
            Some(DispatchOutcome::Dispatched(after)) => (
                state_object("cancel_dispatched"),
                status_document(Some(after)),
            ),
            None => (state_object("cancel_failed"), before),
        },
        CancelStep::AlreadyTerminal => (state_object("already_terminal"), before),
        CancelStep::NotCancellable => (state_object("not_cancellable"), before),
        CancelStep::BeforeSubmission => (state_object("cancelled_before_submission"), before),
    }
}

// ---------------------------------------------------------------------------
// The result

pub const CANCEL_RESULT_SCHEMA: &'static str = "wisent.crawl-cancel-result.v1";

/// What the cancellation says of the Weles task a record retained.
pub open spec fn weles_action_spec(record: JsonV) -> JsonV {
    match get_str_v(record, "weles_task_id"@) {
        Some(task) => JsonV::Object(
            seq![
                ("state"@, JsonV::Str("stado_job_cancellation_is_authoritative"@)),
                ("weles_task_id"@, JsonV::Str(task)),
                ("diagnostic"@, JsonV::Str(
                    "the inner Weles task is owned by the cancelled Stado worker; the coordinator holds no admission bearer"@,
                )),
            ],
        ),
        None => JsonV::Object(seq![("state"@, JsonV::Str("no_retained_task_id"@))]),
    }
}

/// The result retained with a cancelled record.
pub open spec fn cancel_result_spec(
    intent_uri: Seq<char>,
    intent_sha256: Seq<char>,
    reason: Seq<char>,
    before: JsonV,
    action: JsonV,
    after: JsonV,
    record: JsonV,
) -> JsonV {
    JsonV::Object(
        seq![
            ("schema"@, JsonV::Str(CANCEL_RESULT_SCHEMA@)),
            ("intent_uri"@, JsonV::Str(intent_uri)),
            ("intent_sha256"@, JsonV::Str(intent_sha256)),
            ("reason"@, JsonV::Str(reason)),
            ("status_before"@, before),
            ("stado_action"@, action),
            ("status_after"@, after),
            ("weles_action"@, weles_action_spec(record)),
        ],
    )
}

/// The result of cancelling a record's job.
pub fn cancel_result(
    intent_uri: &str,
    intent_sha256: &str,
    reason: &str,
    before: Json,
    action: Json,
    after: Json,
    record: &Json,
) -> (r: Json)
    ensures
        r@ == cancel_result_spec(
            intent_uri@,
            intent_sha256@,
            reason@,
            before@,
            action@,
            after@,
            record@,
        ),
{
    broadcast use group_json_view;

    let weles = match record.get_str("weles_task_id") {
        Some(task) => crate::json::jobj3(
            "state",
            jstr("stado_job_cancellation_is_authoritative"),
            "weles_task_id",
            jstr(task),
            "diagnostic",
            jstr(
                "the inner Weles task is owned by the cancelled Stado worker; the coordinator holds no admission bearer",
            ),
        ),
        None => state_object("no_retained_task_id"),
    };
    let ghost (bv, av, fv, wv) = (before@, action@, after@, weles@);
    let mut fields: Vec<(String, Json)> = Vec::new();
    fields.push((String::from_str("schema"), jstr(CANCEL_RESULT_SCHEMA)));
    fields.push((String::from_str("intent_uri"), jstr(intent_uri)));
    fields.push((String::from_str("intent_sha256"), jstr(intent_sha256)));
    fields.push((String::from_str("reason"), jstr(reason)));
    fields.push((String::from_str("status_before"), before));
    fields.push((String::from_str("stado_action"), action));
    fields.push((String::from_str("status_after"), after));
    fields.push((String::from_str("weles_action"), weles));
    assert(view_obj(fields@) =~= cancel_result_spec(
        intent_uri@,
        intent_sha256@,
        reason@,
        bv,
        av,
        fv,
        record@,
    )->Object_0);
    jobj(fields)
}

/// Whether a cancellation result leaves its record cancelled: the job is
/// cancelled after it, or the record was never submitted.
pub open spec fn result_cancels(result: JsonV) -> bool {
    let after = match get_v(result, "status_after"@) {
        Some(a) => a,
        None => JsonV::Null,
    };
    let action = match get_v(result, "stado_action"@) {
        Some(a) => a,
        None => JsonV::Null,
    };
    let final_state = reported_state(after);
    final_state == "cancelled"@ || final_state == "canceled"@ || get_str_v(action, "state"@) == Some(
        "cancelled_before_submission"@,
    )
}

/// A record with its cancellation result retained.
pub open spec fn apply_result_spec(entry: JsonV, result: JsonV) -> JsonV {
    let with_result = set_v(entry, "cancel"@, result);
    if result_cancels(result) {
        set_v(with_result, "state"@, JsonV::Str("cancelled"@))
    } else {
        with_result
    }
}

proof fn lemma_result_fields(
    intent_uri: Seq<char>,
    intent_sha256: Seq<char>,
    reason: Seq<char>,
    before: JsonV,
    action: JsonV,
    after: JsonV,
    record: JsonV,
)
    ensures
        get_v(cancel_result_spec(intent_uri, intent_sha256, reason, before, action, after, record), "status_after"@)
            == Some(after),
        get_v(cancel_result_spec(intent_uri, intent_sha256, reason, before, action, after, record), "stado_action"@)
            == Some(action),
{
    let result = cancel_result_spec(intent_uri, intent_sha256, reason, before, action, after, record);
    let fields = result->Object_0;
    reveal_strlit("schema");
    reveal_strlit("intent_uri");
    reveal_strlit("intent_sha256");
    reveal_strlit("reason");
    reveal_strlit("status_before");
    reveal_strlit("stado_action");
    reveal_strlit("status_after");
    assert(fields[0].0.len() == 6 && fields[1].0.len() == 10 && fields[2].0.len() == 13 && fields[3].0.len()
        == 6 && fields[4].0.len() == 13 && fields[5].0.len() == 12 && "status_after"@.len() == 12);
    assert(fields[5].0[3] != "status_after"@[3]);
    assert(forall|j: int| 0 <= j < 6 ==> fields[j].0 != "status_after"@);
    assert(forall|j: int| 0 <= j < 5 ==> fields[j].0 != "stado_action"@);
    crate::json::lemma_field_index_is(fields, "status_after"@, 6);
    crate::json::lemma_field_index_is(fields, "stado_action"@, 5);
}

/// What a cancellation leaves of a record, from the step taken for it to the
/// result retained with it: the result is always retained under `cancel`; a
/// record never submitted ends `cancelled`; so does one whose job Stado
/// reports cancelled after the dispatch, or whose job was already cancelled
/// before; a record whose cancellation Stado refused, or whose job ends in
/// any other state, keeps the state it had.
pub proof fn law_cancel_outcome(
    submitted: bool,
    entry: JsonV,
    before: JsonV,
    dispatch: Option<DispatchOutcome>,
    intent_uri: Seq<char>,
    intent_sha256: Seq<char>,
    reason: Seq<char>,
    record: JsonV,
)
    requires
        settable_v(entry),
        (cancel_step_spec(submitted, reported_state(before)) == CancelStep::Dispatch) == dispatch is Some,
    ensures
        ({
            let step = cancel_step_spec(submitted, reported_state(before));
            let (action, after) = exchange_spec(step, before, dispatch);
            let result = cancel_result_spec(intent_uri, intent_sha256, reason, before, action, after, record);
            let new = apply_result_spec(entry, result);
            let cancelled = get_v(new, "state"@) == Some(JsonV::Str("cancelled"@));
            let kept = get_v(new, "state"@) == get_v(entry, "state"@);
            &&& get_v(new, "cancel"@) == Some(result)
            &&& !submitted ==> cancelled
            &&& (dispatch matches Some(DispatchOutcome::Dispatched(LookupOutcome::Found(job)))
                && (machine_state_spec(job@) == "cancelled"@ || machine_state_spec(job@) == "canceled"@))
                ==> cancelled
            &&& (dispatch matches Some(DispatchOutcome::Dispatched(LookupOutcome::Found(job)))
                && machine_state_spec(job@) != "cancelled"@ && machine_state_spec(job@) != "canceled"@)
                ==> kept
            &&& (dispatch matches Some(DispatchOutcome::Dispatched(LookupOutcome::NotFound(_)))) ==> kept
            &&& (dispatch matches Some(DispatchOutcome::Dispatched(LookupOutcome::Failed(_)))) ==> kept
            &&& (dispatch matches Some(DispatchOutcome::Refused(_))) ==> kept
            &&& (submitted && dispatch is None && (reported_state(before) == "cancelled"@ || reported_state(
                before,
            ) == "canceled"@)) ==> cancelled
            &&& (submitted && dispatch is None && reported_state(before) != "cancelled"@ && reported_state(
                before,
            ) != "canceled"@) ==> kept
        }),
{
    let step = cancel_step_spec(submitted, reported_state(before));
    let (action, after) = exchange_spec(step, before, dispatch);
    let result = cancel_result_spec(intent_uri, intent_sha256, reason, before, action, after, record);
    lemma_result_fields(intent_uri, intent_sha256, reason, before, action, after, record);
    let with_result = set_v(entry, "cancel"@, result);
    reveal_strlit("cancel");
    reveal_strlit("state");
    reveal_strlit("cancelled");
    reveal_strlit("canceled");
    reveal_strlit("cancelled_before_submission");
    reveal_strlit("cancel_failed");
    reveal_strlit("cancel_dispatched");
    reveal_strlit("not_found");
    reveal_strlit("lookup_failed");
    reveal_strlit("queued");
    reveal_strlit("running");
    reveal_strlit("already_terminal");
    reveal_strlit("not_cancellable");
    assert("cancel"@ != "state"@) by {
        assert("cancel"@.len() != "state"@.len());
    }
    crate::json::lemma_get_set(entry, "cancel"@, result, "state"@);
    crate::json::lemma_get_set(with_result, "state"@, JsonV::Str("cancelled"@), "cancel"@);
    assert(get_str_v(action, "state"@) == Some("cancelled_before_submission"@) <==> step
        == CancelStep::BeforeSubmission) by {
        if step != CancelStep::BeforeSubmission {
            let w = get_str_v(action, "state"@)->0;
            assert(w.len() != "cancelled_before_submission"@.len());
        }
    }
    assert("not_found"@ != "cancelled"@ && "not_found"@ != "canceled"@) by {
        assert("not_found"@[0] != "cancelled"@[0]);
    }
    assert("lookup_failed"@ != "cancelled"@ && "lookup_failed"@ != "canceled"@) by {
        assert("lookup_failed"@[0] != "cancelled"@[0]);
    }
    if step == CancelStep::Dispatch {
        assert(reported_state(before) != "cancelled"@ && reported_state(before) != "canceled"@) by {
            assert("queued"@[0] != "cancelled"@[0] && "running"@[0] != "cancelled"@[0]);
        }
    }
}

/// Retain a cancellation result on its record.
pub fn apply_cancel_result(entry: &mut Json, result: Json)
    requires
        settable_v(old(entry)@),
    ensures
        final(entry)@ == apply_result_spec(old(entry)@, result@),
{
    broadcast use group_json_view;

    let cancels = {
        let final_state = match result.get("status_after") {
            Some(a) => match a.get_str("state") {
                Some(s) => s,
                None => "lookup_failed",
            },
            None => "lookup_failed",
        };
        let before_submission = match result.get("stado_action") {
            Some(a) => match a.get_str("state") {
                Some(s) => str_eq(s, "cancelled_before_submission"),
                None => false,
            },
            None => false,
        };
        str_eq(final_state, "cancelled") || str_eq(final_state, "canceled") || before_submission
    };
    entry.set("cancel", result);
    if cancels {
        entry.set("state", jstr("cancelled"));
    }
}

// ---------------------------------------------------------------------------
// Finding a record

/// Where the first catalog named `catalog` keeps its first record named
/// `record`: (catalog index, record index).
pub open spec fn record_position_spec(run: JsonV, catalog: Seq<char>, record: Seq<char>) -> Option<
    (int, int),
> {
    let catalogs = crate::json::get_items_v(run, "catalogs"@);
    match crate::text::first_index(catalogs, |c: JsonV| get_str_v(c, "catalog"@) == Some(catalog)) {
        None => None,
        Some(i) => {
            let records = crate::json::get_items_v(catalogs[i], "records"@);
            match crate::text::first_index(
                records,
                |r: JsonV| get_str_v(r, "record"@) == Some(record),
            ) {
                None => None,
                Some(j) => Some((i, j)),
            }
        },
    }
}

fn first_named(items: &[Json], key: &str, name: &str) -> (r: Option<usize>)
    ensures
        r matches Some(i) ==> i < items@.len(),
        match r {
            Some(i) => crate::text::first_index(
                view_arr(items@),
                |c: JsonV| get_str_v(c, key@) == Some(name@),
            ) == Some(i as int),
            None => crate::text::first_index(
                view_arr(items@),
                |c: JsonV| get_str_v(c, key@) == Some(name@),
            ) is None,
        },
{
    proof {
        crate::json::lemma_view_arr(items@);
    }
    let ghost f = |c: JsonV| get_str_v(c, key@) == Some(name@);
    let ghost v = view_arr(items@);
    let mut i: usize = 0;
    while i < items.len()
        invariant
            i <= items@.len(),
            v == view_arr(items@),
            v.len() == items@.len(),
            forall|j: int| 0 <= j < items@.len() ==> #[trigger] v[j] == items@[j]@,
            f == (|c: JsonV| get_str_v(c, key@) == Some(name@)),
            forall|j: int| 0 <= j < i ==> !f(#[trigger] v[j]),
        decreases items.len() - i,
    {
        let hit = match items[i].get_str(key) {
            Some(s) => str_eq(s, name),
            None => false,
        };
        assert(v[i as int] == items@[i as int]@);
        if hit {
            proof {
                crate::text::lemma_first_index(v, f, i as int);
            }
            return Some(i);
        }
        i = i + 1;
    }
    proof {
        crate::text::lemma_first_index_found(v, f);
    }
    None
}

/// Find a record of a run by its catalog and record names.
pub fn record_position(run: &Json, catalog: &str, record: &str) -> (r: Option<(usize, usize)>)
    ensures
        match r {
            Some((i, j)) => record_position_spec(run@, catalog@, record@) == Some((i as int, j as int)),
            None => record_position_spec(run@, catalog@, record@) is None,
        },
{
    let catalogs = run.get_items("catalogs");
    let i = match first_named(catalogs, "catalog", catalog) {
        Some(i) => i,
        None => return None,
    };
    proof {
        crate::json::lemma_view_arr(catalogs@);
        assert(view_arr(catalogs@)[i as int] == catalogs@[i as int]@);
    }
    let records = catalogs[i].get_items("records");
    match first_named(records, "record", record) {
        Some(j) => Some((i, j)),
        None => None,
    }
}

// ---------------------------------------------------------------------------
// Where the intent is published

/// The intent's object URI: beside the attempt's artifact, whose URI the
/// manifest names.
pub open spec fn intent_uri_spec(record: JsonV) -> Option<Seq<char>> {
    match manifest_str(record, "artifact_uri"@) {
        Some(u) => match crate::text::last_index_of(u, '/') {
            Some(k) => Some(u.take(k) + "/cancel-intent.json"@),
            None => None,
        },
        None => None,
    }
}

/// Where a record's cancellation intent is published; `None` when its
/// manifest names no artifact coordinate.
pub fn cancel_intent_uri(record: &Json) -> (r: Option<String>)
    ensures
        match r {
            Some(u) => intent_uri_spec(record@) == Some(u@),
            None => intent_uri_spec(record@) is None,
        },
{
    let manifest = match manifest_ref(record) {
        Some(m) => m,
        None => return None,
    };
    let uri = match manifest.get_str("artifact_uri") {
        Some(u) => chars_of(u),
        None => return None,
    };
    match crate::text::last_index_of_exec(&uri, '/') {
        Some(k) => {
            proof {
                crate::text::lemma_last_where(uri@, crate::text::is_char('/'));
            }
            let mut out = crate::text::slice_chars(&uri, 0, k);
            crate::text::append_chars(&mut out, &chars_of("/cancel-intent.json"));
            assert(out@ =~= uri@.take(k as int) + "/cancel-intent.json"@);
            Some(crate::text::string_of(&out))
        },
        None => None,
    }
}

// ---------------------------------------------------------------------------
// What every cancellation keeps

proof fn lemma_keys_differ()
    ensures
        "cancel_intent"@ != "state"@,
        "cancel_intent"@ != "diagnostic"@,
        "state"@ != "diagnostic"@,
{
    reveal_strlit("cancel_intent");
    reveal_strlit("state");
    reveal_strlit("diagnostic");
    assert("cancel_intent"@.len() != "state"@.len());
    assert("cancel_intent"@.len() != "diagnostic"@.len());
    assert("state"@.len() != "diagnostic"@.len());
}

/// Recording a cancellation intent a second time changes nothing: the first
/// intent is kept, whatever the second one says, and a record cancelled
/// before submission stays as it was.
pub proof fn law_cancel_intent_is_kept(entry: JsonV, first: JsonV, second: JsonV)
    requires
        settable_v(entry),
        first is Object,
    ensures
        record_intent_spec(record_intent_spec(entry, first), second) == record_intent_spec(
            entry,
            first,
        ),
        get_v(record_intent_spec(entry, first), "cancel_intent"@) matches Some(i) && i is Object,
{
    lemma_keys_differ();
    reveal_strlit("cancelled");
    reveal_strlit("planned");
    reveal_strlit("preflighting");
    reveal_strlit("preflight_passed");
    reveal_strlit("unavailable");
    let once = record_intent_spec(entry, first);
    let with_intent = match get_v(entry, "cancel_intent"@) {
        Some(existing) => if existing is Object {
            entry
        } else {
            set_v(entry, "cancel_intent"@, first)
        },
        None => set_v(entry, "cancel_intent"@, first),
    };
    crate::json::lemma_get_set(entry, "cancel_intent"@, first, "cancel_intent"@);
    crate::json::lemma_get_set(entry, "cancel_intent"@, first, "state"@);
    assert(get_v(with_intent, "cancel_intent"@) matches Some(i) && i is Object);
    assert(get_v(with_intent, "state"@) == get_v(entry, "state"@));
    assert(settable_v(with_intent));
    let diag = obj2(
        "code"@,
        JsonV::Str("cancelled_before_submission"@),
        "message"@,
        JsonV::Str("durable cancel intent recorded before any submission"@),
    );
    if before_submission(get_str_v(entry, "state"@)) {
        let w1 = set_v(with_intent, "state"@, JsonV::Str("cancelled"@));
        crate::json::lemma_get_set(with_intent, "state"@, JsonV::Str("cancelled"@), "cancel_intent"@);
        crate::json::lemma_get_set(with_intent, "state"@, JsonV::Str("cancelled"@), "state"@);
        crate::json::lemma_get_set(w1, "diagnostic"@, diag, "cancel_intent"@);
        crate::json::lemma_get_set(w1, "diagnostic"@, diag, "state"@);
        assert(get_str_v(once, "state"@) == Some("cancelled"@));
        assert("cancelled"@ != "planned"@ && "cancelled"@ != "preflighting"@ && "cancelled"@
            != "preflight_passed"@ && "cancelled"@ != "unavailable"@) by {
            assert("cancelled"@[0] != "planned"@[0]);
            assert("cancelled"@.len() != "preflighting"@.len());
            assert("cancelled"@.len() != "preflight_passed"@.len());
            assert("cancelled"@[0] != "unavailable"@[0]);
        }
    }
    assert(get_v(once, "cancel_intent"@) matches Some(i) && i is Object);
}

// ---------------------------------------------------------------------------
// The order of a cancellation's effects

/// How far the cancellation of one record has come.
#[derive(PartialEq, Eq, Structural, Debug, Clone, Copy)]
pub enum CancelPhase {
    /// Nothing done yet.
    Start,
    /// The intent is being written to the run state.
    PersistingIntent,
    /// The intent is durable in the run state.
    IntentDurable,
    /// The intent is published; the job's status is being looked up.
    LookingUp,
    /// The job is being cancelled in Stado.
    Dispatching,
    /// The result is being written to the run state.
    Settling,
    /// The cancellation of this record is complete.
    Finished,
    /// A step failed; nothing further is done.
    Stopped,
}

/// What the coordinator observed of the last action.
#[derive(PartialEq, Eq, Structural, Debug, Clone, Copy)]
pub enum CancelEvent {
    /// The cancellation of the record begins.
    Begin,
    /// The intent was persisted and read back.
    Persisted,
    /// The intent was published; whether the record had been submitted.
    Published(bool),
    /// The job's status was looked up; the step it calls for.
    Looked(CancelStep),
    /// Stado answered the job's cancellation.
    Dispatched,
    /// The result was persisted.
    ResultPersisted,
    /// The last action failed.
    Failed,
}

/// What the coordinator does next.
#[derive(PartialEq, Eq, Structural, Debug, Clone, Copy)]
pub enum CancelAction {
    /// Write the cancel intent on the record in the run state.
    PersistIntent,
    /// Publish the durable intent beside the attempt's artifacts.
    PublishIntent,
    /// Look up the job's status in Stado.
    LookupStatus,
    /// `stado machine cancel` the job.
    DispatchCancel,
    /// Write the cancellation result on the record.
    PersistResult,
    /// Nothing more.
    Stop,
}

pub open spec fn cancel_next_spec(phase: CancelPhase, event: CancelEvent) -> (CancelPhase, CancelAction) {
    match (phase, event) {
        (CancelPhase::Start, CancelEvent::Begin) => (CancelPhase::PersistingIntent, CancelAction::PersistIntent),
        (CancelPhase::PersistingIntent, CancelEvent::Persisted) => (
            CancelPhase::IntentDurable,
            CancelAction::PublishIntent,
        ),
        (CancelPhase::IntentDurable, CancelEvent::Published(submitted)) => if submitted {
            (CancelPhase::LookingUp, CancelAction::LookupStatus)
        } else {
            (CancelPhase::Settling, CancelAction::PersistResult)
        },
        (CancelPhase::LookingUp, CancelEvent::Looked(step)) => if step == CancelStep::Dispatch {
            (CancelPhase::Dispatching, CancelAction::DispatchCancel)
        } else {
            (CancelPhase::Settling, CancelAction::PersistResult)
        },
        (CancelPhase::Dispatching, CancelEvent::Dispatched) => (CancelPhase::Settling, CancelAction::PersistResult),
        (CancelPhase::Settling, CancelEvent::ResultPersisted) => (CancelPhase::Finished, CancelAction::Stop),
        _ => (CancelPhase::Stopped, CancelAction::Stop),
    }
}

/// The next step of cancelling one record.
pub fn cancel_next(phase: CancelPhase, event: CancelEvent) -> (r: (CancelPhase, CancelAction))
    ensures
        r == cancel_next_spec(phase, event),
{
    match (phase, event) {
        (CancelPhase::Start, CancelEvent::Begin) => (CancelPhase::PersistingIntent, CancelAction::PersistIntent),
        (CancelPhase::PersistingIntent, CancelEvent::Persisted) => (
            CancelPhase::IntentDurable,
            CancelAction::PublishIntent,
        ),
        (CancelPhase::IntentDurable, CancelEvent::Published(submitted)) => if submitted {
            (CancelPhase::LookingUp, CancelAction::LookupStatus)
        } else {
            (CancelPhase::Settling, CancelAction::PersistResult)
        },
        (CancelPhase::LookingUp, CancelEvent::Looked(step)) => match step {
            CancelStep::Dispatch => (CancelPhase::Dispatching, CancelAction::DispatchCancel),
            _ => (CancelPhase::Settling, CancelAction::PersistResult),
        },
        (CancelPhase::Dispatching, CancelEvent::Dispatched) => (CancelPhase::Settling, CancelAction::PersistResult),
        (CancelPhase::Settling, CancelEvent::ResultPersisted) => (CancelPhase::Finished, CancelAction::Stop),
        _ => (CancelPhase::Stopped, CancelAction::Stop),
    }
}

/// Whether the intent is durable in the run state at this phase.
pub open spec fn intent_durable(phase: CancelPhase) -> bool {
    phase == CancelPhase::IntentDurable || phase == CancelPhase::LookingUp || phase
        == CancelPhase::Dispatching || phase == CancelPhase::Settling || phase == CancelPhase::Finished
}

/// The phases reached from `Start` by a sequence of events.
pub open spec fn cancel_run(events: Seq<CancelEvent>) -> Seq<(CancelPhase, CancelAction)>
    decreases events.len(),
{
    if events.len() == 0 {
        Seq::empty()
    } else {
        let before = cancel_run(events.drop_last());
        let phase = if before.len() == 0 {
            CancelPhase::Start
        } else {
            before.last().0
        };
        before.push(cancel_next_spec(phase, events.last()))
    }
}

pub open spec fn run_phase_before(run: Seq<(CancelPhase, CancelAction)>, i: int) -> CancelPhase {
    if i == 0 {
        CancelPhase::Start
    } else {
        run[i - 1].0
    }
}

proof fn lemma_run_steps(events: Seq<CancelEvent>)
    ensures
        cancel_run(events).len() == events.len(),
        forall|i: int|
            0 <= i < events.len() ==> #[trigger] cancel_run(events)[i] == cancel_next_spec(
                run_phase_before(cancel_run(events), i),
                events[i],
            ),
    decreases events.len(),
{
    if events.len() > 0 {
        let d = events.drop_last();
        lemma_run_steps(d);
        let run = cancel_run(events);
        assert forall|i: int| 0 <= i < events.len() implies #[trigger] cancel_run(events)[i] == cancel_next_spec(
            run_phase_before(cancel_run(events), i),
            events[i],
        ) by {
            if i < d.len() {
                assert(run[i] == cancel_run(d)[i]);
                assert(d[i] == events[i]);
                if i > 0 {
                    assert(run[i - 1] == cancel_run(d)[i - 1]);
                }
            }
        }
    }
}

/// Whether the intent was persisted at or before step `i`.
pub open spec fn persisted_by(events: Seq<CancelEvent>, i: int) -> bool {
    exists|j: int| 0 <= j <= i && events[j] == CancelEvent::Persisted
}

proof fn lemma_durable_means_persisted(events: Seq<CancelEvent>, i: int)
    requires
        0 <= i < events.len(),
        intent_durable(cancel_run(events)[i].0),
    ensures
        persisted_by(events, i),
    decreases i,
{
    lemma_run_steps(events);
    let run = cancel_run(events);
    let before = run_phase_before(run, i);
    assert(run[i] == cancel_next_spec(before, events[i]));
    lemma_step_durability(before, events[i]);
    if intent_durable(before) {
        lemma_durable_means_persisted(events, i - 1);
        let j = choose|j: int| 0 <= j <= i - 1 && events[j] == CancelEvent::Persisted;
        assert(0 <= j <= i && events[j] == CancelEvent::Persisted);
    } else {
        assert(events[i] == CancelEvent::Persisted);
    }
}

/// An effect step leaves the intent durable, and the intent becomes
/// durable only on the observation of its persistence.
proof fn lemma_step_durability(phase: CancelPhase, event: CancelEvent)
    ensures
        ({
            let (next, action) = cancel_next_spec(phase, event);
            &&& (action == CancelAction::PublishIntent || action == CancelAction::LookupStatus || action
                == CancelAction::DispatchCancel || action == CancelAction::PersistResult)
                ==> intent_durable(next)
            &&& !intent_durable(phase) && intent_durable(next) ==> phase == CancelPhase::PersistingIntent
                && event == CancelEvent::Persisted
        }),
{
}

/// A cancel intent is persisted before any external effect: every step
/// that publishes the intent, looks the job up, cancels it in Stado or
/// writes the result leaves the intent durable, the intent becomes durable
/// only when its persistence was observed, and so, whatever the coordinator
/// observes, each such step comes at or after that observation.
#[verifier::spinoff_prover]
pub proof fn law_intent_persisted_first(phase: CancelPhase, event: CancelEvent, events: Seq<CancelEvent>)
    ensures
        ({
            let (next, action) = cancel_next_spec(phase, event);
            &&& (action == CancelAction::PublishIntent || action == CancelAction::LookupStatus || action
                == CancelAction::DispatchCancel || action == CancelAction::PersistResult)
                ==> intent_durable(next)
            &&& !intent_durable(phase) && intent_durable(next) ==> phase == CancelPhase::PersistingIntent
                && event == CancelEvent::Persisted
        }),
        forall|i: int|
            0 <= i < events.len() && (#[trigger] cancel_run(events)[i].1 == CancelAction::PublishIntent
                || cancel_run(events)[i].1 == CancelAction::LookupStatus || cancel_run(events)[i].1
                == CancelAction::DispatchCancel || cancel_run(events)[i].1 == CancelAction::PersistResult)
                ==> persisted_by(events, i),
{
    lemma_step_durability(phase, event);
    lemma_run_steps(events);
    assert forall|i: int|
        0 <= i < events.len() && (#[trigger] cancel_run(events)[i].1 == CancelAction::PublishIntent
            || cancel_run(events)[i].1 == CancelAction::LookupStatus || cancel_run(events)[i].1
            == CancelAction::DispatchCancel || cancel_run(events)[i].1 == CancelAction::PersistResult)
            implies persisted_by(events, i) by {
        let run = cancel_run(events);
        lemma_step_durability(run_phase_before(run, i), events[i]);
        lemma_durable_means_persisted(events, i);
    }
}

/// The cancel protocol for one record: the first effect of a cancellation
/// persists its intent, which carries the operator's reason; publishing the
/// intent, looking the job up, dispatching `stado machine cancel` and
/// writing the result all come after that persistence was observed; an
/// intent already on the record is never overwritten; and a record that
/// never reached Stado (planned, preflighting, preflight_passed or
/// unavailable) is left `cancelled`, any other keeping its state.
pub proof fn law_cancel_protocol(
    entry: JsonV,
    intent: JsonV,
    events: Seq<CancelEvent>,
    run_id: Seq<char>,
    catalog: Seq<char>,
    record_name: Seq<char>,
    record: JsonV,
    reason: Seq<char>,
    attempt: u64,
    attempt_id: Seq<char>,
)
    requires
        settable_v(entry),
        intent is Object,
    ensures
        cancel_next_spec(CancelPhase::Start, CancelEvent::Begin) == (
            CancelPhase::PersistingIntent,
            CancelAction::PersistIntent,
        ),
        get_v(intent_spec(run_id, catalog, record_name, record, reason, attempt, attempt_id), "reason"@)
            == Some(JsonV::Str(reason)),
        forall|i: int|
            0 <= i < events.len() && (#[trigger] cancel_run(events)[i].1 == CancelAction::PublishIntent
                || cancel_run(events)[i].1 == CancelAction::LookupStatus || cancel_run(events)[i].1
                == CancelAction::DispatchCancel || cancel_run(events)[i].1 == CancelAction::PersistResult)
                ==> persisted_by(events, i),
        (get_v(entry, "cancel_intent"@) matches Some(e) && e is Object) ==> get_v(
            record_intent_spec(entry, intent),
            "cancel_intent"@,
        ) == get_v(entry, "cancel_intent"@),
        !(get_v(entry, "cancel_intent"@) matches Some(e) && e is Object) ==> get_v(
            record_intent_spec(entry, intent),
            "cancel_intent"@,
        ) == Some(intent),
        before_submission(get_str_v(entry, "state"@)) ==> get_str_v(
            record_intent_spec(entry, intent),
            "state"@,
        ) == Some("cancelled"@),
        !before_submission(get_str_v(entry, "state"@)) ==> get_v(record_intent_spec(entry, intent), "state"@)
            == get_v(entry, "state"@),
{
    law_intent_persisted_first(CancelPhase::Start, CancelEvent::Begin, events);
    lemma_keys_differ();
    let with_intent = match get_v(entry, "cancel_intent"@) {
        Some(existing) => if existing is Object {
            entry
        } else {
            set_v(entry, "cancel_intent"@, intent)
        },
        None => set_v(entry, "cancel_intent"@, intent),
    };
    crate::json::lemma_get_set(entry, "cancel_intent"@, intent, "state"@);
    crate::json::lemma_get_set(entry, "cancel_intent"@, intent, "cancel_intent"@);
    if before_submission(get_str_v(entry, "state"@)) {
        let c = set_v(with_intent, "state"@, JsonV::Str("cancelled"@));
        crate::json::lemma_get_set(with_intent, "state"@, JsonV::Str("cancelled"@), "cancel_intent"@);
        crate::json::lemma_get_set(with_intent, "state"@, JsonV::Str("cancelled"@), "state"@);
        let d = obj2(
            "code"@,
            JsonV::Str("cancelled_before_submission"@),
            "message"@,
            JsonV::Str("durable cancel intent recorded before any submission"@),
        );
        crate::json::lemma_get_set(c, "diagnostic"@, d, "cancel_intent"@);
        crate::json::lemma_get_set(c, "diagnostic"@, d, "state"@);
    }
    reveal_strlit("schema");
    reveal_strlit("run_id");
    reveal_strlit("catalog");
    reveal_strlit("record");
    reveal_strlit("record_key");
    reveal_strlit("attempt");
    reveal_strlit("attempt_id");
    reveal_strlit("stado_run_id");
    reveal_strlit("stado_job_id");
    reveal_strlit("reason");
    let fields = intent_spec(run_id, catalog, record_name, record, reason, attempt, attempt_id)->Object_0;
    assert("schema"@[0] != "reason"@[0] && "run_id"@[1] != "reason"@[1] && "record"@[2] != "reason"@[2]
        && "catalog"@.len() != 6 && "record_key"@.len() != 6 && "attempt"@.len() != 6
        && "attempt_id"@.len() != 6 && "stado_run_id"@.len() != 6 && "stado_job_id"@.len() != 6
        && "reason"@.len() == 6);
    assert("schema"@ != "reason"@);
    assert("run_id"@ != "reason"@);
    assert("record"@ != "reason"@);
    assert forall|j: int| 0 <= j < 9 implies fields[j].0 != "reason"@ by {
        if j == 0 {
            assert(fields[0].0 == "schema"@);
        } else if j == 1 {
            assert(fields[1].0 == "run_id"@);
        } else if j == 2 {
            assert(fields[2].0 == "catalog"@);
        } else if j == 3 {
            assert(fields[3].0 == "record"@);
        } else if j == 4 {
            assert(fields[4].0 == "record_key"@);
        } else if j == 5 {
            assert(fields[5].0 == "attempt"@);
        } else if j == 6 {
            assert(fields[6].0 == "attempt_id"@);
        } else if j == 7 {
            assert(fields[7].0 == "stado_run_id"@);
        } else {
            assert(fields[8].0 == "stado_job_id"@);
        }
    }
    crate::json::lemma_field_index_is(fields, "reason"@, 9);
}

} // verus!

//! Driving one record towards submission: whether it is touched at all,
//! what a retryable host failure, a refusal or an accepted submission writes
//! on it, and how a durable cancel intent takes precedence over all of them.
use vstd::prelude::*;
use crate::json::{
    get_str_v, get_v, group_json_view, jstr, obj2, obj3, set_v, settable_v, view_arr, Json, JsonV,
};
use crate::text::str_eq;

verus! {

// ---------------------------------------------------------------------------
// Whether the record is driven

/// The states in which a record is not driven towards submission.
pub open spec fn settled_state(state: Seq<char>) -> bool {
    state == "unavailable"@ || state == "completed"@ || state == "uploaded"@ || state
        == "imported"@ || state == "running"@ || state == "queued"@ || state == "cancel_pending"@
        || state == "pending_review"@ || state == "cancelled"@
}

/// A record's state, `unavailable` when it names none.
pub open spec fn record_state(entry: JsonV) -> Seq<char> {
    match get_str_v(entry, "state"@) {
        Some(s) => s,
        None => "unavailable"@,
    }
}

/// Whether a record carries a durable cancel intent.
pub open spec fn cancel_intended(entry: JsonV) -> bool {
    match get_v(entry, "cancel_intent"@) {
        Some(i) => i is Object,
        None => false,
    }
}

/// What driving a record decides before its submission is prepared.
#[derive(PartialEq, Eq, Structural, Debug, Clone, Copy)]
pub enum Gate {
    /// The record already has a job, or its state is settled: leave it.
    Leave,
    /// A durable cancel intent forbids submitting it.
    CancelIntent,
    /// The host preflight failed in a way that may be retried.
    HostRetry,
    /// Prepare its submission.
    Prepare,
}

pub open spec fn gate_spec(entry: JsonV, host_retryable: bool) -> Gate {
    if get_str_v(entry, "stado_job_id"@) is Some || settled_state(record_state(entry)) {
        Gate::Leave
    } else if cancel_intended(entry) {
        Gate::CancelIntent
    } else if host_retryable {
        Gate::HostRetry
    } else {
        Gate::Prepare
    }
}

/// Decide how a record is driven, given whether its host's preflight failed
/// retryably.
pub fn continue_gate(entry: &Json, host_retryable: bool) -> (r: Gate)
    ensures
        r == gate_spec(entry@, host_retryable),
{
    broadcast use group_json_view;

    proof {
        reveal_strlit("unavailable");
    }
    let state = match entry.get_str("state") {
        Some(s) => s,
        None => "unavailable",
    };
    let settled = str_eq(state, "unavailable") || str_eq(state, "completed") || str_eq(
        state,
        "uploaded",
    ) || str_eq(state, "imported") || str_eq(state, "running") || str_eq(state, "queued")
        || str_eq(state, "cancel_pending") || str_eq(state, "pending_review") || str_eq(
        state,
        "cancelled",
    );
    if entry.get_str("stado_job_id").is_some() || settled {
        return Gate::Leave;
    }
    let intended = match entry.get("cancel_intent") {
        Some(i) => i.is_object(),
        None => false,
    };
    if intended {
        Gate::CancelIntent
    } else if host_retryable {
        Gate::HostRetry
    } else {
        Gate::Prepare
    }
}

// ---------------------------------------------------------------------------
// What is written on the record

/// A record refused with `state`, `code` and `message`; a durable cancel
/// intent turns the refusal into a cancellation that keeps the refusal as
/// its underlying cause.
pub open spec fn failure_spec(entry: JsonV, state: Seq<char>, code: Seq<char>, message: Seq<char>) -> JsonV {
    let underlying = obj2("code"@, JsonV::Str(code), "message"@, JsonV::Str(message));
    if cancel_intended(entry) {
        set_v(
            set_v(entry, "state"@, JsonV::Str("cancelled"@)),
            "diagnostic"@,
            obj3(
                "code"@,
                JsonV::Str("cancelled_during_submission"@),
                "message"@,
                JsonV::Str("durable cancel intent takes precedence over the coordinator result"@),
                "underlying"@,
                underlying,
            ),
        )
    } else {
        set_v(set_v(entry, "state"@, JsonV::Str(state)), "diagnostic"@, underlying)
    }
}

fn intended(entry: &Json) -> (r: bool)
    ensures
        r == cancel_intended(entry@),
{
    match entry.get("cancel_intent") {
        Some(i) => i.is_object(),
        None => false,
    }
}

/// Write a refusal on a record.
pub fn record_failure(entry: &mut Json, state: &str, code: &str, message: &str)
    requires
        settable_v(old(entry)@),
    ensures
        final(entry)@ == failure_spec(old(entry)@, state@, code@, message@),
{
    let underlying = crate::json::jobj2("code", jstr(code), "message", jstr(message));
    if intended(entry) {
        entry.set("state", jstr("cancelled"));
        entry.set(
            "diagnostic",
            crate::json::jobj3(
                "code",
                jstr("cancelled_during_submission"),
                "message",
                jstr("durable cancel intent takes precedence over the coordinator result"),
                "underlying",
                underlying,
            ),
        );
    } else {
        entry.set("state", jstr(state));
        entry.set("diagnostic", underlying);
    }
}

/// The diagnostic a retryable host failure leaves: the host report's own,
/// else a probe timeout.
pub open spec fn host_diagnostic(host_report: JsonV) -> JsonV {
    match get_v(host_report, "diagnostic"@) {
        Some(d) => d,
        None => obj3(
            "code"@,
            JsonV::Str("host_probe_timed_out"@),
            "retryable"@,
            JsonV::Bool(true),
            "message"@,
            JsonV::Str("host capability probe timed out"@),
        ),
    }
}

/// A record whose host failed its preflight retryably.
pub open spec fn host_retry_spec(entry: JsonV, host_report: JsonV) -> JsonV {
    set_v(
        set_v(
            set_v(entry, "preflight"@, host_report),
            "state"@,
            JsonV::Str(crate::host::failed_preflight_state_spec(host_report)),
        ),
        "diagnostic"@,
        host_diagnostic(host_report),
    )
}

/// Write a retryable host failure on a record.
pub fn record_host_retry(entry: &mut Json, host_report: &Json)
    requires
        settable_v(old(entry)@),
    ensures
        final(entry)@ == host_retry_spec(old(entry)@, host_report@),
{
    broadcast use group_json_view;

    let diagnostic = match host_report.get("diagnostic") {
        Some(d) => d.duplicate(),
        None => crate::json::jobj3(
            "code",
            jstr("host_probe_timed_out"),
            "retryable",
            Json::Bool(true),
            "message",
            jstr("host capability probe timed out"),
        ),
    };
    let state = crate::host::failed_host_preflight_record_state(host_report);
    entry.set("preflight", host_report.duplicate());
    entry.set("state", jstr(state));
    entry.set("diagnostic", diagnostic);
}

/// A record armed for submission: a record that passed its preflight and
/// carries no cancel intent records that the submission intent is
/// persisted; any other record is unchanged.
pub open spec fn armed_spec(entry: JsonV, attempt_id: Seq<char>) -> JsonV {
    if get_str_v(entry, "state"@) == Some("preflight_passed"@) && !cancel_intended(entry) {
        set_v(
            set_v(entry, "state"@, JsonV::Str("submitting"@)),
            "submission_transition"@,
            obj2(
                "state"@,
                JsonV::Str("intent_persisted"@),
                "attempt_id"@,
                JsonV::Str(attempt_id),
            ),
        )
    } else {
        entry
    }
}

/// Arm a record for submission.
pub fn arm_submission(entry: &mut Json, attempt_id: &str)
    requires
        settable_v(old(entry)@),
    ensures
        final(entry)@ == armed_spec(old(entry)@, attempt_id@),
{
    let passed = match entry.get_str("state") {
        Some(s) => str_eq(s, "preflight_passed"),
        None => false,
    };
    if passed && !intended(entry) {
        entry.set("state", jstr("submitting"));
        entry.set(
            "submission_transition",
            crate::json::jobj2("state", jstr("intent_persisted"), "attempt_id", jstr(attempt_id)),
        );
    }
}

/// A record whose worker submission was refused by a transient agent-program
/// instability: planned again, with the diagnostic.
pub open spec fn replanned_spec(entry: JsonV, diagnostic: JsonV) -> JsonV {
    set_v(set_v(entry, "state"@, JsonV::Str("planned"@)), "diagnostic"@, diagnostic)
}

/// Plan a record again after a retryable submission refusal.
pub fn record_replanned(entry: &mut Json, diagnostic: Json)
    requires
        settable_v(old(entry)@),
    ensures
        final(entry)@ == replanned_spec(old(entry)@, diagnostic@),
{
    entry.set("state", jstr("planned"));
    entry.set("diagnostic", diagnostic);
}

/// Why an accepted submission does not belong to its attempt.
#[derive(PartialEq, Eq, Structural, Debug, Clone, Copy)]
pub enum SubmissionMismatch {
    /// The Stado receipt binds another source revision.
    Source,
    /// The reported artifact or output URI is not the attempt's.
    Uri,
}

/// The first way a submission receipt departs from its attempt, if any.
pub open spec fn submission_mismatch_spec(
    receipt: JsonV,
    source_revision: Seq<char>,
    artifact_uri: Seq<char>,
    output_uri: Seq<char>,
) -> Option<SubmissionMismatch> {
    let bound = match get_v(receipt, "stado_receipt"@) {
        Some(s) => get_str_v(s, "source_revision"@),
        None => None,
    };
    if bound != Some(source_revision) {
        Some(SubmissionMismatch::Source)
    } else if get_str_v(receipt, "artifact_uri"@) != Some(artifact_uri) || get_str_v(
        receipt,
        "output_uri"@,
    ) != Some(output_uri) {
        Some(SubmissionMismatch::Uri)
    } else {
        None
    }
}

fn str_field_is(v: &Json, key: &str, expected: &str) -> (r: bool)
    ensures
        r == (get_str_v(v@, key@) == Some(expected@)),
{
    match v.get_str(key) {
        Some(s) => str_eq(s, expected),
        None => false,
    }
}

/// Check that a submission receipt binds the attempt's source revision and
/// reports the attempt's own coordinates.
pub fn submission_mismatch(
    receipt: &Json,
    source_revision: &str,
    artifact_uri: &str,
    output_uri: &str,
) -> (r: Option<SubmissionMismatch>)
    ensures
        r == submission_mismatch_spec(receipt@, source_revision@, artifact_uri@, output_uri@),
{
    let bound = match receipt.get("stado_receipt") {
        Some(s) => str_field_is(s, "source_revision", source_revision),
        None => false,
    };
    if !bound {
        return Some(SubmissionMismatch::Source);
    }
    if !str_field_is(receipt, "artifact_uri", artifact_uri) || !str_field_is(
        receipt,
        "output_uri",
        output_uri,
    ) {
        return Some(SubmissionMismatch::Uri);
    }
    None
}

/// A record whose submission was accepted: its job, coordinates and receipt
/// written, and `queued`, or `cancel_pending` when a durable cancel intent
/// raced it.
pub open spec fn submitted_spec(
    entry: JsonV,
    receipt: JsonV,
    artifact_uri: Seq<char>,
    output_uri: Seq<char>,
) -> JsonV {
    let written = set_v(
        set_v(
            set_v(
                set_v(
                    entry,
                    "stado_job_id"@,
                    match get_v(receipt, "stado_job_id"@) {
                        Some(j) => j,
                        None => JsonV::Null,
                    },
                ),
                "artifact_uri"@,
                JsonV::Str(artifact_uri),
            ),
            "output_uri"@,
            JsonV::Str(output_uri),
        ),
        "submission_receipt"@,
        receipt,
    );
    if cancel_intended(entry) {
        set_v(
            set_v(written, "state"@, JsonV::Str("cancel_pending"@)),
            "diagnostic"@,
            obj2(
                "code"@,
                JsonV::Str("cancel_won_submission_race"@),
                "message"@,
                JsonV::Str(
                    "the durable cancel intent will be dispatched against the retained Stado job"@,
                ),
            ),
        )
    } else {
        set_v(set_v(written, "state"@, JsonV::Str("queued"@)), "diagnostic"@, JsonV::Null)
    }
}

/// Write an accepted submission on its record.
pub fn record_submitted(entry: &mut Json, receipt: Json, artifact_uri: &str, output_uri: &str)
    requires
        settable_v(old(entry)@),
    ensures
        final(entry)@ == submitted_spec(old(entry)@, receipt@, artifact_uri@, output_uri@),
{
    broadcast use group_json_view;

    let raced = intended(entry);
    let job = match receipt.get("stado_job_id") {
        Some(j) => j.duplicate(),
        None => Json::Null,
    };
    entry.set("stado_job_id", job);
    entry.set("artifact_uri", jstr(artifact_uri));
    entry.set("output_uri", jstr(output_uri));
    entry.set("submission_receipt", receipt);
    if raced {
        entry.set("state", jstr("cancel_pending"));
        entry.set(
            "diagnostic",
            crate::json::jobj2(
                "code",
                jstr("cancel_won_submission_race"),
                "message",
                jstr("the durable cancel intent will be dispatched against the retained Stado job"),
            ),
        );
    } else {
        entry.set("state", jstr("queued"));
        entry.set("diagnostic", Json::Null);
    }
}

// ---------------------------------------------------------------------------
// The outcome of preparing a submission

/// Whether a record reuses the command its preflight retained: it already
/// passed its preflight, or its submission had begun.
pub open spec fn reuses_retained_spec(state: Seq<char>) -> bool {
    state == "preflight_passed"@ || state == "submitting"@
}

pub fn reuses_retained(state: &str) -> (r: bool)
    ensures
        r == reuses_retained_spec(state@),
{
    str_eq(state, "preflight_passed") || str_eq(state, "submitting")
}

/// A record whose preflight passed keeps its finalized manifest, the
/// preflight and the command, unless it already has a job or a cancel
/// intent, which leave it untouched.
pub open spec fn prepared_spec(entry: JsonV, manifest: JsonV, preflight: JsonV, command: Seq<Seq<char>>) -> Option<JsonV> {
    if get_str_v(entry, "stado_job_id"@) is Some || cancel_intended(entry) {
        None
    } else {
        Some(
            set_v(
                set_v(
                    set_v(
                        set_v(set_v(entry, "manifest"@, manifest), "preflight"@, preflight),
                        "command"@,
                        crate::json::strs_v(command),
                    ),
                    "state"@,
                    JsonV::Str("preflight_passed"@),
                ),
                "diagnostic"@,
                JsonV::Null,
            ),
        )
    }
}

fn strings_json(words: &Vec<String>) -> (r: Json)
    ensures
        r@ == crate::json::strs_v(words@.map_values(|w: String| w@)),
{
    broadcast use group_json_view;

    let mut out: Vec<Json> = Vec::new();
    let mut i: usize = 0;
    while i < words.len()
        invariant
            i <= words@.len(),
            out@.len() == i,
            forall|j: int| 0 <= j < i ==> out@[j]@ == JsonV::Str(words@[j]@),
        decreases words.len() - i,
    {
        out.push(Json::Str(words[i].clone()));
        i = i + 1;
    }
    assert(view_arr(out@) =~= words@.map_values(|w: String| w@).map_values(|x: Seq<char>| JsonV::Str(x)));
    Json::Array(out)
}

/// Write a passed preflight on its record; says whether it was written.
pub fn record_prepared(entry: &mut Json, manifest: Json, preflight: Json, command: &Vec<String>) -> (r: bool)
    requires
        settable_v(old(entry)@),
    ensures
        match prepared_spec(old(entry)@, manifest@, preflight@, command@.map_values(|w: String| w@)) {
            Some(e) => r && final(entry)@ == e,
            None => !r && final(entry)@ == old(entry)@,
        },
{
    broadcast use group_json_view;

    if entry.get_str("stado_job_id").is_some() || intended(entry) {
        return false;
    }
    entry.set("manifest", manifest);
    entry.set("preflight", preflight);
    entry.set("command", strings_json(command));
    entry.set("state", jstr("preflight_passed"));
    entry.set("diagnostic", Json::Null);
    true
}

/// A record whose preflight did not pass keeps its manifest and preflight
/// and becomes unavailable with the diagnostic given.
pub open spec fn unprepared_spec(entry: JsonV, manifest: JsonV, preflight: JsonV, diagnostic: JsonV) -> JsonV {
    set_v(
        set_v(
            set_v(set_v(entry, "manifest"@, manifest), "preflight"@, preflight),
            "state"@,
            JsonV::Str("unavailable"@),
        ),
        "diagnostic"@,
        diagnostic,
    )
}

pub fn record_unprepared(entry: &mut Json, manifest: Json, preflight: Json, diagnostic: Json)
    requires
        settable_v(old(entry)@),
    ensures
        final(entry)@ == unprepared_spec(old(entry)@, manifest@, preflight@, diagnostic@),
{
    broadcast use group_json_view;

    entry.set("manifest", manifest);
    entry.set("preflight", preflight);
    entry.set("state", jstr("unavailable"));
    entry.set("diagnostic", diagnostic);
}

/// The diagnostic of a record that could not be prepared: its preflight's
/// own, else that no worker command is available.
pub open spec fn unprepared_diagnostic_spec(preflight: JsonV, message: Seq<char>) -> JsonV {
    match get_v(preflight, "diagnostic"@) {
        Some(d) => d,
        None => obj2("code"@, JsonV::Str("worker_command_unavailable"@), "message"@, JsonV::Str(message)),
    }
}

pub fn unprepared_diagnostic(preflight: &Json, message: &str) -> (r: Json)
    ensures
        r@ == unprepared_diagnostic_spec(preflight@, message@),
{
    match preflight.get("diagnostic") {
        Some(d) => d.duplicate(),
        None => crate::json::jobj2("code", jstr("worker_command_unavailable"), "message", jstr(message)),
    }
}

/// The record preflight of a manifest whose identity could not be finalized.
pub open spec fn finalization_failed_spec(record: Seq<char>, message: Seq<char>, path: Seq<char>) -> JsonV {
    JsonV::Object(
        seq![
            ("schema"@, JsonV::Str("wisent.crawl-record-preflight.v2"@)),
            ("record"@, JsonV::Str(record)),
            ("ready"@, JsonV::Bool(false)),
            ("diagnostic"@, obj3(
                "code"@,
                JsonV::Str("runtime_manifest_finalization_failed"@),
                "message"@,
                JsonV::Str(message),
                "path"@,
                JsonV::Str(path),
            )),
        ],
    )
}

pub fn finalization_failed(record: &str, message: &str, path: &str) -> (r: Json)
    ensures
        r@ == finalization_failed_spec(record@, message@, path@),
{
    broadcast use group_json_view;

    let mut fields: Vec<(String, Json)> = Vec::new();
    assert(crate::json::view_obj(fields@) =~= Seq::empty());
    crate::json::push_field(&mut fields, "schema", jstr("wisent.crawl-record-preflight.v2"));
    crate::json::push_field(&mut fields, "record", jstr(record));
    crate::json::push_field(&mut fields, "ready", Json::Bool(false));
    crate::json::push_field(
        &mut fields,
        "diagnostic",
        crate::json::jobj3(
            "code",
            jstr("runtime_manifest_finalization_failed"),
            "message",
            jstr(message),
            "path",
            jstr(path),
        ),
    );
    assert(crate::json::view_obj(fields@) =~= finalization_failed_spec(record@, message@, path@)->Object_0);
    Json::Object(fields)
}

// ---------------------------------------------------------------------------
// The command a preflight retained

/// The string words of a record's retained `command`, in order; other
/// values are skipped.
pub open spec fn retained_words(entry: JsonV) -> Seq<Seq<char>> {
    crate::json::get_items_v(entry, "command"@).filter(|x: JsonV| x is Str).map_values(
        |x: JsonV| crate::json::str_v(x).unwrap(),
    )
}

/// The command a record's preflight retained.
pub fn retained_command(entry: &Json) -> (r: Vec<String>)
    ensures
        crate::text::string_views(r@) == retained_words(entry@),
{
    broadcast use group_json_view;

    let items = entry.get_items("command");
    proof {
        crate::json::lemma_view_arr(items@);
    }
    let ghost iv = view_arr(items@);
    let ghost is_str = |x: JsonV| x is Str;
    let ghost word = |x: JsonV| crate::json::str_v(x).unwrap();
    let mut out: Vec<String> = Vec::new();
    let mut i: usize = 0;
    while i < items.len()
        invariant
            i <= items@.len(),
            iv == view_arr(items@),
            iv.len() == items@.len(),
            forall|j: int| 0 <= j < items@.len() ==> #[trigger] iv[j] == items@[j]@,
            is_str == (|x: JsonV| x is Str),
            word == (|x: JsonV| crate::json::str_v(x).unwrap()),
            crate::text::string_views(out@) == iv.take(i as int).filter(is_str).map_values(word),
        decreases items.len() - i,
    {
        proof {
            reveal(Seq::filter);
            assert(iv.take(i + 1).drop_last() =~= iv.take(i as int));
            assert(iv.take(i + 1).last() == items@[i as int]@);
        }
        match &items[i] {
            Json::Str(w) => {
                let ghost prior = out@;
                out.push(w.clone());
                assert(iv.take(i + 1).filter(is_str) == iv.take(i as int).filter(is_str).push(iv[i as int]));
                assert(crate::text::string_views(out@) =~= crate::text::string_views(prior).push(w@));
                assert(iv.take(i + 1).filter(is_str).map_values(word) =~= iv.take(i as int).filter(
                    is_str,
                ).map_values(word).push(w@));
            },
            _ => {
                assert(iv.take(i + 1).filter(is_str) == iv.take(i as int).filter(is_str));
            },
        }
        i = i + 1;
    }
    assert(iv.take(items@.len() as int) =~= iv);
    out
}

/// Whether the retained command is the one the immutable attempt runs.
pub fn retained_command_matches(retained: &Vec<String>, expected: &Vec<String>) -> (r: bool)
    ensures
        r == (retained@.len() > 0 && crate::text::string_views(retained@) == crate::text::string_views(
            expected@,
        )),
{
    if retained.len() == 0 || retained.len() != expected.len() {
        proof {
            if retained.len() != expected.len() {
                assert(crate::text::string_views(retained@).len() != crate::text::string_views(
                    expected@,
                ).len());
            }
        }
        return false;
    }
    let ghost a = crate::text::string_views(retained@);
    let ghost b = crate::text::string_views(expected@);
    let mut i: usize = 0;
    while i < retained.len()
        invariant
            i <= retained@.len(),
            retained@.len() == expected@.len(),
            a == crate::text::string_views(retained@),
            b == crate::text::string_views(expected@),
            a.len() == b.len(),
            forall|j: int| 0 <= j < i ==> a[j] == b[j],
        decreases retained.len() - i,
    {
        if !str_eq(retained[i].as_str(), expected[i].as_str()) {
            assert(a[i as int] != b[i as int]);
            return false;
        }
        i = i + 1;
    }
    assert(a =~= b);
    true
}

// ---------------------------------------------------------------------------
// A cancel intent that raced the submission

/// What is done about a job whose record's cancel intent raced its
/// submission, from the job's status.
#[derive(PartialEq, Eq, Structural, Debug, Clone, Copy)]
pub enum RaceStep {
    /// The job already ended: nothing to cancel.
    NoopTerminal,
    /// The job lives: cancel it.
    Dispatch,
    /// The status lookup failed.
    LookupFailed,
}

pub open spec fn race_step_spec(lookup: crate::refresh::LookupOutcome) -> RaceStep {
    match lookup {
        crate::refresh::LookupOutcome::Found(job) => if crate::runstate::terminal_machine_state_spec(
            crate::runstate::machine_state_spec(job@),
        ) {
            RaceStep::NoopTerminal
        } else {
            RaceStep::Dispatch
        },
        _ => RaceStep::LookupFailed,
    }
}

/// Decide what to do about a raced job from its status.
pub fn race_step(lookup: &crate::refresh::LookupOutcome) -> (r: RaceStep)
    ensures
        r == race_step_spec(*lookup),
{
    match lookup {
        crate::refresh::LookupOutcome::Found(job) => if crate::runstate::terminal_machine_state(
            crate::runstate::machine_state(job),
        ) {
            RaceStep::NoopTerminal
        } else {
            RaceStep::Dispatch
        },
        _ => RaceStep::LookupFailed,
    }
}

/// A record whose raced cancellation was settled (the result retained) or
/// could not be (still pending, with why).
pub open spec fn race_settled_spec(entry: JsonV, outcome: Result<JsonV, Seq<char>>) -> JsonV {
    match outcome {
        Ok(result) => set_v(
            set_v(set_v(entry, "state"@, JsonV::Str("cancelled"@)), "cancel_result"@, result),
            "diagnostic"@,
            JsonV::Null,
        ),
        Err(message) => set_v(
            set_v(entry, "state"@, JsonV::Str("cancel_pending"@)),
            "diagnostic"@,
            obj2("code"@, JsonV::Str("cancel_dispatch_failed"@), "message"@, JsonV::Str(message)),
        ),
    }
}

/// Write how a raced cancellation was settled.
pub fn record_race_settled(entry: &mut Json, outcome: Result<Json, String>)
    requires
        settable_v(old(entry)@),
    ensures
        final(entry)@ == race_settled_spec(
            old(entry)@,
            match outcome {
                Ok(j) => Ok::<JsonV, Seq<char>>(j@),
                Err(m) => Err::<JsonV, Seq<char>>(m@),
            },
        ),
{
    match outcome {
        Ok(result) => {
            entry.set("state", jstr("cancelled"));
            entry.set("cancel_result", result);
            entry.set("diagnostic", Json::Null);
        },
        Err(message) => {
            entry.set("state", jstr("cancel_pending"));
            entry.set(
                "diagnostic",
                crate::json::jobj2("code", jstr("cancel_dispatch_failed"), "message", Json::Str(message)),
            );
        },
    }
}

// ---------------------------------------------------------------------------
// A cancel intent wins

/// Once a durable cancel intent is on a record, nothing submits it: it is
/// not prepared or armed, a refusal cancels it, an accepted submission
/// leaves it `cancel_pending` for the cancellation to dispatch, and the
/// intent stays on it.
pub proof fn law_cancel_intent_wins(
    entry: JsonV,
    host_retryable: bool,
    attempt_id: Seq<char>,
    state: Seq<char>,
    code: Seq<char>,
    message: Seq<char>,
    receipt: JsonV,
    artifact_uri: Seq<char>,
    output_uri: Seq<char>,
    manifest: JsonV,
    preflight: JsonV,
    command: Seq<Seq<char>>,
)
    requires
        settable_v(entry),
        cancel_intended(entry),
    ensures
        gate_spec(entry, host_retryable) != Gate::Prepare,
        prepared_spec(entry, manifest, preflight, command) is None,
        armed_spec(entry, attempt_id) == entry,
        record_state(failure_spec(entry, state, code, message)) == "cancelled"@,
        cancel_intended(failure_spec(entry, state, code, message)),
        record_state(submitted_spec(entry, receipt, artifact_uri, output_uri)) == "cancel_pending"@,
        cancel_intended(submitted_spec(entry, receipt, artifact_uri, output_uri)),
{
    reveal_strlit("state");
    reveal_strlit("diagnostic");
    reveal_strlit("cancel_intent");
    reveal_strlit("stado_job_id");
    reveal_strlit("artifact_uri");
    reveal_strlit("output_uri");
    reveal_strlit("submission_receipt");
    assert("state"@.len() == 5 && "diagnostic"@.len() == 10 && "cancel_intent"@.len() == 13
        && "stado_job_id"@.len() == 12 && "artifact_uri"@.len() == 12 && "output_uri"@.len() == 10
        && "submission_receipt"@.len() == 18);
    let ci = "cancel_intent"@;
    assert("state"@ != ci && "diagnostic"@ != ci && "stado_job_id"@ != ci && "artifact_uri"@ != ci
        && "output_uri"@ != ci && "submission_receipt"@ != ci && "diagnostic"@ != "state"@);
    // A refusal.
    let underlying = obj2("code"@, JsonV::Str(code), "message"@, JsonV::Str(message));
    let f1 = set_v(entry, "state"@, JsonV::Str("cancelled"@));
    let d = obj3(
        "code"@,
        JsonV::Str("cancelled_during_submission"@),
        "message"@,
        JsonV::Str("durable cancel intent takes precedence over the coordinator result"@),
        "underlying"@,
        underlying,
    );
    crate::json::lemma_get_set(entry, "state"@, JsonV::Str("cancelled"@), "state"@);
    crate::json::lemma_get_set(entry, "state"@, JsonV::Str("cancelled"@), ci);
    crate::json::lemma_get_set(f1, "diagnostic"@, d, "state"@);
    crate::json::lemma_get_set(f1, "diagnostic"@, d, ci);
    // An accepted submission.
    let job = match get_v(receipt, "stado_job_id"@) {
        Some(j) => j,
        None => JsonV::Null,
    };
    let s1 = set_v(entry, "stado_job_id"@, job);
    let s2 = set_v(s1, "artifact_uri"@, JsonV::Str(artifact_uri));
    let s3 = set_v(s2, "output_uri"@, JsonV::Str(output_uri));
    let s4 = set_v(s3, "submission_receipt"@, receipt);
    let s5 = set_v(s4, "state"@, JsonV::Str("cancel_pending"@));
    let d2 = obj2(
        "code"@,
        JsonV::Str("cancel_won_submission_race"@),
        "message"@,
        JsonV::Str("the durable cancel intent will be dispatched against the retained Stado job"@),
    );
    crate::json::lemma_get_set(entry, "stado_job_id"@, job, ci);
    crate::json::lemma_get_set(s1, "artifact_uri"@, JsonV::Str(artifact_uri), ci);
    crate::json::lemma_get_set(s2, "output_uri"@, JsonV::Str(output_uri), ci);
    crate::json::lemma_get_set(s3, "submission_receipt"@, receipt, ci);
    crate::json::lemma_get_set(s4, "state"@, JsonV::Str("cancel_pending"@), ci);
    crate::json::lemma_get_set(s4, "state"@, JsonV::Str("cancel_pending"@), "state"@);
    crate::json::lemma_get_set(s5, "diagnostic"@, d2, ci);
    crate::json::lemma_get_set(s5, "diagnostic"@, d2, "state"@);
}

// ---------------------------------------------------------------------------
// A record the coordinator could not drive

/// What driving a record last reported: another process held its lock, or
/// the coordinator failed with this message.
pub enum DriveFailure {
    Busy,
    Failed(String),
}

/// The record after a failed drive: a record held by another process is
/// left as it is, never failed; otherwise it is failed as
/// `submission_failed` with the coordinator's message (cancelled instead
/// when a cancel intent is on it).
pub open spec fn after_drive_failure_spec(entry: JsonV, failure: DriveFailure) -> JsonV {
    match failure {
        DriveFailure::Busy => entry,
        DriveFailure::Failed(message) => failure_spec(
            entry,
            "submission_failed"@,
            "record_coordinator_failed"@,
            message@,
        ),
    }
}

pub fn after_drive_failure(entry: &mut Json, failure: DriveFailure)
    requires
        settable_v(old(entry)@),
    ensures
        final(entry)@ == after_drive_failure_spec(old(entry)@, failure),
{
    match failure {
        DriveFailure::Busy => {},
        DriveFailure::Failed(message) => {
            record_failure(entry, "submission_failed", "record_coordinator_failed", message.as_str());
        },
    }
}

// ---------------------------------------------------------------------------
// Driving a record, one answer at a time

/// What the coordinator learned since the last step of driving a record.
pub enum ContinueEvent {
    /// Driving begins; the host's preflight report.
    Begin(Json),
    /// Its command is prepared and the record persisted; its attempt id.
    CommandReady(String),
    /// The submission failed: the state to leave, a code and a message.
    Refused(String, String, String),
    /// The worker's agent program was unstable: plan again, with this
    /// diagnostic.
    Replanned(Json),
    /// Stado accepted the submission: its receipt and the attempt's
    /// artifact and output coordinates.
    Submitted(Json, String, String),
}

/// What the coordinator does next for the record.
#[derive(PartialEq, Eq, Structural, Debug, Clone, Copy)]
pub enum ContinueAction {
    /// Nothing more: the record is settled for this pass.
    Done,
    /// Prepare its submission: its manifest and command.
    Prepare,
    /// Submit it, or recover the receipt of a submission already made.
    Submit,
    /// Settle a race with a cancel intent that arrived meanwhile.
    SettleRace,
}

/// Whether a record's state lets it be submitted.
pub open spec fn submittable(entry: JsonV) -> bool {
    match get_str_v(entry, "state"@) {
        Some(s) => reuses_retained_spec(s),
        None => false,
    }
}

/// One step of driving a record towards submission: the record as it is
/// written after the event, and what happens next.
pub open spec fn continue_step_spec(entry: JsonV, event: ContinueEvent) -> (JsonV, ContinueAction) {
    match event {
        ContinueEvent::Begin(report) => match gate_spec(entry, crate::host::preflight_retryable_spec(report@)) {
            Gate::Leave => (entry, ContinueAction::Done),
            Gate::CancelIntent => (
                failure_spec(
                    entry,
                    "cancelled"@,
                    "cancelled_before_submission"@,
                    "durable cancel intent exists; worker submission is prohibited"@,
                ),
                ContinueAction::Done,
            ),
            Gate::HostRetry => (host_retry_spec(entry, report@), ContinueAction::Done),
            Gate::Prepare => (entry, ContinueAction::Prepare),
        },
        ContinueEvent::CommandReady(attempt_id) => if cancel_intended(entry) {
            (
                failure_spec(
                    entry,
                    "cancelled"@,
                    "cancelled_before_submission"@,
                    "durable cancel intent won the submission race"@,
                ),
                ContinueAction::Done,
            )
        } else if !submittable(entry) {
            (entry, ContinueAction::Done)
        } else {
            (armed_spec(entry, attempt_id@), ContinueAction::Submit)
        },
        ContinueEvent::Refused(state, code, message) => (
            failure_spec(entry, state@, code@, message@),
            ContinueAction::Done,
        ),
        ContinueEvent::Replanned(diagnostic) => (replanned_spec(entry, diagnostic@), ContinueAction::Done),
        ContinueEvent::Submitted(receipt, artifact_uri, output_uri) => (
            submitted_spec(entry, receipt@, artifact_uri@, output_uri@),
            ContinueAction::SettleRace,
        ),
    }
}

/// Take one step of driving a record.
pub fn continue_step(entry: Json, event: ContinueEvent) -> (r: (Json, ContinueAction))
    requires
        settable_v(entry@),
    ensures
        (r.0@, r.1) == continue_step_spec(entry@, event),
{
    let mut entry = entry;
    match event {
        ContinueEvent::Begin(report) => {
            let retryable = crate::host::host_preflight_is_retryable(&report);
            match continue_gate(&entry, retryable) {
                Gate::Leave => (entry, ContinueAction::Done),
                Gate::CancelIntent => {
                    record_failure(
                        &mut entry,
                        "cancelled",
                        "cancelled_before_submission",
                        "durable cancel intent exists; worker submission is prohibited",
                    );
                    (entry, ContinueAction::Done)
                },
                Gate::HostRetry => {
                    record_host_retry(&mut entry, &report);
                    (entry, ContinueAction::Done)
                },
                Gate::Prepare => (entry, ContinueAction::Prepare),
            }
        },
        ContinueEvent::CommandReady(attempt_id) => {
            if intended(&entry) {
                record_failure(
                    &mut entry,
                    "cancelled",
                    "cancelled_before_submission",
                    "durable cancel intent won the submission race",
                );
                return (entry, ContinueAction::Done);
            }
            let ok = match entry.get_str("state") {
                Some(s) => reuses_retained(s),
                None => false,
            };
            if !ok {
                return (entry, ContinueAction::Done);
            }
            arm_submission(&mut entry, attempt_id.as_str());
            (entry, ContinueAction::Submit)
        },
        ContinueEvent::Refused(state, code, message) => {
            record_failure(&mut entry, state.as_str(), code.as_str(), message.as_str());
            (entry, ContinueAction::Done)
        },
        ContinueEvent::Replanned(diagnostic) => {
            record_replanned(&mut entry, diagnostic);
            (entry, ContinueAction::Done)
        },
        ContinueEvent::Submitted(receipt, artifact_uri, output_uri) => {
            record_submitted(&mut entry, receipt, artifact_uri.as_str(), output_uri.as_str());
            (entry, ContinueAction::SettleRace)
        },
    }
}

/// Continuing never submits a record twice: a record that already has a
/// Stado job, or whose state is terminal or in flight, is left exactly as
/// it is and nothing more is done with it; and a record is only ever sent to
/// submission without a cancel intent, in the `submitting` state.
pub proof fn law_continue_never_resubmits(entry: JsonV, report: Json, attempt_id: String)
    requires
        settable_v(entry),
    ensures
        (get_str_v(entry, "stado_job_id"@) is Some || settled_state(record_state(entry)))
            ==> continue_step_spec(entry, ContinueEvent::Begin(report)) == (entry, ContinueAction::Done),
        continue_step_spec(entry, ContinueEvent::CommandReady(attempt_id)).1 == ContinueAction::Submit
            ==> !cancel_intended(entry) && record_state(
            continue_step_spec(entry, ContinueEvent::CommandReady(attempt_id)).0,
        ) == "submitting"@,
{
    if submittable(entry) && !cancel_intended(entry) {
        reveal_strlit("state");
        reveal_strlit("submission_transition");
        assert("state"@.len() == 5 && "submission_transition"@.len() == 21);
        if get_str_v(entry, "state"@) == Some("preflight_passed"@) {
            let s1 = set_v(entry, "state"@, JsonV::Str("submitting"@));
            crate::json::lemma_get_set(entry, "state"@, JsonV::Str("submitting"@), "state"@);
            crate::json::lemma_get_set(
                s1,
                "submission_transition"@,
                obj2("state"@, JsonV::Str("intent_persisted"@), "attempt_id"@, JsonV::Str(attempt_id@)),
                "state"@,
            );
        }
    }
}

} // verus!

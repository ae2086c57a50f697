//! Resuming crawl records: which terminal attempts may be re-armed, and what
//! re-arming writes on the record once the next attempt's identity is known.
use vstd::prelude::*;
use crate::json::{
    get_str_v, get_u64_v, get_v, group_json_view, jstr, obj2, set_v, settable_v, Json, JsonV,
};
use crate::text::{chars_of, decimal, decimal_spec, str_eq};

verus! {

/// The states of an attempt that ended without an accepted result.
pub open spec fn rearmable_state(state: Seq<char>) -> bool {
    state == "failed"@ || state == "cancelled"@ || state == "lost"@ || state == "submission_failed"@
        || state == "preflight_failed"@
}

/// What resuming decides for one record.
pub enum Rearm {
    /// The record is not in a terminal failed state; it is left alone.
    Untouched,
    /// A durable cancel intent forbids re-arming it.
    Blocked,
    /// Its attempt is re-armed; the state it ended in.
    Proceed(String),
}

pub open spec fn state_text(entry: JsonV) -> Seq<char> {
    match get_str_v(entry, "state"@) {
        Some(s) => s,
        None => Seq::empty(),
    }
}

pub open spec fn has_cancel_intent(entry: JsonV) -> bool {
    match get_v(entry, "cancel_intent"@) {
        Some(i) => i is Object,
        None => false,
    }
}

/// Decide whether a record's attempt is re-armed.
pub fn rearm_decision(entry: &Json) -> (r: Rearm)
    ensures
        !rearmable_state(state_text(entry@)) ==> r is Untouched,
        rearmable_state(state_text(entry@)) && has_cancel_intent(entry@) ==> r is Blocked,
        rearmable_state(state_text(entry@)) && !has_cancel_intent(entry@) ==> (r matches Rearm::Proceed(
            s,
        ) && s@ == state_text(entry@)),
{
    broadcast use group_json_view;

    let state = match entry.get_str("state") {
        Some(s) => s,
        None => "",
    };
    proof {
        reveal_strlit("");
    }
    assert(state@ == state_text(entry@));
    let terminal = str_eq(state, "failed") || str_eq(state, "cancelled") || str_eq(state, "lost")
        || str_eq(state, "submission_failed") || str_eq(state, "preflight_failed");
    if !terminal {
        return Rearm::Untouched;
    }
    let blocked = match entry.get("cancel_intent") {
        Some(i) => i.is_object(),
        None => false,
    };
    if blocked {
        return Rearm::Blocked;
    }
    Rearm::Proceed(String::from_str(state))
}

/// The diagnostic left on a record whose re-arming a cancel intent blocked.
pub open spec fn blocked_spec(entry: JsonV) -> JsonV {
    set_v(
        entry,
        "diagnostic"@,
        obj2(
            "code"@,
            JsonV::Str("cancel_intent_blocks_resume"@),
            "message"@,
            JsonV::Str("a durable cancel intent exists; this record will not be re-armed"@),
        ),
    )
}

/// Say on the record that its cancel intent blocks re-arming.
pub fn record_rearm_blocked(entry: &mut Json)
    requires
        settable_v(old(entry)@),
    ensures
        final(entry)@ == blocked_spec(old(entry)@),
{
    entry.set(
        "diagnostic",
        crate::json::jobj2(
            "code",
            jstr("cancel_intent_blocks_resume"),
            "message",
            jstr("a durable cancel intent exists; this record will not be re-armed"),
        ),
    );
}

/// The record fields a re-armed attempt starts without.
pub open spec fn cleared_fields() -> Seq<Seq<char>> {
    seq![
        "command"@,
        "stado_job_id"@,
        "submission_receipt"@,
        "submission_transition"@,
        "preflight"@,
        "job"@,
        "lookup_error"@,
        "cancel"@,
        "cancel_result"@,
        "error"@,
        "import"@,
    ]
}

/// Each of `keys` written `null`, in order.
pub open spec fn clear_all(entry: JsonV, keys: Seq<Seq<char>>) -> JsonV
    decreases keys.len(),
{
    if keys.len() == 0 {
        entry
    } else {
        set_v(clear_all(entry, keys.drop_last()), keys.last(), JsonV::Null)
    }
}

pub open spec fn field_or_null(v: JsonV, key: Seq<char>) -> JsonV {
    match get_v(v, key) {
        Some(x) => x,
        None => JsonV::Null,
    }
}

/// The diagnostic of a re-armed record.
pub open spec fn rearmed_message(state: Seq<char>, attempt: u64) -> Seq<char> {
    "terminal "@ + state + " attempt retained in history; attempt "@ + decimal_spec(attempt as nat)
        + " planned with fresh identity"@
}

/// A record re-armed with the manifest of its next attempt: the manifest and
/// the attempt's coordinates written, `planned`, the previous execution's
/// fields cleared, and a diagnostic saying which attempt was retained.
pub open spec fn rearmed_spec(entry: JsonV, manifest: JsonV, ended: Seq<char>, attempt: u64) -> JsonV {
    let with_manifest = set_v(
        set_v(
            set_v(
                set_v(
                    set_v(set_v(entry, "manifest"@, manifest), "attempt"@, JsonV::UInt(attempt)),
                    "attempt_id"@,
                    field_or_null(manifest, "attempt_id"@),
                ),
                "artifact_uri"@,
                field_or_null(manifest, "artifact_uri"@),
            ),
            "output_uri"@,
            field_or_null(manifest, "output_uri"@),
        ),
        "state"@,
        JsonV::Str("planned"@),
    );
    set_v(
        clear_all(with_manifest, cleared_fields()),
        "diagnostic"@,
        obj2(
            "code"@,
            JsonV::Str("attempt_rearmed"@),
            "message"@,
            JsonV::Str(rearmed_message(ended, attempt)),
        ),
    )
}

fn field_copy(v: &Json, key: &str) -> (r: Json)
    ensures
        r@ == field_or_null(v@, key@),
{
    match v.get(key) {
        Some(x) => x.duplicate(),
        None => Json::Null,
    }
}

/// Re-arm a record with the manifest of its next attempt, numbered
/// `attempt`, after an attempt that ended in `ended`.
pub fn rearm_record(entry: &mut Json, manifest: Json, ended: &str, attempt: u64)
    requires
        settable_v(old(entry)@),
    ensures
        final(entry)@ == rearmed_spec(old(entry)@, manifest@, ended@, attempt),
{
    broadcast use group_json_view;

    let attempt_id = field_copy(&manifest, "attempt_id");
    let artifact_uri = field_copy(&manifest, "artifact_uri");
    let output_uri = field_copy(&manifest, "output_uri");
    entry.set("manifest", manifest);
    entry.set("attempt", Json::UInt(attempt));
    entry.set("attempt_id", attempt_id);
    entry.set("artifact_uri", artifact_uri);
    entry.set("output_uri", output_uri);
    entry.set("state", jstr("planned"));
    let ghost base = entry@;
    let keys: [&'static str; 11] = [
        "command",
        "stado_job_id",
        "submission_receipt",
        "submission_transition",
        "preflight",
        "job",
        "lookup_error",
        "cancel",
        "cancel_result",
        "error",
        "import",
    ];
    let ghost kv = crate::host::words_view(keys@);
    assert(kv =~= cleared_fields());
    let mut i: usize = 0;
    while i < 11
        invariant
            i <= 11,
            kv == crate::host::words_view(keys@),
            kv == cleared_fields(),
            entry@ == clear_all(base, kv.take(i as int)),
            settable_v(entry@),
        decreases 11 - i,
    {
        entry.set(keys[i], Json::Null);
        proof {
            assert(kv.take(i + 1).drop_last() =~= kv.take(i as int));
            assert(kv.take(i + 1).last() == keys@[i as int]@);
        }
        i = i + 1;
    }
    assert(kv.take(11) =~= kv);
    let mut message = String::from_str("terminal ");
    message.append(ended);
    message.append(" attempt retained in history; attempt ");
    message.append(decimal(attempt).as_str());
    message.append(" planned with fresh identity");
    entry.set(
        "diagnostic",
        crate::json::jobj2("code", jstr("attempt_rearmed"), "message", Json::Str(message)),
    );
}

proof fn lemma_clear_all(entry: JsonV, keys: Seq<Seq<char>>, key: Seq<char>)
    requires
        settable_v(entry),
    ensures
        settable_v(clear_all(entry, keys)),
        keys.contains(key) ==> get_v(clear_all(entry, keys), key) == Some(JsonV::Null),
        !keys.contains(key) ==> get_v(clear_all(entry, keys), key) == get_v(entry, key),
    decreases keys.len(),
{
    if keys.len() > 0 {
        let init = keys.drop_last();
        lemma_clear_all(entry, init, key);
        crate::json::lemma_get_set(clear_all(entry, init), keys.last(), JsonV::Null, key);
        if keys.contains(key) && key != keys.last() {
            let i = choose|i: int| 0 <= i < keys.len() && keys[i] == key;
            assert(init[i] == key);
        }
        if !keys.contains(key) {
            assert forall|i: int| 0 <= i < init.len() implies init[i] != key by {
                assert(keys[i] == init[i]);
            }
        }
    }
}

/// A re-armed record is `planned` (so resuming again leaves it alone until
/// that attempt ends), carries the manifest of its next attempt, and keeps
/// nothing of the previous execution: no Stado job, job status, import or
/// cancellation.
pub proof fn law_rearmed_record_starts_afresh(entry: JsonV, manifest: JsonV, ended: Seq<char>, attempt: u64)
    requires
        settable_v(entry),
    ensures
        state_text(rearmed_spec(entry, manifest, ended, attempt)) == "planned"@,
        !rearmable_state(state_text(rearmed_spec(entry, manifest, ended, attempt))),
        get_v(rearmed_spec(entry, manifest, ended, attempt), "manifest"@) == Some(manifest),
        get_v(rearmed_spec(entry, manifest, ended, attempt), "stado_job_id"@) == Some(JsonV::Null),
        get_v(rearmed_spec(entry, manifest, ended, attempt), "job"@) == Some(JsonV::Null),
        get_v(rearmed_spec(entry, manifest, ended, attempt), "import"@) == Some(JsonV::Null),
        get_v(rearmed_spec(entry, manifest, ended, attempt), "cancel"@) == Some(JsonV::Null),
{
    reveal_strlit("planned");
    reveal_strlit("failed");
    reveal_strlit("cancelled");
    reveal_strlit("lost");
    reveal_strlit("submission_failed");
    reveal_strlit("preflight_failed");
    reveal_strlit("manifest");
    reveal_strlit("attempt");
    reveal_strlit("attempt_id");
    reveal_strlit("artifact_uri");
    reveal_strlit("output_uri");
    reveal_strlit("state");
    reveal_strlit("diagnostic");
    reveal_strlit("command");
    reveal_strlit("stado_job_id");
    reveal_strlit("submission_receipt");
    reveal_strlit("submission_transition");
    reveal_strlit("preflight");
    reveal_strlit("job");
    reveal_strlit("lookup_error");
    reveal_strlit("cancel");
    reveal_strlit("cancel_result");
    reveal_strlit("error");
    reveal_strlit("import");
    let e1 = set_v(entry, "manifest"@, manifest);
    let e2 = set_v(e1, "attempt"@, JsonV::UInt(attempt));
    let e3 = set_v(e2, "attempt_id"@, field_or_null(manifest, "attempt_id"@));
    let e4 = set_v(e3, "artifact_uri"@, field_or_null(manifest, "artifact_uri"@));
    let e5 = set_v(e4, "output_uri"@, field_or_null(manifest, "output_uri"@));
    let e6 = set_v(e5, "state"@, JsonV::Str("planned"@));
    let cleared = clear_all(e6, cleared_fields());
    let diag = obj2(
        "code"@,
        JsonV::Str("attempt_rearmed"@),
        "message"@,
        JsonV::Str(rearmed_message(ended, attempt)),
    );
    let r = set_v(cleared, "diagnostic"@, diag);
    assert(r == rearmed_spec(entry, manifest, ended, attempt));
    let keys = cleared_fields();
    assert("attempt"@.len() == 7 && "manifest"@.len() == 8 && "attempt_id"@.len() == 10
        && "artifact_uri"@.len() == 12 && "output_uri"@.len() == 10 && "state"@.len() == 5
        && "diagnostic"@.len() == 10);
    assert("attempt"@ != "manifest"@ && "attempt_id"@ != "manifest"@ && "artifact_uri"@
        != "manifest"@ && "output_uri"@ != "manifest"@ && "state"@ != "manifest"@ && "diagnostic"@
        != "manifest"@ && "diagnostic"@ != "state"@);
    crate::json::lemma_get_set(entry, "manifest"@, manifest, "manifest"@);
    crate::json::lemma_get_set(e1, "attempt"@, JsonV::UInt(attempt), "manifest"@);
    crate::json::lemma_get_set(e2, "attempt_id"@, field_or_null(manifest, "attempt_id"@), "manifest"@);
    crate::json::lemma_get_set(e3, "artifact_uri"@, field_or_null(manifest, "artifact_uri"@), "manifest"@);
    crate::json::lemma_get_set(e4, "output_uri"@, field_or_null(manifest, "output_uri"@), "manifest"@);
    crate::json::lemma_get_set(e5, "state"@, JsonV::Str("planned"@), "manifest"@);
    crate::json::lemma_get_set(e5, "state"@, JsonV::Str("planned"@), "state"@);
    assert(!keys.contains("state"@)) by {
        assert forall|i: int| 0 <= i < keys.len() implies keys[i] != "state"@ by {
            if i == 9 {
                assert(keys[i][0] != "state"@[0]);
            } else {
                assert(keys[i].len() != "state"@.len());
            }
        }
    }
    assert(!keys.contains("manifest"@)) by {
        assert forall|i: int| 0 <= i < keys.len() implies keys[i] != "manifest"@ by {
            assert(keys[i].len() != "manifest"@.len());
        }
    }
    assert(keys[1] == "stado_job_id"@ && keys[5] == "job"@ && keys[10] == "import"@ && keys[7]
        == "cancel"@);
    lemma_clear_all(e6, keys, "state"@);
    lemma_clear_all(e6, keys, "manifest"@);
    lemma_clear_all(e6, keys, "stado_job_id"@);
    lemma_clear_all(e6, keys, "job"@);
    lemma_clear_all(e6, keys, "import"@);
    lemma_clear_all(e6, keys, "cancel"@);
    crate::json::lemma_get_set(cleared, "diagnostic"@, diag, "state"@);
    crate::json::lemma_get_set(cleared, "diagnostic"@, diag, "manifest"@);
    crate::json::lemma_get_set(cleared, "diagnostic"@, diag, "stado_job_id"@);
    crate::json::lemma_get_set(cleared, "diagnostic"@, diag, "job"@);
    crate::json::lemma_get_set(cleared, "diagnostic"@, diag, "import"@);
    crate::json::lemma_get_set(cleared, "diagnostic"@, diag, "cancel"@);
    assert("planned"@.len() == 7);
}

} // verus!

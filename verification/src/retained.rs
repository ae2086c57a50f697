//! What an imported attempt retains: its `crawl_runs` entry, the media it
//! captured, addressed relative to the record, and the honest statement of
//! what accessibility evidence it did and did not measure.
use vstd::prelude::*;
use crate::crawl::{
    capture_method, capture_method_spec, declared_motion_kind, declared_motion_kind_spec,
    media_kind, media_kind_spec,
};
use crate::report::field_or_null;
use crate::json::{push_field, get_str_v, get_v, group_json_view, set_v, view_arr, view_obj, jstr, Json, JsonV};
use crate::text::{append_chars, chars_of, decimal, decimal_spec, first_index, lemma_first_index, str_eq, string_of};

verus! {

// ---------------------------------------------------------------------------
// The crawl_runs entry

fn copy_field(fields: &mut Vec<(String, Json)>, name: &str, from: &Json, key: &str)
    ensures
        view_obj(final(fields)@) == view_obj(old(fields)@).push((name@, field_or_null(from@, key@))),
{
    broadcast use group_json_view;

    let value = match from.get(key) {
        Some(x) => x.duplicate(),
        None => Json::Null,
    };
    let ghost before = fields@;
    fields.push((String::from_str(name), value));
    proof {
        crate::json::lemma_view_obj(fields@);
        crate::json::lemma_view_obj(before);
    }
    assert(view_obj(fields@) =~= view_obj(before).push((name@, field_or_null(from@, key@))));
}

/// One durable `crawl_runs` entry of a completed attempt, keyed by its
/// immutable attempt id: the manifest's identity, the record entry's Stado
/// job, the verified artifact, the retained report, how it was captured and
/// when it was imported, and the execution identity the report names.
pub open spec fn crawl_run_entry_spec(
    manifest: JsonV,
    entry: JsonV,
    report: JsonV,
    artifact: JsonV,
    relative_report: Seq<char>,
    imported_at: Seq<char>,
) -> JsonV {
    let base = JsonV::Object(run_entry_fields(manifest, entry, artifact, relative_report, imported_at));
    match get_v(report, "execution_identity"@) {
        Some(identity) => set_v(base, "execution_identity"@, identity),
        None => base,
    }
}

/// The fields of a `crawl_runs` entry before the execution identity.
pub open spec fn run_entry_fields(
    manifest: JsonV,
    entry: JsonV,
    artifact: JsonV,
    relative_report: Seq<char>,
    imported_at: Seq<char>,
) -> Seq<(Seq<char>, JsonV)> {
    let engine = match get_str_v(manifest, "engine"@) {
        Some(e) => e,
        None => Seq::empty(),
    };
    seq![
            ("schema"@, JsonV::Str("wisent.crawl-import.v2"@)),
            ("run_id"@, field_or_null(manifest, "run_id"@)),
            ("catalog"@, field_or_null(manifest, "catalog"@)),
            ("record"@, field_or_null(manifest, "record"@)),
            ("record_key"@, field_or_null(manifest, "record_key"@)),
            ("attempt"@, field_or_null(manifest, "attempt"@)),
            ("attempt_id"@, field_or_null(manifest, "attempt_id"@)),
            ("engine"@, field_or_null(manifest, "engine"@)),
            ("state"@, JsonV::Str("completed"@)),
            ("outcome"@, JsonV::Str("completed"@)),
            ("source_revision"@, field_or_null(manifest, "source_revision"@)),
            ("source_input_sha256"@, field_or_null(manifest, "source_input_sha256"@)),
            ("reference_sha256"@, field_or_null(manifest, "reference_sha256"@)),
            ("bindings_file_sha256"@, field_or_null(manifest, "bindings_file_sha256"@)),
            ("bindings_sha256"@, field_or_null(manifest, "bindings_sha256"@)),
            ("stado_job_id"@, field_or_null(entry, "stado_job_id"@)),
            ("stado_run_id"@, field_or_null(manifest, "stado_run_id"@)),
            ("artifact_uri"@, field_or_null(manifest, "artifact_uri"@)),
            ("artifact_sha256"@, field_or_null(artifact, "sha256"@)),
            ("artifact_bytes"@, field_or_null(artifact, "bytes"@)),
            ("output_uri"@, field_or_null(manifest, "output_uri"@)),
            ("worker_report"@, JsonV::Str(relative_report)),
            ("capture_method"@, JsonV::Str(capture_method_spec(engine))),
            ("imported_at"@, JsonV::Str(imported_at)),
        ]
}

pub fn crawl_run_entry(
    manifest: &Json,
    entry: &Json,
    report: &Json,
    artifact: &Json,
    relative_report: &str,
    imported_at: &str,
) -> (r: Json)
    ensures
        r@ == crawl_run_entry_spec(manifest@, entry@, report@, artifact@, relative_report@, imported_at@),
{
    broadcast use group_json_view;

    proof {
        reveal_strlit("");
    }
    let engine = match manifest.get_str("engine") {
        Some(e) => e,
        None => "",
    };
    assert(engine@ =~= match get_str_v(manifest@, "engine"@) {
        Some(e) => e,
        None => Seq::<char>::empty(),
    });
    let mut fields: Vec<(String, Json)> = Vec::new();
    assert(view_obj(fields@) =~= Seq::empty());
    push_field(&mut fields, "schema", jstr("wisent.crawl-import.v2"));
    copy_field(&mut fields, "run_id", manifest, "run_id");
    copy_field(&mut fields, "catalog", manifest, "catalog");
    copy_field(&mut fields, "record", manifest, "record");
    copy_field(&mut fields, "record_key", manifest, "record_key");
    copy_field(&mut fields, "attempt", manifest, "attempt");
    copy_field(&mut fields, "attempt_id", manifest, "attempt_id");
    copy_field(&mut fields, "engine", manifest, "engine");
    push_field(&mut fields, "state", jstr("completed"));
    push_field(&mut fields, "outcome", jstr("completed"));
    copy_field(&mut fields, "source_revision", manifest, "source_revision");
    copy_field(&mut fields, "source_input_sha256", manifest, "source_input_sha256");
    copy_field(&mut fields, "reference_sha256", manifest, "reference_sha256");
    copy_field(&mut fields, "bindings_file_sha256", manifest, "bindings_file_sha256");
    copy_field(&mut fields, "bindings_sha256", manifest, "bindings_sha256");
    copy_field(&mut fields, "stado_job_id", entry, "stado_job_id");
    copy_field(&mut fields, "stado_run_id", manifest, "stado_run_id");
    copy_field(&mut fields, "artifact_uri", manifest, "artifact_uri");
    copy_field(&mut fields, "artifact_sha256", artifact, "sha256");
    copy_field(&mut fields, "artifact_bytes", artifact, "bytes");
    copy_field(&mut fields, "output_uri", manifest, "output_uri");
    push_field(&mut fields, "worker_report", jstr(relative_report));
    push_field(&mut fields, "capture_method", jstr(capture_method(engine)));
    push_field(&mut fields, "imported_at", jstr(imported_at));
    let ghost fv = view_obj(fields@);
    let mut run = Json::Object(fields);
    assert(run@ == JsonV::Object(fv));
    assert(fv =~= run_entry_fields(manifest@, entry@, artifact@, relative_report@, imported_at@));
    match report.get("execution_identity") {
        Some(identity) => run.set("execution_identity", identity.duplicate()),
        None => {},
    }
    run
}

// ---------------------------------------------------------------------------
// Accessibility evidence

/// A retained accessibility tree or DOM source: an `xml`, `html` or `txt`
/// file, or a `snapshot.json`, `source.json` or `axe.json`.
pub open spec fn accessibility_source_spec(extension: Option<Seq<char>>, file_name: Option<Seq<char>>) -> bool {
    (extension == Some("xml"@) || extension == Some("html"@) || extension == Some("txt"@)) || (
    file_name == Some("snapshot.json"@) || file_name == Some("source.json"@) || file_name == Some(
        "axe.json"@,
    ))
}

fn opt_is(o: Option<&str>, s: &str) -> (r: bool)
    ensures
        r == (match o {
            Some(x) => Some(x@),
            None => None,
        } == Some(s@)),
{
    match o {
        Some(x) => str_eq(x, s),
        None => false,
    }
}

pub fn is_accessibility_source(extension: Option<&str>, file_name: Option<&str>) -> (r: bool)
    ensures
        r == accessibility_source_spec(
            match extension {
                Some(e) => Some(e@),
                None => None,
            },
            match file_name {
                Some(f) => Some(f@),
                None => None,
            },
        ),
{
    opt_is(extension, "xml") || opt_is(extension, "html") || opt_is(extension, "txt") || opt_is(
        file_name,
        "snapshot.json",
    ) || opt_is(file_name, "source.json") || opt_is(file_name, "axe.json")
}

/// The total size of the sources whose size could be read.
pub open spec fn known_total(sizes: Seq<Option<u64>>) -> nat
    decreases sizes.len(),
{
    if sizes.len() == 0 {
        0
    } else {
        known_total(sizes.drop_last()) + match sizes.last() {
            Some(n) => n as nat,
            None => 0,
        }
    }
}

pub open spec fn gap_observation(count: nat, total: nat, engine: Seq<char>) -> Seq<char> {
    "Retained "@ + decimal_spec(count) + " accessibility or DOM source files totalling "@ + decimal_spec(total)
        + " bytes from the "@ + engine + " attempt."@
}

/// What an attempt says of accessibility: never measured, the retained
/// sources if there are any, and what remains unmeasured.
pub open spec fn accessibility_gap_spec(engine: Seq<char>, sizes: Seq<Option<u64>>) -> JsonV {
    JsonV::Object(
        seq![
            ("measured"@, JsonV::Bool(false)),
            ("observations"@, JsonV::Array(if sizes.len() == 0 {
                Seq::empty()
            } else {
                seq![JsonV::Str(gap_observation(sizes.len(), known_total(sizes), engine))]
            })),
            ("unknowns"@, JsonV::Array(seq![
                JsonV::Str("No engine-supplied canonical accessibility measurement was retained."@),
                JsonV::Str(
                    "Screen-reader traversal, focus order, live regions and reduced-motion preference remain unmeasured."@,
                ),
            ])),
        ],
    )
}

/// The accessibility statement of an attempt, from the sizes of its
/// retained sources (`None` where a size could not be read).
pub fn accessibility_gap(engine: &str, sizes: &Vec<Option<u64>>) -> (r: Json)
    requires
        known_total(sizes@) <= u64::MAX,
    ensures
        r@ == accessibility_gap_spec(engine@, sizes@),
{
    broadcast use group_json_view;

    let mut total: u64 = 0;
    let mut i: usize = 0;
    while i < sizes.len()
        invariant
            i <= sizes@.len(),
            known_total(sizes@) <= u64::MAX,
            total == known_total(sizes@.take(i as int)),
            known_total(sizes@.take(i as int)) <= known_total(sizes@),
        decreases sizes.len() - i,
    {
        assert(sizes@.take(i + 1).drop_last() =~= sizes@.take(i as int));
        proof {
            lemma_known_total_prefix(sizes@, i + 1);
        }
        match sizes[i] {
            Some(n) => {
                total = total + n;
            },
            None => {},
        }
        i = i + 1;
    }
    assert(sizes@.take(sizes@.len() as int) =~= sizes@);
    let mut observations: Vec<Json> = Vec::new();
    if sizes.len() > 0 {
        let mut text = chars_of("Retained ");
        append_chars(&mut text, &chars_of(decimal(sizes.len() as u64).as_str()));
        append_chars(&mut text, &chars_of(" accessibility or DOM source files totalling "));
        append_chars(&mut text, &chars_of(decimal(total).as_str()));
        append_chars(&mut text, &chars_of(" bytes from the "));
        append_chars(&mut text, &chars_of(engine));
        append_chars(&mut text, &chars_of(" attempt."));
        assert(text@ =~= gap_observation(sizes@.len(), known_total(sizes@), engine@));
        observations.push(Json::Str(string_of(&text)));
        proof {
            crate::json::lemma_view_arr(observations@);
        }
        assert(view_arr(observations@) =~= seq![
            JsonV::Str(gap_observation(sizes@.len(), known_total(sizes@), engine@)),
        ]);
    } else {
        proof {
            crate::json::lemma_view_arr(observations@);
        }
        assert(view_arr(observations@) =~= Seq::empty());
    }
    let ghost ov = view_arr(observations@);
    proof {
        crate::json::lemma_view_arr(observations@);
    }
    let mut unknowns: Vec<Json> = Vec::new();
    unknowns.push(jstr("No engine-supplied canonical accessibility measurement was retained."));
    unknowns.push(
        jstr(
            "Screen-reader traversal, focus order, live regions and reduced-motion preference remain unmeasured.",
        ),
    );
    proof {
        crate::json::lemma_view_arr(unknowns@);
    }
    let ghost uv = view_arr(unknowns@);
    assert(uv =~= seq![
        JsonV::Str("No engine-supplied canonical accessibility measurement was retained."@),
        JsonV::Str(
            "Screen-reader traversal, focus order, live regions and reduced-motion preference remain unmeasured."@,
        ),
    ]);
    let mut fields: Vec<(String, Json)> = Vec::new();
    push_field(&mut fields, "measured", Json::Bool(false));
    push_field(&mut fields, "observations", Json::Array(observations));
    push_field(&mut fields, "unknowns", Json::Array(unknowns));
    let r = Json::Object(fields);
    assert(view_obj(fields@) =~= accessibility_gap_spec(engine@, sizes@)->Object_0);
    r
}

proof fn lemma_known_total_prefix(sizes: Seq<Option<u64>>, k: int)
    requires
        0 <= k <= sizes.len(),
    ensures
        known_total(sizes.take(k)) <= known_total(sizes),
    decreases sizes.len() - k,
{
    if k < sizes.len() {
        lemma_known_total_prefix(sizes, k + 1);
        assert(sizes.take(k + 1).drop_last() =~= sizes.take(k));
    } else {
        assert(sizes.take(k) =~= sizes);
    }
}

// ---------------------------------------------------------------------------
// Retained media

/// One file an attempt retained: its path relative to the record (`None`
/// when it lies outside the record), its extension, digest and size.
pub struct RetainedFile {
    pub relative: Option<String>,
    pub extension: Option<String>,
    pub sha256: String,
    pub bytes: u64,
}

pub open spec fn opt_view(o: Option<String>) -> Option<Seq<char>> {
    match o {
        Some(s) => Some(s@),
        None => None,
    }
}

pub open spec fn file_kind(f: RetainedFile) -> Option<Seq<char>> {
    media_kind_spec(opt_view(f.extension))
}

pub open spec fn is_motion(f: RetainedFile) -> bool {
    file_kind(f) == Some("motion"@)
}

/// Where the first motion capture of an attempt lies, relative to the
/// record.
pub open spec fn first_motion_spec(files: Seq<RetainedFile>) -> Option<Seq<char>> {
    match first_index(files, |f: RetainedFile| is_motion(f)) {
        Some(i) => opt_view(files[i].relative),
        None => None,
    }
}

pub open spec fn motion_descriptor(engine: Seq<char>, source_url: Seq<char>, f: RetainedFile, rel: Seq<char>) -> JsonV {
    JsonV::Object(
        seq![
            ("local_path"@, JsonV::Str(rel)),
            ("sha256"@, JsonV::Str(f.sha256@)),
            ("bytes"@, JsonV::UInt(f.bytes)),
            ("source_url"@, JsonV::Str(source_url)),
            ("media_kind"@, JsonV::Str(declared_motion_kind_spec(opt_view(f.extension)))),
            ("capture_method"@, JsonV::Str(capture_method_spec(engine))),
        ],
    )
}

pub open spec fn state_descriptor(f: RetainedFile, rel: Seq<char>, first_motion: Option<Seq<char>>) -> JsonV {
    JsonV::Object(
        seq![
            ("name"@, JsonV::Str("Observed "@ + rel)),
            ("local_path"@, JsonV::Str(rel)),
            ("sha256"@, JsonV::Str(f.sha256@)),
            ("bytes"@, JsonV::UInt(f.bytes)),
            ("source_motion_path"@, match first_motion {
                Some(p) => JsonV::Str(p),
                None => JsonV::Null,
            }),
        ],
    )
}

/// The motion and state descriptors of an attempt's media files, in file
/// order; `None` when a media file lies outside the record.
pub open spec fn media_spec(
    engine: Seq<char>,
    source_url: Seq<char>,
    files: Seq<RetainedFile>,
    first_motion: Option<Seq<char>>,
) -> Option<(Seq<JsonV>, Seq<JsonV>)>
    decreases files.len(),
{
    if files.len() == 0 {
        Some((Seq::empty(), Seq::empty()))
    } else {
        match media_spec(engine, source_url, files.drop_last(), first_motion) {
            None => None,
            Some((motion, states)) => {
                let f = files.last();
                match file_kind(f) {
                    None => Some((motion, states)),
                    Some(kind) => match opt_view(f.relative) {
                        None => None,
                        Some(rel) => if kind == "motion"@ {
                            Some((motion.push(motion_descriptor(engine, source_url, f, rel)), states))
                        } else {
                            Some((motion, states.push(state_descriptor(f, rel, first_motion))))
                        },
                    },
                }
            },
        }
    }
}

fn first_motion(files: &Vec<RetainedFile>) -> (r: Option<String>)
    ensures
        opt_view(r) == first_motion_spec(files@),
{
    let ghost f = |x: RetainedFile| is_motion(x);
    let mut i: usize = 0;
    while i < files.len()
        invariant
            i <= files@.len(),
            f == (|x: RetainedFile| is_motion(x)),
            forall|j: int| 0 <= j < i ==> !f(#[trigger] files@[j]),
        decreases files.len() - i,
    {
        let ext = match &files[i].extension {
            Some(e) => Some(e.as_str()),
            None => None,
        };
        let motion = match media_kind(ext) {
            Some(k) => str_eq(k, "motion"),
            None => false,
        };
        assert(opt_view(files@[i as int].extension) == match ext {
            Some(e) => Some(e@),
            None => None::<Seq<char>>,
        });
        if motion {
            proof {
                lemma_first_index(files@, f, i as int);
            }
            return files[i].relative.clone();
        }
        i = i + 1;
    }
    proof {
        lemma_first_index(files@, f, i as int);
    }
    None
}

pub open spec fn is_state_image(f: RetainedFile) -> bool {
    file_kind(f) == Some("state"@)
}

/// An attempt's media are read file by file: they are refused exactly when
/// some media file lies outside the record; otherwise there is one motion
/// descriptor per motion capture and one state descriptor per state image,
/// every other file left out, each descriptor at the path of its file
/// relative to the record, each motion descriptor naming the engine's
/// capture method, and each state pointing at the attempt's first motion
/// capture.
pub proof fn law_attempt_media(
    engine: Seq<char>,
    source_url: Seq<char>,
    files: Seq<RetainedFile>,
    first_motion: Option<Seq<char>>,
)
    ensures
        media_spec(engine, source_url, files, first_motion) is None <==> exists|i: int|
            0 <= i < files.len() && file_kind(#[trigger] files[i]) is Some && files[i].relative is None,
        media_spec(engine, source_url, files, first_motion) matches Some((motion, states)) ==> {
            &&& motion.len() == files.filter(|f: RetainedFile| is_motion(f)).len()
            &&& states.len() == files.filter(|f: RetainedFile| is_state_image(f)).len()
            &&& forall|k: int|
                0 <= k < motion.len() ==> (#[trigger] motion[k])->Object_0[5] == (
                    "capture_method"@,
                    JsonV::Str(capture_method_spec(engine)),
                )
            &&& forall|k: int|
                0 <= k < states.len() ==> (#[trigger] states[k])->Object_0[4] == (
                    "source_motion_path"@,
                    match first_motion {
                        Some(p) => JsonV::Str(p),
                        None => JsonV::Null,
                    },
                )
        },
    decreases files.len(),
{
    reveal(Seq::filter);
    if files.len() > 0 {
        let prev = files.drop_last();
        law_attempt_media(engine, source_url, prev, first_motion);
        let f = files.last();
        assert(files.filter(|f: RetainedFile| is_motion(f)) == {
            let sub = prev.filter(|f: RetainedFile| is_motion(f));
            if is_motion(f) { sub.push(f) } else { sub }
        });
        assert(files.filter(|f: RetainedFile| is_state_image(f)) == {
            let sub = prev.filter(|f: RetainedFile| is_state_image(f));
            if is_state_image(f) { sub.push(f) } else { sub }
        });
        reveal_strlit("state");
        reveal_strlit("motion");
        assert("state"@ != "motion"@) by {
            assert("state"@.len() != "motion"@.len());
        }
        if file_kind(f) is Some {
            assert(file_kind(f) == Some("state"@) || file_kind(f) == Some("motion"@));
        }
        if media_spec(engine, source_url, files, first_motion) is None {
            if media_spec(engine, source_url, prev, first_motion) is None {
                let i = choose|i: int|
                    0 <= i < prev.len() && file_kind(#[trigger] prev[i]) is Some && prev[i].relative is None;
                assert(files[i] == prev[i]);
            } else {
                assert(file_kind(files[files.len() - 1]) is Some && files[files.len() - 1].relative is None);
            }
        } else {
            assert forall|i: int|
                0 <= i < files.len() && file_kind(#[trigger] files[i]) is Some implies files[i].relative is Some by {
                if i < prev.len() {
                    assert(files[i] == prev[i]);
                }
            }
        }
    }
}

/// The retained media of an attempt, addressed relative to the record:
/// motion captures and observed states, each state pointing at the first
/// motion capture.
pub fn attempt_media(engine: &str, source_url: &str, files: &Vec<RetainedFile>) -> (r: Option<
    (Vec<Json>, Vec<Json>),
>)
    ensures
        match media_spec(engine@, source_url@, files@, first_motion_spec(files@)) {
            Some((motion, states)) => r matches Some((m, s)) && view_arr(m@) == motion && view_arr(s@)
                == states,
            None => r is None,
        },
{
    broadcast use group_json_view;

    let first = first_motion(files);
    let ghost fm = first_motion_spec(files@);
    let mut motion: Vec<Json> = Vec::new();
    let mut states: Vec<Json> = Vec::new();
    proof {
        crate::json::lemma_view_arr(motion@);
        crate::json::lemma_view_arr(states@);
    }
    assert(files@.take(0) =~= Seq::<RetainedFile>::empty());
    let mut i: usize = 0;
    while i < files.len()
        invariant
            i <= files@.len(),
            opt_view(first) == fm,
            fm == first_motion_spec(files@),
            media_spec(engine@, source_url@, files@.take(i as int), fm) == Some(
                (view_arr(motion@), view_arr(states@)),
            ),
        decreases files.len() - i,
    {
        assert(files@.take(i + 1).drop_last() =~= files@.take(i as int));
        assert(files@.take(i + 1).last() == files@[i as int]);
        let file = &files[i];
        let ext = match &file.extension {
            Some(e) => Some(e.as_str()),
            None => None,
        };
        assert(opt_view(file.extension) == match ext {
            Some(e) => Some(e@),
            None => None::<Seq<char>>,
        });
        let kind = match media_kind(ext) {
            Some(k) => k,
            None => {
                i = i + 1;
                continue;
            },
        };
        let rel = match &file.relative {
            Some(r) => r,
            None => {
                assert(file_kind(*file) is Some);
                assert(media_spec(engine@, source_url@, files@.take(i + 1), fm) is None);
                proof {
                    lemma_media_stuck(engine@, source_url@, files@, fm, i as int);
                }
                return None;
            },
        };
        if str_eq(kind, "motion") {
            let mut d: Vec<(String, Json)> = Vec::new();
            assert(view_obj(d@) =~= Seq::empty());
            push_field(&mut d, "local_path", Json::Str(rel.clone()));
            push_field(&mut d, "sha256", Json::Str(file.sha256.clone()));
            push_field(&mut d, "bytes", Json::UInt(file.bytes));
            push_field(&mut d, "source_url", jstr(source_url));
            push_field(&mut d, "media_kind", jstr(declared_motion_kind(ext)));
            push_field(&mut d, "capture_method", jstr(capture_method(engine)));
            let ghost before = motion@;
            assert(view_obj(d@) =~= motion_descriptor(engine@, source_url@, *file, rel@)->Object_0);
            let desc = Json::Object(d);
            assert(desc@ == motion_descriptor(engine@, source_url@, *file, rel@));
            motion.push(desc);
            proof {
                crate::json::lemma_view_arr(motion@);
                crate::json::lemma_view_arr(before);
            }
            assert(view_arr(motion@) =~= view_arr(before).push(
                motion_descriptor(engine@, source_url@, *file, rel@),
            ));
        } else {
            let mut name = chars_of("Observed ");
            append_chars(&mut name, &chars_of(rel.as_str()));
            assert(name@ =~= "Observed "@ + rel@);
            let mut d: Vec<(String, Json)> = Vec::new();
            assert(view_obj(d@) =~= Seq::empty());
            push_field(&mut d, "name", Json::Str(string_of(&name)));
            push_field(&mut d, "local_path", Json::Str(rel.clone()));
            push_field(&mut d, "sha256", Json::Str(file.sha256.clone()));
            push_field(&mut d, "bytes", Json::UInt(file.bytes));
            let source_motion = match &first {
                Some(p) => Json::Str(p.clone()),
                None => Json::Null,
            };
            push_field(&mut d, "source_motion_path", source_motion);
            let ghost before = states@;
            assert(view_obj(d@) =~= state_descriptor(*file, rel@, fm)->Object_0);
            let desc = Json::Object(d);
            assert(desc@ == state_descriptor(*file, rel@, fm));
            states.push(desc);
            proof {
                crate::json::lemma_view_arr(states@);
                crate::json::lemma_view_arr(before);
            }
            assert(view_arr(states@) =~= view_arr(before).push(state_descriptor(*file, rel@, fm)));
        }
        i = i + 1;
    }
    assert(files@.take(files@.len() as int) =~= files@);
    Some((motion, states))
}

proof fn lemma_media_stuck(
    engine: Seq<char>,
    source_url: Seq<char>,
    files: Seq<RetainedFile>,
    first_motion: Option<Seq<char>>,
    i: int,
)
    requires
        0 <= i < files.len(),
        media_spec(engine, source_url, files.take(i + 1), first_motion) is None,
    ensures
        media_spec(engine, source_url, files, first_motion) is None,
    decreases files.len() - i,
{
    if i + 1 < files.len() {
        assert(files.take(i + 2).drop_last() =~= files.take(i + 1));
        lemma_media_stuck(engine, source_url, files, first_motion, i + 1);
    } else {
        assert(files.take(i + 1) =~= files);
    }
}

} // verus!

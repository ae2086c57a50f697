//! The crawl coordinator's command line and the small rules its operations
//! share: path components, record selection, worker runtime files and the
//! classification of retained media.
use vstd::prelude::*;
use crate::text::{
    append_chars, chars_of, ends_with, is_alnum_char, lower_seq, split_once_char,
    split_once_char_exec, str_eq, string_of,
};

verus! {

// ---------------------------------------------------------------------------
// The command line

/// The operation a crawl command line asks for.
#[derive(PartialEq, Eq, Structural, Debug, Clone, Copy)]
pub enum CrawlOperation {
    Start,
    Status,
    Cancel,
    Resume,
    Import,
    Usage,
    GenerateBindings,
}

/// An operation and the position of its own first argument.
pub struct CrawlCommand {
    pub operation: CrawlOperation,
    pub arguments_from: usize,
}

/// The operation a crawl command line names, and where its arguments start;
/// `Err` carries the unknown operation word.
pub open spec fn crawl_command_spec(rest: Seq<Seq<char>>) -> Result<(CrawlOperation, nat), Seq<char>> {
    if rest.len() == 0 {
        Ok((CrawlOperation::Usage, 0))
    } else {
        let w = rest[0];
        if w == "start"@ {
            Ok((CrawlOperation::Start, 1))
        } else if w == "status"@ {
            Ok((CrawlOperation::Status, 1))
        } else if w == "cancel"@ {
            Ok((CrawlOperation::Cancel, 1))
        } else if w == "resume"@ {
            Ok((CrawlOperation::Resume, 1))
        } else if w == "import"@ {
            Ok((CrawlOperation::Import, 1))
        } else if w == "--help"@ || w == "-h"@ {
            Ok((CrawlOperation::Usage, 1))
        } else if w == "bindings"@ && rest.len() > 1 && rest[1] == "generate"@ {
            Ok((CrawlOperation::GenerateBindings, 2))
        } else {
            Err(w)
        }
    }
}

pub open spec fn strings_view(v: Seq<String>) -> Seq<Seq<char>> {
    v.map_values(|s: String| s@)
}

/// Decide which crawl operation a command line asks for.
pub fn run(rest: &[String]) -> (r: Result<CrawlCommand, String>)
    ensures
        match r {
            Ok(c) => crawl_command_spec(strings_view(rest@)) == Ok::<(CrawlOperation, nat), Seq<char>>(
                (c.operation, c.arguments_from as nat),
            ),
            Err(w) => crawl_command_spec(strings_view(rest@)) == Err::<(CrawlOperation, nat), Seq<char>>(
                w@,
            ),
        },
{
    if rest.len() == 0 {
        return Ok(CrawlCommand { operation: CrawlOperation::Usage, arguments_from: 0 });
    }
    let w = rest[0].as_str();
    let operation = if str_eq(w, "start") {
        CrawlOperation::Start
    } else if str_eq(w, "status") {
        CrawlOperation::Status
    } else if str_eq(w, "cancel") {
        CrawlOperation::Cancel
    } else if str_eq(w, "resume") {
        CrawlOperation::Resume
    } else if str_eq(w, "import") {
        CrawlOperation::Import
    } else if str_eq(w, "--help") || str_eq(w, "-h") {
        CrawlOperation::Usage
    } else if str_eq(w, "bindings") && rest.len() > 1 && str_eq(rest[1].as_str(), "generate") {
        return Ok(CrawlCommand { operation: CrawlOperation::GenerateBindings, arguments_from: 2 });
    } else {
        return Err(rest[0].clone());
    };
    Ok(CrawlCommand { operation, arguments_from: 1 })
}

/// Why `--run`/`--record` arguments were refused.
pub enum ArgumentError {
    /// A flag was given without its value.
    MissingValue(String),
    /// An argument that is neither flag.
    Unknown(String),
    /// `--run` is required and was not given.
    RunRequired,
}

/// The outcome of reading `--run RUN_ID` and `--record SLUG`, each value the
/// last one given; an error says whether a flag lacked its value, and which
/// word was refused.
pub open spec fn run_and_record_from(rest: Seq<Seq<char>>, i: int, run: Option<Seq<char>>, record: Option<
    Seq<char>,
>) -> Result<(Option<Seq<char>>, Option<Seq<char>>), (bool, Seq<char>)>
    decreases rest.len() - i,
{
    if i < 0 || i >= rest.len() {
        Ok((run, record))
    } else if rest[i] == "--run"@ {
        if i + 1 < rest.len() {
            run_and_record_from(rest, i + 2, Some(rest[i + 1]), record)
        } else {
            Err((true, "--run"@))
        }
    } else if rest[i] == "--record"@ {
        if i + 1 < rest.len() {
            run_and_record_from(rest, i + 2, run, Some(rest[i + 1]))
        } else {
            Err((true, "--record"@))
        }
    } else {
        Err((false, rest[i]))
    }
}

pub open spec fn opt_view(o: Option<String>) -> Option<Seq<char>> {
    match o {
        Some(s) => Some(s@),
        None => None,
    }
}

/// Read the `--run RUN_ID` and `--record SLUG` arguments of an operation.
pub fn parse_run_and_record(rest: &[String], require_run: bool) -> (r: Result<
    (Option<String>, Option<String>),
    ArgumentError,
>)
    ensures
        match run_and_record_from(strings_view(rest@), 0, None, None) {
            Ok((run, record)) => if require_run && run is None {
                r matches Err(ArgumentError::RunRequired)
            } else {
                r matches Ok((a, b)) && opt_view(a) == run && opt_view(b) == record
            },
            Err((true, flag)) => r matches Err(ArgumentError::MissingValue(f)) && f@ == flag,
            Err((false, word)) => r matches Err(ArgumentError::Unknown(w)) && w@ == word,
        },
{
    let ghost rv = strings_view(rest@);
    let mut run: Option<String> = None;
    let mut record: Option<String> = None;
    let mut i: usize = 0;
    while i < rest.len()
        invariant
            i <= rest@.len(),
            rv == strings_view(rest@),
            run_and_record_from(rv, i as int, opt_view(run), opt_view(record))
                == run_and_record_from(rv, 0, None, None),
        decreases rest.len() - i,
    {
        let w = rest[i].as_str();
        assert(rv[i as int] == w@);
        if str_eq(w, "--run") {
            if i + 1 >= rest.len() {
                return Err(ArgumentError::MissingValue(String::from_str("--run")));
            }
            assert(rv[i + 1] == rest@[i + 1]@);
            run = Some(rest[i + 1].clone());
            i = i + 2;
        } else if str_eq(w, "--record") {
            if i + 1 >= rest.len() {
                return Err(ArgumentError::MissingValue(String::from_str("--record")));
            }
            assert(rv[i + 1] == rest@[i + 1]@);
            record = Some(rest[i + 1].clone());
            i = i + 2;
        } else {
            return Err(ArgumentError::Unknown(rest[i].clone()));
        }
    }
    if require_run && run.is_none() {
        return Err(ArgumentError::RunRequired);
    }
    Ok((run, record))
}

// ---------------------------------------------------------------------------
// Names

/// A byte of a strict path component: ASCII letters, digits, `-`, `_`, `.`.
pub open spec fn component_char(c: char) -> bool {
    is_alnum_char(c) || c == '-' || c == '_' || c == '.'
}

/// One strict ASCII path component of at most 128 bytes, not `.` or `..`.
pub open spec fn safe_component_spec(value: Seq<char>) -> bool {
    &&& value.len() > 0
    &&& value.len() <= 128
    &&& value != "."@
    &&& value != ".."@
    &&& forall|i: int| 0 <= i < value.len() ==> component_char(#[trigger] value[i])
}

/// Whether `value` may name a run, catalog or record directory.
pub fn safe_component(value: &str) -> (r: bool)
    ensures
        r == safe_component_spec(value@),
{
    let v = chars_of(value);
    if v.len() == 0 || v.len() > 128 || str_eq(value, ".") || str_eq(value, "..") {
        return false;
    }
    let mut i: usize = 0;
    while i < v.len()
        invariant
            i <= v@.len(),
            v@ == value@,
            forall|j: int| 0 <= j < i ==> component_char(#[trigger] v@[j]),
        decreases v.len() - i,
    {
        let c = v[i];
        if !(crate::text::is_alnum(c) || c == '-' || c == '_' || c == '.') {
            assert(!component_char(v@[i as int]));
            return false;
        }
        i = i + 1;
    }
    true
}

/// Whether a record slug answers a `--record` selection: no selection, the
/// slug itself, or the slug after its first `-`.
pub open spec fn selected_matches_spec(record: Seq<char>, selected: Option<Seq<char>>) -> bool {
    match selected {
        None => true,
        Some(wanted) => record == wanted || match split_once_char(record, '-') {
            Some((_, tail)) => tail == wanted,
            None => false,
        },
    }
}

pub fn selected_matches(record: &str, selected: Option<&str>) -> (r: bool)
    ensures
        r == selected_matches_spec(
            record@,
            match selected {
                Some(s) => Some(s@),
                None => None,
            },
        ),
{
    match selected {
        None => true,
        Some(wanted) => {
            if str_eq(record, wanted) {
                return true;
            }
            match split_once_char_exec(&chars_of(record), '-') {
                Some((_, tail)) => crate::text::seq_eq(&tail, &chars_of(wanted)),
                None => false,
            }
        },
    }
}

/// Whether a timestamp is a well-formed UTC instant `YYYY-MM-DDTHH:MM:SSZ`.
pub open spec fn rfc3339_utc_spec(b: Seq<char>) -> bool {
    &&& b.len() == 20
    &&& b[19] == 'Z'
    &&& b[4] == '-'
    &&& b[7] == '-'
    &&& b[10] == 'T'
    &&& b[13] == ':'
    &&& b[16] == ':'
    &&& forall|i: int|
        0 <= i < 19 && i != 4 && i != 7 && i != 10 && i != 13 && i != 16
            ==> crate::text::is_digit_char(#[trigger] b[i])
}

pub fn is_rfc3339_utc(value: &str) -> (r: bool)
    ensures
        r == rfc3339_utc_spec(value@),
{
    let b = chars_of(value);
    if b.len() != 20 || b[19] != 'Z' || b[4] != '-' || b[7] != '-' || b[10] != 'T' || b[13] != ':'
        || b[16] != ':' {
        return false;
    }
    let mut i: usize = 0;
    while i < 19
        invariant
            i <= 19,
            b@ == value@,
            b@.len() == 20,
            forall|j: int|
                0 <= j < i && j != 4 && j != 7 && j != 10 && j != 13 && j != 16
                    ==> crate::text::is_digit_char(#[trigger] b@[j]),
        decreases 19 - i,
    {
        if i != 4 && i != 7 && i != 10 && i != 13 && i != 16 && !crate::text::is_digit(b[i]) {
            return false;
        }
        i = i + 1;
    }
    true
}

// ---------------------------------------------------------------------------
// Engines

/// How each engine captures its product, as the catalog records it.
pub open spec fn capture_method_spec(engine: Seq<char>) -> Seq<char> {
    if engine == "mobile"@ {
        "Local product run through Appium with XCUITest or UiAutomator2; screen recording and accessibility source retained"@
    } else if engine == "desktop"@ {
        "Local product run through Cua Driver; snapshot-bound actions, screenshots, action recording and accessibility tree retained"@
    } else if engine == "web"@ {
        "Real browser session executed by Weles on a Stado-pinned host; signed receipt, evidence manifest, screenshot and accessibility tree retained"@
    } else if engine == "tui"@ {
        "Local product run in an isolated tmux pseudo-terminal; raw terminal bytes and distinct screens retained"@
    } else if engine == "cli"@ {
        "Local product run of the real executable in an isolated tmux pseudo-terminal; stdout/stderr, argv and exit status retained"@
    } else if engine == "docs"@ {
        "Rate-limited full-text documentation crawl; per-site gzipped JSONL corpus retained"@
    } else {
        "Unclassified Spis crawl"@
    }
}

pub fn capture_method(engine: &str) -> (r: &'static str)
    ensures
        r@ == capture_method_spec(engine@),
{
    if str_eq(engine, "mobile") {
        "Local product run through Appium with XCUITest or UiAutomator2; screen recording and accessibility source retained"
    } else if str_eq(engine, "desktop") {
        "Local product run through Cua Driver; snapshot-bound actions, screenshots, action recording and accessibility tree retained"
    } else if str_eq(engine, "web") {
        "Real browser session executed by Weles on a Stado-pinned host; signed receipt, evidence manifest, screenshot and accessibility tree retained"
    } else if str_eq(engine, "tui") {
        "Local product run in an isolated tmux pseudo-terminal; raw terminal bytes and distinct screens retained"
    } else if str_eq(engine, "cli") {
        "Local product run of the real executable in an isolated tmux pseudo-terminal; stdout/stderr, argv and exit status retained"
    } else if str_eq(engine, "docs") {
        "Rate-limited full-text documentation crawl; per-site gzipped JSONL corpus retained"
    } else {
        "Unclassified Spis crawl"
    }
}

/// The typed report schema an engine's worker prints.
pub open spec fn worker_report_schema_spec(engine: Seq<char>) -> Seq<char> {
    if engine == "web"@ {
        "wisent.web-worker-report.v1"@
    } else if engine == "docs"@ {
        "wisent.docs-worker-report.v1"@
    } else {
        "wisent.native-worker-report.v1"@
    }
}

pub fn worker_report_schema(engine: &str) -> (r: &'static str)
    ensures
        r@ == worker_report_schema_spec(engine@),
{
    if str_eq(engine, "web") {
        "wisent.web-worker-report.v1"
    } else if str_eq(engine, "docs") {
        "wisent.docs-worker-report.v1"
    } else {
        "wisent.native-worker-report.v1"
    }
}

/// What a retained media file shows, by its extension (ASCII case ignored):
/// a state image or a motion capture.
pub open spec fn media_kind_spec(extension: Option<Seq<char>>) -> Option<Seq<char>> {
    match extension {
        None => None,
        Some(e) => {
            let l = lower_seq(e);
            if l == "png"@ || l == "jpg"@ || l == "jpeg"@ || l == "webp"@ {
                Some("state"@)
            } else if l == "gif"@ || l == "mp4"@ || l == "webm"@ || l == "cast"@ {
                Some("motion"@)
            } else {
                None
            }
        },
    }
}

/// Retained media are told apart by extension, ASCII case ignored: `png`,
/// `jpg`, `jpeg` and `webp` files are state images; `gif`, `mp4`, `webm`
/// and `cast` files are motion captures; any other file, or one without an
/// extension, is neither.
pub proof fn law_media_kinds(e: Seq<char>)
    ensures
        media_kind_spec(None) is None,
        lower_seq(e) == "png"@ || lower_seq(e) == "jpg"@ || lower_seq(e) == "jpeg"@ || lower_seq(e)
            == "webp"@ ==> media_kind_spec(Some(e)) == Some("state"@),
        lower_seq(e) == "gif"@ || lower_seq(e) == "mp4"@ || lower_seq(e) == "webm"@ || lower_seq(e)
            == "cast"@ ==> media_kind_spec(Some(e)) == Some("motion"@),
        media_kind_spec(Some(e)) is Some ==> lower_seq(e) == "png"@ || lower_seq(e) == "jpg"@
            || lower_seq(e) == "jpeg"@ || lower_seq(e) == "webp"@ || lower_seq(e) == "gif"@
            || lower_seq(e) == "mp4"@ || lower_seq(e) == "webm"@ || lower_seq(e) == "cast"@,
{
    let l = lower_seq(e);
    reveal_strlit("png");
    reveal_strlit("jpg");
    reveal_strlit("jpeg");
    reveal_strlit("webp");
    reveal_strlit("gif");
    reveal_strlit("mp4");
    reveal_strlit("webm");
    reveal_strlit("cast");
    if l == "gif"@ || l == "mp4"@ || l == "webm"@ || l == "cast"@ {
        assert(l[0] == 'g' || l[0] == 'm' || l[0] == 'w' || l[0] == 'c');
        assert(l != "png"@ && l != "jpg"@ && l != "jpeg"@) by {
            if l == "png"@ || l == "jpg"@ || l == "jpeg"@ {
                assert(l[0] == 'p' || l[0] == 'j');
            }
        }
        assert(l != "webp"@) by {
            if l == "webp"@ {
                assert(l[3] == 'p');
                assert("webm"@[3] == 'm');
            }
        }
    }
}

/// The media kind of a file given its extension (`Path::extension`).
pub fn media_kind(extension: Option<&str>) -> (r: Option<&'static str>)
    ensures
        match r {
            Some(k) => media_kind_spec(
                match extension {
                    Some(e) => Some(e@),
                    None => None,
                },
            ) == Some(k@),
            None => media_kind_spec(
                match extension {
                    Some(e) => Some(e@),
                    None => None,
                },
            ) is None,
        },
{
    match extension {
        None => None,
        Some(e) => {
            let l = string_of(&crate::text::lower_chars(&chars_of(e)));
            let s = l.as_str();
            if str_eq(s, "png") || str_eq(s, "jpg") || str_eq(s, "jpeg") || str_eq(s, "webp") {
                Some("state")
            } else if str_eq(s, "gif") || str_eq(s, "mp4") || str_eq(s, "webm") || str_eq(
                s,
                "cast",
            ) {
                Some("motion")
            } else {
                None
            }
        },
    }
}

/// The declared kind of a motion capture, by its extension.
pub open spec fn declared_motion_kind_spec(extension: Option<Seq<char>>) -> Seq<char> {
    match extension {
        None => "unknown"@,
        Some(e) => {
            let l = lower_seq(e);
            if l == "mp4"@ {
                "video-mp4"@
            } else if l == "webm"@ {
                "video-webm"@
            } else if l == "gif"@ {
                "animated-gif"@
            } else if l == "webp"@ {
                "animated-webp"@
            } else if l == "cast"@ {
                "terminal-cast"@
            } else {
                "unknown"@
            }
        },
    }
}

/// Every motion capture declares the kind of its container, ASCII case
/// ignored: `mp4` is `video-mp4`, `webm` is `video-webm`, `gif` is
/// `animated-gif` and `cast` is `terminal-cast` (and an animated `webp` is
/// `animated-webp`); so no file that is retained as motion is of an unknown
/// kind.
pub proof fn law_motion_kinds(e: Seq<char>)
    ensures
        lower_seq(e) == "mp4"@ ==> declared_motion_kind_spec(Some(e)) == "video-mp4"@,
        lower_seq(e) == "webm"@ ==> declared_motion_kind_spec(Some(e)) == "video-webm"@,
        lower_seq(e) == "gif"@ ==> declared_motion_kind_spec(Some(e)) == "animated-gif"@,
        lower_seq(e) == "webp"@ ==> declared_motion_kind_spec(Some(e)) == "animated-webp"@,
        lower_seq(e) == "cast"@ ==> declared_motion_kind_spec(Some(e)) == "terminal-cast"@,
        declared_motion_kind_spec(None) == "unknown"@,
        media_kind_spec(Some(e)) == Some("motion"@) ==> declared_motion_kind_spec(Some(e)) != "unknown"@,
{
    let l = lower_seq(e);
    reveal_strlit("mp4");
    reveal_strlit("webm");
    reveal_strlit("gif");
    reveal_strlit("webp");
    reveal_strlit("cast");
    reveal_strlit("unknown");
    reveal_strlit("video-mp4");
    reveal_strlit("video-webm");
    reveal_strlit("animated-gif");
    reveal_strlit("terminal-cast");
    assert("mp4"@.len() == 3 && "webm"@.len() == 4 && "gif"@.len() == 3 && "gif"@[0] != "mp4"@[0]);
    assert(l == "webm"@ ==> l != "mp4"@);
    assert(l == "gif"@ ==> l != "mp4"@ && l != "webm"@);
    assert(l == "webp"@ ==> l != "mp4"@ && l != "gif"@ && l != "webm"@) by {
        if l == "webp"@ && l == "webm"@ {
            assert("webp"@[3] != "webm"@[3]);
        }
    }
    assert(l == "cast"@ ==> l != "mp4"@ && l != "gif"@ && l != "webm"@ && l != "webp"@) by {
        if l == "cast"@ {
            assert(l[0] == 'c');
        }
    }
    law_media_kinds(e);
    if media_kind_spec(Some(e)) == Some("motion"@) {
        reveal_strlit("state");
        reveal_strlit("motion");
        assert("state"@.len() == 5 && "motion"@.len() == 6);
        assert("state"@ != "motion"@);
        assert("unknown"@.len() == 7 && "video-mp4"@.len() == 9 && "video-webm"@.len() == 10
            && "animated-gif"@.len() == 12 && "terminal-cast"@.len() == 13);
        assert("video-mp4"@ != "unknown"@ && "video-webm"@ != "unknown"@ && "animated-gif"@ != "unknown"@
            && "terminal-cast"@ != "unknown"@);
    }
}

pub fn declared_motion_kind(extension: Option<&str>) -> (r: &'static str)
    ensures
        r@ == declared_motion_kind_spec(
            match extension {
                Some(e) => Some(e@),
                None => None,
            },
        ),
{
    match extension {
        None => "unknown",
        Some(e) => {
            let l = string_of(&crate::text::lower_chars(&chars_of(e)));
            let s = l.as_str();
            if str_eq(s, "mp4") {
                "video-mp4"
            } else if str_eq(s, "webm") {
                "video-webm"
            } else if str_eq(s, "gif") {
                "animated-gif"
            } else if str_eq(s, "webp") {
                "animated-webp"
            } else if str_eq(s, "cast") {
                "terminal-cast"
            } else {
                "unknown"
            }
        },
    }
}

/// The run an operation without `--run` addresses: the greatest run id, in
/// `String` order, among those that are strict path components.
pub open spec fn is_latest_run(ids: Seq<Seq<char>>, x: Seq<char>) -> bool {
    &&& safe_component_spec(x)
    &&& exists|k: int| 0 <= k < ids.len() && ids[k] == x
    &&& forall|k: int|
        0 <= k < ids.len() && safe_component_spec(#[trigger] ids[k]) ==> !crate::text::seq_lt(x, ids[k])
}

/// The latest of the persisted run ids; `None` when none may name a run.
pub fn latest_run_id(ids: &Vec<String>) -> (r: Option<String>)
    ensures
        match r {
            Some(x) => is_latest_run(strings_view(ids@), x@),
            None => forall|k: int| 0 <= k < ids@.len() ==> !safe_component_spec(#[trigger] ids@[k]@),
        },
{
    let ghost v = strings_view(ids@);
    let mut best: Option<String> = None;
    let mut i: usize = 0;
    while i < ids.len()
        invariant
            i <= ids@.len(),
            v == strings_view(ids@),
            v.len() == ids@.len(),
            forall|k: int| 0 <= k < ids@.len() ==> #[trigger] v[k] == ids@[k]@,
            match best {
                Some(b) => safe_component_spec(b@) && (exists|k: int| 0 <= k < i && v[k] == b@)
                    && forall|k: int|
                    0 <= k < i && safe_component_spec(#[trigger] v[k]) ==> !crate::text::seq_lt(b@, v[k]),
                None => forall|k: int| 0 <= k < i ==> !safe_component_spec(#[trigger] v[k]),
            },
        decreases ids.len() - i,
    {
        let id = &ids[i];
        assert(v[i as int] == id@);
        if safe_component(id.as_str()) {
            let take = match &best {
                None => true,
                Some(b) => crate::text::seq_lt_exec(&chars_of(b.as_str()), &chars_of(id.as_str())),
            };
            if take {
                proof {
                    crate::text::lemma_seq_lt_total(id@, id@);
                    if let Some(b) = best {
                        assert forall|k: int|
                            0 <= k < i + 1 && safe_component_spec(#[trigger] v[k]) implies !crate::text::seq_lt(
                            id@,
                            v[k],
                        ) by {
                            if k < i && crate::text::seq_lt(id@, v[k]) {
                                crate::text::lemma_seq_lt_transitive(b@, id@, v[k]);
                            }
                        }
                    }
                }
                best = Some(id.clone());
            } else {
                proof {
                    let b = best.unwrap();
                    assert forall|k: int|
                        0 <= k < i + 1 && safe_component_spec(#[trigger] v[k]) implies !crate::text::seq_lt(
                        b@,
                        v[k],
                    ) by {}
                }
            }
        }
        i = i + 1;
    }
    if best.is_none() {
        assert forall|k: int| 0 <= k < ids@.len() implies !safe_component_spec(
            #[trigger] ids@[k]@,
        ) by {
            assert(v[k] == ids@[k]@);
        }
    }
    best
}

// ---------------------------------------------------------------------------
// Worker runtime files

/// `Path::join` of a relative path: a `/` is added unless `base` is empty or
/// already ends in one.
pub open spec fn path_join(base: Seq<char>, rel: Seq<char>) -> Seq<char> {
    if base.len() == 0 || base.last() == '/' {
        base + rel
    } else {
        base + "/"@ + rel
    }
}

/// Where a worker host keeps the bearer for the crawl object namespace.
pub open spec fn crawl_token_path_spec(home: Seq<char>) -> Seq<char> {
    path_join(home, ".stado/spis-crawls-object-api-token"@)
}

/// The crawl bearer file under a host home directory.
pub fn host_home_crawl_token_path(home: &str) -> (r: String)
    ensures
        r@ == crawl_token_path_spec(home@),
{
    proof {
        reveal_strlit("/");
    }
    let mut out = chars_of(home);
    if out.len() > 0 && out[out.len() - 1] != '/' {
        out.push('/');
    }
    append_chars(&mut out, &chars_of(".stado/spis-crawls-object-api-token"));
    assert(out@ =~= crawl_token_path_spec(home@));
    string_of(&out)
}

/// A worker runtime file that is missing.
pub enum RuntimeFileError {
    /// Stado's declared worker binary, at this path.
    StadoBinaryMissing(String),
    /// The crawl namespace bearer file, at this path.
    CrawlTokenMissing(String),
}

impl RuntimeFileError {
    /// The diagnostic an operator reads.
    pub fn message(&self) -> (r: String)
        ensures
            match self {
                RuntimeFileError::StadoBinaryMissing(p) => r@
                    == "worker_stado_binary_missing: Stado's declared worker binary is missing at "@
                    + p@,
                RuntimeFileError::CrawlTokenMissing(p) => r@
                    == "worker_crawl_token_missing: the spis-crawls bearer file is missing at "@
                    + p@,
            },
    {
        match self {
            RuntimeFileError::StadoBinaryMissing(p) => crate::text::concat(
                "worker_stado_binary_missing: Stado's declared worker binary is missing at ",
                p.as_str(),
            ),
            RuntimeFileError::CrawlTokenMissing(p) => crate::text::concat(
                "worker_crawl_token_missing: the spis-crawls bearer file is missing at ",
                p.as_str(),
            ),
        }
    }
}

/// Refuse a worker whose Stado binary or crawl bearer file is missing; the
/// binary is checked first.
pub fn validate_worker_runtime_files(
    stado_path: &str,
    stado_present: bool,
    token_path: &str,
    token_present: bool,
) -> (r: Result<(), RuntimeFileError>)
    ensures
        !stado_present ==> (r matches Err(RuntimeFileError::StadoBinaryMissing(p)) && p@
            == stado_path@),
        stado_present && !token_present ==> (r matches Err(RuntimeFileError::CrawlTokenMissing(p))
            && p@ == token_path@),
        stado_present && token_present ==> r is Ok,
{
    if !stado_present {
        return Err(RuntimeFileError::StadoBinaryMissing(String::from_str(stado_path)));
    }
    if !token_present {
        return Err(RuntimeFileError::CrawlTokenMissing(String::from_str(token_path)));
    }
    Ok(())
}

} // verus!

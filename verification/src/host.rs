//! What a placement host answers: the pinned-host spelling of a submission
//! receipt, digests, the program a host probe selected, and the reports a
//! probe leaves behind.
use vstd::prelude::*;
use vstd::string::StringSliceAdditionalSpecFns;
use crate::json::{
    array_v, bool_v, get_bool_v, get_items_v, get_str_v, get_v, jobj, jstr, jstrs, strs_v, str_v,
    view_arr, view_obj, group_json_view, Json, JsonV,
};
use crate::text::{
    append_chars, decimal, decimal_spec, find_seq, first_index, first_word, first_word_exec,
    join_exec, join_with, lemma_first_index, parse_usize, parse_usize_spec, split_once_exec,
    split_once_seq, insert_sorted, strictly_sorted, string_views,
    chars_of, eq_ignore_case, eq_ignore_case_exec, ends_with, ends_with_exec, is_lower_hex_byte,
    is_space, is_space_char, lower_char, lower_seq, starts_with, starts_with_exec, string_of,
    trim, trim_chars,
};

verus! {

// ---------------------------------------------------------------------------
// Pinned hosts

/// The registry name inside a consumer spelling `local-NAME.local`.
pub open spec fn consumer_spelling_name(p: Seq<char>) -> Option<Seq<char>> {
    if p.len() >= 12 && starts_with(p, "local-"@) && ends_with(p, ".local"@) {
        Some(p.subrange(6, p.len() - 6))
    } else {
        None
    }
}

/// Whether the pinned host a receipt echoes is the placement host: the two
/// agree up to surrounding whitespace and ASCII case, or the pin is the
/// consumer spelling `local-HOST.local` of the host.
pub open spec fn pinned_host_spec(pinned: Seq<char>, host: Seq<char>) -> bool {
    let p = trim(pinned);
    let h = trim(host);
    eq_ignore_case(p, h) || match consumer_spelling_name(p) {
        Some(name) => eq_ignore_case(name, h),
        None => false,
    }
}

/// Whether the pinned host a Stado receipt echoes is the placement host.
pub fn pinned_host_is(pinned: &str, host: &str) -> (r: bool)
    ensures
        r == pinned_host_spec(pinned@, host@),
{
    let p = trim_chars(&chars_of(pinned));
    let h = trim_chars(&chars_of(host));
    if eq_ignore_case_exec(&p, &h) {
        return true;
    }
    let prefix = chars_of("local-");
    let suffix = chars_of(".local");
    proof {
        reveal_strlit("local-");
        reveal_strlit(".local");
    }
    if p.len() >= 12 && starts_with_exec(&p, &prefix) && ends_with_exec(&p, &suffix) {
        let name = crate::text::slice_chars(&p, 6, p.len() - 6);
        eq_ignore_case_exec(&name, &h)
    } else {
        false
    }
}

proof fn lemma_trim_lower(s: Seq<char>)
    ensures
        trim(lower_seq(s)) == lower_seq(trim(s)),
{
    assert forall|c: char| is_space_char(lower_char(c)) == is_space_char(c) by {}
    crate::text::lemma_trim_map_lower(s);
}

/// A host always matches itself.
pub proof fn law_pinned_host_reflexive(host: Seq<char>)
    ensures
        pinned_host_spec(host, host),
{
}

/// The consumer spelling `local-HOST.local` of a host without surrounding
/// whitespace names that host.
pub proof fn law_pinned_host_consumer_spelling(host: Seq<char>)
    requires
        trim(host) == host,
    ensures
        pinned_host_spec("local-"@ + host + ".local"@, host),
{
    reveal_strlit("local-");
    reveal_strlit(".local");
    let p = "local-"@ + host + ".local"@;
    crate::text::lemma_trim_unchanged(p);
    assert(p.take(6) =~= "local-"@);
    assert(p.skip(p.len() - 6) =~= ".local"@);
    assert(p.subrange(6, p.len() - 6) =~= host);
}

/// The placement host is compared without regard to ASCII case.
pub proof fn law_pinned_host_ignores_host_case(pinned: Seq<char>, host: Seq<char>)
    ensures
        pinned_host_spec(pinned, host) == pinned_host_spec(pinned, lower_seq(host)),
{
    lemma_trim_lower(host);
    let h = trim(host);
    assert(lower_seq(lower_seq(h)) =~= lower_seq(h));
}

// ---------------------------------------------------------------------------
// Digests

/// A lowercase hexadecimal SHA-256 digest: 64 bytes of `0-9a-f`.
pub open spec fn is_lower_sha256_spec(b: Seq<u8>) -> bool {
    b.len() == 64 && forall|i: int| 0 <= i < b.len() ==> is_lower_hex_byte(#[trigger] b[i])
}

pub fn is_lower_sha256(value: &str) -> (r: bool)
    ensures
        r == is_lower_sha256_spec(value.spec_bytes()),
{
    let b = value.as_bytes();
    if b.len() != 64 {
        return false;
    }
    let mut i: usize = 0;
    while i < 64
        invariant
            b@.len() == 64,
            b@ == value.spec_bytes(),
            i <= 64,
            forall|j: int| 0 <= j < i ==> is_lower_hex_byte(#[trigger] b@[j]),
        decreases 64 - i,
    {
        if !crate::text::is_lower_hex_b(b[i]) {
            return false;
        }
        i = i + 1;
    }
    true
}

// ---------------------------------------------------------------------------
// The program a host probe selected

/// Why a host probe receipt names no usable program.
pub enum ReceiptError {
    /// The receipt carries no `target` string.
    NoTarget,
    /// The receipt answers for another host.
    TargetMismatch(String),
    /// The receipt reports no selected executable.
    NoSelectedExecutable,
    /// The selected executable holds a NUL or whitespace.
    UnsafeExecutable(String),
    /// The selected executable is `~/` and nothing more.
    IncompleteExecutable(String),
    /// The selected executable is neither absolute nor home-relative.
    NonAbsoluteExecutable(String),
}

/// [`ReceiptError`] over character sequences.
pub enum ReceiptFailure {
    NoTarget,
    TargetMismatch(Seq<char>),
    NoSelectedExecutable,
    UnsafeExecutable(Seq<char>),
    IncompleteExecutable(Seq<char>),
    NonAbsoluteExecutable(Seq<char>),
}

impl ReceiptError {
    pub open spec fn failure(&self) -> ReceiptFailure {
        match self {
            ReceiptError::NoTarget => ReceiptFailure::NoTarget,
            ReceiptError::TargetMismatch(t) => ReceiptFailure::TargetMismatch(t@),
            ReceiptError::NoSelectedExecutable => ReceiptFailure::NoSelectedExecutable,
            ReceiptError::UnsafeExecutable(s) => ReceiptFailure::UnsafeExecutable(s@),
            ReceiptError::IncompleteExecutable(s) => ReceiptFailure::IncompleteExecutable(s@),
            ReceiptError::NonAbsoluteExecutable(s) => ReceiptFailure::NonAbsoluteExecutable(s@),
        }
    }
}

/// The first word of the receipt's `argv`, when it is a string.
pub open spec fn first_argv_v(receipt: JsonV) -> Option<Seq<char>> {
    match get_v(receipt, "argv"@) {
        Some(a) => match array_v(a) {
            Some(items) => if items.len() > 0 {
                str_v(items[0])
            } else {
                None
            },
            None => None,
        },
        None => None,
    }
}

/// The executable the host selected: `resolved_executable` when it is a
/// string, else `argv[0]`; trimmed, and absent when empty.
pub open spec fn selected_executable_spec(receipt: JsonV) -> Option<Seq<char>> {
    let raw = match get_str_v(receipt, "resolved_executable"@) {
        Some(s) => Some(s),
        None => first_argv_v(receipt),
    };
    match raw {
        Some(s) => if trim(s).len() > 0 {
            Some(trim(s))
        } else {
            None
        },
        None => None,
    }
}

/// `s` with every `'` written as `'\''`, for use inside single quotes.
pub open spec fn single_quote_escape(s: Seq<char>) -> Seq<char>
    decreases s.len(),
{
    if s.len() == 0 {
        Seq::empty()
    } else {
        single_quote_escape(s.drop_last()) + if s.last() == '\'' {
            seq!['\'', '\\', '\'', '\'']
        } else {
            seq![s.last()]
        }
    }
}

/// The shell word for a selected executable, or why there is none.
pub open spec fn executable_word_spec(host: Seq<char>, receipt: JsonV) -> Result<
    Seq<char>,
    ReceiptFailure,
> {
    match get_str_v(receipt, "target"@) {
        None => Err(ReceiptFailure::NoTarget),
        Some(target) => if target != host {
            Err(ReceiptFailure::TargetMismatch(target))
        } else {
            match selected_executable_spec(receipt) {
                None => Err(ReceiptFailure::NoSelectedExecutable),
                Some(sel) => if sel.contains('\0') || exists|i: int|
                    0 <= i < sel.len() && is_space_char(#[trigger] sel[i]) {
                    Err(ReceiptFailure::UnsafeExecutable(sel))
                } else if starts_with(sel, "~/"@) {
                    if sel.len() == 2 {
                        Err(ReceiptFailure::IncompleteExecutable(sel))
                    } else {
                        Ok("\"$HOME\"/'"@ + single_quote_escape(sel.skip(2)) + "'"@)
                    }
                } else if starts_with(sel, "/"@) {
                    Ok(sel)
                } else {
                    Err(ReceiptFailure::NonAbsoluteExecutable(sel))
                },
            }
        },
    }
}

/// A receipt yields a shell word exactly when it targets this host and
/// selects an executable without NUL or whitespace that is an absolute path,
/// taken as it is, or a path under the home directory, quoted after
/// `"$HOME"/`.
pub proof fn law_executable_word_only_for_safe_paths(host: Seq<char>, receipt: JsonV)
    ensures
        executable_word_spec(host, receipt) is Ok <==> ({
            &&& get_str_v(receipt, "target"@) == Some(host)
            &&& selected_executable_spec(receipt) matches Some(sel) && !sel.contains('\0') && (forall|i: int|
                0 <= i < sel.len() ==> !is_space_char(#[trigger] sel[i])) && ((starts_with(sel, "~/"@)
                && sel.len() > 2) || (!starts_with(sel, "~/"@) && starts_with(sel, "/"@)))
        }),
        executable_word_spec(host, receipt) matches Ok(word) ==> (selected_executable_spec(receipt)
            matches Some(sel) && (word == sel || word == "\"$HOME\"/'"@ + single_quote_escape(sel.skip(2))
            + "'"@)),
{
    reveal_strlit("~/");
    if let Some(sel) = selected_executable_spec(receipt) {
        if starts_with(sel, "~/"@) {
            assert(sel.len() >= 2);
        }
    }
}

fn selected_executable(receipt: &Json) -> (r: Option<Vec<char>>)
    ensures
        match r {
            Some(v) => selected_executable_spec(receipt@) == Some(v@),
            None => selected_executable_spec(receipt@) is None,
        },
{
    let raw: Option<&str> = match receipt.get_str("resolved_executable") {
        Some(s) => Some(s),
        None => match receipt.get("argv") {
            Some(a) => match a.as_array() {
                Some(items) => if items.len() > 0 {
                    proof {
                        crate::json::lemma_view_arr(items@);
                    }
                    items[0].as_str()
                } else {
                    None
                },
                None => None,
            },
            None => None,
        },
    };
    match raw {
        Some(s) => {
            let t = trim_chars(&chars_of(s));
            if t.len() > 0 {
                Some(t)
            } else {
                None
            }
        },
        None => None,
    }
}

fn single_quote_escape_exec(s: &Vec<char>) -> (r: Vec<char>)
    ensures
        r@ == single_quote_escape(s@),
{
    let mut out: Vec<char> = Vec::new();
    let mut i: usize = 0;
    while i < s.len()
        invariant
            i <= s.len(),
            out@ == single_quote_escape(s@.take(i as int)),
        decreases s.len() - i,
    {
        let c = s[i];
        assert(s@.take(i + 1).drop_last() =~= s@.take(i as int));
        if c == '\'' {
            out.push('\'');
            out.push('\\');
            out.push('\'');
            out.push('\'');
        } else {
            out.push(c);
        }
        assert(out@ =~= single_quote_escape(s@.take(i + 1)));
        i = i + 1;
    }
    assert(s@.take(s.len() as int) =~= s@);
    out
}

/// Turn the program candidate selected by the placement host into one shell
/// word: an absolute path as it is, a home-relative one as `"$HOME"/'...'`.
pub fn executable_word_from_host_receipt(host: &str, receipt: &Json) -> (r: Result<
    String,
    ReceiptError,
>)
    ensures
        match r {
            Ok(w) => executable_word_spec(host@, receipt@) == Ok::<Seq<char>, ReceiptFailure>(w@),
            Err(e) => executable_word_spec(host@, receipt@) == Err::<Seq<char>, ReceiptFailure>(
                e.failure(),
            ),
        },
{
    let target = match receipt.get_str("target") {
        Some(t) => t,
        None => return Err(ReceiptError::NoTarget),
    };
    if !crate::text::str_eq(target, host) {
        return Err(ReceiptError::TargetMismatch(target.to_string()));
    }
    let selected = match selected_executable(receipt) {
        Some(v) => v,
        None => return Err(ReceiptError::NoSelectedExecutable),
    };
    let mut unsafe_char = false;
    let mut i: usize = 0;
    while i < selected.len()
        invariant
            i <= selected.len(),
            unsafe_char == exists|j: int|
                0 <= j < i && (selected@[j] == '\0' || is_space_char(selected@[j])),
        decreases selected.len() - i,
    {
        if selected[i] == '\0' || is_space(selected[i]) {
            assert(selected@[i as int] == '\0' || is_space_char(selected@[i as int]));
            unsafe_char = true;
        }
        i = i + 1;
    }
    let ghost sel = selected@;
    proof {
        if unsafe_char {
            let j = choose|j: int|
                0 <= j < sel.len() && (sel[j] == '\0' || is_space_char(sel[j]));
            if sel[j] == '\0' {
                assert(sel.contains('\0'));
            }
        } else {
            if sel.contains('\0') {
                let j = choose|j: int| 0 <= j < sel.len() && sel[j] == '\0';
                assert(sel[j] == '\0');
            }
        }
    }
    if unsafe_char {
        return Err(ReceiptError::UnsafeExecutable(string_of(&selected)));
    }
    let home = chars_of("~/");
    let root = chars_of("/");
    proof {
        reveal_strlit("~/");
        reveal_strlit("/");
    }
    if starts_with_exec(&selected, &home) {
        if selected.len() == 2 {
            return Err(ReceiptError::IncompleteExecutable(string_of(&selected)));
        }
        let rest = crate::text::slice_chars(&selected, 2, selected.len());
        assert(rest@ =~= sel.skip(2));
        let escaped = single_quote_escape_exec(&rest);
        let mut word = chars_of("\"$HOME\"/'");
        crate::text::append_chars(&mut word, &escaped);
        word.push('\'');
        proof {
            reveal_strlit("'");
        }
        assert(word@ =~= "\"$HOME\"/'"@ + single_quote_escape(sel.skip(2)) + "'"@);
        return Ok(string_of(&word));
    }
    if starts_with_exec(&selected, &root) {
        return Ok(string_of(&selected));
    }
    Err(ReceiptError::NonAbsoluteExecutable(string_of(&selected)))
}

// ---------------------------------------------------------------------------
// Probe reports

pub open spec fn words_view(args: Seq<&str>) -> Seq<Seq<char>> {
    args.map_values(|a: &str| a@)
}

/// The message of a probe that gave no answer in time.
pub open spec fn probe_timeout_message(args: Seq<Seq<char>>, seconds: u64) -> Seq<char> {
    "host did not answer probe `"@ + join_with(args, " "@) + "` within "@ + decimal_spec(
        seconds as nat,
    ) + " seconds"@
}

/// Typed evidence that a host probe gave no answer before its deadline.
pub open spec fn probe_timeout_report_spec(args: Seq<Seq<char>>, seconds: u64) -> JsonV {
    let message = probe_timeout_message(args, seconds);
    JsonV::Object(
        seq![
            ("command"@, strs_v(args)),
            ("outcome"@, JsonV::Str("timed_out"@)),
            ("ready"@, JsonV::Bool(false)),
            ("diagnostic"@, JsonV::Object(seq![
                ("code"@, JsonV::Str("host_probe_timed_out"@)),
                ("retryable"@, JsonV::Bool(true)),
                ("message"@, JsonV::Str(message)),
                ("probe"@, strs_v(args)),
                ("timeout_seconds"@, JsonV::UInt(seconds)),
            ])),
            ("error"@, JsonV::Str(message)),
        ],
    )
}

fn words_of(args: &[&str]) -> (r: Vec<Vec<char>>)
    ensures
        r@.map_values(|x: Vec<char>| x@) == words_view(args@),
{
    let mut out: Vec<Vec<char>> = Vec::new();
    let mut i: usize = 0;
    while i < args.len()
        invariant
            i <= args@.len(),
            out@.len() == i,
            forall|j: int| 0 <= j < i ==> #[trigger] out@[j]@ == args@[j]@,
        decreases args.len() - i,
    {
        out.push(chars_of(args[i]));
        i = i + 1;
    }
    assert(out@.map_values(|x: Vec<char>| x@) =~= words_view(args@));
    out
}

/// Typed evidence that a host probe gave no answer before its hard deadline.
pub fn host_probe_timeout_report(arguments: &[&str], timeout_seconds: u64) -> (r: Json)
    ensures
        r@ == probe_timeout_report_spec(words_view(arguments@), timeout_seconds),
{
    broadcast use group_json_view;

    let words = words_of(arguments);
    let command = join_exec(&words, &chars_of(" "));
    let mut message = chars_of("host did not answer probe `");
    append_chars(&mut message, &command);
    append_chars(&mut message, &chars_of("` within "));
    append_chars(&mut message, &chars_of(decimal(timeout_seconds).as_str()));
    append_chars(&mut message, &chars_of(" seconds"));
    let text = string_of(&message);
    assert(text@ =~= probe_timeout_message(words_view(arguments@), timeout_seconds));
    let mut diagnostic: Vec<(String, Json)> = Vec::new();
    diagnostic.push(("code".to_string(), jstr("host_probe_timed_out")));
    diagnostic.push(("retryable".to_string(), Json::Bool(true)));
    diagnostic.push(("message".to_string(), Json::Str(text.clone())));
    diagnostic.push(("probe".to_string(), jstrs(arguments)));
    diagnostic.push(("timeout_seconds".to_string(), Json::UInt(timeout_seconds)));
    let mut fields: Vec<(String, Json)> = Vec::new();
    fields.push(("command".to_string(), jstrs(arguments)));
    fields.push(("outcome".to_string(), jstr("timed_out")));
    fields.push(("ready".to_string(), Json::Bool(false)));
    let ghost dv = view_obj(diagnostic@);
    fields.push(("diagnostic".to_string(), jobj(diagnostic)));
    fields.push(("error".to_string(), Json::Str(text)));
    assert(dv =~= seq![
        ("code"@, JsonV::Str("host_probe_timed_out"@)),
        ("retryable"@, JsonV::Bool(true)),
        ("message"@, JsonV::Str(probe_timeout_message(words_view(arguments@), timeout_seconds))),
        ("probe"@, strs_v(words_view(arguments@))),
        ("timeout_seconds"@, JsonV::UInt(timeout_seconds)),
    ]);
    let r = jobj(fields);
    assert(view_obj(fields@) =~= seq![
        ("command"@, strs_v(words_view(arguments@))),
        ("outcome"@, JsonV::Str("timed_out"@)),
        ("ready"@, JsonV::Bool(false)),
        ("diagnostic"@, JsonV::Object(dv)),
        ("error"@, JsonV::Str(probe_timeout_message(words_view(arguments@), timeout_seconds))),
    ]);
    r
}

/// A retained check whose diagnostic says it may be retried.
pub open spec fn retryable_check(c: JsonV) -> bool {
    match get_v(c, "diagnostic"@) {
        Some(d) => get_bool_v(d, "retryable"@) == Some(true),
        None => false,
    }
}

/// Whether any retained check of a host preflight is retryable.
pub open spec fn preflight_retryable_spec(report: JsonV) -> bool {
    exists|i: int|
        0 <= i < get_items_v(report, "checks"@).len() && retryable_check(
            #[trigger] get_items_v(report, "checks"@)[i],
        )
}

fn is_retryable_check(c: &Json) -> (r: bool)
    ensures
        r == retryable_check(c@),
{
    match c.get("diagnostic") {
        Some(d) => match d.get_bool("retryable") {
            Some(b) => b,
            None => false,
        },
        None => false,
    }
}

/// Whether a failed host preflight may be retried.
pub fn host_preflight_is_retryable(report: &Json) -> (r: bool)
    ensures
        r == preflight_retryable_spec(report@),
{
    let checks = report.get_items("checks");
    let ghost items = get_items_v(report@, "checks"@);
    proof {
        crate::json::lemma_view_arr(checks@);
    }
    let mut i: usize = 0;
    while i < checks.len()
        invariant
            i <= checks@.len(),
            view_arr(checks@) == items,
            items == get_items_v(report@, "checks"@),
            items.len() == checks@.len(),
            forall|j: int| 0 <= j < checks@.len() ==> #[trigger] items[j] == checks@[j]@,
            forall|j: int| 0 <= j < i ==> !retryable_check(#[trigger] items[j]),
        decreases checks.len() - i,
    {
        if is_retryable_check(&checks[i]) {
            assert(items[i as int] == checks@[i as int]@);
            assert(retryable_check(get_items_v(report@, "checks"@)[i as int]));
            return true;
        }
        assert(items[i as int] == checks@[i as int]@);
        i = i + 1;
    }
    false
}

/// The record state chosen when a host preflight has not passed: `planned`
/// when a retryable probe failed, else `unavailable`.
pub open spec fn failed_preflight_state_spec(report: JsonV) -> Seq<char> {
    if preflight_retryable_spec(report) {
        "planned"@
    } else {
        "unavailable"@
    }
}

/// Record state selected when a host preflight has not passed.
pub fn failed_host_preflight_record_state(report: &Json) -> (r: &'static str)
    ensures
        r@ == failed_preflight_state_spec(report@),
{
    if host_preflight_is_retryable(report) {
        "planned"
    } else {
        "unavailable"
    }
}

// ---------------------------------------------------------------------------
// The queue agent's declared program

/// An agent argument list that serves `host`: it starts with `agent` and
/// either targets the host (`--target HOST`) or serves its own (`--auto`).
pub open spec fn agent_args_serve(args: Seq<JsonV>, host: Seq<char>) -> bool {
    &&& args.len() > 0
    &&& str_v(args[0]) == Some("agent"@)
    &&& (exists|i: int|
        0 <= i && i + 1 < args.len() && str_v(#[trigger] args[i]) == Some("--target"@) && str_v(
            args[i + 1],
        ) == Some(host)) || (exists|i: int|
        0 <= i < args.len() && str_v(#[trigger] args[i]) == Some("--auto"@))
}

/// An active queue-agent service declared for `host`.
pub open spec fn declares_worker_agent(service: JsonV, host: Seq<char>) -> bool {
    &&& get_str_v(service, "host"@) == Some(host)
    &&& get_str_v(service, "state"@) == Some("active"@)
    &&& match get_v(service, "args"@) {
        Some(a) => match array_v(a) {
            Some(args) => agent_args_serve(args, host),
            None => false,
        },
        None => false,
    }
}

/// A program path that can stand as one absolute shell word.
pub open spec fn usable_program(p: Seq<char>) -> bool {
    p.len() > 0 && p[0] == '/' && forall|i: int| 0 <= i < p.len() ==> !is_space_char(#[trigger] p[i])
}

/// The service at position `i` declares `p` as the agent program for `host`.
pub open spec fn declares_program_at(items: Seq<JsonV>, host: Seq<char>, i: int, p: Seq<char>) -> bool {
    &&& 0 <= i < items.len()
    &&& declares_worker_agent(items[i], host)
    &&& get_str_v(items[i], "program"@) == Some(p)
    &&& usable_program(p)
}

/// The programs the active queue-agent declarations name for `host`.
pub open spec fn declared_programs(services: JsonV, host: Seq<char>, p: Seq<char>) -> bool {
    match array_v(services) {
        Some(items) => exists|i: int| #[trigger] declares_program_at(items, host, i, p),
        None => false,
    }
}

fn agent_serves(args: &Vec<Json>, host: &str) -> (r: bool)
    ensures
        r == agent_args_serve(view_arr(args@), host@),
{
    let ghost a = view_arr(args@);
    proof {
        crate::json::lemma_view_arr(args@);
    }
    if args.len() == 0 {
        return false;
    }
    assert(a[0] == args@[0]@);
    match args[0].as_str() {
        Some(w) => if !crate::text::str_eq(w, "agent") {
            return false;
        },
        None => return false,
    }
    let mut targets = false;
    let mut auto = false;
    let mut i: usize = 0;
    while i < args.len()
        invariant
            i <= args@.len(),
            a == view_arr(args@),
            a.len() == args@.len(),
            forall|j: int| 0 <= j < args@.len() ==> #[trigger] a[j] == args@[j]@,
            str_v(a[0]) == Some("agent"@),
            targets == exists|j: int|
                0 <= j && j + 1 < a.len() && j < i && str_v(#[trigger] a[j]) == Some("--target"@)
                    && str_v(a[j + 1]) == Some(host@),
            auto == exists|j: int| 0 <= j < i && str_v(#[trigger] a[j]) == Some("--auto"@),
        decreases args.len() - i,
    {
        assert(a[i as int] == args@[i as int]@);
        match args[i].as_str() {
            Some(w) => {
                if crate::text::str_eq(w, "--auto") {
                    auto = true;
                }
                if crate::text::str_eq(w, "--target") && i + 1 < args.len() {
                    assert(a[i + 1] == args@[i + 1]@);
                    match args[i + 1].as_str() {
                        Some(h) => if crate::text::str_eq(h, host) {
                            targets = true;
                        },
                        None => {},
                    }
                }
            },
            None => {},
        }
        i = i + 1;
    }
    targets || auto
}

fn is_usable_program(p: &str) -> (r: bool)
    ensures
        r == usable_program(p@),
{
    let v = chars_of(p);
    if v.len() == 0 || v[0] != '/' {
        return false;
    }
    let mut i: usize = 0;
    while i < v.len()
        invariant
            i <= v@.len(),
            v@ == p@,
            forall|j: int| 0 <= j < i ==> !is_space_char(#[trigger] v@[j]),
        decreases v.len() - i,
    {
        if is_space(v[i]) {
            assert(is_space_char(v@[i as int]));
            return false;
        }
        i = i + 1;
    }
    true
}

/// Read the Stado programs that the active queue-agent declarations name for
/// this host, in `String` order, each once (the contents of a
/// `BTreeSet<String>`).
pub fn active_worker_stado_programs(services: &Json, host: &str) -> (r: Vec<String>)
    ensures
        strictly_sorted(string_views(r@)),
        forall|p: Seq<char>|
            string_views(r@).contains(p) <==> declared_programs(services@, host@, p),
{
    broadcast use group_json_view;

    let mut out: Vec<String> = Vec::new();
    let items: &Vec<Json> = match services {
        Json::Array(items) => items,
        _ => {
            assert forall|p: Seq<char>|
                string_views(out@).contains(p) <==> declared_programs(services@, host@, p) by {
                if string_views(out@).contains(p) {
                    let j = choose|j: int| 0 <= j < string_views(out@).len() && string_views(out@)[j] == p;
                }
            }
            return out;
        },
    };
    let ghost iv = view_arr(items@);
    assert(array_v(services@) == Some(iv));
    proof {
        crate::json::lemma_view_arr(items@);
    }
    let mut i: usize = 0;
    while i < items.len()
        invariant
            i <= items@.len(),
            iv == view_arr(items@),
            iv.len() == items@.len(),
            forall|j: int| 0 <= j < items@.len() ==> #[trigger] iv[j] == items@[j]@,
            array_v(services@) == Some(iv),
            strictly_sorted(string_views(out@)),
            forall|p: Seq<char>|
                string_views(out@).contains(p) <==> exists|j: int|
                    j < i && #[trigger] declares_program_at(iv, host@, j, p),
        decreases items.len() - i,
    {
        let service = &items[i];
        assert(iv[i as int] == service@);
        let ghost before = string_views(out@);
        let mut declared = false;
        if let Some(h) = service.get_str("host") {
            if crate::text::str_eq(h, host) {
                if let Some(state) = service.get_str("state") {
                    if crate::text::str_eq(state, "active") {
                        if let Some(a) = service.get("args") {
                            if let Some(args) = a.as_array() {
                                declared = agent_serves(args, host);
                            }
                        }
                    }
                }
            }
        }
        assert(declared == declares_worker_agent(service@, host@));
        let mut added = false;
        if declared {
            if let Some(program) = service.get_str("program") {
                if is_usable_program(program) {
                    insert_sorted(&mut out, program.to_string());
                    added = true;
                    assert(declares_program_at(iv, host@, i as int, program@));
                }
            }
        }
        assert forall|p: Seq<char>|
            string_views(out@).contains(p) <==> exists|j: int|
                j < i + 1 && #[trigger] declares_program_at(iv, host@, j, p) by {
            if exists|j: int| j < i + 1 && #[trigger] declares_program_at(iv, host@, j, p) {
                let j = choose|j: int| j < i + 1 && #[trigger] declares_program_at(iv, host@, j, p);
                if j < i {
                    assert(before.contains(p));
                }
            }
            if !added {
                if declares_program_at(iv, host@, i as int, p) {
                    assert(false);
                }
            }
        }
        i = i + 1;
    }
    out
}

/// How many programs a retryable agent diagnostic says it saw.
pub open spec fn observed_count_spec(message: Seq<char>) -> Option<nat> {
    match split_once_seq(message, "observed_count="@) {
        Some((_, tail)) => match first_word(tail) {
            Some(w) => parse_usize_spec(w),
            None => None,
        },
        None => None,
    }
}

/// The typed retry diagnostic for an unstable agent program declaration.
pub open spec fn retry_diagnostic_spec(message: Seq<char>) -> Option<JsonV> {
    if find_seq(message, "worker_agent_program_unstable:"@) is None {
        None
    } else {
        Some(
            JsonV::Object(
                seq![
                    ("code"@, JsonV::Str("worker_agent_program_unstable"@)),
                    ("retryable"@, JsonV::Bool(true)),
                    ("observed_count"@, match observed_count_spec(message) {
                        Some(n) => JsonV::UInt(n as u64),
                        None => JsonV::Null,
                    }),
                    ("message"@, JsonV::Str(message)),
                ],
            ),
        )
    }
}

/// A failure message yields a retry diagnostic exactly when it reports an
/// unstable worker agent program, and that diagnostic is always retryable,
/// carries the message whole, and counts the observations as the `usize`
/// written in the first word after the first `observed_count=` (`null` when
/// there is none or it does not parse).
pub proof fn law_retry_only_for_unstable_program(message: Seq<char>)
    ensures
        retry_diagnostic_spec(message) is Some <==> find_seq(message, "worker_agent_program_unstable:"@)
            is Some,
        retry_diagnostic_spec(message) matches Some(d) ==> get_v(d, "code"@) == Some(
            JsonV::Str("worker_agent_program_unstable"@),
        ) && get_v(d, "retryable"@) == Some(JsonV::Bool(true)) && get_v(d, "message"@) == Some(
            JsonV::Str(message),
        ) && get_v(d, "observed_count"@) == Some(
            match observed_count_spec(message) {
                Some(n) => JsonV::UInt(n as u64),
                None => JsonV::Null,
            },
        ),
        observed_count_spec(message) == match split_once_seq(message, "observed_count="@) {
            Some((_, tail)) => match first_word(tail) {
                Some(w) => parse_usize_spec(w),
                None => None,
            },
            None => None,
        },
        observed_count_spec(message) matches Some(n) ==> n <= usize::MAX,
{
    if retry_diagnostic_spec(message) is Some {
        let d = retry_diagnostic_spec(message).unwrap();
        reveal_strlit("code");
        reveal_strlit("retryable");
        reveal_strlit("observed_count");
        reveal_strlit("message");
        let fields = d->Object_0;
        assert("code"@.len() == 4 && "retryable"@.len() == 9 && "observed_count"@.len() == 14
            && "message"@.len() == 7);
        crate::json::lemma_field_index_is(fields, "code"@, 0);
        crate::json::lemma_field_index_is(fields, "retryable"@, 1);
        crate::json::lemma_field_index_is(fields, "message"@, 3);
        crate::json::lemma_field_index_is(fields, "observed_count"@, 2);
    }
}

/// A receipt yields no shell word exactly when it does not target this
/// host, or the executable it selects (its `resolved_executable` when that
/// is a string, else its `argv[0]`, trimmed) is absent or empty, holds NUL
/// or whitespace, is `~/` itself, or starts with neither `~/` nor `/`. An
/// absolute path is its own word; `~/R` is `"$HOME"/'R'`, every `'` of `R`
/// written `'\''`.
pub proof fn law_executable_word_rule(host: Seq<char>, receipt: JsonV)
    ensures
        selected_executable_spec(receipt) == match (match get_str_v(receipt, "resolved_executable"@) {
            Some(s) => Some(s),
            None => first_argv_v(receipt),
        }) {
            Some(s) => if trim(s).len() > 0 {
                Some(trim(s))
            } else {
                None
            },
            None => None,
        },
        executable_word_spec(host, receipt) is Err <==> (get_str_v(receipt, "target"@) != Some(host)
            || match selected_executable_spec(receipt) {
            None => true,
            Some(sel) => sel.contains('\0') || (exists|i: int|
                0 <= i < sel.len() && is_space_char(#[trigger] sel[i])) || sel == "~/"@ || (
            !starts_with(sel, "~/"@) && !starts_with(sel, "/"@)),
        }),
        selected_executable_spec(receipt) matches Some(sel) ==> (executable_word_spec(host, receipt)
            matches Ok(word) ==> ((starts_with(sel, "/"@) ==> word == sel) && (starts_with(sel, "~/"@)
            ==> word == "\"$HOME\"/'"@ + single_quote_escape(sel.skip(2)) + "'"@))),
{
    reveal_strlit("~/");
    reveal_strlit("/");
    if let Some(sel) = selected_executable_spec(receipt) {
        if starts_with(sel, "~/"@) {
            assert(sel.len() >= 2);
            if sel.len() == 2 {
                assert(sel =~= "~/"@);
            }
            assert(sel.take(2)[0] == sel[0]);
            assert(sel[0] == '~');
            assert(sel.take(1)[0] == '~');
            assert(!starts_with(sel, "/"@));
        }
        if sel == "~/"@ {
            assert(sel.take(2) =~= sel);
            assert(starts_with(sel, "~/"@));
        }
    }
}

/// The programs an active worker agent declaration names for `host`: the
/// `program` of each service (none when the services are not an array)
/// whose `host` is `host`, whose `state` is `active`, whose `args` array
/// starts with `agent` and either has `--target` followed by `host` or
/// holds `--auto`, and whose program is an absolute path without
/// whitespace.
pub proof fn law_declared_programs(services: JsonV, host: Seq<char>, p: Seq<char>)
    ensures
        declared_programs(services, host, p) <==> (services matches JsonV::Array(items) && exists|i: int|
            0 <= i < items.len() && get_str_v(#[trigger] items[i], "host"@) == Some(host) && get_str_v(
                items[i],
                "state"@,
            ) == Some("active"@) && (get_v(items[i], "args"@) matches Some(JsonV::Array(args))
                && args.len() > 0 && args[0] == JsonV::Str("agent"@) && ((exists|k: int|
                0 <= k && k + 1 < args.len() && #[trigger] args[k] == JsonV::Str("--target"@) && args[k
                    + 1] == JsonV::Str(host)) || (exists|k: int|
                0 <= k < args.len() && #[trigger] args[k] == JsonV::Str("--auto"@)))) && get_str_v(
                items[i],
                "program"@,
            ) == Some(p) && p.len() > 0 && p[0] == '/' && forall|k: int|
                0 <= k < p.len() ==> !is_space_char(#[trigger] p[k])),
{
    if let JsonV::Array(items) = services {
        if declared_programs(services, host, p) {
            let i = choose|i: int| #[trigger] declares_program_at(items, host, i, p);
            let args = array_v(get_v(items[i], "args"@).unwrap()).unwrap();
            if exists|k: int|
                0 <= k && k + 1 < args.len() && str_v(#[trigger] args[k]) == Some("--target"@) && str_v(
                    args[k + 1],
                ) == Some(host) {
                let k = choose|k: int|
                    0 <= k && k + 1 < args.len() && str_v(#[trigger] args[k]) == Some("--target"@)
                        && str_v(args[k + 1]) == Some(host);
                assert(args[k] == JsonV::Str("--target"@));
            } else {
                let k = choose|k: int| 0 <= k < args.len() && str_v(#[trigger] args[k]) == Some("--auto"@);
                assert(args[k] == JsonV::Str("--auto"@));
            }
        }
        if (exists|i: int|
            0 <= i < items.len() && get_str_v(#[trigger] items[i], "host"@) == Some(host) && get_str_v(
                items[i],
                "state"@,
            ) == Some("active"@) && (get_v(items[i], "args"@) matches Some(JsonV::Array(args))
                && args.len() > 0 && args[0] == JsonV::Str("agent"@) && ((exists|k: int|
                0 <= k && k + 1 < args.len() && #[trigger] args[k] == JsonV::Str("--target"@) && args[k
                    + 1] == JsonV::Str(host)) || (exists|k: int|
                0 <= k < args.len() && #[trigger] args[k] == JsonV::Str("--auto"@)))) && get_str_v(
                items[i],
                "program"@,
            ) == Some(p) && p.len() > 0 && p[0] == '/' && forall|k: int|
                0 <= k < p.len() ==> !is_space_char(#[trigger] p[k])) {
            let i = choose|i: int|
                0 <= i < items.len() && get_str_v(#[trigger] items[i], "host"@) == Some(host) && get_str_v(
                    items[i],
                    "state"@,
                ) == Some("active"@) && (get_v(items[i], "args"@) matches Some(JsonV::Array(args))
                    && args.len() > 0 && args[0] == JsonV::Str("agent"@) && ((exists|k: int|
                    0 <= k && k + 1 < args.len() && #[trigger] args[k] == JsonV::Str("--target"@) && args[k
                        + 1] == JsonV::Str(host)) || (exists|k: int|
                    0 <= k < args.len() && #[trigger] args[k] == JsonV::Str("--auto"@)))) && get_str_v(
                    items[i],
                    "program"@,
                ) == Some(p) && p.len() > 0 && p[0] == '/' && forall|k: int|
                    0 <= k < p.len() ==> !is_space_char(#[trigger] p[k]);
            let args = get_v(items[i], "args"@).unwrap()->Array_0;
            if exists|k: int|
                0 <= k && k + 1 < args.len() && #[trigger] args[k] == JsonV::Str("--target"@) && args[k
                    + 1] == JsonV::Str(host) {
                let k = choose|k: int|
                    0 <= k && k + 1 < args.len() && #[trigger] args[k] == JsonV::Str("--target"@)
                        && args[k + 1] == JsonV::Str(host);
                assert(str_v(args[k]) == Some("--target"@));
            } else {
                let k = choose|k: int| 0 <= k < args.len() && #[trigger] args[k] == JsonV::Str("--auto"@);
                assert(str_v(args[k]) == Some("--auto"@));
            }
            assert(declares_program_at(items, host, i, p));
        }
    }
}

pub fn worker_agent_program_retry_diagnostic(message: &str) -> (r: Option<Json>)
    ensures
        match r {
            Some(j) => retry_diagnostic_spec(message@) == Some(j@),
            None => retry_diagnostic_spec(message@) is None,
        },
{
    broadcast use group_json_view;

    let m = chars_of(message);
    let marker = chars_of("worker_agent_program_unstable:");
    if crate::text::find_from_exec(&m, &marker, 0).is_none() {
        return None;
    }
    let count: Option<usize> = match split_once_exec(&m, &chars_of("observed_count=")) {
        Some((_, tail)) => match first_word_exec(&tail) {
            Some(w) => parse_usize(&w),
            None => None,
        },
        None => None,
    };
    let count_json = match count {
        Some(n) => Json::UInt(n as u64),
        None => Json::Null,
    };
    let mut fields: Vec<(String, Json)> = Vec::new();
    fields.push(("code".to_string(), jstr("worker_agent_program_unstable")));
    fields.push(("retryable".to_string(), Json::Bool(true)));
    fields.push(("observed_count".to_string(), count_json));
    fields.push(("message".to_string(), jstr(message)));
    let r = jobj(fields);
    assert(view_obj(fields@) =~= seq![
        ("code"@, JsonV::Str("worker_agent_program_unstable"@)),
        ("retryable"@, JsonV::Bool(true)),
        ("observed_count"@, match observed_count_spec(message@) {
            Some(n) => JsonV::UInt(n as u64),
            None => JsonV::Null,
        }),
        ("message"@, JsonV::Str(message@)),
    ]);
    Some(r)
}

// ---------------------------------------------------------------------------
// Reading a host preflight report

/// Whether a document is exactly the array of the given words
/// (`value == json!(words)`).
pub fn json_is_words(j: &Json, words: &[&str]) -> (r: bool)
    ensures
        r == (j@ == strs_v(words_view(words@))),
{
    match j {
        Json::Array(items) => {
            proof {
                crate::json::lemma_view_arr(items@);
            }
            let ghost target = strs_v(words_view(words@));
            let ghost wv = words_view(words@).map_values(|x: Seq<char>| JsonV::Str(x));
            assert(target == JsonV::Array(wv));
            if items.len() != words.len() {
                assert(view_arr(items@).len() != wv.len());
                return false;
            }
            let mut i: usize = 0;
            while i < items.len()
                invariant
                    i <= items@.len(),
                    items@.len() == words@.len(),
                    j@ == JsonV::Array(view_arr(items@)),
                    strs_v(words_view(words@)) == JsonV::Array(wv),
                    wv == words_view(words@).map_values(|x: Seq<char>| JsonV::Str(x)),
                    view_arr(items@).len() == items@.len(),
                    forall|k: int| 0 <= k < items@.len() ==> #[trigger] view_arr(items@)[k] == items@[k]@,
                    forall|k: int| 0 <= k < i ==> #[trigger] view_arr(items@)[k] == wv[k],
                decreases items.len() - i,
            {
                let same = match items[i].as_str() {
                    Some(s) => crate::text::str_eq(s, words[i]),
                    None => false,
                };
                if !same {
                    assert(view_arr(items@)[i as int] != wv[i as int]);
                    return false;
                }
                i = i + 1;
            }
            assert(view_arr(items@) =~= wv);
            true
        },
        _ => false,
    }
}

/// The retained check that answered exactly `args`.
pub open spec fn answers(args: Seq<Seq<char>>) -> spec_fn(JsonV) -> bool {
    |c: JsonV| get_v(c, "command"@) == Some(strs_v(args))
}

/// The position of the first retained check of a preflight that answered `args`.
pub open spec fn check_for(report: JsonV, args: Seq<Seq<char>>) -> Option<int> {
    first_index(get_items_v(report, "checks"@), answers(args))
}

fn find_check<'a>(report: &'a Json, args: &[&str]) -> (r: Option<&'a Json>)
    ensures
        match r {
            Some(c) => check_for(report@, words_view(args@)) matches Some(i) && c@ == get_items_v(
                report@,
                "checks"@,
            )[i],
            None => check_for(report@, words_view(args@)) is None,
        },
{
    let checks = report.get_items("checks");
    let ghost items = get_items_v(report@, "checks"@);
    let ghost f = answers(words_view(args@));
    proof {
        crate::json::lemma_view_arr(checks@);
    }
    let mut i: usize = 0;
    while i < checks.len()
        invariant
            i <= checks@.len(),
            items == get_items_v(report@, "checks"@),
            items == view_arr(checks@),
            items.len() == checks@.len(),
            f == answers(words_view(args@)),
            forall|j: int| 0 <= j < checks@.len() ==> #[trigger] items[j] == checks@[j]@,
            forall|j: int| 0 <= j < i ==> !f(#[trigger] items[j]),
        decreases checks.len() - i,
    {
        let hit = match checks[i].get("command") {
            Some(c) => json_is_words(c, args),
            None => false,
        };
        assert(items[i as int] == checks@[i as int]@);
        if hit {
            proof {
                lemma_first_index(items, f, i as int);
            }
            return Some(&checks[i]);
        }
        i = i + 1;
    }
    proof {
        lemma_first_index(items, f, i as int);
    }
    None
}

/// Why a ready probe of the host preflight names no program.
pub enum ProgramError {
    /// The preflight retained no probe of the command.
    NoProbe,
    /// The probe was not ready.
    NotReady,
    /// The ready probe retained no Stado receipt.
    NoReceipt,
    /// The receipt names no usable program.
    Receipt(ReceiptError),
}

pub enum ProgramFailure {
    NoProbe,
    NotReady,
    NoReceipt,
    Receipt(ReceiptFailure),
}

impl ProgramError {
    pub open spec fn failure(&self) -> ProgramFailure {
        match self {
            ProgramError::NoProbe => ProgramFailure::NoProbe,
            ProgramError::NotReady => ProgramFailure::NotReady,
            ProgramError::NoReceipt => ProgramFailure::NoReceipt,
            ProgramError::Receipt(e) => ProgramFailure::Receipt(e.failure()),
        }
    }
}

/// The program word a ready preflight probe of `args` selected on `host`.
pub open spec fn preflight_program_spec(host: Seq<char>, args: Seq<Seq<char>>, report: JsonV) -> Result<
    Seq<char>,
    ProgramFailure,
> {
    match check_for(report, args) {
        None => Err(ProgramFailure::NoProbe),
        Some(i) => {
            let check = get_items_v(report, "checks"@)[i];
            if get_bool_v(check, "ready"@) != Some(true) {
                Err(ProgramFailure::NotReady)
            } else {
                match get_v(check, "stado_receipt"@) {
                    None => Err(ProgramFailure::NoReceipt),
                    Some(receipt) => match executable_word_spec(host, receipt) {
                        Ok(w) => Ok(w),
                        Err(f) => Err(ProgramFailure::Receipt(f)),
                    },
                }
            }
        },
    }
}

/// The shell word for the program that a ready probe of the host preflight
/// selected.
pub fn resolved_program_from_host_preflight(host: &str, arguments: &[&str], host_report: &Json) -> (r:
    Result<String, ProgramError>)
    ensures
        match r {
            Ok(w) => preflight_program_spec(host@, words_view(arguments@), host_report@) == Ok::<
                Seq<char>,
                ProgramFailure,
            >(w@),
            Err(e) => preflight_program_spec(host@, words_view(arguments@), host_report@) == Err::<
                Seq<char>,
                ProgramFailure,
            >(e.failure()),
        },
{
    let check = match find_check(host_report, arguments) {
        Some(c) => c,
        None => return Err(ProgramError::NoProbe),
    };
    match check.get_bool("ready") {
        Some(true) => {},
        _ => return Err(ProgramError::NotReady),
    }
    let receipt = match check.get("stado_receipt") {
        Some(r) => r,
        None => return Err(ProgramError::NoReceipt),
    };
    match executable_word_from_host_receipt(host, receipt) {
        Ok(w) => Ok(w),
        Err(e) => Err(ProgramError::Receipt(e)),
    }
}

/// A character an observed hostname may hold.
pub open spec fn hostname_char(c: char) -> bool {
    crate::text::is_alnum_char(c) || c == '.' || c == '-' || c == '_'
}

/// The host name the preflight's `hostname -f` probe observed: its trimmed,
/// non-empty output made of ASCII letters, digits, `.`, `-` and `_`.
pub open spec fn observed_hostname_spec(report: JsonV) -> Option<Seq<char>> {
    match check_for(report, seq!["hostname"@, "-f"@]) {
        None => None,
        Some(i) => match get_str_v(get_items_v(report, "checks"@)[i], "stdout"@) {
            None => None,
            Some(out) => {
                let t = trim(out);
                if t.len() > 0 && forall|k: int| 0 <= k < t.len() ==> hostname_char(#[trigger] t[k]) {
                    Some(t)
                } else {
                    None
                }
            },
        },
    }
}

/// The exact host name a preflight observed, if it observed one.
pub fn observed_hostname(host_report: &Json) -> (r: Option<String>)
    ensures
        match r {
            Some(h) => observed_hostname_spec(host_report@) == Some(h@),
            None => observed_hostname_spec(host_report@) is None,
        },
{
    let args = ["hostname", "-f"];
    assert(words_view(args@) =~= seq!["hostname"@, "-f"@]);
    let check = match find_check(host_report, &args) {
        Some(c) => c,
        None => return None,
    };
    let out = match check.get_str("stdout") {
        Some(o) => o,
        None => return None,
    };
    let t = trim_chars(&chars_of(out));
    if t.len() == 0 || !all_hostname_chars(&t) {
        return None;
    }
    Some(string_of(&t))
}

fn all_hostname_chars(t: &Vec<char>) -> (r: bool)
    ensures
        r == forall|j: int| 0 <= j < t@.len() ==> hostname_char(#[trigger] t@[j]),
{
    let mut k: usize = 0;
    while k < t.len()
        invariant
            k <= t@.len(),
            forall|j: int| 0 <= j < k ==> hostname_char(#[trigger] t@[j]),
        decreases t.len() - k,
    {
        let c = t[k];
        if !(crate::text::is_alnum(c) || c == '.' || c == '-' || c == '_') {
            assert(!hostname_char(t@[k as int]));
            return false;
        }
        k = k + 1;
    }
    true
}

/// Why a probe's output is not an identity.
pub enum ReadyError {
    /// The probe was not ready; its standard error, when it had one.
    NotReady(Option<String>),
    /// The probe answered with nothing.
    Empty,
}

/// The trimmed output of a ready check.
pub open spec fn ready_output_spec(check: JsonV) -> Option<Seq<char>> {
    if get_bool_v(check, "ready"@) != Some(true) {
        None
    } else {
        let out = match get_str_v(check, "stdout"@) {
            Some(o) => trim(o),
            None => Seq::empty(),
        };
        if out.len() == 0 {
            None
        } else {
            Some(out)
        }
    }
}

/// The trimmed output of a ready check; else why there is none.
pub fn ready_output(check: &Json) -> (r: Result<String, ReadyError>)
    ensures
        match r {
            Ok(o) => ready_output_spec(check@) == Some(o@),
            Err(ReadyError::NotReady(stderr)) => get_bool_v(check@, "ready"@) != Some(true)
                && match stderr {
                Some(e) => get_str_v(check@, "stderr"@) == Some(e@),
                None => get_str_v(check@, "stderr"@) is None,
            },
            Err(ReadyError::Empty) => get_bool_v(check@, "ready"@) == Some(true)
                && ready_output_spec(check@) is None,
        },
{
    match check.get_bool("ready") {
        Some(true) => {},
        _ => {
            let stderr = match check.get_str("stderr") {
                Some(e) => Some(e.to_string()),
                None => None,
            };
            return Err(ReadyError::NotReady(stderr));
        },
    }
    let out = match check.get_str("stdout") {
        Some(o) => trim_chars(&chars_of(o)),
        None => Vec::new(),
    };
    if out.len() == 0 {
        return Err(ReadyError::Empty);
    }
    Ok(string_of(&out))
}

} // verus!

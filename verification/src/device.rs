//! Resolving a record's execution identity from probes taken for it: the one
//! booted iOS simulator or authorized Android device, the installed
//! application's executable, version and digest, and a terminal product's one
//! executable on the host.
use vstd::prelude::*;
use crate::host::{ready_output, ReadyError};
use crate::json::{array_v, get_bool_v, get_str_v, get_v, group_json_view, view_arr, Json, JsonV};
use crate::text::{
    append_chars, chars_of, first_word, first_word_exec, is_hex_char, is_space, is_space_char,
    leading_space, leading_space_exec, lemma_leading_space_le, slice_chars, split_char,
    split_char_exec, starts_with, starts_with_exec, string_of, trim, trim_chars, first_index,
    lemma_first_index,
};

verus! {

// ---------------------------------------------------------------------------
// Lines and words

/// A line without the carriage return of a `\r\n` ending.
pub open spec fn strip_cr(l: Seq<char>) -> Seq<char> {
    if l.len() > 0 && l.last() == '\r' {
        l.drop_last()
    } else {
        l
    }
}

/// `str::lines`: the text split at `\n` or `\r\n`, without an empty last
/// line after a final line ending.
pub open spec fn lines_spec(s: Seq<char>) -> Seq<Seq<char>> {
    let parts = split_char(s, '\n');
    let body = parts.drop_last().map_values(|l: Seq<char>| strip_cr(l));
    if parts.len() == 0 || parts.last().len() == 0 {
        body
    } else {
        body.push(parts.last())
    }
}

pub fn lines(v: &Vec<char>) -> (r: Vec<Vec<char>>)
    ensures
        r@.map_values(|x: Vec<char>| x@) == lines_spec(v@),
{
    let parts = split_char_exec(v, '\n');
    let ghost pv = parts@.map_values(|x: Vec<char>| x@);
    let mut out: Vec<Vec<char>> = Vec::new();
    if parts.len() == 0 {
        assert(out@.map_values(|x: Vec<char>| x@) =~= lines_spec(v@));
        return out;
    }
    let n = parts.len() - 1;
    let mut i: usize = 0;
    while i < n
        invariant
            i <= n,
            n + 1 == parts@.len(),
            pv == parts@.map_values(|x: Vec<char>| x@),
            pv == split_char(v@, '\n'),
            out@.map_values(|x: Vec<char>| x@) == pv.take(i as int).map_values(|l: Seq<char>| strip_cr(l)),
        decreases n - i,
    {
        let line = &parts[i];
        let stripped = if line.len() > 0 && line[line.len() - 1] == '\r' {
            slice_chars(line, 0, line.len() - 1)
        } else {
            line.clone()
        };
        assert(stripped@ =~= strip_cr(pv[i as int]));
        let ghost before = out@;
        out.push(stripped);
        assert(out@.map_values(|x: Vec<char>| x@) =~= before.map_values(|x: Vec<char>| x@).push(strip_cr(pv[i as int])));
        assert(pv.take(i + 1) =~= pv.take(i as int).push(pv[i as int]));
        assert(out@.map_values(|x: Vec<char>| x@) =~= pv.take(i + 1).map_values(|l: Seq<char>| strip_cr(l)));
        i = i + 1;
    }
    assert(pv.take(n as int) =~= pv.drop_last());
    if parts[n].len() > 0 {
        out.push(parts[n].clone());
        assert(out@.map_values(|x: Vec<char>| x@) =~= lines_spec(v@));
    } else {
        assert(out@.map_values(|x: Vec<char>| x@) =~= lines_spec(v@));
    }
    out
}

/// The second whitespace-separated word.
pub open spec fn second_word(s: Seq<char>) -> Option<Seq<char>> {
    match first_word(s) {
        Some(w) => first_word(s.skip((leading_space(s) + w.len()) as int)),
        None => None,
    }
}

fn first_two_words(v: &Vec<char>) -> (r: Option<(Vec<char>, Vec<char>)>)
    ensures
        match r {
            Some((a, b)) => first_word(v@) == Some(a@) && second_word(v@) == Some(b@),
            None => first_word(v@) is None || second_word(v@) is None,
        },
{
    let first = match first_word_exec(v) {
        Some(w) => w,
        None => return None,
    };
    let lead = leading_space_exec(v);
    proof {
        lemma_first_word_fits(v@);
    }
    assert(leading_space(v@) + first@.len() <= v@.len());
    let n = v.len();
    let end = lead + first.len();
    let rest = slice_chars(v, end, n);
    assert(rest@ =~= v@.skip((leading_space(v@) + first@.len()) as int));
    match first_word_exec(&rest) {
        Some(second) => Some((first, second)),
        None => None,
    }
}

proof fn lemma_first_word_fits(s: Seq<char>)
    ensures
        first_word(s) matches Some(w) ==> leading_space(s) + w.len() <= s.len(),
{
    lemma_leading_space_le(s);
    let t = s.skip(leading_space(s) as int);
    if t.len() > 0 {
        crate::text::lemma_first_where(t, |c: char| is_space_char(c));
    }
}

// ---------------------------------------------------------------------------
// The Android device

/// The serial of an `adb devices -l` line whose state is `device`.
pub open spec fn device_serial(line: Seq<char>) -> Option<Seq<char>> {
    match (first_word(line), second_word(line)) {
        (Some(serial), Some(state)) => if state == "device"@ {
            Some(serial)
        } else {
            None
        },
        _ => None,
    }
}

pub open spec fn serials_of(lines: Seq<Seq<char>>) -> Seq<Seq<char>>
    decreases lines.len(),
{
    if lines.len() == 0 {
        Seq::empty()
    } else {
        let before = serials_of(lines.drop_last());
        match device_serial(lines.last()) {
            Some(s) => before.push(s),
            None => before,
        }
    }
}

/// The authorized devices `adb devices -l` lists.
pub open spec fn android_serials(stdout: Seq<char>) -> Seq<Seq<char>> {
    serials_of(lines_spec(stdout))
}

pub fn authorized_android_devices(stdout: &str) -> (r: Vec<String>)
    ensures
        r@.map_values(|x: String| x@) == android_serials(stdout@),
{
    let all = lines(&chars_of(stdout));
    let ghost lv = all@.map_values(|x: Vec<char>| x@);
    let mut out: Vec<String> = Vec::new();
    let mut i: usize = 0;
    while i < all.len()
        invariant
            i <= all@.len(),
            lv == all@.map_values(|x: Vec<char>| x@),
            lv == lines_spec(stdout@),
            out@.map_values(|x: String| x@) == serials_of(lv.take(i as int)),
        decreases all.len() - i,
    {
        assert(lv.take(i + 1).drop_last() =~= lv.take(i as int));
        assert(lv.take(i + 1).last() == all@[i as int]@);
        let ghost before = out@;
        match first_two_words(&all[i]) {
            Some((serial, state)) => {
                if state.len() == 6 && state[0] == 'd' && state[1] == 'e' && state[2] == 'v'
                    && state[3] == 'i' && state[4] == 'c' && state[5] == 'e' {
                    proof {
                        reveal_strlit("device");
                        assert(state@ =~= "device"@);
                    }
                    out.push(string_of(&serial));
                    assert(out@.map_values(|x: String| x@) =~= before.map_values(|x: String| x@).push(serial@));
                } else {
                    proof {
                        reveal_strlit("device");
                        assert(state@ != "device"@) by {
                            if state@ == "device"@ {
                                assert(state@[0] == 'd');
                            }
                        }
                    }
                }
            },
            None => {},
        }
        i = i + 1;
    }
    assert(lv.take(all@.len() as int) =~= lv);
    out
}

// ---------------------------------------------------------------------------
// The iOS simulator

/// A device the simulator list reports booted and not unavailable.
pub open spec fn booted(d: JsonV) -> bool {
    get_str_v(d, "state"@) == Some("Booted"@) && match get_bool_v(d, "isAvailable"@) {
        Some(b) => b,
        None => true,
    }
}

pub open spec fn booted_of(items: Seq<JsonV>) -> Seq<JsonV>
    decreases items.len(),
{
    if items.len() == 0 {
        Seq::empty()
    } else {
        let before = booted_of(items.drop_last());
        if booted(items.last()) {
            before.push(items.last())
        } else {
            before
        }
    }
}

pub open spec fn booted_in_runtimes(runtimes: Seq<(Seq<char>, JsonV)>) -> Seq<JsonV>
    decreases runtimes.len(),
{
    if runtimes.len() == 0 {
        Seq::empty()
    } else {
        booted_in_runtimes(runtimes.drop_last()) + match array_v(runtimes.last().1) {
            Some(items) => booted_of(items),
            None => Seq::empty(),
        }
    }
}

/// The booted available devices of `xcrun simctl list devices booted --json`,
/// runtime by runtime.
pub open spec fn booted_devices_spec(document: JsonV) -> Seq<JsonV> {
    match get_v(document, "devices"@) {
        Some(JsonV::Object(runtimes)) => booted_in_runtimes(runtimes),
        _ => Seq::empty(),
    }
}

fn booted_items(items: &Vec<Json>, out: &mut Vec<Json>)
    ensures
        view_arr(final(out)@) == view_arr(old(out)@) + booted_of(view_arr(items@)),
{
    broadcast use group_json_view;

    proof {
        crate::json::lemma_view_arr(items@);
        crate::json::lemma_view_arr(old(out)@);
    }
    let ghost v = view_arr(items@);
    let ghost start = view_arr(out@);
    let mut i: usize = 0;
    while i < items.len()
        invariant
            i <= items@.len(),
            v == view_arr(items@),
            v.len() == items@.len(),
            forall|j: int| 0 <= j < items@.len() ==> #[trigger] v[j] == items@[j]@,
            view_arr(out@) == start + booted_of(v.take(i as int)),
        decreases items.len() - i,
    {
        assert(v.take(i + 1).drop_last() =~= v.take(i as int));
        assert(v.take(i + 1).last() == items@[i as int]@);
        let d = &items[i];
        let on = match d.get_str("state") {
            Some(s) => crate::text::str_eq(s, "Booted"),
            None => false,
        };
        let available = match d.get_bool("isAvailable") {
            Some(b) => b,
            None => true,
        };
        if on && available {
            let ghost before = out@;
            out.push(d.duplicate());
            proof {
                crate::json::lemma_view_arr(out@);
                crate::json::lemma_view_arr(before);
                assert(view_arr(out@) =~= view_arr(before).push(d@));
            }
            assert(view_arr(out@) =~= start + booted_of(v.take(i + 1)));
        }
        i = i + 1;
    }
    assert(v.take(items@.len() as int) =~= v);
}

/// The booted available iOS devices a simulator report lists.
pub fn booted_ios_devices(document: &Json) -> (r: Vec<Json>)
    ensures
        view_arr(r@) == booted_devices_spec(document@),
{
    broadcast use group_json_view;

    let mut out: Vec<Json> = Vec::new();
    proof {
        crate::json::lemma_view_arr(out@);
    }
    assert(view_arr(out@) =~= Seq::empty());
    match document.get("devices") {
        Some(Json::Object(runtimes)) => {
            let ghost rv = crate::json::view_obj(runtimes@);
            proof {
                crate::json::lemma_view_obj(runtimes@);
            }
            let mut i: usize = 0;
            while i < runtimes.len()
                invariant
                    i <= runtimes@.len(),
                    rv == crate::json::view_obj(runtimes@),
                    rv.len() == runtimes@.len(),
                    forall|j: int|
                        0 <= j < runtimes@.len() ==> #[trigger] rv[j] == (runtimes@[j].0@, runtimes@[j].1@),
                    view_arr(out@) == booted_in_runtimes(rv.take(i as int)),
                decreases runtimes.len() - i,
            {
                assert(rv.take(i + 1).drop_last() =~= rv.take(i as int));
                assert(rv.take(i + 1).last() == rv[i as int]);
                match runtimes[i].1.as_array() {
                    Some(items) => booted_items(items, &mut out),
                    None => {
                        assert(view_arr(out@) =~= booted_in_runtimes(rv.take(i as int)) + Seq::empty());
                    },
                }
                i = i + 1;
            }
            assert(rv.take(runtimes@.len() as int) =~= rv);
        },
        _ => {},
    }
    out
}

// ---------------------------------------------------------------------------
// The device of a record

/// Why a record's device or executable could not be resolved.
pub enum DeviceError {
    /// The probe gave no usable output.
    Probe(ReadyError),
    /// Not exactly one device answered; how many did.
    Count(usize),
    /// The one booted iOS device has no UDID.
    NoUdid,
    /// The iOS application container is not an `.app` bundle.
    NotAppBundle,
    /// The installed iOS executable's name holds a `/` or whitespace.
    InvalidExecutableName,
    /// The digest probe did not print a SHA-256.
    InvalidDigest,
    /// `pm path` named no base package.
    NoPackagePath,
    /// The package reports no version name.
    NoVersionName,
}

/// The one authorized Android device a fresh `adb devices -l` probe lists.
pub fn android_device(check: &Json) -> (r: Result<String, DeviceError>)
    ensures
        match crate::host::ready_output_spec(check@) {
            None => r matches Err(DeviceError::Probe(_)),
            Some(out) => {
                let serials = android_serials(out);
                if serials.len() == 1 {
                    r matches Ok(s) && s@ == serials[0]
                } else {
                    r matches Err(DeviceError::Count(n)) && n == serials.len()
                }
            },
        },
{
    let stdout = match ready_output(check) {
        Ok(o) => o,
        Err(e) => return Err(DeviceError::Probe(e)),
    };
    let mut serials = authorized_android_devices(stdout.as_str());
    assert(serials@.map_values(|x: String| x@).len() == serials@.len());
    if serials.len() != 1 {
        return Err(DeviceError::Count(serials.len()));
    }
    assert(serials@[0]@ == android_serials(stdout@)[0]);
    Ok(serials.remove(0))
}

/// The one booted available iOS simulator of a report, as its UDID and name.
pub fn ios_booted_device(document: &Json) -> (r: Result<(String, Option<String>), DeviceError>)
    ensures
        ({
            let devices = booted_devices_spec(document@);
            if devices.len() != 1 {
                r matches Err(DeviceError::Count(n)) && n == devices.len()
            } else {
                match get_str_v(devices[0], "udid"@) {
                    None => r matches Err(DeviceError::NoUdid),
                    Some(udid) => r matches Ok((u, name)) && u@ == udid && match name {
                        Some(n) => get_str_v(devices[0], "name"@) == Some(n@),
                        None => get_str_v(devices[0], "name"@) is None,
                    },
                }
            }
        }),
{
    broadcast use group_json_view;

    let devices = booted_ios_devices(document);
    proof {
        crate::json::lemma_view_arr(devices@);
    }
    if devices.len() != 1 {
        return Err(DeviceError::Count(devices.len()));
    }
    let d = &devices[0];
    assert(view_arr(devices@)[0] == d@);
    let udid = match d.get_str("udid") {
        Some(u) => String::from_str(u),
        None => return Err(DeviceError::NoUdid),
    };
    let name = match d.get_str("name") {
        Some(n) => Some(String::from_str(n)),
        None => None,
    };
    Ok((udid, name))
}

// ---------------------------------------------------------------------------
// The installed product

/// The first word of a digest probe's output when it is a SHA-256 in
/// hexadecimal (either case).
/// A SHA-256 in hexadecimal, in either case.
pub open spec fn hex_digest(w: Seq<char>) -> bool {
    w.len() == 64 && forall|i: int| 0 <= i < 64 ==> is_hex_char(#[trigger] w[i])
}

/// `s.split_whitespace().next().unwrap_or_default()`.
pub open spec fn first_word_or_empty(s: Seq<char>) -> Seq<char> {
    match first_word(s) {
        Some(w) => w,
        None => Seq::empty(),
    }
}

/// The first word of a digest probe's output when it is a SHA-256 in
/// hexadecimal.
pub open spec fn digest_word_spec(output: Seq<char>) -> Option<Seq<char>> {
    if hex_digest(first_word_or_empty(output)) {
        Some(first_word_or_empty(output))
    } else {
        None
    }
}

/// Whether a text is a SHA-256 in hexadecimal.
pub fn is_hex_digest(s: &str) -> (r: bool)
    ensures
        r == hex_digest(s@),
{
    let v = chars_of(s);
    if v.len() != 64 {
        return false;
    }
    let mut i: usize = 0;
    while i < 64
        invariant
            i <= 64,
            v@ == s@,
            v@.len() == 64,
            forall|j: int| 0 <= j < i ==> crate::text::is_hex_char(#[trigger] v@[j]),
        decreases 64 - i,
    {
        let c = v[i];
        if !(('0' <= c && c <= '9') || ('a' <= c && c <= 'f') || ('A' <= c && c <= 'F')) {
            assert(!crate::text::is_hex_char(v@[i as int]));
            return false;
        }
        i = i + 1;
    }
    true
}

pub fn digest_word(output: &str) -> (r: Option<String>)
    ensures
        match r {
            Some(d) => digest_word_spec(output@) == Some(d@),
            None => digest_word_spec(output@) is None,
        },
{
    let cv = chars_of(output);
    let w = match first_word_exec(&cv) {
        Some(w) => string_of(&w),
        None => String::new(),
    };
    assert(w@ == first_word_or_empty(output@));
    if is_hex_digest(w.as_str()) {
        Some(w)
    } else {
        None
    }
}

/// Whether an installed iOS executable's name can be joined to its bundle:
/// no `/` and no whitespace.
pub open spec fn executable_name_ok(name: Seq<char>) -> bool {
    forall|i: int| 0 <= i < name.len() ==> #[trigger] name[i] != '/' && !is_space_char(name[i])
}

pub fn is_executable_name(name: &str) -> (r: bool)
    ensures
        r == executable_name_ok(name@),
{
    let v = chars_of(name);
    let mut i: usize = 0;
    while i < v.len()
        invariant
            i <= v@.len(),
            v@ == name@,
            forall|j: int| 0 <= j < i ==> #[trigger] v@[j] != '/' && !is_space_char(v@[j]),
        decreases v.len() - i,
    {
        if v[i] == '/' || is_space(v[i]) {
            return false;
        }
        i = i + 1;
    }
    true
}

/// The value after `prefix` on the first line that starts with it once
/// trimmed.
pub open spec fn tagged_value(lines: Seq<Seq<char>>, prefix: Seq<char>) -> Option<Seq<char>>
    decreases lines.len(),
{
    if lines.len() == 0 {
        None
    } else if starts_with(trim(lines[0]), prefix) {
        Some(trim(lines[0]).skip(prefix.len() as int))
    } else {
        tagged_value(lines.drop_first(), prefix)
    }
}

fn tagged_value_exec(output: &str, prefix: &str) -> (r: Option<String>)
    ensures
        match r {
            Some(v) => tagged_value(lines_spec(output@), prefix@) == Some(v@),
            None => tagged_value(lines_spec(output@), prefix@) is None,
        },
{
    let all = lines(&chars_of(output));
    let ghost lv = all@.map_values(|x: Vec<char>| x@);
    let p = chars_of(prefix);
    assert(lv.skip(0) =~= lv);
    let mut i: usize = 0;
    while i < all.len()
        invariant
            i <= all@.len(),
            lv == all@.map_values(|x: Vec<char>| x@),
            lv == lines_spec(output@),
            p@ == prefix@,
            tagged_value(lv, prefix@) == tagged_value(lv.skip(i as int), prefix@),
        decreases all.len() - i,
    {
        let t = trim_chars(&all[i]);
        assert(lv.skip(i as int)[0] == all@[i as int]@);
        assert(lv.skip(i as int).drop_first() =~= lv.skip(i + 1));
        if starts_with_exec(&t, &p) {
            let rest = slice_chars(&t, p.len(), t.len());
            assert(rest@ =~= t@.skip(prefix@.len() as int));
            return Some(string_of(&rest));
        }
        i = i + 1;
    }
    None
}

/// The base package path `pm path` reports for an Android package.
pub fn android_package_path(output: &str) -> (r: Option<String>)
    ensures
        match r {
            Some(v) => tagged_value(lines_spec(output@), "package:"@) == Some(v@),
            None => tagged_value(lines_spec(output@), "package:"@) is None,
        },
{
    tagged_value_exec(output, "package:")
}

/// The `versionName` `dumpsys package` reports, when it is not empty.
pub fn android_version_name(output: &str) -> (r: Option<String>)
    ensures
        match tagged_value(lines_spec(output@), "versionName="@) {
            Some(v) => if v.len() > 0 {
                r matches Some(x) && x@ == v
            } else {
                r is None
            },
            None => r is None,
        },
{
    match tagged_value_exec(output, "versionName=") {
        Some(v) => if v.as_str().unicode_len() > 0 {
            Some(v)
        } else {
            None
        },
        None => None,
    }
}

// ---------------------------------------------------------------------------
// A terminal product's executable

pub open spec fn stdout_of(c: JsonV) -> Seq<char> {
    match get_str_v(c, "stdout"@) {
        Some(o) => o,
        None => Seq::empty(),
    }
}

/// An absolute path without whitespace.
pub open spec fn usable_path(p: Seq<char>) -> bool {
    p.len() > 0 && p[0] == '/' && forall|i: int| 0 <= i < p.len() ==> !is_space_char(#[trigger] p[i])
}

/// Whether one of the first `k` lines, trimmed, is `p`.
pub open spec fn line_in(lines: Seq<Seq<char>>, k: int, p: Seq<char>) -> bool {
    exists|m: int| 0 <= m < k && trim(#[trigger] lines[m]) == p
}

/// Whether a ready `which` probe printed `p` on a line of its own.
pub open spec fn path_from(c: JsonV, p: Seq<char>) -> bool {
    &&& get_bool_v(c, "ready"@) == Some(true)
    &&& usable_path(p)
    &&& line_in(lines_spec(stdout_of(c)), lines_spec(stdout_of(c)).len() as int, p)
}

/// Whether one of the first `i` probes resolved `p`.
pub open spec fn seen_in(checks: Seq<JsonV>, i: int, p: Seq<char>) -> bool {
    exists|j: int| 0 <= j < i && path_from(#[trigger] checks[j], p)
}

/// Whether any of the probes resolved `p`.
pub open spec fn resolved_path(checks: Seq<JsonV>, p: Seq<char>) -> bool {
    seen_in(checks, checks.len() as int, p)
}

proof fn lemma_line_in_step(lines: Seq<Seq<char>>, k: int, p: Seq<char>)
    requires
        0 <= k < lines.len(),
    ensures
        line_in(lines, k + 1, p) <==> (line_in(lines, k, p) || trim(lines[k]) == p),
{
    if line_in(lines, k + 1, p) {
        let m = choose|m: int| 0 <= m < k + 1 && trim(#[trigger] lines[m]) == p;
        if m < k {
            assert(line_in(lines, k, p));
        }
    }
}

proof fn lemma_seen_step(checks: Seq<JsonV>, i: int, p: Seq<char>)
    requires
        0 <= i < checks.len(),
    ensures
        seen_in(checks, i + 1, p) <==> (seen_in(checks, i, p) || path_from(checks[i], p)),
{
    if seen_in(checks, i + 1, p) {
        let j = choose|j: int| 0 <= j < i + 1 && path_from(#[trigger] checks[j], p);
        if j < i {
            assert(seen_in(checks, i, p));
        }
    }
}

fn is_usable_path(t: &Vec<char>) -> (r: bool)
    ensures
        r == usable_path(t@),
{
    t.len() > 0 && t[0] == '/' && !crate::text::has_space(t)
}

/// The distinct executables the `which` probes of a terminal product's
/// candidates resolved, in order and each once.
pub fn resolved_executables(checks: &Vec<Json>) -> (r: Vec<String>)
    ensures
        crate::text::strictly_sorted(crate::text::string_views(r@)),
        forall|p: Seq<char>|
            crate::text::string_views(r@).contains(p) <==> resolved_path(view_arr(checks@), p),
{
    broadcast use group_json_view;

    proof {
        crate::json::lemma_view_arr(checks@);
    }
    let ghost v = view_arr(checks@);
    let mut out: Vec<String> = Vec::new();
    assert(crate::text::string_views(out@) =~= Seq::empty());
    let mut i: usize = 0;
    while i < checks.len()
        invariant
            i <= checks@.len(),
            v == view_arr(checks@),
            v.len() == checks@.len(),
            forall|j: int| 0 <= j < checks@.len() ==> #[trigger] v[j] == checks@[j]@,
            crate::text::strictly_sorted(crate::text::string_views(out@)),
            forall|p: Seq<char>|
                #[trigger] crate::text::string_views(out@).contains(p) <==> seen_in(v, i as int, p),
        decreases checks.len() - i,
    {
        let c = &checks[i];
        assert(v[i as int] == c@);
        if c.get_bool("ready") == Some(true) {
            let stdout = match c.get_str("stdout") {
                Some(o) => chars_of(o),
                None => Vec::new(),
            };
            assert(stdout@ == stdout_of(c@));
            let all = lines(&stdout);
            let ghost lv = all@.map_values(|x: Vec<char>| x@);
            let mut k: usize = 0;
            while k < all.len()
                invariant
                    k <= all@.len(),
                    i < checks@.len(),
                    v == view_arr(checks@),
                    v[i as int] == c@,
                    get_bool_v(c@, "ready"@) == Some(true),
                    lv == all@.map_values(|x: Vec<char>| x@),
                    lv == lines_spec(stdout_of(c@)),
                    crate::text::strictly_sorted(crate::text::string_views(out@)),
                    forall|p: Seq<char>|
                        #[trigger] crate::text::string_views(out@).contains(p) <==> (seen_in(v, i as int, p)
                            || (usable_path(p) && line_in(lv, k as int, p))),
                decreases all.len() - k,
            {
                let t = trim_chars(&all[k]);
                assert(lv[k as int] == all@[k as int]@);
                assert(trim(lv[k as int]) == t@);
                let usable = is_usable_path(&t);
                if usable {
                    crate::text::insert_sorted(&mut out, string_of(&t));
                }
                assert forall|p: Seq<char>|
                    #[trigger] crate::text::string_views(out@).contains(p) <==> (seen_in(v, i as int, p)
                        || (usable_path(p) && line_in(lv, k + 1, p))) by {
                    lemma_line_in_step(lv, k as int, p);
                }
                k = k + 1;
            }
            assert forall|p: Seq<char>|
                #[trigger] crate::text::string_views(out@).contains(p) <==> seen_in(v, i + 1, p) by {
                lemma_seen_step(v, i as int, p);
            }
        } else {
            assert forall|p: Seq<char>|
                #[trigger] crate::text::string_views(out@).contains(p) <==> seen_in(v, i + 1, p) by {
                lemma_seen_step(v, i as int, p);
            }
        }
        i = i + 1;
    }
    out
}

// ---------------------------------------------------------------------------
// Probe answers read one by one

/// The lowercase SHA-256 a digest probe printed.
pub fn installed_digest(check: &Json) -> (r: Result<String, DeviceError>)
    ensures
        match crate::host::ready_output_spec(check@) {
            None => r matches Err(DeviceError::Probe(_)),
            Some(out) => match digest_word_spec(out) {
                Some(d) => r matches Ok(x) && x@ == crate::text::lower_seq(d),
                None => r matches Err(DeviceError::InvalidDigest),
            },
        },
{
    let out = match ready_output(check) {
        Ok(o) => o,
        Err(e) => return Err(DeviceError::Probe(e)),
    };
    match digest_word(out.as_str()) {
        Some(d) => Ok(string_of(&crate::text::lower_chars(&chars_of(d.as_str())))),
        None => Err(DeviceError::InvalidDigest),
    }
}

/// The application bundle an iOS install probe resolved.
pub fn ios_app_bundle(install_check: &Json) -> (r: Result<String, DeviceError>)
    ensures
        match crate::host::ready_output_spec(install_check@) {
            None => r matches Err(DeviceError::Probe(_)),
            Some(out) => if crate::text::ends_with(out, ".app"@) {
                r matches Ok(x) && x@ == out
            } else {
                r matches Err(DeviceError::NotAppBundle)
            },
        },
{
    let out = match ready_output(install_check) {
        Ok(o) => o,
        Err(e) => return Err(DeviceError::Probe(e)),
    };
    if crate::text::ends_with_exec(&chars_of(out.as_str()), &chars_of(".app")) {
        Ok(out)
    } else {
        Err(DeviceError::NotAppBundle)
    }
}

/// The executable inside an iOS bundle, from the probe of its
/// `CFBundleExecutable`.
pub fn ios_executable_path(app_path: &str, name_check: &Json) -> (r: Result<String, DeviceError>)
    ensures
        match crate::host::ready_output_spec(name_check@) {
            None => r matches Err(DeviceError::Probe(_)),
            Some(name) => if executable_name_ok(name) {
                r matches Ok(x) && x@ == app_path@ + "/"@ + name
            } else {
                r matches Err(DeviceError::InvalidExecutableName)
            },
        },
{
    let name = match ready_output(name_check) {
        Ok(o) => o,
        Err(e) => return Err(DeviceError::Probe(e)),
    };
    if !is_executable_name(name.as_str()) {
        return Err(DeviceError::InvalidExecutableName);
    }
    proof {
        reveal_strlit("/");
    }
    let mut path = chars_of(app_path);
    path.push('/');
    append_chars(&mut path, &chars_of(name.as_str()));
    assert(path@ =~= app_path@ + "/"@ + name@);
    Ok(string_of(&path))
}

/// The base package an Android `pm path` probe resolved.
pub fn android_package(install_check: &Json) -> (r: Result<String, DeviceError>)
    ensures
        match crate::host::ready_output_spec(install_check@) {
            None => r matches Err(DeviceError::Probe(_)),
            Some(out) => match tagged_value(lines_spec(out), "package:"@) {
                Some(p) => r matches Ok(x) && x@ == p,
                None => r matches Err(DeviceError::NoPackagePath),
            },
        },
{
    let out = match ready_output(install_check) {
        Ok(o) => o,
        Err(e) => return Err(DeviceError::Probe(e)),
    };
    match android_package_path(out.as_str()) {
        Some(p) => Ok(p),
        None => Err(DeviceError::NoPackagePath),
    }
}

/// The installed version an Android `dumpsys package` probe reports.
pub fn android_version(version_check: &Json) -> (r: Result<String, DeviceError>)
    ensures
        match crate::host::ready_output_spec(version_check@) {
            None => r matches Err(DeviceError::Probe(_)),
            Some(out) => match tagged_value(lines_spec(out), "versionName="@) {
                Some(v) => if v.len() > 0 {
                    r matches Ok(x) && x@ == v
                } else {
                    r matches Err(DeviceError::NoVersionName)
                },
                None => r matches Err(DeviceError::NoVersionName),
            },
        },
{
    let out = match ready_output(version_check) {
        Ok(o) => o,
        Err(e) => return Err(DeviceError::Probe(e)),
    };
    match android_version_name(out.as_str()) {
        Some(v) => Ok(v),
        None => Err(DeviceError::NoVersionName),
    }
}

// ---------------------------------------------------------------------------
// A terminal product's identity

/// A terminal product resolved to its executable: the product kind, the
/// executable's lowercase digest, and where that identity came from.
pub struct TerminalResolution {
    pub kind: String,
    pub sha256: String,
    pub identity_source: String,
}

pub open spec fn terminal_kind_spec(engine: Seq<char>) -> Seq<char> {
    if engine == "tui"@ {
        "tui-binary"@
    } else {
        "cli-binary"@
    }
}

pub open spec fn terminal_source_spec(path: Seq<char>, digest: Seq<char>) -> Seq<char> {
    "typed isolated host path resolution: "@ + path + "; sha256="@ + digest
}

/// Resolve a terminal product from its one executable and the probe that
/// hashed it.
pub fn terminal_resolution(engine: &str, path: &str, digest_check: &Json) -> (r: Result<
    TerminalResolution,
    DeviceError,
>)
    ensures
        match crate::host::ready_output_spec(digest_check@) {
            None => r matches Err(DeviceError::Probe(_)),
            Some(out) => match digest_word_spec(out) {
                Some(d) => r matches Ok(t) && t.kind@ == terminal_kind_spec(engine@) && t.sha256@
                    == crate::text::lower_seq(d) && t.identity_source@ == terminal_source_spec(path@, d),
                None => r matches Err(DeviceError::InvalidDigest),
            },
        },
{
    let out = match ready_output(digest_check) {
        Ok(o) => o,
        Err(e) => return Err(DeviceError::Probe(e)),
    };
    let digest = match digest_word(out.as_str()) {
        Some(d) => d,
        None => return Err(DeviceError::InvalidDigest),
    };
    let kind = if crate::text::str_eq(engine, "tui") {
        String::from_str("tui-binary")
    } else {
        String::from_str("cli-binary")
    };
    let mut source = chars_of("typed isolated host path resolution: ");
    append_chars(&mut source, &chars_of(path));
    append_chars(&mut source, &chars_of("; sha256="));
    append_chars(&mut source, &chars_of(digest.as_str()));
    assert(source@ =~= terminal_source_spec(path@, digest@));
    Ok(
        TerminalResolution {
            kind,
            sha256: string_of(&crate::text::lower_chars(&chars_of(digest.as_str()))),
            identity_source: string_of(&source),
        },
    )
}

// ---------------------------------------------------------------------------
// A desktop application bundle

/// The Spotlight query for an application bundle by its exact display name,
/// single quotes escaped with a backslash.
pub open spec fn display_name_query_spec(identifier: Seq<char>) -> Seq<char> {
    "kMDItemDisplayName == '"@ + crate::text::replace_all(identifier, "'"@, "\\'"@)
        + "' && kMDItemContentType == 'com.apple.application-bundle'"@
}

pub fn display_name_query(identifier: &str) -> (r: String)
    ensures
        r@ == display_name_query_spec(identifier@),
{
    proof {
        reveal_strlit("'");
    }
    let quote = chars_of("'");
    let escaped = crate::text::replace_exec(&chars_of(identifier), &quote, &chars_of("\\'"));
    let mut q = chars_of("kMDItemDisplayName == '");
    append_chars(&mut q, &escaped);
    append_chars(&mut q, &chars_of("' && kMDItemContentType == 'com.apple.application-bundle'"));
    assert(q@ =~= display_name_query_spec(identifier@));
    string_of(&q)
}

/// The application bundles a Spotlight search printed: its trimmed lines
/// that end in `.app`.
pub open spec fn bundle_paths_of(lines: Seq<Seq<char>>) -> Seq<Seq<char>>
    decreases lines.len(),
{
    if lines.len() == 0 {
        Seq::empty()
    } else {
        let before = bundle_paths_of(lines.drop_last());
        let t = trim(lines.last());
        if crate::text::ends_with(t, ".app"@) {
            before.push(t)
        } else {
            before
        }
    }
}

pub fn bundle_paths(output: &str) -> (r: Vec<String>)
    ensures
        r@.map_values(|x: String| x@) == bundle_paths_of(lines_spec(output@)),
{
    let all = lines(&chars_of(output));
    let ghost lv = all@.map_values(|x: Vec<char>| x@);
    let suffix = chars_of(".app");
    let mut out: Vec<String> = Vec::new();
    let mut i: usize = 0;
    while i < all.len()
        invariant
            i <= all@.len(),
            lv == all@.map_values(|x: Vec<char>| x@),
            lv == lines_spec(output@),
            suffix@ == ".app"@,
            out@.map_values(|x: String| x@) == bundle_paths_of(lv.take(i as int)),
        decreases all.len() - i,
    {
        assert(lv.take(i + 1).drop_last() =~= lv.take(i as int));
        assert(lv.take(i + 1).last() == all@[i as int]@);
        let t = trim_chars(&all[i]);
        if crate::text::ends_with_exec(&t, &suffix) {
            let ghost before = out@.map_values(|x: String| x@);
            out.push(string_of(&t));
            assert(out@.map_values(|x: String| x@) =~= before.push(t@));
        }
        i = i + 1;
    }
    assert(lv.take(all@.len() as int) =~= lv);
    out
}

/// A bundle identifier the metadata probe really found: not `(null)` and
/// without whitespace.
pub open spec fn bundle_identifier_ok(bundle: Seq<char>) -> bool {
    bundle != "(null)"@ && forall|i: int| 0 <= i < bundle.len() ==> !is_space_char(#[trigger] bundle[i])
}

pub fn is_bundle_identifier(bundle: &str) -> (r: bool)
    ensures
        r == bundle_identifier_ok(bundle@),
{
    !crate::text::str_eq(bundle, "(null)") && !crate::text::has_space(&chars_of(bundle))
}

/// Where a desktop bundle keeps its Info.plist and, by name, its executable.
pub open spec fn desktop_paths_spec(app_path: Seq<char>, executable: Seq<char>) -> (Seq<char>, Seq<char>) {
    (app_path + "/Contents/Info.plist"@, app_path + "/Contents/MacOS/"@ + executable)
}

pub fn desktop_paths(app_path: &str, executable: &str) -> (r: (String, String))
    ensures
        (r.0@, r.1@) == desktop_paths_spec(app_path@, executable@),
{
    let info = crate::text::concat(app_path, "/Contents/Info.plist");
    let dir = crate::text::concat(app_path, "/Contents/MacOS/");
    (info, crate::text::concat(dir.as_str(), executable))
}

/// The `IOPlatformUUID` of an `ioreg` report: the fourth `"`-separated
/// piece of the first line that names it, when it is letters, digits and
/// hyphens.
pub open spec fn hardware_uuid_spec(lines: Seq<Seq<char>>) -> Option<Seq<char>> {
    match first_index(lines, |l: Seq<char>| crate::text::find_seq(l, "\"IOPlatformUUID\""@) is Some) {
        None => None,
        Some(i) => {
            let pieces = split_char(lines[i], '"');
            if pieces.len() > 3 && uuid_text(pieces[3]) {
                Some(pieces[3])
            } else {
                None
            }
        },
    }
}

pub open spec fn uuid_text(v: Seq<char>) -> bool {
    v.len() > 0 && forall|i: int| 0 <= i < v.len() ==> (crate::text::is_alnum_char(#[trigger] v[i]) || v[i] == '-')
}

fn is_uuid_text(v: &Vec<char>) -> (r: bool)
    ensures
        r == uuid_text(v@),
{
    if v.len() == 0 {
        return false;
    }
    let mut i: usize = 0;
    while i < v.len()
        invariant
            i <= v@.len(),
            forall|j: int| 0 <= j < i ==> (crate::text::is_alnum_char(#[trigger] v@[j]) || v@[j] == '-'),
        decreases v.len() - i,
    {
        if !(crate::text::is_alnum(v[i]) || v[i] == '-') {
            return false;
        }
        i = i + 1;
    }
    true
}

pub fn hardware_uuid(output: &str) -> (r: Option<String>)
    ensures
        match r {
            Some(u) => hardware_uuid_spec(lines_spec(output@)) == Some(u@),
            None => hardware_uuid_spec(lines_spec(output@)) is None,
        },
{
    let all = lines(&chars_of(output));
    let ghost lv = all@.map_values(|x: Vec<char>| x@);
    let key = chars_of("\"IOPlatformUUID\"");
    let ghost f = |l: Seq<char>| crate::text::find_seq(l, "\"IOPlatformUUID\""@) is Some;
    let mut i: usize = 0;
    while i < all.len()
        invariant
            i <= all@.len(),
            lv == all@.map_values(|x: Vec<char>| x@),
            lv == lines_spec(output@),
            key@ == "\"IOPlatformUUID\""@,
            f == (|l: Seq<char>| crate::text::find_seq(l, "\"IOPlatformUUID\""@) is Some),
            forall|j: int| 0 <= j < i ==> !f(#[trigger] lv[j]),
        decreases all.len() - i,
    {
        assert(lv[i as int] == all@[i as int]@);
        let found = crate::text::find_from_exec(&all[i], &key, 0);
        if found.is_some() {
            proof {
                lemma_first_index(lv, f, i as int);
            }
            let pieces = split_char_exec(&all[i], '"');
            if pieces.len() > 3 && is_uuid_text(&pieces[3]) {
                return Some(string_of(&pieces[3]));
            }
            return None;
        }
        i = i + 1;
    }
    proof {
        lemma_first_index(lv, f, i as int);
    }
    None
}

/// Where a desktop product's identity came from.
pub open spec fn desktop_source_spec(
    app_path: Seq<char>,
    executable_path: Seq<char>,
    version: Seq<char>,
    digest: Seq<char>,
) -> Seq<char> {
    "typed host display-name resolution: bundle="@ + app_path + "; executable="@ + executable_path
        + "; version="@ + version + "; sha256="@ + digest
}

pub fn desktop_identity_source(app_path: &str, executable_path: &str, version: &str, digest: &str) -> (r: String)
    ensures
        r@ == desktop_source_spec(app_path@, executable_path@, version@, digest@),
{
    let mut s = chars_of("typed host display-name resolution: bundle=");
    append_chars(&mut s, &chars_of(app_path));
    append_chars(&mut s, &chars_of("; executable="));
    append_chars(&mut s, &chars_of(executable_path));
    append_chars(&mut s, &chars_of("; version="));
    append_chars(&mut s, &chars_of(version));
    append_chars(&mut s, &chars_of("; sha256="));
    append_chars(&mut s, &chars_of(digest));
    assert(s@ =~= desktop_source_spec(app_path@, executable_path@, version@, digest@));
    string_of(&s)
}

/// The identity source a terminal product's resolution records.
pub fn terminal_identity_source(path: &str, digest: &str) -> (r: String)
    ensures
        r@ == terminal_source_spec(path@, digest@),
{
    let mut s = chars_of("typed isolated host path resolution: ");
    append_chars(&mut s, &chars_of(path));
    append_chars(&mut s, &chars_of("; sha256="));
    append_chars(&mut s, &chars_of(digest));
    assert(s@ =~= terminal_source_spec(path@, digest@));
    string_of(&s)
}

} // verus!

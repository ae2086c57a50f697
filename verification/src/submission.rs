//! Stado submission receipts: the exact typed v3 receipt that proves a job was
//! accepted for one attempt, and the compact submission line derived from it.
use vstd::prelude::*;
use crate::json::{
    array_v, get_str_v, get_u64_v, get_v, group_json_view, str_v, u64_v, view_arr, view_obj,
    Json, JsonV,
};
use crate::host::is_lower_sha256_spec;
use crate::text::{chars_of, str_eq, string_of, trim, utf8_encode};

verus! {

pub const STADO_SUBMISSION_RECEIPT_SCHEMA: &'static str = "stado.submission-receipt.v3";

pub const SUBMISSION_SCHEMA: &'static str = "wisent.crawl-submission.v1";

pub const REPOSITORY: &'static str = "https://github.com/wisent-ai/spis.git";

// ---------------------------------------------------------------------------
// Reading a typed struct

/// The values of a struct's fields as serde's derived reader takes them with
/// unknown fields denied: from an object with exactly these keys, or from an
/// array of exactly as many values, in order.
pub open spec fn struct_fields(v: JsonV, names: Seq<Seq<char>>) -> Option<Seq<JsonV>> {
    match v {
        JsonV::Object(fields) => if (forall|i: int|
            0 <= i < fields.len() ==> names.contains(#[trigger] fields[i].0)) && (forall|j: int|
            0 <= j < names.len() ==> get_v(v, #[trigger] names[j]) is Some) {
            Some(names.map_values(|n: Seq<char>| get_v(v, n).unwrap()))
        } else {
            None
        },
        JsonV::Array(items) => if items.len() == names.len() {
            Some(items)
        } else {
            None
        },
        _ => None,
    }
}

pub open spec fn receipt_names() -> Seq<Seq<char>> {
    seq![
        "schema"@,
        "run_id"@,
        "source_revision"@,
        "request_digest"@,
        "source_digest"@,
        "input_digest"@,
        "repo"@,
        "repo_ref"@,
        "jobs"@,
    ]
}

pub open spec fn job_names() -> Seq<Seq<char>> {
    seq![
        "command_index"@,
        "command"@,
        "command_digest"@,
        "job_key"@,
        "job_id"@,
        "output_uri"@,
        "pinned_host"@,
        "resolved_executor"@,
        "repo_ref"@,
        "submission_request_digest"@,
    ]
}

pub open spec fn executor_names() -> Seq<Seq<char>> {
    seq!["provider"@, "machine_type"@, "gpu_type"@, "platform_os"@, "architecture"@]
}

/// Every value is a string.
pub open spec fn all_strings(values: Seq<JsonV>) -> bool {
    forall|i: int| 0 <= i < values.len() ==> str_v(#[trigger] values[i]) is Some
}

/// A resolved executor read as its typed struct: five strings.
pub open spec fn executor_values(v: JsonV) -> Option<Seq<Seq<char>>> {
    match struct_fields(v, executor_names()) {
        Some(values) => if all_strings(values) {
            Some(values.map_values(|x: JsonV| str_v(x).unwrap()))
        } else {
            None
        },
        None => None,
    }
}

/// One job of a receipt, as its typed struct.
pub struct ReceiptJob {
    pub command_index: u64,
    pub command: Seq<char>,
    pub command_digest: Seq<char>,
    pub job_key: Seq<char>,
    pub job_id: Seq<char>,
    pub output_uri: Seq<char>,
    pub pinned_host: Seq<char>,
    pub executor: Seq<Seq<char>>,
    pub repo_ref: Seq<char>,
    pub submission_request_digest: Seq<char>,
}

/// A job read as its typed struct.
pub open spec fn job_typed(v: JsonV) -> Option<ReceiptJob> {
    match struct_fields(v, job_names()) {
        None => None,
        Some(f) => {
            let strings = seq![f[1], f[2], f[3], f[4], f[5], f[6], f[8], f[9]];
            if u64_v(f[0]) is Some && all_strings(strings) && executor_values(f[7]) is Some {
                Some(
                    ReceiptJob {
                        command_index: u64_v(f[0]).unwrap(),
                        command: str_v(f[1]).unwrap(),
                        command_digest: str_v(f[2]).unwrap(),
                        job_key: str_v(f[3]).unwrap(),
                        job_id: str_v(f[4]).unwrap(),
                        output_uri: str_v(f[5]).unwrap(),
                        pinned_host: str_v(f[6]).unwrap(),
                        executor: executor_values(f[7]).unwrap(),
                        repo_ref: str_v(f[8]).unwrap(),
                        submission_request_digest: str_v(f[9]).unwrap(),
                    },
                )
            } else {
                None
            }
        },
    }
}

/// A receipt, as its typed struct.
pub struct Receipt {
    pub schema: Seq<char>,
    pub run_id: Seq<char>,
    pub source_revision: Seq<char>,
    pub request_digest: Seq<char>,
    pub source_digest: Seq<char>,
    pub input_digest: Seq<char>,
    pub repo: Seq<char>,
    pub repo_ref: Seq<char>,
    pub jobs: Seq<ReceiptJob>,
}

/// A receipt read as its typed struct: eight strings and an array of jobs.
pub open spec fn receipt_typed(v: JsonV) -> Option<Receipt> {
    match struct_fields(v, receipt_names()) {
        None => None,
        Some(f) => {
            let strings = f.take(8);
            match array_v(f[8]) {
                None => None,
                Some(items) => if all_strings(strings) && forall|i: int|
                    0 <= i < items.len() ==> job_typed(#[trigger] items[i]) is Some {
                    Some(
                        Receipt {
                            schema: str_v(f[0]).unwrap(),
                            run_id: str_v(f[1]).unwrap(),
                            source_revision: str_v(f[2]).unwrap(),
                            request_digest: str_v(f[3]).unwrap(),
                            source_digest: str_v(f[4]).unwrap(),
                            input_digest: str_v(f[5]).unwrap(),
                            repo: str_v(f[6]).unwrap(),
                            repo_ref: str_v(f[7]).unwrap(),
                            jobs: items.map_values(|j: JsonV| job_typed(j).unwrap()),
                        },
                    )
                } else {
                    None
                },
            }
        },
    }
}

// ---------------------------------------------------------------------------
// Reading a typed struct, executably

fn name_listed(names: &[&str], key: &str) -> (r: bool)
    ensures
        r == crate::host::words_view(names@).contains(key@),
{
    let ghost nv = crate::host::words_view(names@);
    let mut k: usize = 0;
    while k < names.len()
        invariant
            k <= names@.len(),
            nv == crate::host::words_view(names@),
            forall|m: int| 0 <= m < k ==> nv[m] != key@,
        decreases names.len() - k,
    {
        if str_eq(names[k], key) {
            assert(nv[k as int] == key@);
            return true;
        }
        k = k + 1;
    }
    false
}

pub open spec fn refs_view(v: Seq<&Json>) -> Seq<JsonV> {
    v.map_values(|x: &Json| x@)
}

/// The values of a struct's fields, read as `struct_fields` describes.
#[verifier::loop_isolation(false)]
pub fn struct_fields_exec<'a>(v: &'a Json, names: &[&str]) -> (r: Option<Vec<&'a Json>>)
    ensures
        match r {
            Some(vals) => struct_fields(v@, crate::host::words_view(names@)) == Some(
                refs_view(vals@),
            ),
            None => struct_fields(v@, crate::host::words_view(names@)) is None,
        },
{
    broadcast use group_json_view;

    let ghost nv = crate::host::words_view(names@);
    match v {
        Json::Object(fields) => {
            proof {
                crate::json::lemma_view_obj(fields@);
            }
            let ghost fv = view_obj(fields@);
            let mut i: usize = 0;
            while i < fields.len()
                invariant
                    i <= fields@.len(),
                    fv == view_obj(fields@),
                    fv.len() == fields@.len(),
                    nv == crate::host::words_view(names@),
                    forall|j: int| 0 <= j < fields@.len() ==> #[trigger] fv[j] == (fields@[j].0@, fields@[j].1@),
                    forall|j: int| 0 <= j < i ==> nv.contains(#[trigger] fv[j].0),
                decreases fields.len() - i,
            {
                assert(fv[i as int].0 == fields@[i as int].0@);
                if !name_listed(names, fields[i].0.as_str()) {
                    return None;
                }
                i = i + 1;
            }
            let mut out: Vec<&Json> = Vec::new();
            let mut k: usize = 0;
            while k < names.len()
                invariant
                    k <= names@.len(),
                    nv == crate::host::words_view(names@),
                    v@ == JsonV::Object(fv),
                    forall|j: int| 0 <= j < fv.len() ==> nv.contains(#[trigger] fv[j].0),
                    out@.len() == k,
                    forall|j: int| 0 <= j < k ==> get_v(v@, #[trigger] nv[j]) is Some,
                    forall|j: int| 0 <= j < k ==> Some((#[trigger] out@[j])@) == get_v(v@, nv[j]),
                decreases names.len() - k,
            {
                assert(nv[k as int] == names@[k as int]@);
                match v.get(names[k]) {
                    Some(x) => out.push(x),
                    None => return None,
                }
                k = k + 1;
            }
            assert(refs_view(out@) =~= nv.map_values(|n: Seq<char>| get_v(v@, n).unwrap()));
            Some(out)
        },
        Json::Array(items) => {
            proof {
                crate::json::lemma_view_arr(items@);
            }
            if items.len() != names.len() {
                return None;
            }
            let mut out: Vec<&Json> = Vec::new();
            let mut k: usize = 0;
            while k < items.len()
                invariant
                    k <= items@.len(),
                    out@.len() == k,
                    view_arr(items@).len() == items@.len(),
                    forall|j: int| 0 <= j < items@.len() ==> #[trigger] view_arr(items@)[j] == items@[j]@,
                    forall|j: int| 0 <= j < k ==> (#[trigger] out@[j])@ == items@[j]@,
                decreases items.len() - k,
            {
                out.push(&items[k]);
                k = k + 1;
            }
            assert(refs_view(out@) =~= view_arr(items@));
            Some(out)
        },
        _ => None,
    }
}

/// A job of a receipt, its fields read.
pub struct JobFields {
    pub command_index: u64,
    pub command: String,
    pub command_digest: String,
    pub job_key: String,
    pub job_id: String,
    pub output_uri: String,
    pub pinned_host: String,
    pub executor: Vec<String>,
    pub repo_ref: String,
    pub submission_request_digest: String,
}

impl JobFields {
    pub open spec fn spec_job(&self) -> ReceiptJob {
        ReceiptJob {
            command_index: self.command_index,
            command: self.command@,
            command_digest: self.command_digest@,
            job_key: self.job_key@,
            job_id: self.job_id@,
            output_uri: self.output_uri@,
            pinned_host: self.pinned_host@,
            executor: crate::text::string_views(self.executor@),
            repo_ref: self.repo_ref@,
            submission_request_digest: self.submission_request_digest@,
        }
    }
}

/// A receipt, its fields read.
pub struct ReceiptFields {
    pub schema: String,
    pub run_id: String,
    pub source_revision: String,
    pub request_digest: String,
    pub source_digest: String,
    pub input_digest: String,
    pub repo: String,
    pub repo_ref: String,
    pub jobs: Vec<JobFields>,
}

impl ReceiptFields {
    pub open spec fn spec_receipt(&self) -> Receipt {
        Receipt {
            schema: self.schema@,
            run_id: self.run_id@,
            source_revision: self.source_revision@,
            request_digest: self.request_digest@,
            source_digest: self.source_digest@,
            input_digest: self.input_digest@,
            repo: self.repo@,
            repo_ref: self.repo_ref@,
            jobs: self.jobs@.map_values(|j: JobFields| j.spec_job()),
        }
    }
}

fn string_at(vals: &Vec<&Json>, i: usize) -> (r: Option<String>)
    requires
        i < vals@.len(),
    ensures
        match r {
            Some(s) => str_v(vals@[i as int]@) == Some(s@),
            None => str_v(vals@[i as int]@) is None,
        },
{
    match vals[i].as_str() {
        Some(s) => Some(String::from_str(s)),
        None => None,
    }
}

#[verifier::loop_isolation(false)]
fn read_executor(v: &Json) -> (r: Option<Vec<String>>)
    ensures
        match r {
            Some(x) => executor_values(v@) == Some(crate::text::string_views(x@)),
            None => executor_values(v@) is None,
        },
{
    let names = ["provider", "machine_type", "gpu_type", "platform_os", "architecture"];
    assert(crate::host::words_view(names@) =~= executor_names());
    let vals = match struct_fields_exec(v, &names) {
        Some(vals) => vals,
        None => return None,
    };
    let ghost fv = refs_view(vals@);
    let mut out: Vec<String> = Vec::new();
    let mut i: usize = 0;
    while i < vals.len()
        invariant
            i <= vals@.len(),
            fv == refs_view(vals@),
            out@.len() == i,
            forall|j: int| 0 <= j < i ==> str_v(#[trigger] fv[j]) == Some(out@[j]@),
        decreases vals.len() - i,
    {
        match string_at(&vals, i) {
            Some(s) => out.push(s),
            None => {
                assert(str_v(fv[i as int]) is None);
                return None;
            },
        }
        i = i + 1;
    }
    assert(crate::text::string_views(out@) =~= fv.map_values(|x: JsonV| str_v(x).unwrap()));
    Some(out)
}

fn read_job(v: &Json) -> (r: Option<JobFields>)
    ensures
        match r {
            Some(j) => job_typed(v@) == Some(j.spec_job()),
            None => job_typed(v@) is None,
        },
{
    let names = [
        "command_index",
        "command",
        "command_digest",
        "job_key",
        "job_id",
        "output_uri",
        "pinned_host",
        "resolved_executor",
        "repo_ref",
        "submission_request_digest",
    ];
    assert(crate::host::words_view(names@) =~= job_names());
    let vals = match struct_fields_exec(v, &names) {
        Some(vals) => vals,
        None => return None,
    };
    let ghost f = refs_view(vals@);
    assert(f.len() == 10);
    assert(f[0] == vals@[0]@ && f[1] == vals@[1]@ && f[2] == vals@[2]@ && f[3] == vals@[3]@);
    assert(f[4] == vals@[4]@ && f[5] == vals@[5]@ && f[6] == vals@[6]@ && f[7] == vals@[7]@);
    assert(f[8] == vals@[8]@ && f[9] == vals@[9]@);
    let ghost strings = seq![f[1], f[2], f[3], f[4], f[5], f[6], f[8], f[9]];
    let command_index = match vals[0].as_u64() {
        Some(n) => n,
        None => return None,
    };
    let command = string_at(&vals, 1);
    let command_digest = string_at(&vals, 2);
    let job_key = string_at(&vals, 3);
    let job_id = string_at(&vals, 4);
    let output_uri = string_at(&vals, 5);
    let pinned_host = string_at(&vals, 6);
    let repo_ref = string_at(&vals, 8);
    let submission_request_digest = string_at(&vals, 9);
    let executor = read_executor(vals[7]);
    if command.is_none() || command_digest.is_none() || job_key.is_none() || job_id.is_none()
        || output_uri.is_none() || pinned_host.is_none() || repo_ref.is_none()
        || submission_request_digest.is_none() {
        assert(!all_strings(strings)) by {
            if command.is_none() {
                assert(str_v(strings[0]) is None);
            } else if command_digest.is_none() {
                assert(str_v(strings[1]) is None);
            } else if job_key.is_none() {
                assert(str_v(strings[2]) is None);
            } else if job_id.is_none() {
                assert(str_v(strings[3]) is None);
            } else if output_uri.is_none() {
                assert(str_v(strings[4]) is None);
            } else if pinned_host.is_none() {
                assert(str_v(strings[5]) is None);
            } else if repo_ref.is_none() {
                assert(str_v(strings[6]) is None);
            } else {
                assert(str_v(strings[7]) is None);
            }
        }
        return None;
    }
    let executor = match executor {
        Some(x) => x,
        None => return None,
    };
    assert(all_strings(strings)) by {
        assert forall|i: int| 0 <= i < strings.len() implies str_v(#[trigger] strings[i]) is Some by {
            assert(i == 0 || i == 1 || i == 2 || i == 3 || i == 4 || i == 5 || i == 6 || i == 7);
        }
    }
    Some(
        JobFields {
            command_index,
            command: command.unwrap(),
            command_digest: command_digest.unwrap(),
            job_key: job_key.unwrap(),
            job_id: job_id.unwrap(),
            output_uri: output_uri.unwrap(),
            pinned_host: pinned_host.unwrap(),
            executor,
            repo_ref: repo_ref.unwrap(),
            submission_request_digest: submission_request_digest.unwrap(),
        },
    )
}

/// Read a receipt as its exact typed struct.
#[verifier::loop_isolation(false)]
pub fn read_receipt(v: &Json) -> (r: Option<ReceiptFields>)
    ensures
        match r {
            Some(f) => receipt_typed(v@) == Some(f.spec_receipt()),
            None => receipt_typed(v@) is None,
        },
{
    broadcast use group_json_view;

    let names = [
        "schema",
        "run_id",
        "source_revision",
        "request_digest",
        "source_digest",
        "input_digest",
        "repo",
        "repo_ref",
        "jobs",
    ];
    assert(crate::host::words_view(names@) =~= receipt_names());
    let vals = match struct_fields_exec(v, &names) {
        Some(vals) => vals,
        None => return None,
    };
    let ghost f = refs_view(vals@);
    assert(f.len() == 9);
    let ghost strings = f.take(8);
    let mut texts: Vec<String> = Vec::new();
    let mut i: usize = 0;
    while i < 8
        invariant
            i <= 8,
            vals@.len() == 9,
            f == refs_view(vals@),
            strings == f.take(8),
            texts@.len() == i,
            forall|j: int| 0 <= j < i ==> str_v(#[trigger] strings[j]) == Some(texts@[j]@),
        decreases 8 - i,
    {
        match string_at(&vals, i) {
            Some(s) => texts.push(s),
            None => {
                assert(str_v(strings[i as int]) is None);
                return None;
            },
        }
        i = i + 1;
    }
    assert(all_strings(strings));
    let items = match vals[8].as_array() {
        Some(items) => items,
        None => {
            assert(array_v(f[8]) is None);
            return None;
        },
    };
    proof {
        crate::json::lemma_view_arr(items@);
    }
    let ghost iv = view_arr(items@);
    assert(array_v(f[8]) == Some(iv));
    let mut jobs: Vec<JobFields> = Vec::new();
    let mut k: usize = 0;
    while k < items.len()
        invariant
            k <= items@.len(),
            iv == view_arr(items@),
            iv.len() == items@.len(),
            forall|j: int| 0 <= j < items@.len() ==> #[trigger] iv[j] == items@[j]@,
            jobs@.len() == k,
            forall|j: int| 0 <= j < k ==> job_typed(#[trigger] iv[j]) == Some(jobs@[j].spec_job()),
        decreases items.len() - k,
    {
        match read_job(&items[k]) {
            Some(j) => jobs.push(j),
            None => {
                assert(job_typed(iv[k as int]) is None);
                return None;
            },
        }
        k = k + 1;
    }
    assert(strings[0] == f[0] && strings[1] == f[1] && strings[2] == f[2] && strings[3] == f[3]);
    assert(strings[4] == f[4] && strings[5] == f[5] && strings[6] == f[6] && strings[7] == f[7]);
    let schema = texts[0].clone();
    let run_id = texts[1].clone();
    let source_revision = texts[2].clone();
    let request_digest = texts[3].clone();
    let source_digest = texts[4].clone();
    let input_digest = texts[5].clone();
    let repo = texts[6].clone();
    let repo_ref = texts[7].clone();
    let r = ReceiptFields {
        schema,
        run_id,
        source_revision,
        request_digest,
        source_digest,
        input_digest,
        repo,
        repo_ref,
        jobs,
    };
    assert(r.spec_receipt().jobs =~= iv.map_values(|j: JsonV| job_typed(j).unwrap()));
    Some(r)
}

// ---------------------------------------------------------------------------
// The receipt line

/// The position of the receipt among the lines Stado printed: the last line
/// that parsed as JSON and declares the v3 receipt schema.
pub open spec fn receipt_line_spec(lines: Seq<Option<JsonV>>) -> Option<int>
    decreases lines.len(),
{
    if lines.len() == 0 {
        None
    } else {
        match lines.last() {
            Some(v) => if get_str_v(v, "schema"@) == Some(STADO_SUBMISSION_RECEIPT_SCHEMA@) {
                Some(lines.len() - 1)
            } else {
                receipt_line_spec(lines.drop_last())
            },
            None => receipt_line_spec(lines.drop_last()),
        }
    }
}

pub open spec fn parsed_view(lines: Seq<Option<Json>>) -> Seq<Option<JsonV>> {
    lines.map_values(
        |l: Option<Json>|
            match l {
                Some(v) => Some(v@),
                None => None,
            },
    )
}

/// Which of the parsed lines of Stado's output is the receipt.
pub fn receipt_line(lines: &Vec<Option<Json>>) -> (r: Option<usize>)
    ensures
        match r {
            Some(i) => receipt_line_spec(parsed_view(lines@)) == Some(i as int),
            None => receipt_line_spec(parsed_view(lines@)) is None,
        },
{
    let ghost pv = parsed_view(lines@);
    let mut k: usize = lines.len();
    assert(pv.take(k as int) =~= pv);
    while k > 0
        invariant
            k <= lines@.len(),
            pv == parsed_view(lines@),
            receipt_line_spec(pv) == receipt_line_spec(pv.take(k as int)),
        decreases k,
    {
        let ghost t = pv.take(k as int);
        assert(t.drop_last() =~= pv.take(k - 1));
        assert(t.last() == pv[k - 1]);
        let hit = match &lines[k - 1] {
            Some(v) => match v.get_str("schema") {
                Some(schema) => str_eq(schema, STADO_SUBMISSION_RECEIPT_SCHEMA),
                None => false,
            },
            None => false,
        };
        if hit {
            return Some(k - 1);
        }
        k = k - 1;
    }
    assert(pv.take(0) =~= Seq::<Option<JsonV>>::empty());
    None
}

// ---------------------------------------------------------------------------
// Checking the receipt

/// Why a receipt does not prove the submission of this attempt.
pub enum SubmissionError {
    /// No line of the output is a receipt.
    NoReceipt,
    /// The receipt does not match the exact typed v3 contract.
    NotTyped,
    /// A receipt digest (named) is not a lowercase SHA-256 digest.
    NotDigest(&'static str),
    /// The run, repository or ref does not bind this exact attempt.
    NotBound,
    /// The receipt does not map to exactly one job.
    NotOneJob,
    /// The job has no portable exact job id.
    NoJobId,
    /// The job's mapping, digests, host or output URI differ.
    JobMismatch,
    /// The job's command does not hash to its command digest.
    CommandDigest,
    /// The job id is not derived from the job key.
    JobIdDerivation,
}

pub enum SubmissionFailure {
    NoReceipt,
    NotTyped,
    NotDigest(Seq<char>),
    NotBound,
    NotOneJob,
    NoJobId,
    JobMismatch,
    CommandDigest,
    JobIdDerivation,
}

impl SubmissionError {
    pub open spec fn failure(&self) -> SubmissionFailure {
        match self {
            SubmissionError::NoReceipt => SubmissionFailure::NoReceipt,
            SubmissionError::NotTyped => SubmissionFailure::NotTyped,
            SubmissionError::NotDigest(label) => SubmissionFailure::NotDigest(label@),
            SubmissionError::NotBound => SubmissionFailure::NotBound,
            SubmissionError::NotOneJob => SubmissionFailure::NotOneJob,
            SubmissionError::NoJobId => SubmissionFailure::NoJobId,
            SubmissionError::JobMismatch => SubmissionFailure::JobMismatch,
            SubmissionError::CommandDigest => SubmissionFailure::CommandDigest,
            SubmissionError::JobIdDerivation => SubmissionFailure::JobIdDerivation,
        }
    }
}

/// 64 lowercase hexadecimal characters.
pub open spec fn lower_digest(s: Seq<char>) -> bool {
    s.len() == 64 && forall|i: int|
        0 <= i < s.len() ==> (crate::text::is_digit_char(#[trigger] s[i]) || ('a' <= s[i] && s[i]
            <= 'f'))
}

pub(crate) fn is_lower_digest(s: &str) -> (r: bool)
    ensures
        r == lower_digest(s@),
{
    let v = chars_of(s);
    if v.len() != 64 {
        return false;
    }
    let mut i: usize = 0;
    while i < 64
        invariant
            i <= 64,
            v@ == s@,
            v@.len() == 64,
            forall|j: int|
                0 <= j < i ==> (crate::text::is_digit_char(#[trigger] v@[j]) || ('a' <= v@[j]
                    && v@[j] <= 'f')),
        decreases 64 - i,
    {
        let c = v[i];
        if !(('0' <= c && c <= '9') || ('a' <= c && c <= 'f')) {
            return false;
        }
        i = i + 1;
    }
    true
}

pub open spec fn opt_str_json(s: Option<Seq<char>>) -> JsonV {
    match s {
        Some(x) => JsonV::Str(x),
        None => JsonV::Null,
    }
}

/// The compact submission line a checked receipt yields.
pub open spec fn compact_line(
    catalog: Seq<char>,
    engine: Seq<char>,
    host: Seq<char>,
    artifact_uri: Option<Seq<char>>,
    output_uri: Seq<char>,
    rc: Receipt,
    raw: JsonV,
) -> JsonV {
    let job = rc.jobs[0];
    JsonV::Object(
        seq![
            ("schema"@, JsonV::Str(SUBMISSION_SCHEMA@)),
            ("catalog"@, JsonV::Str(catalog)),
            ("engine"@, JsonV::Str(engine)),
            ("host"@, JsonV::Str(host)),
            ("stado_job_id"@, JsonV::Str(job.job_id)),
            ("stado_run_id"@, JsonV::Str(rc.run_id)),
            ("artifact_uri"@, opt_str_json(artifact_uri)),
            ("output_uri"@, JsonV::Str(output_uri)),
            ("state"@, JsonV::Str("queued"@)),
            ("stado_executor"@, JsonV::Object(
                seq![
                    ("provider"@, JsonV::Str(job.executor[0])),
                    ("machine_type"@, JsonV::Str(job.executor[1])),
                    ("gpu_type"@, JsonV::Str(job.executor[2])),
                    ("platform_os"@, JsonV::Str(job.executor[3])),
                    ("architecture"@, JsonV::Str(job.executor[4])),
                ],
            )),
            ("stado_job_key"@, JsonV::Str(job.job_key)),
            ("stado_receipt"@, raw),
        ],
    )
}

/// What a receipt proves about the submission of one attempt: the compact
/// submission line, or the first check it fails.
pub open spec fn compact_submission_spec(
    catalog: Seq<char>,
    engine: Seq<char>,
    host: Seq<char>,
    artifact_uri: Option<Seq<char>>,
    output_uri: Seq<char>,
    raw: JsonV,
    revision: Seq<char>,
) -> Result<JsonV, SubmissionFailure> {
    match receipt_typed(raw) {
        None => Err(SubmissionFailure::NotTyped),
        Some(rc) => if !lower_digest(rc.request_digest) {
            Err(SubmissionFailure::NotDigest("request_digest"@))
        } else if !lower_digest(rc.source_digest) {
            Err(SubmissionFailure::NotDigest("source_digest"@))
        } else if !lower_digest(rc.input_digest) {
            Err(SubmissionFailure::NotDigest("input_digest"@))
        } else if rc.schema != STADO_SUBMISSION_RECEIPT_SCHEMA@ || trim(rc.run_id).len() == 0
            || rc.repo != REPOSITORY@ || rc.repo_ref != revision || rc.source_revision != revision {
            Err(SubmissionFailure::NotBound)
        } else if rc.jobs.len() != 1 {
            Err(SubmissionFailure::NotOneJob)
        } else {
            let job = rc.jobs[0];
            if trim(job.job_id).len() == 0 || !crate::crawl::safe_component_spec(job.job_id) {
                Err(SubmissionFailure::NoJobId)
            } else if job.command_index != 0 || !lower_digest(job.command_digest) || !lower_digest(
                job.job_key,
            ) || job.submission_request_digest != rc.request_digest || job.repo_ref != rc.repo_ref
                || !crate::host::pinned_host_spec(job.pinned_host, host) || job.output_uri
                != output_uri {
                Err(SubmissionFailure::JobMismatch)
            } else if crate::digest::hex_lower_spec(crate::digest::sha256_spec(utf8_encode(job.command)))
                != job.command_digest {
                Err(SubmissionFailure::CommandDigest)
            } else if job.job_key.len() < 24 || job.job_id != "job-"@ + job.job_key.take(24) {
                Err(SubmissionFailure::JobIdDerivation)
            } else {
                Ok(compact_line(catalog, engine, host, artifact_uri, output_uri, rc, raw))
            }
        },
    }
}

/// Accept only an exact typed Stado v3 submission receipt for one job that
/// binds this attempt, and derive the compact submission line from it.
pub fn compact_submission(
    catalog: &str,
    engine: &str,
    host: &str,
    artifact_uri: Option<&str>,
    output_uri: &str,
    raw: &Json,
    revision: &str,
) -> (r: Result<Json, SubmissionError>)
    ensures
        match r {
            Ok(line) => compact_submission_spec(
                catalog@,
                engine@,
                host@,
                match artifact_uri {
                    Some(a) => Some(a@),
                    None => None,
                },
                output_uri@,
                raw@,
                revision@,
            ) == Ok::<JsonV, SubmissionFailure>(line@),
            Err(e) => compact_submission_spec(
                catalog@,
                engine@,
                host@,
                match artifact_uri {
                    Some(a) => Some(a@),
                    None => None,
                },
                output_uri@,
                raw@,
                revision@,
            ) == Err::<JsonV, SubmissionFailure>(e.failure()),
        },
{
    broadcast use group_json_view;

    let rc = match read_receipt(raw) {
        Some(rc) => rc,
        None => return Err(SubmissionError::NotTyped),
    };
    if !is_lower_digest(rc.request_digest.as_str()) {
        return Err(SubmissionError::NotDigest("request_digest"));
    }
    if !is_lower_digest(rc.source_digest.as_str()) {
        return Err(SubmissionError::NotDigest("source_digest"));
    }
    if !is_lower_digest(rc.input_digest.as_str()) {
        return Err(SubmissionError::NotDigest("input_digest"));
    }
    if !str_eq(rc.schema.as_str(), STADO_SUBMISSION_RECEIPT_SCHEMA) || trim_len(
        rc.run_id.as_str(),
    ) == 0 || !str_eq(rc.repo.as_str(), REPOSITORY) || !str_eq(rc.repo_ref.as_str(), revision)
        || !str_eq(rc.source_revision.as_str(), revision) {
        return Err(SubmissionError::NotBound);
    }
    if rc.jobs.len() != 1 {
        return Err(SubmissionError::NotOneJob);
    }
    let job = &rc.jobs[0];
    assert(rc.spec_receipt().jobs[0] == job.spec_job());
    if trim_len(job.job_id.as_str()) == 0 || !crate::crawl::safe_component(job.job_id.as_str()) {
        return Err(SubmissionError::NoJobId);
    }
    if job.command_index != 0 || !is_lower_digest(job.command_digest.as_str()) || !is_lower_digest(
        job.job_key.as_str(),
    ) || !str_eq(job.submission_request_digest.as_str(), rc.request_digest.as_str()) || !str_eq(
        job.repo_ref.as_str(),
        rc.repo_ref.as_str(),
    ) || !crate::host::pinned_host_is(job.pinned_host.as_str(), host) || !str_eq(
        job.output_uri.as_str(),
        output_uri,
    ) {
        return Err(SubmissionError::JobMismatch);
    }
    let command_bytes = crate::text::utf8_bytes(&chars_of(job.command.as_str()));
    let digest = crate::digest::sha256_hex(command_bytes.as_slice());
    if !str_eq(digest.as_str(), job.command_digest.as_str()) {
        return Err(SubmissionError::CommandDigest);
    }
    let key = chars_of(job.job_key.as_str());
    if key.len() < 24 {
        return Err(SubmissionError::JobIdDerivation);
    }
    let mut derived = chars_of("job-");
    crate::text::append_chars(&mut derived, &crate::text::slice_chars(&key, 0, 24));
    if !crate::text::seq_eq(&derived, &chars_of(job.job_id.as_str())) {
        assert(derived@ =~= "job-"@ + job.job_key@.take(24));
        return Err(SubmissionError::JobIdDerivation);
    }
    assert(derived@ =~= "job-"@ + job.job_key@.take(24));
    assert(job.executor@.len() == 5) by {
        assert(crate::text::string_views(job.executor@).len() == 5);
    }
    let mut executor: Vec<(String, Json)> = Vec::new();
    executor.push((String::from_str("provider"), Json::Str(job.executor[0].clone())));
    executor.push((String::from_str("machine_type"), Json::Str(job.executor[1].clone())));
    executor.push((String::from_str("gpu_type"), Json::Str(job.executor[2].clone())));
    executor.push((String::from_str("platform_os"), Json::Str(job.executor[3].clone())));
    executor.push((String::from_str("architecture"), Json::Str(job.executor[4].clone())));
    let ghost ev = view_obj(executor@);
    let mut fields: Vec<(String, Json)> = Vec::new();
    fields.push((String::from_str("schema"), crate::json::jstr(SUBMISSION_SCHEMA)));
    fields.push((String::from_str("catalog"), crate::json::jstr(catalog)));
    fields.push((String::from_str("engine"), crate::json::jstr(engine)));
    fields.push((String::from_str("host"), crate::json::jstr(host)));
    fields.push((String::from_str("stado_job_id"), Json::Str(job.job_id.clone())));
    fields.push((String::from_str("stado_run_id"), Json::Str(rc.run_id.clone())));
    fields.push((String::from_str("artifact_uri"), crate::json::jopt_str(artifact_uri)));
    fields.push((String::from_str("output_uri"), crate::json::jstr(output_uri)));
    fields.push((String::from_str("state"), crate::json::jstr("queued")));
    fields.push((String::from_str("stado_executor"), crate::json::jobj(executor)));
    fields.push((String::from_str("stado_job_key"), Json::Str(job.job_key.clone())));
    fields.push((String::from_str("stado_receipt"), raw.duplicate()));
    let line = crate::json::jobj(fields);
    assert(ev =~= seq![
        ("provider"@, JsonV::Str(job.spec_job().executor[0])),
        ("machine_type"@, JsonV::Str(job.spec_job().executor[1])),
        ("gpu_type"@, JsonV::Str(job.spec_job().executor[2])),
        ("platform_os"@, JsonV::Str(job.spec_job().executor[3])),
        ("architecture"@, JsonV::Str(job.spec_job().executor[4])),
    ]);
    assert(line@ == compact_line(
        catalog@,
        engine@,
        host@,
        match artifact_uri {
            Some(a) => Some(a@),
            None => None,
        },
        output_uri@,
        rc.spec_receipt(),
        raw@,
    )) by {
        assert(crate::json::opt_str_v(
            match artifact_uri {
                Some(a) => Some(a@),
                None => None,
            },
        ) == opt_str_json(
            match artifact_uri {
                Some(a) => Some(a@),
                None => None,
            },
        ));
        assert(view_obj(fields@) =~= match compact_line(
            catalog@,
            engine@,
            host@,
            match artifact_uri {
                Some(a) => Some(a@),
                None => None,
            },
            output_uri@,
            rc.spec_receipt(),
            raw@,
        ) {
            JsonV::Object(f) => f,
            _ => Seq::empty(),
        });
    }
    Ok(line)
}

fn trim_len(s: &str) -> (r: usize)
    ensures
        r == trim(s@).len(),
{
    crate::text::trim_chars(&chars_of(s)).len()
}

} // verus!

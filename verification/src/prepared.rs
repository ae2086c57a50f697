//! The prepared-runtime proof a device-bound record carries: what it must
//! bind before the host is asked to re-verify it, and what the host's
//! readiness helper must attest in return.
use vstd::prelude::*;
use crate::crawl::{is_rfc3339_utc, rfc3339_utc_spec};
use crate::device::{hex_digest, is_hex_digest};
use crate::json::{get_bool_v, get_str_v, get_u64_v, Json, JsonV};
use crate::text::{chars_of, starts_with, starts_with_exec, str_eq};

verus! {

/// An independently observed proof that a product was installed, run once
/// and left without pending prompts on a device.
pub struct PreparedProof {
    pub schema: String,
    pub product_identifier: String,
    pub device_id: Option<String>,
    pub observed_by: String,
    pub product_version: String,
    pub executable_sha256: String,
    pub observed_at: String,
    pub evidence_uri: String,
    pub evidence_sha256: String,
    pub installed: bool,
    pub first_run_completed: bool,
    pub pending_permission_prompts: u32,
    pub pending_notification_prompts: u32,
    pub notification_delivery_disabled: bool,
    pub permission_prompt_invocation_disabled: bool,
    pub notification_prompt_invocation_disabled: bool,
}

pub open spec fn text_or_empty(o: Option<String>) -> Seq<char> {
    match o {
        Some(s) => s@,
        None => Seq::empty(),
    }
}

pub open spec fn opt_text(o: Option<&str>) -> Option<Seq<char>> {
    match o {
        Some(s) => Some(s@),
        None => None,
    }
}

/// Whether a proof binds exactly this product on this device, at the
/// version and executable digest the record resolved, observed by the
/// readiness helper at a UTC instant, with the product installed, its first
/// run completed, no prompt pending and every prompt and notification path
/// disabled.
pub open spec fn proof_binds_spec(
    p: PreparedProof,
    product: Seq<char>,
    device: Seq<char>,
    version: Option<Seq<char>>,
    digest: Option<Seq<char>>,
) -> bool {
    &&& p.schema@ == "wisent.runtime-preparation-proof.v1"@
    &&& p.product_identifier@ == product
    &&& text_or_empty(p.device_id) == device
    &&& p.observed_by@ == "stado-runtime-readiness"@
    &&& starts_with(p.evidence_uri@, "stado://"@)
    &&& version == Some(p.product_version@)
    &&& digest == Some(p.executable_sha256@)
    &&& hex_digest(p.evidence_sha256@)
    &&& p.installed
    &&& p.first_run_completed
    &&& p.pending_permission_prompts == 0
    &&& p.pending_notification_prompts == 0
    &&& p.notification_delivery_disabled
    &&& p.permission_prompt_invocation_disabled
    &&& p.notification_prompt_invocation_disabled
    &&& rfc3339_utc_spec(p.observed_at@)
}

fn same(a: Option<&str>, b: &str) -> (r: bool)
    ensures
        r == (opt_text(a) == Some(b@)),
{
    match a {
        Some(x) => str_eq(x, b),
        None => false,
    }
}

/// Whether a prepared-runtime proof binds the exact product and device the
/// record resolved.
pub fn proof_binds(
    proof: &PreparedProof,
    product: &str,
    device: &str,
    version: Option<&str>,
    digest: Option<&str>,
) -> (r: bool)
    ensures
        r == proof_binds_spec(*proof, product@, device@, opt_text(version), opt_text(digest)),
{
    proof {
        reveal_strlit("");
    }
    let proof_device = match &proof.device_id {
        Some(d) => d.as_str(),
        None => "",
    };
    assert(proof_device@ =~= text_or_empty(proof.device_id));
    str_eq(proof.schema.as_str(), "wisent.runtime-preparation-proof.v1") && str_eq(
        proof.product_identifier.as_str(),
        product,
    ) && str_eq(proof_device, device) && str_eq(proof.observed_by.as_str(), "stado-runtime-readiness")
        && starts_with_exec(&chars_of(proof.evidence_uri.as_str()), &chars_of("stado://")) && same(
        version,
        proof.product_version.as_str(),
    ) && same(digest, proof.executable_sha256.as_str()) && is_hex_digest(proof.evidence_sha256.as_str())
        && proof.installed && proof.first_run_completed && proof.pending_permission_prompts == 0
        && proof.pending_notification_prompts == 0 && proof.notification_delivery_disabled
        && proof.permission_prompt_invocation_disabled && proof.notification_prompt_invocation_disabled
        && is_rfc3339_utc(proof.observed_at.as_str())
}

/// The readiness helper's re-verification of a proof on the host.
pub open spec fn readiness_probe_spec(product: Seq<char>, device: Seq<char>, p: PreparedProof) -> Seq<Seq<char>> {
    seq![
        "stado-runtime-readiness"@,
        "verify"@,
        "--json"@,
        "--product"@,
        product,
        "--device"@,
        device,
        "--evidence-uri"@,
        p.evidence_uri@,
        "--evidence-sha256"@,
        p.evidence_sha256@,
    ]
}

pub fn readiness_probe(product: &str, device: &str, proof: &PreparedProof) -> (r: Vec<String>)
    ensures
        r@.map_values(|w: String| w@) == readiness_probe_spec(product@, device@, *proof),
{
    let mut out: Vec<String> = Vec::new();
    out.push(String::from_str("stado-runtime-readiness"));
    out.push(String::from_str("verify"));
    out.push(String::from_str("--json"));
    out.push(String::from_str("--product"));
    out.push(String::from_str(product));
    out.push(String::from_str("--device"));
    out.push(String::from_str(device));
    out.push(String::from_str("--evidence-uri"));
    out.push(proof.evidence_uri.clone());
    out.push(String::from_str("--evidence-sha256"));
    out.push(proof.evidence_sha256.clone());
    assert(out@.map_values(|w: String| w@) =~= readiness_probe_spec(product@, device@, *proof));
    out
}

/// Whether the helper attests the exact safe state: ready, this product on
/// this device with this evidence, no pending prompts, every prompt and
/// notification path disabled, and the version and executable digest the
/// record resolved.
pub open spec fn observation_attests_spec(
    o: JsonV,
    product: Seq<char>,
    device: Seq<char>,
    evidence_sha256: Seq<char>,
    version: Option<Seq<char>>,
    digest: Option<Seq<char>>,
) -> bool {
    &&& get_str_v(o, "schema"@) == Some("wisent.runtime-readiness-observation.v1"@)
    &&& get_bool_v(o, "ready"@) == Some(true)
    &&& get_str_v(o, "product_identifier"@) == Some(product)
    &&& match get_str_v(o, "device_id"@) {
        Some(d) => d,
        None => Seq::empty(),
    } == device
    &&& get_str_v(o, "evidence_sha256"@) == Some(evidence_sha256)
    &&& get_u64_v(o, "pending_permission_prompts"@) == Some(0u64)
    &&& get_u64_v(o, "pending_notification_prompts"@) == Some(0u64)
    &&& get_bool_v(o, "notification_delivery_disabled"@) == Some(true)
    &&& get_bool_v(o, "permission_prompt_invocation_disabled"@) == Some(true)
    &&& get_bool_v(o, "notification_prompt_invocation_disabled"@) == Some(true)
    &&& get_str_v(o, "product_version"@) == version
    &&& get_str_v(o, "executable_sha256"@) == digest
}

fn same_opt(a: Option<&str>, b: Option<&str>) -> (r: bool)
    ensures
        r == (opt_text(a) == opt_text(b)),
{
    match (a, b) {
        (Some(x), Some(y)) => str_eq(x, y),
        (None, None) => true,
        _ => false,
    }
}

pub fn observation_attests(
    observation: &Json,
    product: &str,
    device: &str,
    evidence_sha256: &str,
    version: Option<&str>,
    digest: Option<&str>,
) -> (r: bool)
    ensures
        r == observation_attests_spec(
            observation@,
            product@,
            device@,
            evidence_sha256@,
            opt_text(version),
            opt_text(digest),
        ),
{
    proof {
        reveal_strlit("");
    }
    let observed_device = match observation.get_str("device_id") {
        Some(d) => d,
        None => "",
    };
    assert(observed_device@ =~= match get_str_v(observation@, "device_id"@) {
        Some(d) => d,
        None => Seq::<char>::empty(),
    });
    same(observation.get_str("schema"), "wisent.runtime-readiness-observation.v1")
        && observation.get_bool("ready") == Some(true) && same(
        observation.get_str("product_identifier"),
        product,
    ) && str_eq(observed_device, device) && same(observation.get_str("evidence_sha256"), evidence_sha256)
        && observation.get_u64("pending_permission_prompts") == Some(0u64) && observation.get_u64(
        "pending_notification_prompts",
    ) == Some(0u64) && observation.get_bool("notification_delivery_disabled") == Some(true)
        && observation.get_bool("permission_prompt_invocation_disabled") == Some(true)
        && observation.get_bool("notification_prompt_invocation_disabled") == Some(true) && same_opt(
        observation.get_str("product_version"),
        version,
    ) && same_opt(observation.get_str("executable_sha256"), digest)
}

} // verus!

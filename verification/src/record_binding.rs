//! The runtime binding one record is planned with: read from the runtime
//! bindings document, typed, and held to the rules of its engine.
use vstd::prelude::*;
use crate::json::{get_bool_v, get_str_v, get_v, group_json_view, view_arr, view_obj, Json, JsonV};
use crate::text::{chars_of, is_alnum_char, is_space_char, str_eq};
use crate::typed::{read_struct, read_struct_exec, field_views, FieldKind};

verus! {

// ---------------------------------------------------------------------------
// The typed parts of a binding

pub const ACCOUNT_FIELDS: [(&'static str, FieldKind, bool); 3] = [
    ("mode", FieldKind::Str, false),
    ("account_id", FieldKind::OptStr, false),
    ("credential_refs", FieldKind::StrList, true),
];

pub const CONSTRAINT_FIELDS: [(&'static str, FieldKind, bool); 6] = [
    ("no_first_run_consent", FieldKind::Bool, false),
    ("no_system_permission_prompts", FieldKind::Bool, false),
    ("no_notifications", FieldKind::Bool, false),
    ("no_purchase", FieldKind::Bool, false),
    ("no_final_destructive_action", FieldKind::Bool, false),
    ("headless", FieldKind::Bool, false),
];

pub const DELIVERY_FIELDS: [(&'static str, FieldKind, bool); 2] = [
    ("kind", FieldKind::Str, false),
    ("secret_env", FieldKind::StrMap, true),
];

pub const PREPARED_PROOF_FIELDS: [(&'static str, FieldKind, bool); 16] = [
    ("schema", FieldKind::Str, false),
    ("product_identifier", FieldKind::Str, false),
    ("device_id", FieldKind::OptStr, false),
    ("observed_by", FieldKind::Str, false),
    ("product_version", FieldKind::Str, false),
    ("executable_sha256", FieldKind::Str, false),
    ("observed_at", FieldKind::Str, false),
    ("evidence_uri", FieldKind::Str, false),
    ("evidence_sha256", FieldKind::Str, false),
    ("installed", FieldKind::Bool, false),
    ("first_run_completed", FieldKind::Bool, false),
    ("pending_permission_prompts", FieldKind::U32, false),
    ("pending_notification_prompts", FieldKind::U32, false),
    ("notification_delivery_disabled", FieldKind::Bool, false),
    ("permission_prompt_invocation_disabled", FieldKind::Bool, false),
    ("notification_prompt_invocation_disabled", FieldKind::Bool, false),
];

pub const SURFACE_FIELDS: [(&'static str, FieldKind, bool); 7] = [
    ("family", FieldKind::Str, false),
    ("exact_url", FieldKind::Str, false),
    ("origin", FieldKind::Str, false),
    ("path", FieldKind::Str, false),
    ("allowed_origins", FieldKind::StrList, false),
    ("allowed_actions", FieldKind::StrList, false),
    ("terminal_outcomes", FieldKind::StrList, false),
];

// ---------------------------------------------------------------------------
// Secret references

pub open spec fn item_char(c: char) -> bool {
    is_alnum_char(c) || c == '.' || c == '_' || c == ':' || c == '-'
}

pub open spec fn field_char(c: char) -> bool {
    is_alnum_char(c) || c == '.' || c == '_' || c == '-'
}

/// An exact `item#field` secret reference.
pub open spec fn secret_reference_ok(r: Seq<char>) -> bool {
    match crate::text::split_once_char(r, '#') {
        Some((item, field)) => item.len() > 0 && field.len() > 0 && (forall|i: int|
            0 <= i < item.len() ==> item_char(#[trigger] item[i])) && (forall|i: int|
            0 <= i < field.len() ==> field_char(#[trigger] field[i])),
        None => false,
    }
}

fn all_chars(v: &Vec<char>, field: bool) -> (r: bool)
    ensures
        r == if field {
            forall|i: int| 0 <= i < v@.len() ==> field_char(#[trigger] v@[i])
        } else {
            forall|i: int| 0 <= i < v@.len() ==> item_char(#[trigger] v@[i])
        },
{
    let mut i: usize = 0;
    while i < v.len()
        invariant
            i <= v@.len(),
            if field {
                forall|j: int| 0 <= j < i ==> field_char(#[trigger] v@[j])
            } else {
                forall|j: int| 0 <= j < i ==> item_char(#[trigger] v@[j])
            },
        decreases v.len() - i,
    {
        let c = v[i];
        let ok = crate::text::is_alnum(c) || c == '.' || c == '_' || c == '-' || (!field && c == ':');
        if !ok {
            return false;
        }
        i = i + 1;
    }
    true
}

/// Whether a secret reference is an exact `item#field`.
pub fn secret_reference_valid(r: &str) -> (ok: bool)
    ensures
        ok == secret_reference_ok(r@),
{
    match crate::text::split_once_char_exec(&chars_of(r), '#') {
        Some((item, field)) => item.len() > 0 && field.len() > 0 && all_chars(&item, false)
            && all_chars(&field, true),
        None => false,
    }
}

// ---------------------------------------------------------------------------
// The binding of one record

/// A record's binding, typed: the field values of its account, constraints,
/// delivery, and of its prepared proof and surface identity when declared.
pub struct RecordBinding {
    pub account: Vec<Json>,
    pub constraints: Vec<Json>,
    pub delivery: Vec<Json>,
    pub prepared_proof: Option<Vec<Json>>,
    pub surface: Option<Vec<Json>>,
}

/// Why a record cannot be planned with the bindings document.
pub enum BindingRefusal {
    /// The document binds no such catalog and record.
    NoBinding,
    /// The binding is not configured; its diagnostic.
    Unconfigured(String),
    NoAccount,
    AccountInvalid,
    /// The anonymous probe mode carries an account claim or credentials.
    AnonymousAccount,
    /// The `none` mode carries an identity or credentials.
    NoneAccount,
    UnsupportedMode(String),
    CredentialRefs,
    NoConstraints,
    ConstraintsInvalid,
    /// The constraints would permit a prohibited crawl action.
    Prohibited,
    NoDelivery,
    DeliveryInvalid,
    /// A secret reference is not an exact `item#field`.
    SecretEnv,
    PreparedProofInvalid,
    WebDelivery,
    NativeDelivery,
    TerminalDelivery,
    DocsDelivery,
    UnsupportedEngine,
    SurfaceInvalid,
}

/// [`BindingRefusal`] over character sequences.
pub enum RefusalV {
    NoBinding,
    Unconfigured(Seq<char>),
    NoAccount,
    AccountInvalid,
    AnonymousAccount,
    NoneAccount,
    UnsupportedMode(Seq<char>),
    CredentialRefs,
    NoConstraints,
    ConstraintsInvalid,
    Prohibited,
    NoDelivery,
    DeliveryInvalid,
    SecretEnv,
    PreparedProofInvalid,
    WebDelivery,
    NativeDelivery,
    TerminalDelivery,
    DocsDelivery,
    UnsupportedEngine,
    SurfaceInvalid,
}

impl BindingRefusal {
    pub open spec fn view_refusal(&self) -> RefusalV {
        match self {
            BindingRefusal::NoBinding => RefusalV::NoBinding,
            BindingRefusal::Unconfigured(m) => RefusalV::Unconfigured(m@),
            BindingRefusal::NoAccount => RefusalV::NoAccount,
            BindingRefusal::AccountInvalid => RefusalV::AccountInvalid,
            BindingRefusal::AnonymousAccount => RefusalV::AnonymousAccount,
            BindingRefusal::NoneAccount => RefusalV::NoneAccount,
            BindingRefusal::UnsupportedMode(m) => RefusalV::UnsupportedMode(m@),
            BindingRefusal::CredentialRefs => RefusalV::CredentialRefs,
            BindingRefusal::NoConstraints => RefusalV::NoConstraints,
            BindingRefusal::ConstraintsInvalid => RefusalV::ConstraintsInvalid,
            BindingRefusal::Prohibited => RefusalV::Prohibited,
            BindingRefusal::NoDelivery => RefusalV::NoDelivery,
            BindingRefusal::DeliveryInvalid => RefusalV::DeliveryInvalid,
            BindingRefusal::SecretEnv => RefusalV::SecretEnv,
            BindingRefusal::PreparedProofInvalid => RefusalV::PreparedProofInvalid,
            BindingRefusal::WebDelivery => RefusalV::WebDelivery,
            BindingRefusal::NativeDelivery => RefusalV::NativeDelivery,
            BindingRefusal::TerminalDelivery => RefusalV::TerminalDelivery,
            BindingRefusal::DocsDelivery => RefusalV::DocsDelivery,
            BindingRefusal::UnsupportedEngine => RefusalV::UnsupportedEngine,
            BindingRefusal::SurfaceInvalid => RefusalV::SurfaceInvalid,
        }
    }
}

/// The object a binding is, when it is one.
pub open spec fn object_or_none(v: Option<JsonV>) -> Option<JsonV> {
    match v {
        Some(x) => if x is Object {
            Some(x)
        } else {
            None
        },
        None => None,
    }
}

/// The binding the document gives a catalog's record: `records.CATALOG.SLUG`,
/// each an object.
pub open spec fn binding_of(document: JsonV, catalog: Seq<char>, slug: Seq<char>) -> Option<JsonV> {
    match object_or_none(get_v(document, "records"@)) {
        Some(records) => match object_or_none(get_v(records, catalog)) {
            Some(c) => object_or_none(get_v(c, slug)),
            None => None,
        },
        None => None,
    }
}

pub open spec fn strings_of(v: JsonV) -> Seq<Seq<char>> {
    match v {
        JsonV::Array(items) => items.map_values(|x: JsonV| crate::json::str_v(x).unwrap()),
        _ => Seq::empty(),
    }
}

pub open spec fn map_values_of(v: JsonV) -> Seq<Seq<char>> {
    match v {
        JsonV::Object(fields) => fields.map_values(|f: (Seq<char>, JsonV)| crate::json::str_v(f.1).unwrap()),
        _ => Seq::empty(),
    }
}

pub open spec fn map_len(v: JsonV) -> nat {
    match v {
        JsonV::Object(fields) => fields.len(),
        _ => 0,
    }
}

/// The account rules of the declared mode.
pub open spec fn account_fault(account: Seq<JsonV>) -> Option<RefusalV> {
    let mode = crate::json::str_v(account[0]).unwrap();
    let refs = strings_of(account[2]);
    if mode == "anonymous-read-only-probe"@ {
        if account[1] != JsonV::Str("anonymous-read-only-probe"@) || refs.len() > 0 {
            Some(RefusalV::AnonymousAccount)
        } else {
            None
        }
    } else if mode == "none"@ {
        if account[1] != JsonV::Null || refs.len() > 0 {
            Some(RefusalV::NoneAccount)
        } else {
            None
        }
    } else {
        Some(RefusalV::UnsupportedMode(mode))
    }
}

pub open spec fn bad_credential_ref(r: Seq<char>) -> bool {
    r.len() == 0 || exists|i: int| 0 <= i < r.len() && is_space_char(#[trigger] r[i])
}

/// Whether the constraints forbid every prohibited crawl action.
pub open spec fn constraints_forbid(c: Seq<JsonV>) -> bool {
    c[0] == JsonV::Bool(true) && c[1] == JsonV::Bool(true) && c[2] == JsonV::Bool(true) && c[3]
        == JsonV::Bool(true) && c[4] == JsonV::Bool(true)
}

/// The delivery rules of an engine.
pub open spec fn delivery_fault(
    engine: Seq<char>,
    kind: Seq<char>,
    secret_env: JsonV,
    refs: Seq<Seq<char>>,
    has_proof: bool,
) -> Option<RefusalV> {
    if engine == "web"@ {
        if kind != "weles-service-env"@ || map_len(secret_env) != 2 || get_v(
            secret_env,
            "WELES_TOKEN"@,
        ) is None || get_v(secret_env, "WISENT_ORGANIZATION_ID"@) is None {
            Some(RefusalV::WebDelivery)
        } else {
            None
        }
    } else if engine == "mobile"@ || engine == "desktop"@ {
        if kind != "preauthenticated-device"@ || map_len(secret_env) != 0 || !has_proof {
            Some(RefusalV::NativeDelivery)
        } else {
            None
        }
    } else if engine == "cli"@ || engine == "tui"@ {
        let expected = if map_len(secret_env) == 0 {
            "none"@
        } else {
            "stado-secret-env"@
        };
        if kind != expected || map_values_of(secret_env).to_set() != refs.to_set() {
            Some(RefusalV::TerminalDelivery)
        } else {
            None
        }
    } else if engine == "docs"@ {
        if kind != "none"@ || map_len(secret_env) != 0 {
            Some(RefusalV::DocsDelivery)
        } else {
            None
        }
    } else {
        Some(RefusalV::UnsupportedEngine)
    }
}

/// Whether any secret reference of a delivery is not an exact `item#field`.
pub open spec fn bad_secret_env(secret_env: JsonV) -> bool {
    exists|i: int|
        0 <= i < map_values_of(secret_env).len() && !secret_reference_ok(
            #[trigger] map_values_of(secret_env)[i],
        )
}

/// A typed part of the binding: refused as missing, refused as invalid, or
/// read.
pub open spec fn part(
    binding: JsonV,
    key: Seq<char>,
    fields: Seq<(&'static str, FieldKind, bool)>,
    deny: bool,
    missing: RefusalV,
    invalid: RefusalV,
) -> Result<Seq<JsonV>, RefusalV> {
    match get_v(binding, key) {
        None => Err(missing),
        Some(v) => match read_struct(v, field_views(fields), deny) {
            None => Err(invalid),
            Some(values) => Ok(values),
        },
    }
}

/// An optional typed part: absent, refused, or read.
pub open spec fn optional_part(
    binding: JsonV,
    key: Seq<char>,
    fields: Seq<(&'static str, FieldKind, bool)>,
    deny: bool,
    invalid: RefusalV,
) -> Result<Option<Seq<JsonV>>, RefusalV> {
    match get_v(binding, key) {
        None => Ok(None),
        Some(v) => match read_struct(v, field_views(fields), deny) {
            None => Err(invalid),
            Some(values) => Ok(Some(values)),
        },
    }
}

pub open spec fn unconfigured_message(binding: JsonV) -> Seq<char> {
    match get_str_v(binding, "diagnostic"@) {
        Some(d) => d,
        None => "runtime binding is explicitly unconfigured"@,
    }
}

/// The typed binding of a record, or the first rule it breaks.
pub open spec fn record_binding_spec(
    document: JsonV,
    catalog: Seq<char>,
    engine: Seq<char>,
    slug: Seq<char>,
) -> Result<(Seq<JsonV>, Seq<JsonV>, Seq<JsonV>, Option<Seq<JsonV>>, Option<Seq<JsonV>>), RefusalV> {
    match binding_of(document, catalog, slug) {
        None => Err(RefusalV::NoBinding),
        Some(b) => if get_bool_v(b, "configured"@) != Some(true) {
            Err(RefusalV::Unconfigured(unconfigured_message(b)))
        } else {
            match part(b, "account"@, ACCOUNT_FIELDS@, true, RefusalV::NoAccount, RefusalV::AccountInvalid) {
                Err(e) => Err(e),
                Ok(account) => match account_fault(account) {
                    Some(f) => Err(f),
                    None => if exists|i: int|
                        0 <= i < strings_of(account[2]).len() && bad_credential_ref(
                            #[trigger] strings_of(account[2])[i],
                        ) {
                        Err(RefusalV::CredentialRefs)
                    } else {
                        match part(
                            b,
                            "constraints"@,
                            CONSTRAINT_FIELDS@,
                            true,
                            RefusalV::NoConstraints,
                            RefusalV::ConstraintsInvalid,
                        ) {
                            Err(e) => Err(e),
                            Ok(constraints) => if !constraints_forbid(constraints) {
                                Err(RefusalV::Prohibited)
                            } else {
                                match part(
                                    b,
                                    "delivery"@,
                                    DELIVERY_FIELDS@,
                                    true,
                                    RefusalV::NoDelivery,
                                    RefusalV::DeliveryInvalid,
                                ) {
                                    Err(e) => Err(e),
                                    Ok(delivery) => if bad_secret_env(delivery[1]) {
                                        Err(RefusalV::SecretEnv)
                                    } else {
                                        match optional_part(
                                            b,
                                            "prepared_proof"@,
                                            PREPARED_PROOF_FIELDS@,
                                            true,
                                            RefusalV::PreparedProofInvalid,
                                        ) {
                                            Err(e) => Err(e),
                                            Ok(proof) => match delivery_fault(
                                                engine,
                                                crate::json::str_v(delivery[0]).unwrap(),
                                                delivery[1],
                                                strings_of(account[2]),
                                                proof is Some,
                                            ) {
                                                Some(f) => Err(f),
                                                None => match optional_part(
                                                    b,
                                                    "surface"@,
                                                    SURFACE_FIELDS@,
                                                    false,
                                                    RefusalV::SurfaceInvalid,
                                                ) {
                                                    Err(e) => Err(e),
                                                    Ok(surface) => Ok(
                                                        (account, constraints, delivery, proof, surface),
                                                    ),
                                                },
                                            },
                                        }
                                    },
                                }
                            }
                        }
                    },
                },
            }
        },
    }
}

fn object_field<'a>(v: &'a Json, key: &str) -> (r: Option<&'a Json>)
    ensures
        match r {
            Some(x) => object_or_none(get_v(v@, key@)) == Some(x@),
            None => object_or_none(get_v(v@, key@)) is None,
        },
{
    broadcast use group_json_view;

    match v.get(key) {
        Some(x) => if x.is_object() {
            Some(x)
        } else {
            None
        },
        None => None,
    }
}

fn read_part(
    binding: &Json,
    key: &str,
    fields: &[(&'static str, FieldKind, bool)],
    deny: bool,
    missing: BindingRefusal,
    invalid: BindingRefusal,
) -> (r: Result<Vec<Json>, BindingRefusal>)
    ensures
        match r {
            Ok(vals) => part(binding@, key@, fields@, deny, missing.view_refusal(), invalid.view_refusal())
                == Ok::<Seq<JsonV>, RefusalV>(view_arr(vals@)),
            Err(e) => part(binding@, key@, fields@, deny, missing.view_refusal(), invalid.view_refusal())
                == Err::<Seq<JsonV>, RefusalV>(e.view_refusal()),
        },
{
    match binding.get(key) {
        None => Err(missing),
        Some(v) => match read_struct_exec(v, fields, deny) {
            None => Err(invalid),
            Some(vals) => Ok(vals),
        },
    }
}

fn read_optional_part(
    binding: &Json,
    key: &str,
    fields: &[(&'static str, FieldKind, bool)],
    deny: bool,
    invalid: BindingRefusal,
) -> (r: Result<Option<Vec<Json>>, BindingRefusal>)
    ensures
        match r {
            Ok(None) => optional_part(binding@, key@, fields@, deny, invalid.view_refusal())
                == Ok::<Option<Seq<JsonV>>, RefusalV>(None),
            Ok(Some(vals)) => optional_part(binding@, key@, fields@, deny, invalid.view_refusal())
                == Ok::<Option<Seq<JsonV>>, RefusalV>(Some(view_arr(vals@))),
            Err(e) => optional_part(binding@, key@, fields@, deny, invalid.view_refusal())
                == Err::<Option<Seq<JsonV>>, RefusalV>(e.view_refusal()),
        },
{
    match binding.get(key) {
        None => Ok(None),
        Some(v) => match read_struct_exec(v, fields, deny) {
            None => Err(invalid),
            Some(vals) => Ok(Some(vals)),
        },
    }
}

fn text_of(v: &Json) -> (r: &str)
    requires
        v@ is Str,
    ensures
        JsonV::Str(r@) == v@,
{
    match v {
        Json::Str(s) => s.as_str(),
        _ => "",
    }
}

fn string_items(v: &Json) -> (r: Vec<String>)
    requires
        crate::typed::kind_ok(FieldKind::StrList, v@),
    ensures
        crate::text::string_views(r@) == strings_of(v@),
{
    broadcast use group_json_view;

    let mut out: Vec<String> = Vec::new();
    match v {
        Json::Array(items) => {
            proof {
                crate::json::lemma_view_arr(items@);
            }
            let ghost iv = view_arr(items@);
            let mut i: usize = 0;
            while i < items.len()
                invariant
                    i <= items@.len(),
                    iv == view_arr(items@),
                    iv.len() == items@.len(),
                    forall|j: int| 0 <= j < items@.len() ==> #[trigger] iv[j] == items@[j]@,
                    crate::typed::all_str(iv),
                    crate::text::string_views(out@) =~= iv.take(i as int).map_values(
                        |x: JsonV| crate::json::str_v(x).unwrap(),
                    ),
                decreases items.len() - i,
            {
                assert(iv[i as int] is Str);
                let t = text_of(&items[i]);
                let ghost prior = out@;
                out.push(String::from_str(t));
                assert(crate::text::string_views(out@) =~= crate::text::string_views(prior).push(t@));
                assert(crate::json::str_v(iv[i as int]).unwrap() == t@);
                assert(iv.take(i + 1) =~= iv.take(i as int).push(iv[i as int]));
                i = i + 1;
            }
            assert(iv.take(items@.len() as int) =~= iv);
        },
        _ => {},
    }
    out
}

fn map_strings(v: &Json) -> (r: Vec<String>)
    requires
        crate::typed::kind_ok(FieldKind::StrMap, v@),
    ensures
        crate::text::string_views(r@) == map_values_of(v@),
{
    broadcast use group_json_view;

    let mut out: Vec<String> = Vec::new();
    match v {
        Json::Object(fields) => {
            proof {
                crate::json::lemma_view_obj(fields@);
            }
            let ghost fv = view_obj(fields@);
            let mut i: usize = 0;
            while i < fields.len()
                invariant
                    i <= fields@.len(),
                    fv == view_obj(fields@),
                    fv.len() == fields@.len(),
                    forall|j: int| 0 <= j < fields@.len() ==> #[trigger] fv[j] == (fields@[j].0@, fields@[j].1@),
                    crate::typed::all_str_values(fv),
                    crate::text::string_views(out@) =~= fv.take(i as int).map_values(
                        |f: (Seq<char>, JsonV)| crate::json::str_v(f.1).unwrap(),
                    ),
                decreases fields.len() - i,
            {
                assert(fv[i as int].1 is Str);
                let t = text_of(&fields[i].1);
                let ghost prior = out@;
                out.push(String::from_str(t));
                assert(crate::text::string_views(out@) =~= crate::text::string_views(prior).push(t@));
                assert(crate::json::str_v(fv[i as int].1).unwrap() == t@);
                assert(fv.take(i + 1) =~= fv.take(i as int).push(fv[i as int]));
                i = i + 1;
            }
            assert(fv.take(fields@.len() as int) =~= fv);
        },
        _ => {},
    }
    out
}

fn has_space(s: &str) -> (r: bool)
    ensures
        r == exists|i: int| 0 <= i < s@.len() && is_space_char(#[trigger] s@[i]),
{
    let v = chars_of(s);
    let mut i: usize = 0;
    while i < v.len()
        invariant
            i <= v@.len(),
            v@ == s@,
            forall|j: int| 0 <= j < i ==> !is_space_char(#[trigger] v@[j]),
        decreases v.len() - i,
    {
        if crate::text::is_space(v[i]) {
            return true;
        }
        i = i + 1;
    }
    false
}

fn contains_text(v: &Vec<String>, x: &str) -> (r: bool)
    ensures
        r == crate::text::string_views(v@).contains(x@),
{
    let ghost sv = crate::text::string_views(v@);
    let mut i: usize = 0;
    while i < v.len()
        invariant
            i <= v@.len(),
            sv == crate::text::string_views(v@),
            sv.len() == v@.len(),
            forall|j: int| 0 <= j < v@.len() ==> #[trigger] sv[j] == v@[j]@,
            forall|j: int| 0 <= j < i ==> sv[j] != x@,
        decreases v.len() - i,
    {
        if str_eq(v[i].as_str(), x) {
            assert(sv[i as int] == x@);
            return true;
        }
        i = i + 1;
    }
    false
}

/// Whether every element of `a` is in `b`.
fn all_in(a: &Vec<String>, b: &Vec<String>) -> (r: bool)
    ensures
        r == forall|i: int|
            0 <= i < a@.len() ==> crate::text::string_views(b@).contains(#[trigger] a@[i]@),
{
    let mut i: usize = 0;
    while i < a.len()
        invariant
            i <= a@.len(),
            forall|j: int| 0 <= j < i ==> crate::text::string_views(b@).contains(#[trigger] a@[j]@),
        decreases a.len() - i,
    {
        if !contains_text(b, a[i].as_str()) {
            return false;
        }
        i = i + 1;
    }
    true
}

proof fn lemma_tables_sound()
    ensures
        crate::typed::defaults_sound(field_views(ACCOUNT_FIELDS@)),
        crate::typed::defaults_sound(field_views(CONSTRAINT_FIELDS@)),
        crate::typed::defaults_sound(field_views(DELIVERY_FIELDS@)),
        field_views(ACCOUNT_FIELDS@)[0].1 == FieldKind::Str,
        field_views(ACCOUNT_FIELDS@)[1].1 == FieldKind::OptStr,
        field_views(ACCOUNT_FIELDS@)[2].1 == FieldKind::StrList,
        field_views(ACCOUNT_FIELDS@).len() == 3,
        field_views(CONSTRAINT_FIELDS@).len() == 6,
        field_views(DELIVERY_FIELDS@)[0].1 == FieldKind::Str,
        field_views(DELIVERY_FIELDS@)[1].1 == FieldKind::StrMap,
        field_views(DELIVERY_FIELDS@).len() == 2,
{
    let a = field_views(ACCOUNT_FIELDS@);
    let c = field_views(CONSTRAINT_FIELDS@);
    let d = field_views(DELIVERY_FIELDS@);
    assert(a[0].2 == false && a[1].2 == false && a[2].2 == true);
    assert forall|j: int| 0 <= j < c.len() implies !#[trigger] c[j].2 by {}
    assert(d[0].2 == false && d[1].2 == true);
}

fn bool_true(v: &Json) -> (r: bool)
    ensures
        r == (v@ == JsonV::Bool(true)),
{
    match v {
        Json::Bool(b) => *b,
        _ => false,
    }
}

/// The typed runtime binding a record is planned with, or the first rule
/// the bindings document breaks for it.
#[verifier::loop_isolation(false)]
pub fn runtime_binding(document: &Json, catalog: &str, engine: &str, slug: &str) -> (r: Result<
    RecordBinding,
    BindingRefusal,
>)
    ensures
        match r {
            Ok(b) => record_binding_spec(document@, catalog@, engine@, slug@) == Ok::<
                (Seq<JsonV>, Seq<JsonV>, Seq<JsonV>, Option<Seq<JsonV>>, Option<Seq<JsonV>>),
                RefusalV,
            >(
                (
                    view_arr(b.account@),
                    view_arr(b.constraints@),
                    view_arr(b.delivery@),
                    match b.prepared_proof {
                        Some(p) => Some(view_arr(p@)),
                        None => None,
                    },
                    match b.surface {
                        Some(p) => Some(view_arr(p@)),
                        None => None,
                    },
                ),
            ),
            Err(e) => record_binding_spec(document@, catalog@, engine@, slug@) == Err::<
                (Seq<JsonV>, Seq<JsonV>, Seq<JsonV>, Option<Seq<JsonV>>, Option<Seq<JsonV>>),
                RefusalV,
            >(e.view_refusal()),
        },
{
    broadcast use group_json_view;

    proof {
        lemma_tables_sound();
        reveal_strlit("anonymous-read-only-probe");
        reveal_strlit("none");
    }
    let records = match object_field(document, "records") {
        Some(x) => x,
        None => return Err(BindingRefusal::NoBinding),
    };
    let entries = match object_field(records, catalog) {
        Some(x) => x,
        None => return Err(BindingRefusal::NoBinding),
    };
    let binding = match object_field(entries, slug) {
        Some(x) => x,
        None => return Err(BindingRefusal::NoBinding),
    };
    assert(binding_of(document@, catalog@, slug@) == Some(binding@));
    if binding.get_bool("configured") != Some(true) {
        let message = match binding.get_str("diagnostic") {
            Some(d) => String::from_str(d),
            None => String::from_str("runtime binding is explicitly unconfigured"),
        };
        return Err(BindingRefusal::Unconfigured(message));
    }
    let account = match read_part(
        binding,
        "account",
        &ACCOUNT_FIELDS,
        true,
        BindingRefusal::NoAccount,
        BindingRefusal::AccountInvalid,
    ) {
        Ok(a) => a,
        Err(e) => return Err(e),
    };
    proof {
        crate::json::lemma_view_arr(account@);
        crate::typed::lemma_read_struct_kinds(
            get_v(binding@, "account"@).unwrap(),
            field_views(ACCOUNT_FIELDS@),
            true,
        );
        assert(view_arr(account@)[0] == account@[0]@);
        assert(view_arr(account@)[1] == account@[1]@);
        assert(view_arr(account@)[2] == account@[2]@);
    }
    let mode = text_of(&account[0]);
    let refs = string_items(&account[2]);
    let account_id_is = |expected: Option<&str>| -> (b: bool)
        ensures
            b == (account@[1]@ == match expected {
                Some(e) => JsonV::Str(e@),
                None => JsonV::Null,
            }),
        {
            match (&account[1], expected) {
                (Json::Null, None) => true,
                (Json::Str(s), Some(e)) => str_eq(s.as_str(), e),
                _ => false,
            }
        };
    if str_eq(mode, "anonymous-read-only-probe") {
        if !account_id_is(Some("anonymous-read-only-probe")) || refs.len() > 0 {
            return Err(BindingRefusal::AnonymousAccount);
        }
    } else if str_eq(mode, "none") {
        if !account_id_is(None) || refs.len() > 0 {
            return Err(BindingRefusal::NoneAccount);
        }
    } else {
        return Err(BindingRefusal::UnsupportedMode(String::from_str(mode)));
    }
    assert(account_fault(view_arr(account@)) is None);
    let ghost rv = strings_of(view_arr(account@)[2]);
    let mut i: usize = 0;
    while i < refs.len()
        invariant
            i <= refs@.len(),
            crate::text::string_views(refs@) == rv,
            rv.len() == refs@.len(),
            forall|j: int| 0 <= j < i ==> !bad_credential_ref(#[trigger] rv[j]),
        decreases refs.len() - i,
    {
        assert(rv[i as int] == refs@[i as int]@);
        if refs[i].as_str().unicode_len() == 0 || has_space(refs[i].as_str()) {
            assert(bad_credential_ref(rv[i as int]));
            return Err(BindingRefusal::CredentialRefs);
        }
        i = i + 1;
    }
    let constraints = match read_part(
        binding,
        "constraints",
        &CONSTRAINT_FIELDS,
        true,
        BindingRefusal::NoConstraints,
        BindingRefusal::ConstraintsInvalid,
    ) {
        Ok(c) => c,
        Err(e) => return Err(e),
    };
    proof {
        crate::json::lemma_view_arr(constraints@);
        crate::typed::lemma_read_struct_kinds(
            get_v(binding@, "constraints"@).unwrap(),
            field_views(CONSTRAINT_FIELDS@),
            true,
        );
    }
    if !(bool_true(&constraints[0]) && bool_true(&constraints[1]) && bool_true(&constraints[2])
        && bool_true(&constraints[3]) && bool_true(&constraints[4])) {
        proof {
            assert(forall|j: int| 0 <= j < 5 ==> view_arr(constraints@)[j] == constraints@[j]@);
        }
        return Err(BindingRefusal::Prohibited);
    }
    proof {
        assert(forall|j: int| 0 <= j < 5 ==> view_arr(constraints@)[j] == constraints@[j]@);
    }
    let delivery = match read_part(
        binding,
        "delivery",
        &DELIVERY_FIELDS,
        true,
        BindingRefusal::NoDelivery,
        BindingRefusal::DeliveryInvalid,
    ) {
        Ok(d) => d,
        Err(e) => return Err(e),
    };
    proof {
        crate::json::lemma_view_arr(delivery@);
        crate::typed::lemma_read_struct_kinds(
            get_v(binding@, "delivery"@).unwrap(),
            field_views(DELIVERY_FIELDS@),
            true,
        );
        assert(view_arr(delivery@)[0] == delivery@[0]@);
        assert(view_arr(delivery@)[1] == delivery@[1]@);
    }
    let secrets = map_strings(&delivery[1]);
    let ghost sv = map_values_of(view_arr(delivery@)[1]);
    let mut k: usize = 0;
    while k < secrets.len()
        invariant
            k <= secrets@.len(),
            crate::text::string_views(secrets@) == sv,
            sv.len() == secrets@.len(),
            forall|j: int| 0 <= j < k ==> secret_reference_ok(#[trigger] sv[j]),
        decreases secrets.len() - k,
    {
        assert(sv[k as int] == secrets@[k as int]@);
        if !secret_reference_valid(secrets[k].as_str()) {
            return Err(BindingRefusal::SecretEnv);
        }
        k = k + 1;
    }
    let proof_values = match read_optional_part(
        binding,
        "prepared_proof",
        &PREPARED_PROOF_FIELDS,
        true,
        BindingRefusal::PreparedProofInvalid,
    ) {
        Ok(p) => p,
        Err(e) => return Err(e),
    };
    let kind = text_of(&delivery[0]);
    let env = &delivery[1];
    let env_len: usize = match env {
        Json::Object(fields) => {
            proof {
                crate::json::lemma_view_obj(fields@);
            }
            fields.len()
        },
        _ => 0,
    };
    let env_has = |name: &str| -> (b: bool)
        ensures
            b == (get_v(env@, name@) is Some),
        {
            env.get(name).is_some()
        };
    proof {
        reveal_strlit("web");
        reveal_strlit("mobile");
        reveal_strlit("desktop");
        reveal_strlit("cli");
        reveal_strlit("tui");
        reveal_strlit("docs");
    }
    assert(env_len == map_len(env@));
    let fault = if str_eq(engine, "web") {
        !str_eq(kind, "weles-service-env") || env_len != 2 || !env_has("WELES_TOKEN") || !env_has(
            "WISENT_ORGANIZATION_ID",
        )
    } else if str_eq(engine, "mobile") || str_eq(engine, "desktop") {
        !str_eq(kind, "preauthenticated-device") || env_len != 0 || proof_values.is_none()
    } else if str_eq(engine, "cli") || str_eq(engine, "tui") {
        let expected = if env_len == 0 {
            "none"
        } else {
            "stado-secret-env"
        };
        let in_refs = all_in(&secrets, &refs);
        let in_secrets = all_in(&refs, &secrets);
        let same = in_refs && in_secrets;
        proof {
            let a = crate::text::string_views(secrets@);
            let b = crate::text::string_views(refs@);
            assert(same == (a.to_set() == b.to_set())) by {
                if same {
                    assert forall|x: Seq<char>| a.to_set().contains(x) == b.to_set().contains(x) by {
                        if a.contains(x) {
                            let i = choose|i: int| 0 <= i < a.len() && a[i] == x;
                            assert(a[i] == secrets@[i]@);
                        }
                        if b.contains(x) {
                            let i = choose|i: int| 0 <= i < b.len() && b[i] == x;
                            assert(b[i] == refs@[i]@);
                        }
                    }
                    assert(a.to_set() =~= b.to_set());
                } else {
                    if !in_refs {
                        let i = choose|i: int| 0 <= i < secrets@.len() && !b.contains(#[trigger] secrets@[i]@);
                        assert(a[i] == secrets@[i]@);
                        assert(a.to_set().contains(a[i]));
                    } else {
                        let i = choose|i: int| 0 <= i < refs@.len() && !a.contains(#[trigger] refs@[i]@);
                        assert(b[i] == refs@[i]@);
                        assert(b.to_set().contains(b[i]));
                    }
                }
            }
        }
        !str_eq(kind, expected) || !same
    } else if str_eq(engine, "docs") {
        !str_eq(kind, "none") || env_len != 0
    } else {
        true
    };
    if fault {
        if str_eq(engine, "web") {
            return Err(BindingRefusal::WebDelivery);
        } else if str_eq(engine, "mobile") || str_eq(engine, "desktop") {
            return Err(BindingRefusal::NativeDelivery);
        } else if str_eq(engine, "cli") || str_eq(engine, "tui") {
            return Err(BindingRefusal::TerminalDelivery);
        } else if str_eq(engine, "docs") {
            return Err(BindingRefusal::DocsDelivery);
        } else {
            return Err(BindingRefusal::UnsupportedEngine);
        }
    }
    let surface = match read_optional_part(
        binding,
        "surface",
        &SURFACE_FIELDS,
        false,
        BindingRefusal::SurfaceInvalid,
    ) {
        Ok(p) => p,
        Err(e) => return Err(e),
    };
    Ok(RecordBinding { account, constraints, delivery, prepared_proof: proof_values, surface })
}

} // verus!

//! The runtime bindings document: which catalog records carry an explicit,
//! authorized runtime binding, and the defaults a generated document holds.
use vstd::prelude::*;
use crate::json::{
    get_bool_v, get_str_v, get_v, group_json_view, view_arr, view_obj, Json, JsonV,
};
use crate::runstate::count_of;
use crate::text::{str_eq, string_views};

verus! {

// ---------------------------------------------------------------------------
// Exact key sets

/// The keys of an object's fields, in order.
pub open spec fn keys_of(fields: Seq<(Seq<char>, JsonV)>) -> Seq<Seq<char>> {
    fields.map_values(|f: (Seq<char>, JsonV)| f.0)
}

/// Two lists of names that sort to the same list: every name occurs as often
/// in one as in the other.
pub open spec fn same_names(a: Seq<Seq<char>>, b: Seq<Seq<char>>) -> bool {
    forall|k: Seq<char>| count_of(a, k) == count_of(b, k)
}

proof fn lemma_count_absent(s: Seq<Seq<char>>, k: Seq<char>)
    requires
        !s.contains(k),
    ensures
        count_of(s, k) == 0,
    decreases s.len(),
{
    if s.len() > 0 {
        assert(!s.drop_last().contains(k)) by {
            if s.drop_last().contains(k) {
                let j = choose|j: int| 0 <= j < s.drop_last().len() && s.drop_last()[j] == k;
                assert(s[j] == k);
            }
        }
        lemma_count_absent(s.drop_last(), k);
        assert(s.last() != k) by {
            if s.last() == k {
                assert(s[s.len() - 1] == k);
            }
        }
    }
}

fn count_exec(v: &Vec<String>, w: &str) -> (r: usize)
    ensures
        r == count_of(string_views(v@), w@),
{
    let ghost sv = string_views(v@);
    let mut n: usize = 0;
    let mut i: usize = 0;
    while i < v.len()
        invariant
            i <= v@.len(),
            sv == string_views(v@),
            n == count_of(sv.take(i as int), w@),
            n <= i,
        decreases v.len() - i,
    {
        assert(sv.take(i + 1).drop_last() =~= sv.take(i as int));
        if str_eq(v[i].as_str(), w) {
            n = n + 1;
        }
        i = i + 1;
    }
    assert(sv.take(v@.len() as int) =~= sv);
    n
}

fn counts_agree(a: &Vec<String>, b: &Vec<String>) -> (r: bool)
    ensures
        r == forall|j: int|
            0 <= j < a@.len() ==> count_of(string_views(a@), #[trigger] string_views(a@)[j])
                == count_of(string_views(b@), string_views(a@)[j]),
{
    let ghost av = string_views(a@);
    let mut i: usize = 0;
    while i < a.len()
        invariant
            i <= a@.len(),
            av == string_views(a@),
            forall|j: int|
                0 <= j < i ==> count_of(av, #[trigger] av[j]) == count_of(string_views(b@), av[j]),
        decreases a.len() - i,
    {
        if count_exec(a, a[i].as_str()) != count_exec(b, a[i].as_str()) {
            assert(av[i as int] == a@[i as int]@);
            assert(count_of(av, av[i as int]) != count_of(string_views(b@), av[i as int]));
            return false;
        }
        i = i + 1;
    }
    true
}

/// Whether two name lists sort to the same list.
pub fn same_names_exec(a: &Vec<String>, b: &Vec<String>) -> (r: bool)
    ensures
        r == same_names(string_views(a@), string_views(b@)),
{
    let ghost av = string_views(a@);
    let ghost bv = string_views(b@);
    let x = counts_agree(a, b);
    let y = counts_agree(b, a);
    proof {
        if x && y {
            assert forall|k: Seq<char>| count_of(av, k) == count_of(bv, k) by {
                if av.contains(k) {
                    let j = choose|j: int| 0 <= j < av.len() && av[j] == k;
                    assert(count_of(av, av[j]) == count_of(bv, av[j]));
                } else if bv.contains(k) {
                    let j = choose|j: int| 0 <= j < bv.len() && bv[j] == k;
                    assert(count_of(bv, bv[j]) == count_of(av, bv[j]));
                } else {
                    lemma_count_absent(av, k);
                    lemma_count_absent(bv, k);
                }
            }
        }
    }
    x && y
}

fn key_list(fields: &Vec<(String, Json)>) -> (r: Vec<String>)
    ensures
        string_views(r@) == keys_of(view_obj(fields@)),
{
    proof {
        crate::json::lemma_view_obj(fields@);
    }
    let mut out: Vec<String> = Vec::new();
    let mut i: usize = 0;
    while i < fields.len()
        invariant
            i <= fields@.len(),
            view_obj(fields@).len() == fields@.len(),
            forall|j: int| 0 <= j < fields@.len() ==> #[trigger] view_obj(fields@)[j] == (
                fields@[j].0@,
                fields@[j].1@,
            ),
            out@.len() == i,
            forall|j: int| 0 <= j < i ==> #[trigger] out@[j]@ == fields@[j].0@,
        decreases fields.len() - i,
    {
        out.push(fields[i].0.clone());
        i = i + 1;
    }
    assert(string_views(out@) =~= keys_of(view_obj(fields@)));
    out
}

fn name_list(names: &[&str]) -> (r: Vec<String>)
    ensures
        string_views(r@) == crate::host::words_view(names@),
{
    let mut out: Vec<String> = Vec::new();
    let mut i: usize = 0;
    while i < names.len()
        invariant
            i <= names@.len(),
            out@.len() == i,
            forall|j: int| 0 <= j < i ==> #[trigger] out@[j]@ == names@[j]@,
        decreases names.len() - i,
    {
        out.push(String::from_str(names[i]));
        i = i + 1;
    }
    assert(string_views(out@) =~= crate::host::words_view(names@));
    out
}

/// Why an object does not have exactly the expected fields.
pub enum KeysError {
    /// The value is not an object.
    NotObject,
    /// The fields differ: the expected names and the names found.
    Differ(Vec<String>, Vec<String>),
}

/// An object with exactly the given field names.
pub open spec fn exact_keys(value: JsonV, expected: Seq<Seq<char>>) -> bool {
    match value {
        JsonV::Object(fields) => same_names(keys_of(fields), expected),
        _ => false,
    }
}

/// Require an object with exactly the given field names.
pub fn require_exact_object_keys(value: &Json, expected: &[&str]) -> (r: Result<(), KeysError>)
    ensures
        r is Ok <==> exact_keys(value@, crate::host::words_view(expected@)),
        r matches Err(KeysError::NotObject) ==> !(value@ is Object),
{
    broadcast use group_json_view;

    match value {
        Json::Object(fields) => {
            let actual = key_list(fields);
            let wanted = name_list(expected);
            if same_names_exec(&actual, &wanted) {
                Ok(())
            } else {
                Err(KeysError::Differ(wanted, actual))
            }
        },
        _ => Err(KeysError::NotObject),
    }
}

// ---------------------------------------------------------------------------
// Generated defaults

/// The binding a generated document gives a record nobody has bound yet.
pub open spec fn unconfigured_binding_spec(engine: Seq<char>) -> JsonV {
    JsonV::Object(
        seq![
            ("configured"@, JsonV::Bool(false)),
            ("diagnostic"@, JsonV::Str(
                engine
                    + " requires an explicit record binding and independently observed authorization proof"@,
            )),
        ],
    )
}

pub fn safe_unconfigured_binding(engine: &str) -> (r: Json)
    ensures
        r@ == unconfigured_binding_spec(engine@),
{
    broadcast use group_json_view;

    let mut fields: Vec<(String, Json)> = Vec::new();
    fields.push((String::from_str("configured"), Json::Bool(false)));
    fields.push(
        (
            String::from_str("diagnostic"),
            Json::Str(
                crate::text::concat(
                    engine,
                    " requires an explicit record binding and independently observed authorization proof",
                ),
            ),
        ),
    );
    assert(view_obj(fields@) =~= match unconfigured_binding_spec(engine@) {
        JsonV::Object(f) => f,
        _ => Seq::empty(),
    });
    crate::json::jobj(fields)
}

/// The account of a read-only anonymous probe.
pub open spec fn anonymous_probe_account_spec() -> JsonV {
    JsonV::Object(
        seq![
            ("mode"@, JsonV::Str("anonymous-read-only-probe"@)),
            ("account_id"@, JsonV::Str("anonymous-read-only-probe"@)),
            ("credential_refs"@, JsonV::Array(Seq::empty())),
        ],
    )
}

pub fn anonymous_probe_account() -> (r: Json)
    ensures
        r@ == anonymous_probe_account_spec(),
{
    broadcast use group_json_view;

    let mut fields: Vec<(String, Json)> = Vec::new();
    fields.push((String::from_str("mode"), crate::json::jstr("anonymous-read-only-probe")));
    fields.push((String::from_str("account_id"), crate::json::jstr("anonymous-read-only-probe")));
    fields.push((String::from_str("credential_refs"), Json::Array(Vec::new())));
    assert(view_arr(Seq::<Json>::empty()) =~= Seq::<JsonV>::empty());
    assert(view_obj(fields@) =~= match anonymous_probe_account_spec() {
        JsonV::Object(f) => f,
        _ => Seq::empty(),
    });
    crate::json::jobj(fields)
}

/// The actions every crawl refuses; only the browser engine runs headless.
pub open spec fn prohibited_action_constraints_spec(engine: Seq<char>) -> JsonV {
    JsonV::Object(
        seq![
            ("no_first_run_consent"@, JsonV::Bool(true)),
            ("no_system_permission_prompts"@, JsonV::Bool(true)),
            ("no_notifications"@, JsonV::Bool(true)),
            ("no_purchase"@, JsonV::Bool(true)),
            ("no_final_destructive_action"@, JsonV::Bool(true)),
            ("headless"@, JsonV::Bool(engine == "web"@)),
        ],
    )
}

pub fn prohibited_action_constraints(engine: &str) -> (r: Json)
    ensures
        r@ == prohibited_action_constraints_spec(engine@),
{
    broadcast use group_json_view;

    let mut fields: Vec<(String, Json)> = Vec::new();
    fields.push((String::from_str("no_first_run_consent"), Json::Bool(true)));
    fields.push((String::from_str("no_system_permission_prompts"), Json::Bool(true)));
    fields.push((String::from_str("no_notifications"), Json::Bool(true)));
    fields.push((String::from_str("no_purchase"), Json::Bool(true)));
    fields.push((String::from_str("no_final_destructive_action"), Json::Bool(true)));
    fields.push((String::from_str("headless"), Json::Bool(str_eq(engine, "web"))));
    assert(view_obj(fields@) =~= match prohibited_action_constraints_spec(engine@) {
        JsonV::Object(f) => f,
        _ => Seq::empty(),
    });
    crate::json::jobj(fields)
}

// ---------------------------------------------------------------------------
// Validating a runtime bindings document

pub const RUNTIME_BINDINGS_SCHEMA: &'static str = "wisent.crawl-runtime-bindings.v1";

/// The fields a configured binding may carry.
pub open spec fn allowed_binding_keys() -> Seq<Seq<char>> {
    seq![
        "configured"@,
        "account"@,
        "constraints"@,
        "delivery"@,
        "prepared_proof"@,
        "surface"@,
    ]
}

/// Why one record's binding is refused.
pub enum BindingFault {
    /// An unconfigured binding carries other fields than its diagnostic.
    KeysDiffer,
    /// A configured binding carries unknown fields (these, in order).
    Unknown(Seq<Seq<char>>),
    /// A configured binding lacks this field.
    Missing(Seq<char>),
    /// `configured` is not an explicit boolean.
    NotBool,
}

pub open spec fn unknown_keys(fields: Seq<(Seq<char>, JsonV)>) -> Seq<Seq<char>> {
    keys_of(fields).filter(|k: Seq<char>| !allowed_binding_keys().contains(k))
}

/// The first rule a record's binding breaks, if any.
pub open spec fn binding_fault(binding: JsonV) -> Option<BindingFault> {
    match get_bool_v(binding, "configured"@) {
        Some(false) => if exact_keys(binding, seq!["configured"@, "diagnostic"@]) {
            None
        } else {
            Some(BindingFault::KeysDiffer)
        },
        Some(true) => match binding {
            JsonV::Object(fields) => if unknown_keys(fields).len() > 0 {
                Some(BindingFault::Unknown(unknown_keys(fields)))
            } else if get_v(binding, "account"@) is None {
                Some(BindingFault::Missing("account"@))
            } else if get_v(binding, "constraints"@) is None {
                Some(BindingFault::Missing("constraints"@))
            } else if get_v(binding, "delivery"@) is None {
                Some(BindingFault::Missing("delivery"@))
            } else {
                None
            },
            _ => Some(BindingFault::NotBool),
        },
        None => Some(BindingFault::NotBool),
    }
}

pub open spec fn faulty_binding() -> spec_fn((Seq<char>, JsonV)) -> bool {
    |f: (Seq<char>, JsonV)| binding_fault(f.1) is Some
}

/// Why one catalog's bindings are refused.
pub enum CatalogFault {
    /// The catalog's entry is not an object of records.
    NotObject,
    /// The catalog's checked-in records could not be listed.
    Listing,
    /// The records differ from the checked-in record slugs.
    RecordSet,
    /// This record's binding breaks a rule.
    Binding(Seq<char>, BindingFault),
}

/// The first rule a catalog's bindings break, if any.
pub open spec fn catalog_fault(records: JsonV, name: Seq<char>, expected: Option<Seq<Seq<char>>>) -> Option<
    CatalogFault,
> {
    match get_v(records, name) {
        Some(JsonV::Object(fields)) => match expected {
            None => Some(CatalogFault::Listing),
            Some(slugs) => if !same_names(keys_of(fields), slugs) {
                Some(CatalogFault::RecordSet)
            } else {
                match crate::text::first_index(fields, faulty_binding()) {
                    Some(i) => Some(
                        CatalogFault::Binding(fields[i].0, binding_fault(fields[i].1).unwrap()),
                    ),
                    None => None,
                }
            },
        },
        _ => Some(CatalogFault::NotObject),
    }
}

/// The first catalog, from the `i`-th on, whose bindings break a rule.
pub open spec fn first_catalog_fault(
    records: JsonV,
    expected: Seq<Option<Seq<Seq<char>>>>,
    i: int,
) -> Option<(Seq<char>, CatalogFault)>
    decreases 15 - i,
{
    if i < 0 || i >= 15 {
        None
    } else {
        let name = crate::catalog::catalogs_spec()[i].0;
        match catalog_fault(records, name, expected[i]) {
            Some(f) => Some((name, f)),
            None => first_catalog_fault(records, expected, i + 1),
        }
    }
}

/// Why a runtime bindings document is refused.
pub enum DocumentFault {
    TopKeys,
    Schema,
    RecordsNotObject,
    CatalogSet,
    Catalog(Seq<char>, CatalogFault),
}

pub open spec fn catalog_names() -> Seq<Seq<char>> {
    crate::catalog::catalogs_spec().map_values(|p: (Seq<char>, Seq<char>)| p.0)
}

/// The first rule a runtime bindings document breaks, if any, given the
/// checked-in record slugs of each catalog (absent where they could not be
/// listed).
pub open spec fn document_fault(doc: JsonV, expected: Seq<Option<Seq<Seq<char>>>>) -> Option<
    DocumentFault,
> {
    if !exact_keys(doc, seq!["schema"@, "records"@]) {
        Some(DocumentFault::TopKeys)
    } else if get_str_v(doc, "schema"@) != Some(RUNTIME_BINDINGS_SCHEMA@) {
        Some(DocumentFault::Schema)
    } else {
        match get_v(doc, "records"@) {
            Some(JsonV::Object(catalogs)) => if !same_names(keys_of(catalogs), catalog_names()) {
                Some(DocumentFault::CatalogSet)
            } else {
                match first_catalog_fault(JsonV::Object(catalogs), expected, 0) {
                    Some((name, f)) => Some(DocumentFault::Catalog(name, f)),
                    None => None,
                }
            },
            _ => Some(DocumentFault::RecordsNotObject),
        }
    }
}

/// Why a runtime bindings document was refused.
pub enum BindingsError {
    /// The document's own fields are not exactly `schema` and `records`.
    TopKeys(KeysError),
    /// The schema is not the runtime bindings schema.
    Schema,
    /// `records` is not an object.
    RecordsNotObject,
    /// The catalogs differ from the checked-in crawl catalogs.
    CatalogSet,
    /// A catalog's entry is not an object of records.
    CatalogNotObject(String),
    /// The checked-in records of a catalog could not be listed.
    RecordListing(String),
    /// A catalog's records differ from its checked-in record slugs.
    RecordSet(String),
    /// An unconfigured binding carries other fields (catalog, slug).
    UnconfiguredKeys(String, String, KeysError),
    /// A configured binding carries unknown fields (catalog, slug, fields).
    UnknownFields(String, String, Vec<String>),
    /// A configured binding lacks a field (catalog, slug, field).
    MissingField(String, String, &'static str),
    /// `configured` is not an explicit boolean (catalog, slug).
    ConfiguredNotBool(String, String),
}

impl BindingsError {
    pub open spec fn fault(&self) -> DocumentFault {
        match self {
            BindingsError::TopKeys(_) => DocumentFault::TopKeys,
            BindingsError::Schema => DocumentFault::Schema,
            BindingsError::RecordsNotObject => DocumentFault::RecordsNotObject,
            BindingsError::CatalogSet => DocumentFault::CatalogSet,
            BindingsError::CatalogNotObject(c) => DocumentFault::Catalog(c@, CatalogFault::NotObject),
            BindingsError::RecordListing(c) => DocumentFault::Catalog(c@, CatalogFault::Listing),
            BindingsError::RecordSet(c) => DocumentFault::Catalog(c@, CatalogFault::RecordSet),
            BindingsError::UnconfiguredKeys(c, s, _) => DocumentFault::Catalog(
                c@,
                CatalogFault::Binding(s@, BindingFault::KeysDiffer),
            ),
            BindingsError::UnknownFields(c, s, k) => DocumentFault::Catalog(
                c@,
                CatalogFault::Binding(s@, BindingFault::Unknown(string_views(k@))),
            ),
            BindingsError::MissingField(c, s, f) => DocumentFault::Catalog(
                c@,
                CatalogFault::Binding(s@, BindingFault::Missing(f@)),
            ),
            BindingsError::ConfiguredNotBool(c, s) => DocumentFault::Catalog(
                c@,
                CatalogFault::Binding(s@, BindingFault::NotBool),
            ),
        }
    }
}

fn check_binding(catalog: &str, slug: &str, binding: &Json) -> (r: Result<(), BindingsError>)
    ensures
        match binding_fault(binding@) {
            None => r is Ok,
            Some(f) => r matches Err(e) && e.fault() == DocumentFault::Catalog(
                catalog@,
                CatalogFault::Binding(slug@, f),
            ),
        },
{
    broadcast use group_json_view;

    match binding.get_bool("configured") {
        Some(false) => {
            let keys = ["configured", "diagnostic"];
            assert(crate::host::words_view(keys@) =~= seq!["configured"@, "diagnostic"@]);
            match require_exact_object_keys(binding, &keys) {
                Ok(()) => Ok(()),
                Err(e) => Err(
                    BindingsError::UnconfiguredKeys(
                        String::from_str(catalog),
                        String::from_str(slug),
                        e,
                    ),
                ),
            }
        },
        Some(true) => {
            let fields = match binding {
                Json::Object(fields) => fields,
                _ => {
                    return Err(
                        BindingsError::ConfiguredNotBool(
                            String::from_str(catalog),
                            String::from_str(slug),
                        ),
                    );
                },
            };
            let allowed = [
                "configured",
                "account",
                "constraints",
                "delivery",
                "prepared_proof",
                "surface",
            ];
            assert(crate::host::words_view(allowed@) =~= allowed_binding_keys());
            let keys = key_list(fields);
            let ghost kv = string_views(keys@);
            let ghost pred = |k: Seq<char>| !allowed_binding_keys().contains(k);
            let mut unknown: Vec<String> = Vec::new();
            let mut i: usize = 0;
            while i < keys.len()
                invariant
                    i <= keys@.len(),
                    kv == string_views(keys@),
                    crate::host::words_view(allowed@) == allowed_binding_keys(),
                    pred == (|k: Seq<char>| !allowed_binding_keys().contains(k)),
                    string_views(unknown@) == kv.take(i as int).filter(pred),
                decreases keys.len() - i,
            {
                proof {
                    reveal(Seq::filter);
                    assert(kv.take(i + 1).drop_last() =~= kv.take(i as int));
                    assert(kv.take(i + 1).last() == kv[i as int]);
                }
                let ghost prev = unknown@;
                let mut listed = false;
                let mut k: usize = 0;
                while k < 6
                    invariant
                        k <= 6,
                        i < keys@.len(),
                        crate::host::words_view(allowed@) == allowed_binding_keys(),
                        listed == exists|m: int| 0 <= m < k && allowed_binding_keys()[m] == keys@[i as int]@,
                    decreases 6 - k,
                {
                    if str_eq(allowed[k], keys[i].as_str()) {
                        assert(allowed_binding_keys()[k as int] == allowed@[k as int]@);
                        listed = true;
                    }
                    k = k + 1;
                }
                assert(listed == allowed_binding_keys().contains(kv[i as int])) by {
                    if allowed_binding_keys().contains(kv[i as int]) {
                        let m = choose|m: int| 0 <= m < 6 && allowed_binding_keys()[m] == kv[i as int];
                    }
                }
                if !listed {
                    unknown.push(keys[i].clone());
                    assert(string_views(unknown@) =~= string_views(prev).push(kv[i as int]));
                }
                i = i + 1;
            }
            assert(kv.take(keys@.len() as int) =~= kv);
            if unknown.len() > 0 {
                return Err(
                    BindingsError::UnknownFields(
                        String::from_str(catalog),
                        String::from_str(slug),
                        unknown,
                    ),
                );
            }
            if binding.get("account").is_none() {
                return Err(
                    BindingsError::MissingField(
                        String::from_str(catalog),
                        String::from_str(slug),
                        "account",
                    ),
                );
            }
            if binding.get("constraints").is_none() {
                return Err(
                    BindingsError::MissingField(
                        String::from_str(catalog),
                        String::from_str(slug),
                        "constraints",
                    ),
                );
            }
            if binding.get("delivery").is_none() {
                return Err(
                    BindingsError::MissingField(
                        String::from_str(catalog),
                        String::from_str(slug),
                        "delivery",
                    ),
                );
            }
            Ok(())
        },
        None => Err(
            BindingsError::ConfiguredNotBool(String::from_str(catalog), String::from_str(slug)),
        ),
    }
}

#[verifier::loop_isolation(false)]
fn check_catalog_bindings(
    records: &Json,
    catalog: &str,
    expected: &Option<Vec<String>>,
) -> (r: Result<(), BindingsError>)
    ensures
        match catalog_fault(
            records@,
            catalog@,
            match expected {
                Some(v) => Some(string_views(v@)),
                None => None,
            },
        ) {
            None => r is Ok,
            Some(f) => r matches Err(e) && e.fault() == DocumentFault::Catalog(catalog@, f),
        },
{
    broadcast use group_json_view;

    let fields = match records.get(catalog) {
        Some(Json::Object(fields)) => fields,
        _ => return Err(BindingsError::CatalogNotObject(String::from_str(catalog))),
    };
    let slugs = match expected {
        Some(v) => v,
        None => return Err(BindingsError::RecordListing(String::from_str(catalog))),
    };
    let actual = key_list(fields);
    if !same_names_exec(&actual, slugs) {
        return Err(BindingsError::RecordSet(String::from_str(catalog)));
    }
    let ghost fv = view_obj(fields@);
    proof {
        crate::json::lemma_view_obj(fields@);
    }
    let mut i: usize = 0;
    while i < fields.len()
        invariant
            i <= fields@.len(),
            fv == view_obj(fields@),
            fv.len() == fields@.len(),
            forall|j: int| 0 <= j < fields@.len() ==> #[trigger] fv[j] == (fields@[j].0@, fields@[j].1@),
            forall|j: int| 0 <= j < i ==> !faulty_binding()(#[trigger] fv[j]),
        decreases fields.len() - i,
    {
        assert(fv[i as int] == (fields@[i as int].0@, fields@[i as int].1@));
        match check_binding(catalog, fields[i].0.as_str(), &fields[i].1) {
            Ok(()) => {},
            Err(e) => {
                proof {
                    crate::text::lemma_first_index(fv, faulty_binding(), i as int);
                }
                return Err(e);
            },
        }
        i = i + 1;
    }
    proof {
        crate::text::lemma_first_index(fv, faulty_binding(), i as int);
    }
    Ok(())
}

/// Check a runtime bindings document: exactly `schema` and `records`, the
/// runtime bindings schema, every and only the crawl catalogs, in each
/// every and only its checked-in record slugs (`expected`, one entry per
/// catalog in table order; absent where they could not be listed), and
/// every binding either an explicit unconfigured diagnostic or a configured
/// binding with account, constraints and delivery and no unknown field.
#[verifier::loop_isolation(false)]
pub fn validate_runtime_bindings_document(
    document: &Json,
    expected: &Vec<Option<Vec<String>>>,
) -> (r: Result<(), BindingsError>)
    requires
        expected@.len() == 15,
    ensures
        match document_fault(
            document@,
            expected@.map_values(
                |o: Option<Vec<String>>|
                    match o {
                        Some(v) => Some(string_views(v@)),
                        None => None,
                    },
            ),
        ) {
            None => r is Ok,
            Some(f) => r matches Err(e) && e.fault() == f,
        },
{
    broadcast use group_json_view;

    let ghost ev = expected@.map_values(
        |o: Option<Vec<String>>|
            match o {
                Some(v) => Some(string_views(v@)),
                None => None,
            },
    );
    let top = ["schema", "records"];
    assert(crate::host::words_view(top@) =~= seq!["schema"@, "records"@]);
    match require_exact_object_keys(document, &top) {
        Ok(()) => {},
        Err(e) => return Err(BindingsError::TopKeys(e)),
    }
    match document.get_str("schema") {
        Some(s) => if !str_eq(s, RUNTIME_BINDINGS_SCHEMA) {
            return Err(BindingsError::Schema);
        },
        None => return Err(BindingsError::Schema),
    }
    let records = match document.get("records") {
        Some(r) => r,
        None => return Err(BindingsError::RecordsNotObject),
    };
    let catalog_fields = match records {
        Json::Object(fields) => fields,
        _ => return Err(BindingsError::RecordsNotObject),
    };
    let actual = key_list(catalog_fields);
    let table = crate::catalog::CATALOGS;
    let mut names: Vec<String> = Vec::new();
    let mut k: usize = 0;
    while k < 15
        invariant
            k <= 15,
            table@ == crate::catalog::CATALOGS@,
            names@.len() == k,
            forall|j: int| 0 <= j < k ==> #[trigger] names@[j]@ == crate::catalog::CATALOGS@[j].0@,
        decreases 15 - k,
    {
        names.push(String::from_str(table[k].0));
        k = k + 1;
    }
    assert(string_views(names@) =~= catalog_names());
    if !same_names_exec(&actual, &names) {
        return Err(BindingsError::CatalogSet);
    }
    let mut i: usize = 0;
    while i < 15
        invariant
            i <= 15,
            table@ == crate::catalog::CATALOGS@,
            expected@.len() == 15,
            ev == expected@.map_values(
                |o: Option<Vec<String>>|
                    match o {
                        Some(v) => Some(string_views(v@)),
                        None => None,
                    },
            ),
            first_catalog_fault(records@, ev, 0) == first_catalog_fault(records@, ev, i as int),
        decreases 15 - i,
    {
        let name = table[i].0;
        assert(crate::catalog::catalogs_spec()[i as int].0 == name@);
        match check_catalog_bindings(records, name, &expected[i]) {
            Ok(()) => {},
            Err(e) => return Err(e),
        }
        i = i + 1;
    }
    Ok(())
}

} // verus!

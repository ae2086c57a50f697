//! Generating a runtime bindings document from the committed catalogs: the
//! command line that asks for it, and the binding each record gets.
use vstd::prelude::*;
use crate::bindings::{
    anonymous_probe_account, anonymous_probe_account_spec, prohibited_action_constraints,
    prohibited_action_constraints_spec, safe_unconfigured_binding, unconfigured_binding_spec,
};
use crate::json::{group_json_view, jobj2, jstr, obj2, push_field, view_arr, view_obj, Json, JsonV};
use crate::record_binding::{secret_reference_ok, secret_reference_valid};
use crate::registry::{parsed_url, url_parts};
use crate::text::{chars_of, ends_with, ends_with_exec, slice_chars, str_eq, string_of};

verus! {

// ---------------------------------------------------------------------------
// The command line

/// What `crawl bindings generate` asks for.
pub struct GenerateRequest {
    pub output: Option<String>,
    pub weles_token_ref: Option<String>,
    pub organization_ref: Option<String>,
}

/// Why a `crawl bindings generate` command line is refused.
#[derive(Debug)]
pub enum GenerateArgumentError {
    /// The flag named here has no value after it.
    MissingValue(String),
    /// An option the command does not take.
    Unknown(String),
    /// Only one of the two Weles references was given.
    Unpaired,
    /// A reference is not exact `ITEM#FIELD` syntax.
    InvalidReference,
}

pub open spec fn opt_view(o: Option<String>) -> Option<Seq<char>> {
    match o {
        Some(s) => Some(s@),
        None => None,
    }
}

/// The flags and values of the command line from position `i` on, given
/// the values already read (a later value of a flag replaces an earlier
/// one); `Err` names the flag without a value (`Ok` with `Some` on the
/// third component) or the unknown option.
pub open spec fn generate_from(
    args: Seq<Seq<char>>,
    i: int,
    output: Option<Seq<char>>,
    token: Option<Seq<char>>,
    organization: Option<Seq<char>>,
) -> Result<(Option<Seq<char>>, Option<Seq<char>>, Option<Seq<char>>), (bool, Seq<char>)>
    decreases args.len() - i,
{
    if i < 0 || i >= args.len() {
        Ok((output, token, organization))
    } else {
        let a = args[i];
        if a == "--output"@ || a == "--weles-token-ref"@ || a == "--organization-ref"@ {
            if i + 1 >= args.len() {
                Err((true, a))
            } else if a == "--output"@ {
                generate_from(args, i + 2, Some(args[i + 1]), token, organization)
            } else if a == "--weles-token-ref"@ {
                generate_from(args, i + 2, output, Some(args[i + 1]), organization)
            } else {
                generate_from(args, i + 2, output, token, Some(args[i + 1]))
            }
        } else {
            Err((false, a))
        }
    }
}

/// The request, once the references are checked: both or neither, each an
/// exact `ITEM#FIELD`.
pub open spec fn references_fault(token: Option<Seq<char>>, organization: Option<Seq<char>>) -> Option<bool> {
    if token is Some != organization is Some {
        Some(true)
    } else if (token matches Some(t) && !secret_reference_ok(t)) || (organization matches Some(o)
        && !secret_reference_ok(o)) {
        Some(false)
    } else {
        None
    }
}

pub fn parse_generate_arguments(rest: &[String]) -> (r: Result<GenerateRequest, GenerateArgumentError>)
    ensures
        match generate_from(rest@.map_values(|a: String| a@), 0, None, None, None) {
            Err((true, flag)) => r matches Err(GenerateArgumentError::MissingValue(f)) && f@ == flag,
            Err((false, arg)) => r matches Err(GenerateArgumentError::Unknown(a)) && a@ == arg,
            Ok((output, token, organization)) => match references_fault(token, organization) {
                Some(true) => r matches Err(GenerateArgumentError::Unpaired),
                Some(false) => r matches Err(GenerateArgumentError::InvalidReference),
                None => r matches Ok(req) && opt_view(req.output) == output && opt_view(
                    req.weles_token_ref,
                ) == token && opt_view(req.organization_ref) == organization,
            },
        },
{
    let ghost args = rest@.map_values(|a: String| a@);
    let ghost total = generate_from(args, 0, None, None, None);
    let mut output: Option<String> = None;
    let mut token: Option<String> = None;
    let mut organization: Option<String> = None;
    let mut i: usize = 0;
    while i < rest.len()
        invariant
            args == rest@.map_values(|a: String| a@),
            total == generate_from(args, 0, None, None, None),
            total == generate_from(args, i as int, opt_view(output), opt_view(token), opt_view(organization)),
        decreases rest.len() - i,
    {
        let a = rest[i].as_str();
        assert(args[i as int] == a@);
        let known = str_eq(a, "--output") || str_eq(a, "--weles-token-ref") || str_eq(a, "--organization-ref");
        if !known {
            return Err(GenerateArgumentError::Unknown(String::from_str(a)));
        }
        if i + 1 >= rest.len() {
            return Err(GenerateArgumentError::MissingValue(String::from_str(a)));
        }
        assert(args[i + 1] == rest@[i + 1]@);
        let value = rest[i + 1].clone();
        if str_eq(a, "--output") {
            output = Some(value);
        } else if str_eq(a, "--weles-token-ref") {
            token = Some(value);
        } else {
            organization = Some(value);
        }
        i = i + 2;
    }
    if token.is_some() != organization.is_some() {
        return Err(GenerateArgumentError::Unpaired);
    }
    let token_bad = match &token {
        Some(t) => !secret_reference_valid(t.as_str()),
        None => false,
    };
    let organization_bad = match &organization {
        Some(o) => !secret_reference_valid(o.as_str()),
        None => false,
    };
    if token_bad || organization_bad {
        return Err(GenerateArgumentError::InvalidReference);
    }
    Ok(GenerateRequest { output, weles_token_ref: token, organization_ref: organization })
}

// ---------------------------------------------------------------------------
// One record's binding

/// Why a record's binding cannot be generated.
#[derive(Debug, PartialEq, Eq, Structural)]
pub enum GenerateFault {
    /// Its reference names no product URL.
    NoProductUrl,
    /// Its product URL does not parse.
    InvalidProductUrl,
    /// A web catalog whose name does not end in `-examples`.
    NoFamily,
}

/// How a record's credentials reach its worker.
pub open spec fn delivery_spec(engine: Seq<char>, token: Seq<char>, organization: Seq<char>) -> JsonV {
    if engine == "web"@ {
        obj2(
            "kind"@,
            JsonV::Str("weles-service-env"@),
            "secret_env"@,
            obj2("WELES_TOKEN"@, JsonV::Str(token), "WISENT_ORGANIZATION_ID"@, JsonV::Str(organization)),
        )
    } else {
        obj2("kind"@, JsonV::Str("none"@), "secret_env"@, JsonV::Object(Seq::empty()))
    }
}

/// The browser surface of a web record.
pub open spec fn surface_spec(family: Seq<char>, exact_url: Seq<char>, origin: Seq<char>, path: Seq<char>) -> JsonV {
    JsonV::Object(
        seq![
            ("family"@, JsonV::Str(family)),
            ("exact_url"@, JsonV::Str(exact_url)),
            ("origin"@, JsonV::Str(origin)),
            ("path"@, JsonV::Str(path)),
            ("allowed_origins"@, JsonV::Array(seq![JsonV::Str(origin)])),
            ("allowed_actions"@, JsonV::Array(seq![JsonV::Str("generic_browser_task"@)])),
            ("terminal_outcomes"@, JsonV::Array(seq![
                JsonV::Str("blocked"@),
                JsonV::Str("completed"@),
                JsonV::Str("failed"@),
            ])),
        ],
    )
}

/// The binding a record of `catalog` gets: a web record without the Weles
/// references, and every record of a native engine, is explicitly
/// unconfigured; a web or docs record is an anonymous read-only probe of its
/// product URL, a web one on exactly that URL's origin.
pub open spec fn generated_binding_spec(
    catalog: Seq<char>,
    engine: Seq<char>,
    product_url: Option<Seq<char>>,
    refs: Option<(Seq<char>, Seq<char>)>,
) -> Result<JsonV, GenerateFault> {
    if (engine == "web"@ && refs is None) || !(engine == "web"@ || engine == "docs"@) {
        Ok(unconfigured_binding_spec(engine))
    } else {
        match product_url {
            None => Err(GenerateFault::NoProductUrl),
            Some(u) => if u.len() == 0 {
                Err(GenerateFault::NoProductUrl)
            } else {
                match parsed_url(u) {
                    None => Err(GenerateFault::InvalidProductUrl),
                    Some((_s, _u, _p, _h, origin, path, _q, _f, _ser)) => {
                        let (token, organization) = match refs {
                            Some(r) => r,
                            None => (Seq::empty(), Seq::empty()),
                        };
                        let base = seq![
                            ("configured"@, JsonV::Bool(true)),
                            ("account"@, anonymous_probe_account_spec()),
                            ("constraints"@, prohibited_action_constraints_spec(engine)),
                            ("delivery"@, delivery_spec(engine, token, organization)),
                        ];
                        if engine == "web"@ {
                            if ends_with(catalog, "-examples"@) {
                                Ok(
                                    JsonV::Object(
                                        base.push(
                                            (
                                                "surface"@,
                                                surface_spec(
                                                    catalog.take(catalog.len() - 9),
                                                    u,
                                                    origin,
                                                    path,
                                                ),
                                            ),
                                        ),
                                    ),
                                )
                            } else {
                                Err(GenerateFault::NoFamily)
                            }
                        } else {
                            Ok(JsonV::Object(base))
                        }
                    },
                }
            },
        }
    }
}

/// What binding a record gets: a record of a native engine, or a web record
/// without the Weles references, is unconfigured whatever its product URL;
/// a docs record, or a web record with references, needs a non-empty
/// product URL that parses; a docs record is then a configured anonymous
/// probe with no credentials delivered; a web record of catalog
/// `FAMILY-examples` is a configured probe whose worker receives the two
/// references as its Weles token and organization, confined to the product
/// URL's origin under `FAMILY`; and a web catalog with another name is
/// refused.
pub proof fn law_generated_bindings(
    catalog: Seq<char>,
    family: Seq<char>,
    engine: Seq<char>,
    product_url: Option<Seq<char>>,
    refs: Option<(Seq<char>, Seq<char>)>,
)
    ensures
        ({
            let r = generated_binding_spec(catalog, engine, product_url, refs);
            let wants = engine == "docs"@ || (engine == "web"@ && refs is Some);
            let parses = (product_url matches Some(u) && u.len() > 0 && parsed_url(u) is Some);
            &&& !(engine == "web"@ || engine == "docs"@) ==> r == Ok::<JsonV, GenerateFault>(
                unconfigured_binding_spec(engine),
            )
            &&& engine == "web"@ && refs is None ==> r == Ok::<JsonV, GenerateFault>(
                unconfigured_binding_spec(engine),
            )
            &&& wants && (product_url is None || product_url == Some(Seq::<char>::empty())) ==> r
                == Err::<JsonV, GenerateFault>(GenerateFault::NoProductUrl)
            &&& wants && (product_url matches Some(u) && u.len() > 0 && parsed_url(u) is None) ==> r
                == Err::<JsonV, GenerateFault>(GenerateFault::InvalidProductUrl)
            &&& engine == "docs"@ && parses ==> r == Ok::<JsonV, GenerateFault>(
                JsonV::Object(
                    seq![
                        ("configured"@, JsonV::Bool(true)),
                        ("account"@, anonymous_probe_account_spec()),
                        ("constraints"@, prohibited_action_constraints_spec(engine)),
                        ("delivery"@, obj2("kind"@, JsonV::Str("none"@), "secret_env"@, JsonV::Object(Seq::empty()))),
                    ],
                ),
            )
            &&& engine == "web"@ && parses && refs is Some && !ends_with(catalog, "-examples"@) ==> r
                == Err::<JsonV, GenerateFault>(GenerateFault::NoFamily)
            &&& engine == "web"@ && parses && refs is Some && catalog == family + "-examples"@ ==> ({
                let u = product_url->0;
                let (token, organization) = refs->0;
                let parts = parsed_url(u)->0;
                let origin = parts.4;
                (r matches Ok(JsonV::Object(f)) && f.len() == 5 && f[0] == ("configured"@, JsonV::Bool(true))
                    && f[3] == ("delivery"@, obj2(
                    "kind"@,
                    JsonV::Str("weles-service-env"@),
                    "secret_env"@,
                    obj2("WELES_TOKEN"@, JsonV::Str(token), "WISENT_ORGANIZATION_ID"@, JsonV::Str(organization)),
                )) && f[4].0 == "surface"@ && f[4].1->Object_0[0] == ("family"@, JsonV::Str(family))
                    && f[4].1->Object_0[1] == ("exact_url"@, JsonV::Str(u)) && f[4].1->Object_0[4] == (
                    "allowed_origins"@,
                    JsonV::Array(seq![JsonV::Str(origin)]),
                ))
            })
        }),
{
    reveal_strlit("web");
    reveal_strlit("docs");
    reveal_strlit("-examples");
    assert("web"@.len() != "docs"@.len());
    if catalog == family + "-examples"@ {
        assert(catalog.skip(catalog.len() - 9) =~= "-examples"@);
        assert(catalog.take(catalog.len() - 9) =~= family);
    }
}

fn strings(items: Vec<Json>) -> (r: Json)
    ensures
        r@ == JsonV::Array(view_arr(items@)),
{
    Json::Array(items)
}

pub fn generated_binding(
    catalog: &str,
    engine: &str,
    product_url: Option<&str>,
    token: Option<&str>,
    organization: Option<&str>,
) -> (r: Result<Json, GenerateFault>)
    requires
        token is Some == organization is Some,
    ensures
        match generated_binding_spec(
            catalog@,
            engine@,
            match product_url {
                Some(u) => Some(u@),
                None => None,
            },
            match (token, organization) {
                (Some(t), Some(o)) => Some((t@, o@)),
                _ => None,
            },
        ) {
            Ok(b) => r matches Ok(x) && x@ == b,
            Err(e) => r == Err::<Json, GenerateFault>(e),
        },
{
    broadcast use group_json_view;

    let web = str_eq(engine, "web");
    if (web && token.is_none()) || !(web || str_eq(engine, "docs")) {
        return Ok(safe_unconfigured_binding(engine));
    }
    let u = match product_url {
        Some(u) => u,
        None => return Err(GenerateFault::NoProductUrl),
    };
    if u.unicode_len() == 0 {
        return Err(GenerateFault::NoProductUrl);
    }
    let parts = match url_parts(u) {
        Some(p) => p,
        None => return Err(GenerateFault::InvalidProductUrl),
    };
    proof {
        reveal_strlit("");
    }
    let (t, o) = match (token, organization) {
        (Some(t), Some(o)) => (t, o),
        _ => ("", ""),
    };
    let delivery = if web {
        jobj2(
            "kind",
            jstr("weles-service-env"),
            "secret_env",
            jobj2("WELES_TOKEN", jstr(t), "WISENT_ORGANIZATION_ID", jstr(o)),
        )
    } else {
        let nothing: Vec<(String, Json)> = Vec::new();
        assert(view_obj(nothing@) =~= Seq::empty());
        jobj2("kind", jstr("none"), "secret_env", Json::Object(nothing))
    };
    let mut fields: Vec<(String, Json)> = Vec::new();
    assert(view_obj(fields@) =~= Seq::empty());
    push_field(&mut fields, "configured", Json::Bool(true));
    push_field(&mut fields, "account", anonymous_probe_account());
    push_field(&mut fields, "constraints", prohibited_action_constraints(engine));
    push_field(&mut fields, "delivery", delivery);
    if web {
        let name = chars_of(catalog);
        if !ends_with_exec(&name, &chars_of("-examples")) {
            return Err(GenerateFault::NoFamily);
        }
        proof {
            reveal_strlit("-examples");
        }
        let family = string_of(&slice_chars(&name, 0, name.len() - 9));
        let mut origins: Vec<Json> = Vec::new();
        origins.push(Json::Str(parts.origin.clone()));
        let mut actions: Vec<Json> = Vec::new();
        actions.push(jstr("generic_browser_task"));
        let mut outcomes: Vec<Json> = Vec::new();
        outcomes.push(jstr("blocked"));
        outcomes.push(jstr("completed"));
        outcomes.push(jstr("failed"));
        proof {
            crate::json::lemma_view_arr(origins@);
            crate::json::lemma_view_arr(actions@);
            crate::json::lemma_view_arr(outcomes@);
        }
        assert(view_arr(origins@) =~= seq![JsonV::Str(parts.origin@)]);
        assert(view_arr(actions@) =~= seq![JsonV::Str("generic_browser_task"@)]);
        assert(view_arr(outcomes@) =~= seq![
            JsonV::Str("blocked"@),
            JsonV::Str("completed"@),
            JsonV::Str("failed"@),
        ]);
        let mut surface: Vec<(String, Json)> = Vec::new();
        assert(view_obj(surface@) =~= Seq::empty());
        push_field(&mut surface, "family", Json::Str(family));
        push_field(&mut surface, "exact_url", jstr(u));
        push_field(&mut surface, "origin", Json::Str(parts.origin.clone()));
        push_field(&mut surface, "path", Json::Str(parts.path.clone()));
        push_field(&mut surface, "allowed_origins", strings(origins));
        push_field(&mut surface, "allowed_actions", strings(actions));
        push_field(&mut surface, "terminal_outcomes", strings(outcomes));
        assert(view_obj(surface@) =~= surface_spec(
            catalog@.take(catalog@.len() - 9),
            u@,
            parts.origin@,
            parts.path@,
        )->Object_0);
        push_field(&mut fields, "surface", Json::Object(surface));
    }
    let ghost expected = generated_binding_spec(
        catalog@,
        engine@,
        Some(u@),
        match (token, organization) {
            (Some(t), Some(o)) => Some((t@, o@)),
            _ => None,
        },
    );
    assert(t@ == match (token, organization) {
        (Some(t), Some(o)) => t@,
        _ => Seq::<char>::empty(),
    });
    assert(view_obj(fields@) =~= expected->Ok_0->Object_0);
    Ok(Json::Object(fields))
}

// ---------------------------------------------------------------------------
// The document

pub open spec fn records_view(records: Seq<(String, Json)>) -> Seq<(Seq<char>, JsonV)> {
    view_obj(records)
}

pub open spec fn catalogs_view(catalogs: Seq<(String, Vec<(String, Json)>)>) -> Seq<(Seq<char>, JsonV)> {
    catalogs.map_values(|c: (String, Vec<(String, Json)>)| (c.0@, JsonV::Object(view_obj(c.1@))))
}

/// A runtime bindings document: every catalog's records by name.
pub open spec fn bindings_document_spec(catalogs: Seq<(Seq<char>, JsonV)>) -> JsonV {
    obj2(
        "schema"@,
        JsonV::Str(crate::bindings::RUNTIME_BINDINGS_SCHEMA@),
        "records"@,
        JsonV::Object(catalogs),
    )
}

pub fn bindings_document(catalogs: Vec<(String, Vec<(String, Json)>)>) -> (r: Json)
    ensures
        r@ == bindings_document_spec(catalogs_view(catalogs@)),
{
    broadcast use group_json_view;

    let ghost expected = catalogs_view(catalogs@);
    let mut fields: Vec<(String, Json)> = Vec::new();
    let mut rest = catalogs;
    assert(view_obj(fields@) =~= Seq::empty());
    assert(expected =~= view_obj(fields@) + catalogs_view(rest@));
    while rest.len() > 0
        invariant
            expected == view_obj(fields@) + catalogs_view(rest@),
        decreases rest.len(),
    {
        let ghost old_rest = rest@;
        let (name, records) = rest.remove(0);
        let ghost entry = (name@, JsonV::Object(view_obj(records@)));
        assert(catalogs_view(old_rest) =~= seq![entry] + catalogs_view(rest@));
        let ghost before = view_obj(fields@);
        push_field(&mut fields, name.as_str(), Json::Object(records));
        assert(view_obj(fields@) + catalogs_view(rest@) =~= before + catalogs_view(old_rest));
    }
    assert(catalogs_view(rest@) =~= Seq::empty());
    assert(view_obj(fields@) =~= expected);
    jobj2("schema", jstr(crate::bindings::RUNTIME_BINDINGS_SCHEMA), "records", Json::Object(fields))
}


// ---------------------------------------------------------------------------
// Installing the document

/// What writing a generated bindings document to its path did.
#[derive(Debug, Clone, Copy, PartialEq, Eq, Structural)]
pub enum GenerateOutcome {
    /// No file was there.
    Created,
    /// A different regular file was there and was replaced.
    Replaced,
    /// The file already held exactly these bytes and was left alone.
    Unchanged,
}

impl GenerateOutcome {
    /// The word the operation report gives for this outcome.
    pub fn name(&self) -> (r: &'static str)
        ensures
            r@ == match *self {
                GenerateOutcome::Created => "created"@,
                GenerateOutcome::Replaced => "replaced"@,
                GenerateOutcome::Unchanged => "unchanged"@,
            },
    {
        match self {
            GenerateOutcome::Created => "created",
            GenerateOutcome::Replaced => "replaced",
            GenerateOutcome::Unchanged => "unchanged",
        }
    }
}

/// The outcome of installing `generated` where the regular file holding
/// `existing` was (`None`: nothing was there).
pub open spec fn generate_outcome_spec(existing: Option<Seq<u8>>, generated: Seq<u8>) -> GenerateOutcome {
    match existing {
        None => GenerateOutcome::Created,
        Some(bytes) => if bytes == generated {
            GenerateOutcome::Unchanged
        } else {
            GenerateOutcome::Replaced
        },
    }
}

#[verifier::loop_isolation(false)]
pub fn generate_outcome(existing: Option<&Vec<u8>>, generated: &Vec<u8>) -> (r: GenerateOutcome)
    ensures
        r == generate_outcome_spec(
            match existing {
                Some(b) => Some(b@),
                None => None,
            },
            generated@,
        ),
{
    match existing {
        None => GenerateOutcome::Created,
        Some(bytes) => {
            if bytes.len() != generated.len() {
                return GenerateOutcome::Replaced;
            }
            let mut i: usize = 0;
            while i < bytes.len()
                invariant
                    i <= bytes.len() == generated.len(),
                    forall|j: int| 0 <= j < i ==> bytes@[j] == generated@[j],
                decreases bytes.len() - i,
            {
                if bytes[i] != generated[i] {
                    assert(bytes@[i as int] != generated@[i as int]);
                    return GenerateOutcome::Replaced;
                }
                i = i + 1;
            }
            assert(bytes@ =~= generated@);
            GenerateOutcome::Unchanged
        },
    }
}

} // verus!

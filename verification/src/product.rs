//! The runtime product a committed record names: what kind of product it is,
//! the identity a worker must find on its host, and, for a web record, the
//! exact browser surface it may use.
use vstd::prelude::*;
use crate::json::{get_str_v, get_v, group_json_view, view_arr, view_obj, Json, JsonV};
use crate::registry::{parsed_url, url_parts};
use crate::text::{
    chars_of, ends_with, ends_with_exec, first_index, is_space, is_space_char, lemma_first_index, str_eq,
    string_of, slice_chars,
};

verus! {

/// What `url::Url::parse` followed by `query_pairs` gives for a text: its
/// query's name and value pairs, decoded, in order; `None` when the text does
/// not parse.
pub uninterp spec fn query_pairs_of(input: Seq<char>) -> Option<Seq<(Seq<char>, Seq<char>)>>;

pub open spec fn pair_views(v: Seq<(String, String)>) -> Seq<(Seq<char>, Seq<char>)> {
    v.map_values(|p: (String, String)| (p.0@, p.1@))
}

/// `url::Url::parse(input)` and its `query_pairs()`, each pair owned. The
/// form decoding is not restated: the outcome is named `query_pairs_of` of
/// the input.
#[verifier::external_body]
fn url_query_pairs(input: &str) -> (r: Option<Vec<(String, String)>>)
    ensures
        match r {
            Some(v) => query_pairs_of(input@) == Some(pair_views(v@)),
            None => query_pairs_of(input@) is None,
        },
{
    match ::url::Url::parse(input) {
        Ok(u) => Some(u.query_pairs().map(|(k, v)| (k.into_owned(), v.into_owned())).collect()),
        Err(_) => None,
    }
}

/// Why a committed record names no runtime product.
#[derive(Debug, Clone, Copy, PartialEq, Eq, Structural)]
pub enum ProductFault {
    /// The record has no product URL.
    NoProductUrl,
    /// The iOS bundle identifier could not be found for the product URL.
    NoBundle,
    /// The product URL does not parse.
    InvalidProductUrl,
    /// The Play product URL has no package id.
    NoPackage,
    /// The record has no product display name.
    NoDisplayName,
    /// The engine and catalog have no runtime identity.
    UnsupportedEngine,
    /// A web record has no typed surface.
    NoSurface,
    /// A web catalog's name has no `-examples` suffix.
    NoFamily,
    /// The web surface's family, origin, path, URL, actions or outcomes are
    /// not exact.
    InexactSurface,
    /// The identity cannot be embedded in a host resolution query.
    UnsafeIdentity,
}

/// The strings of an array field, when it is an array of strings.
pub open spec fn str_items(v: JsonV, key: Seq<char>) -> Option<Seq<Seq<char>>> {
    match get_v(v, key) {
        Some(JsonV::Array(items)) => if forall|i: int| 0 <= i < items.len() ==> (#[trigger] items[i]) is Str {
            Some(items.map_values(|x: JsonV| x->Str_0))
        } else {
            None
        },
        _ => None,
    }
}

/// The kind, identifier and identity source a record declares: `ios` is
/// what the iOS bundle lookup gave for the product URL (`None`: it found
/// none), `cli` the binary the CLI catalog maps the record to.
pub open spec fn declared_identity(
    catalog: Seq<char>,
    engine: Seq<char>,
    record: JsonV,
    product_url: Seq<char>,
    ios: Option<(Seq<char>, Seq<char>)>,
    cli: Seq<char>,
) -> Result<(Seq<char>, Seq<char>, Seq<char>), ProductFault> {
    let name = get_str_v(record, "name"@);
    if engine == "mobile"@ && catalog == "ios-app-examples"@ {
        match ios {
            Some((bundle, source)) => Ok(("ios-bundle"@, bundle, source)),
            None => Err(ProductFault::NoBundle),
        }
    } else if engine == "mobile"@ && catalog == "android-app-examples"@ {
        match query_pairs_of(product_url) {
            None => Err(ProductFault::InvalidProductUrl),
            Some(pairs) => match first_index(pairs, id_key()) {
                Some(i) => if pairs[i].1.len() > 0 {
                    Ok(("android-package"@, pairs[i].1, product_url))
                } else {
                    Err(ProductFault::NoPackage)
                },
                None => Err(ProductFault::NoPackage),
            },
        }
    } else if engine == "desktop"@ || engine == "tui"@ {
        match name {
            Some(n) => if n.len() > 0 {
                if engine == "desktop"@ {
                    Ok(("desktop-display-name"@, n, "pending unique typed host resolution"@))
                } else {
                    Ok(("tui-slug"@, n, "pending unique typed host executable/version resolution"@))
                }
            } else {
                Err(ProductFault::NoDisplayName)
            },
            None => Err(ProductFault::NoDisplayName),
        }
    } else if engine == "cli"@ {
        Ok(("cli-binary"@, cli, "Spis exact CLI catalog mapping"@))
    } else if engine == "web"@ || engine == "docs"@ {
        Ok(("url"@, product_url, "reference.json product_url"@))
    } else {
        Err(ProductFault::UnsupportedEngine)
    }
}

/// A query pair named `id`.
pub open spec fn id_key() -> spec_fn((Seq<char>, Seq<char>)) -> bool {
    |p: (Seq<char>, Seq<char>)| p.0 == "id"@
}

pub open spec fn no_space(s: Seq<char>) -> bool {
    forall|k: int| 0 <= k < s.len() ==> !is_space_char(#[trigger] s[k])
}

pub open spec fn terminal_outcome(s: Seq<char>) -> bool {
    s == "completed"@ || s == "failed"@ || s == "blocked"@
}

/// Whether a web surface is exactly the one its record's product URL gives:
/// its family, URL, origin and path, its origin among the allowed ones and
/// every allowed origin a URL, actions named without whitespace, and
/// terminal outcomes among completed, failed and blocked.
pub open spec fn surface_exact(
    surface: JsonV,
    family: Seq<char>,
    product_url: Seq<char>,
    origin: Seq<char>,
    path: Seq<char>,
) -> bool {
    &&& get_str_v(surface, "family"@) == Some(family)
    &&& get_str_v(surface, "exact_url"@) == Some(product_url)
    &&& get_str_v(surface, "origin"@) == Some(origin)
    &&& get_str_v(surface, "path"@) == Some(path)
    &&& str_items(surface, "allowed_origins"@) matches Some(origins) && origins.len() > 0
        && origins.contains(origin) && forall|i: int|
        0 <= i < origins.len() ==> parsed_url(#[trigger] origins[i]) is Some
    &&& str_items(surface, "allowed_actions"@) matches Some(actions) && actions.len() > 0 && forall|i: int|
        0 <= i < actions.len() ==> (#[trigger] actions[i]).len() > 0 && no_space(actions[i])
    &&& str_items(surface, "terminal_outcomes"@) matches Some(outcomes) && outcomes.len() > 0
        && forall|i: int| 0 <= i < outcomes.len() ==> terminal_outcome(#[trigger] outcomes[i])
}

/// The product document.
pub open spec fn product_v(
    kind: Seq<char>,
    identifier: Seq<char>,
    product_url: Seq<char>,
    source: Seq<char>,
    surface: JsonV,
) -> JsonV {
    JsonV::Object(
        seq![
            ("kind"@, JsonV::Str(kind)),
            ("declared_identifier"@, JsonV::Str(identifier)),
            ("identifier"@, JsonV::Str(identifier)),
            ("product_url"@, JsonV::Str(product_url)),
            ("identity_source"@, JsonV::Str(source)),
            ("surface"@, surface),
        ],
    )
}

/// The runtime product of a committed record of `catalog` on `engine`, with
/// the surface its binding gives (`null`: none).
pub open spec fn runtime_product_spec(
    catalog: Seq<char>,
    engine: Seq<char>,
    record: JsonV,
    surface: JsonV,
    ios: Option<(Seq<char>, Seq<char>)>,
    cli: Seq<char>,
) -> Result<JsonV, ProductFault> {
    match get_str_v(record, "product_url"@) {
        None => Err(ProductFault::NoProductUrl),
        Some(url) => if url.len() == 0 {
            Err(ProductFault::NoProductUrl)
        } else {
            match declared_identity(catalog, engine, record, url, ios, cli) {
                Err(f) => Err(f),
                Ok((kind, identifier, source)) => {
                    let surface_fault: Option<ProductFault> = if engine == "web"@ {
                        if surface is Null {
                            Some(ProductFault::NoSurface)
                        } else if !ends_with(catalog, "-examples"@) {
                            Some(ProductFault::NoFamily)
                        } else {
                            match parsed_url(url) {
                                None => Some(ProductFault::InvalidProductUrl),
                                Some((_s, _u, _p, _h, origin, path, _q, _f, _ser)) => if surface_exact(
                                    surface,
                                    catalog.take(catalog.len() - 9),
                                    url,
                                    origin,
                                    path,
                                ) {
                                    None
                                } else {
                                    Some(ProductFault::InexactSurface)
                                },
                            }
                        }
                    } else {
                        None
                    };
                    match surface_fault {
                        Some(f) => Err(f),
                        None => if (engine == "desktop"@ || engine == "cli"@ || engine == "tui"@)
                            && !crate::plan::host_query_literal_spec(identifier) {
                            Err(ProductFault::UnsafeIdentity)
                        } else {
                            Ok(product_v(kind, identifier, url, source, surface))
                        },
                    }
                },
            }
        },
    }
}

fn str_items_exec(v: &Json, key: &str) -> (r: Option<Vec<String>>)
    ensures
        match str_items(v@, key@) {
            Some(s) => r matches Some(x) && crate::text::string_views(x@) == s,
            None => r is None,
        },
{
    broadcast use group_json_view;

    let items = match v.get(key) {
        Some(Json::Array(items)) => items,
        _ => return None,
    };
    let ghost iv = view_arr(items@);
    proof {
        crate::json::lemma_view_arr(items@);
    }
    assert(get_v(v@, key@) == Some(JsonV::Array(iv)));
    let mut out: Vec<String> = Vec::new();
    let mut i: usize = 0;
    while i < items.len()
        invariant
            i <= items@.len(),
            iv == view_arr(items@),
            iv.len() == items@.len(),
            get_v(v@, key@) == Some(JsonV::Array(iv)),
            forall|j: int| 0 <= j < items@.len() ==> #[trigger] iv[j] == items@[j]@,
            forall|j: int| 0 <= j < i ==> (#[trigger] iv[j]) is Str,
            crate::text::string_views(out@) == iv.take(i as int).map_values(|x: JsonV| x->Str_0),
        decreases items.len() - i,
    {
        assert(iv[i as int] == items@[i as int]@);
        match &items[i] {
            Json::Str(s) => {
                let ghost before = out@;
                out.push(s.clone());
                assert(iv.take(i + 1) =~= iv.take(i as int).push(iv[i as int]));
                assert(crate::text::string_views(out@) =~= crate::text::string_views(before).push(s@));
            },
            _ => {
                return None;
            },
        }
        i = i + 1;
    }
    assert(iv.take(items@.len() as int) =~= iv);
    Some(out)
}

fn all_parse(items: &Vec<String>) -> (r: bool)
    ensures
        r == (forall|i: int|
            0 <= i < crate::text::string_views(items@).len() ==> parsed_url(
                #[trigger] crate::text::string_views(items@)[i],
            ) is Some),
{
    let ghost sv = crate::text::string_views(items@);
    let mut i: usize = 0;
    while i < items.len()
        invariant
            i <= items@.len(),
            sv == crate::text::string_views(items@),
            sv.len() == items@.len(),
            forall|j: int| 0 <= j < i ==> parsed_url(#[trigger] sv[j]) is Some,
        decreases items.len() - i,
    {
        assert(sv[i as int] == items@[i as int]@);
        if url_parts(items[i].as_str()).is_none() {
            return false;
        }
        i = i + 1;
    }
    true
}

fn contains_text(items: &Vec<String>, s: &str) -> (r: bool)
    ensures
        r == crate::text::string_views(items@).contains(s@),
{
    let ghost sv = crate::text::string_views(items@);
    let mut i: usize = 0;
    while i < items.len()
        invariant
            i <= items@.len(),
            sv == crate::text::string_views(items@),
            forall|j: int| 0 <= j < i ==> sv[j] != s@,
        decreases items.len() - i,
    {
        if str_eq(items[i].as_str(), s) {
            assert(sv[i as int] == s@);
            return true;
        }
        i = i + 1;
    }
    false
}

fn actions_named(items: &Vec<String>) -> (r: bool)
    ensures
        r == (forall|i: int|
            0 <= i < crate::text::string_views(items@).len() ==> (
            #[trigger] crate::text::string_views(items@)[i]).len() > 0 && no_space(
                crate::text::string_views(items@)[i],
            )),
{
    let ghost sv = crate::text::string_views(items@);
    let mut i: usize = 0;
    while i < items.len()
        invariant
            i <= items@.len(),
            sv == crate::text::string_views(items@),
            sv.len() == items@.len(),
            forall|j: int| 0 <= j < i ==> (#[trigger] sv[j]).len() > 0 && no_space(sv[j]),
        decreases items.len() - i,
    {
        assert(sv[i as int] == items@[i as int]@);
        let v = chars_of(items[i].as_str());
        if v.len() == 0 || crate::text::has_space(&v) {
            return false;
        }
        i = i + 1;
    }
    true
}

fn outcomes_known(items: &Vec<String>) -> (r: bool)
    ensures
        r == (forall|i: int|
            0 <= i < crate::text::string_views(items@).len() ==> terminal_outcome(
                #[trigger] crate::text::string_views(items@)[i],
            )),
{
    let ghost sv = crate::text::string_views(items@);
    let mut i: usize = 0;
    while i < items.len()
        invariant
            i <= items@.len(),
            sv == crate::text::string_views(items@),
            sv.len() == items@.len(),
            forall|j: int| 0 <= j < i ==> terminal_outcome(#[trigger] sv[j]),
        decreases items.len() - i,
    {
        assert(sv[i as int] == items@[i as int]@);
        let o = items[i].as_str();
        if !(str_eq(o, "completed") || str_eq(o, "failed") || str_eq(o, "blocked")) {
            return false;
        }
        i = i + 1;
    }
    true
}

fn first_id(pairs: &Vec<(String, String)>) -> (r: Option<usize>)
    ensures
        match first_index(pair_views(pairs@), id_key()) {
            Some(i) => r matches Some(j) && j as int == i,
            None => r is None,
        },
        r matches Some(i) ==> i < pairs@.len(),
{
    let ghost pv = pair_views(pairs@);
    let ghost f = id_key();
    let mut i: usize = 0;
    while i < pairs.len()
        invariant
            i <= pairs@.len(),
            pv == pair_views(pairs@),
            pv.len() == pairs@.len(),
            f == id_key(),
            forall|j: int| 0 <= j < i ==> !f(#[trigger] pv[j]),
        decreases pairs.len() - i,
    {
        assert(pv[i as int] == (pairs@[i as int].0@, pairs@[i as int].1@));
        if str_eq(pairs[i].0.as_str(), "id") {
            proof {
                lemma_first_index(pv, f, i as int);
            }
            return Some(i);
        }
        i = i + 1;
    }
    proof {
        lemma_first_index(pv, f, i as int);
    }
    None
}

fn declared_identity_exec(
    catalog: &str,
    engine: &str,
    record: &Json,
    product_url: &str,
    ios: Option<(&str, &str)>,
    cli: &str,
) -> (r: Result<(String, String, String), ProductFault>)
    ensures
        match declared_identity(
            catalog@,
            engine@,
            record@,
            product_url@,
            match ios {
                Some((b, s)) => Some((b@, s@)),
                None => None,
            },
            cli@,
        ) {
            Ok((k, i, s)) => r matches Ok((x, y, z)) && x@ == k && y@ == i && z@ == s,
            Err(f) => r == Err::<(String, String, String), ProductFault>(f),
        },
{
    let mobile = str_eq(engine, "mobile");
    if mobile && str_eq(catalog, "ios-app-examples") {
        return match ios {
            Some((bundle, source)) => Ok(
                (String::from_str("ios-bundle"), String::from_str(bundle), String::from_str(source)),
            ),
            None => Err(ProductFault::NoBundle),
        };
    }
    if mobile && str_eq(catalog, "android-app-examples") {
        let pairs = match url_query_pairs(product_url) {
            Some(p) => p,
            None => return Err(ProductFault::InvalidProductUrl),
        };
        return match first_id(&pairs) {
            Some(i) => {
                assert(pair_views(pairs@)[i as int] == (pairs@[i as int].0@, pairs@[i as int].1@));
                if chars_of(pairs[i].1.as_str()).len() > 0 {
                    Ok(
                        (
                            String::from_str("android-package"),
                            pairs[i].1.clone(),
                            String::from_str(product_url),
                        ),
                    )
                } else {
                    Err(ProductFault::NoPackage)
                }
            },
            None => Err(ProductFault::NoPackage),
        };
    }
    let desktop = str_eq(engine, "desktop");
    if desktop || str_eq(engine, "tui") {
        let name = match record.get_str("name") {
            Some(n) => n,
            None => return Err(ProductFault::NoDisplayName),
        };
        if chars_of(name).len() == 0 {
            return Err(ProductFault::NoDisplayName);
        }
        return if desktop {
            Ok(
                (
                    String::from_str("desktop-display-name"),
                    String::from_str(name),
                    String::from_str("pending unique typed host resolution"),
                ),
            )
        } else {
            Ok(
                (
                    String::from_str("tui-slug"),
                    String::from_str(name),
                    String::from_str("pending unique typed host executable/version resolution"),
                ),
            )
        };
    }
    if str_eq(engine, "cli") {
        return Ok(
            (
                String::from_str("cli-binary"),
                String::from_str(cli),
                String::from_str("Spis exact CLI catalog mapping"),
            ),
        );
    }
    if str_eq(engine, "web") || str_eq(engine, "docs") {
        return Ok(
            (
                String::from_str("url"),
                String::from_str(product_url),
                String::from_str("reference.json product_url"),
            ),
        );
    }
    Err(ProductFault::UnsupportedEngine)
}

fn surface_exact_exec(surface: &Json, family: &str, product_url: &str, origin: &str, path: &str) -> (r: bool)
    ensures
        r == surface_exact(surface@, family@, product_url@, origin@, path@),
{
    let fields_ok = match (
        surface.get_str("family"),
        surface.get_str("exact_url"),
        surface.get_str("origin"),
        surface.get_str("path"),
    ) {
        (Some(f), Some(u), Some(o), Some(p)) => str_eq(f, family) && str_eq(u, product_url) && str_eq(o, origin)
            && str_eq(p, path),
        _ => false,
    };
    if !fields_ok {
        return false;
    }
    let origins_ok = match str_items_exec(surface, "allowed_origins") {
        Some(o) => o.len() > 0 && contains_text(&o, origin) && all_parse(&o),
        None => false,
    };
    if !origins_ok {
        return false;
    }
    let actions_ok = match str_items_exec(surface, "allowed_actions") {
        Some(a) => a.len() > 0 && actions_named(&a),
        None => false,
    };
    if !actions_ok {
        return false;
    }
    match str_items_exec(surface, "terminal_outcomes") {
        Some(t) => t.len() > 0 && outcomes_known(&t),
        None => false,
    }
}

/// The runtime product of a committed record (`record`, its reference
/// document) of `catalog` on `engine`, with the surface its binding gives
/// (`null`: none). `ios` is what the iOS bundle lookup gave for the record's
/// product URL (`None`: it found none), `cli` the binary the CLI catalog maps
/// the record to.
pub fn runtime_product(
    catalog: &str,
    engine: &str,
    record: &Json,
    surface: Json,
    ios: Option<(&str, &str)>,
    cli: &str,
) -> (r: Result<Json, ProductFault>)
    ensures
        match runtime_product_spec(
            catalog@,
            engine@,
            record@,
            surface@,
            match ios {
                Some((b, s)) => Some((b@, s@)),
                None => None,
            },
            cli@,
        ) {
            Ok(p) => r matches Ok(x) && x@ == p,
            Err(f) => r == Err::<Json, ProductFault>(f),
        },
{
    broadcast use group_json_view;

    let url = match record.get_str("product_url") {
        Some(u) => u,
        None => return Err(ProductFault::NoProductUrl),
    };
    if chars_of(url).len() == 0 {
        return Err(ProductFault::NoProductUrl);
    }
    let (kind, identifier, source) = match declared_identity_exec(catalog, engine, record, url, ios, cli) {
        Ok(t) => t,
        Err(f) => return Err(f),
    };
    if str_eq(engine, "web") {
        if surface.is_null() {
            return Err(ProductFault::NoSurface);
        }
        proof {
            reveal_strlit("-examples");
        }
        let name = chars_of(catalog);
        if !ends_with_exec(&name, &chars_of("-examples")) {
            return Err(ProductFault::NoFamily);
        }
        let family = string_of(&slice_chars(&name, 0, name.len() - 9));
        assert(family@ =~= catalog@.take(catalog@.len() - 9));
        let parts = match url_parts(url) {
            Some(p) => p,
            None => return Err(ProductFault::InvalidProductUrl),
        };
        if !surface_exact_exec(&surface, family.as_str(), url, parts.origin.as_str(), parts.path.as_str()) {
            return Err(ProductFault::InexactSurface);
        }
    }
    if (str_eq(engine, "desktop") || str_eq(engine, "cli") || str_eq(engine, "tui"))
        && !crate::plan::is_host_query_literal(identifier.as_str()) {
        return Err(ProductFault::UnsafeIdentity);
    }
    let mut fields: Vec<(String, Json)> = Vec::new();
    crate::json::push_field(&mut fields, "kind", Json::Str(kind));
    crate::json::push_field(&mut fields, "declared_identifier", Json::Str(identifier.clone()));
    crate::json::push_field(&mut fields, "identifier", Json::Str(identifier));
    crate::json::push_field(&mut fields, "product_url", crate::json::jstr(url));
    crate::json::push_field(&mut fields, "identity_source", Json::Str(source));
    let ghost sv = surface@;
    crate::json::push_field(&mut fields, "surface", surface);
    assert(view_obj(fields@) =~= product_v(kind@, identifier@, url@, source@, sv)->Object_0);
    Ok(Json::Object(fields))
}

} // verus!

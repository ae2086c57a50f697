//! Where crawls run: reading the Stado registry for the hosts that declare
//! each execution boundary and for the Weles admission service web crawls
//! are bound to, and choosing a record's host.
use vstd::prelude::*;
use crate::cancel::pair_views;
use crate::json::{array_v, bool_v, get_str_v, get_v, group_json_view, str_v, u64_v, view_arr, view_obj, Json, JsonV};
use crate::text::{
    chars_of, first_index, lemma_first_index, parse_usize, parse_usize_spec, replace_all, split_char,
    concat, starts_with, starts_with_exec, str_eq,
};

verus! {

// ---------------------------------------------------------------------------
// JSON pointers

/// A pointer token with its escapes undone: `~1` is `/`, then `~0` is `~`.
pub open spec fn unescape_token(t: Seq<char>) -> Seq<char> {
    replace_all(replace_all(t, "~1"@, "/"@), "~0"@, "~"@)
}

/// An array index token: digits without a sign or a leading zero.
pub open spec fn index_token(t: Seq<char>) -> Option<nat> {
    if (t.len() > 0 && t[0] == '+') || (t.len() > 1 && t[0] == '0') {
        None
    } else {
        parse_usize_spec(t)
    }
}

/// One step of a pointer: an object's field, or an array's element.
pub open spec fn pointer_step(v: JsonV, token: Seq<char>) -> Option<JsonV> {
    match v {
        JsonV::Object(_) => get_v(v, token),
        JsonV::Array(items) => match index_token(token) {
            Some(i) => if i < items.len() {
                Some(items[i as int])
            } else {
                None
            },
            None => None,
        },
        _ => None,
    }
}

pub open spec fn walk(v: JsonV, tokens: Seq<Seq<char>>) -> Option<JsonV>
    decreases tokens.len(),
{
    if tokens.len() == 0 {
        Some(v)
    } else {
        match walk(v, tokens.drop_last()) {
            Some(x) => pointer_step(x, unescape_token(tokens.last())),
            None => None,
        }
    }
}

/// `Value::pointer`: the empty pointer is the value itself; otherwise the
/// pointer starts with `/` and each `/`-separated token steps inside.
pub open spec fn pointer_v(v: JsonV, path: Seq<char>) -> Option<JsonV> {
    if path.len() == 0 {
        Some(v)
    } else if path[0] != '/' {
        None
    } else {
        walk(v, split_char(path.drop_first(), '/'))
    }
}

fn step<'a>(v: &'a Json, token: &Vec<char>) -> (r: Option<&'a Json>)
    ensures
        match r {
            Some(x) => pointer_step(v@, token@) == Some(x@),
            None => pointer_step(v@, token@) is None,
        },
{
    broadcast use group_json_view;

    match v {
        Json::Object(_) => v.get(crate::text::string_of(token).as_str()),
        Json::Array(items) => {
            proof {
                crate::json::lemma_view_arr(items@);
            }
            if (token.len() > 0 && token[0] == '+') || (token.len() > 1 && token[0] == '0') {
                return None;
            }
            match parse_usize(token) {
                Some(i) => if i < items.len() {
                    Some(&items[i])
                } else {
                    None
                },
                None => None,
            }
        },
        _ => None,
    }
}

/// `Value::pointer` on the library's JSON.
pub fn pointer<'a>(v: &'a Json, path: &str) -> (r: Option<&'a Json>)
    ensures
        match r {
            Some(x) => pointer_v(v@, path@) == Some(x@),
            None => pointer_v(v@, path@) is None,
        },
{
    let p = chars_of(path);
    if p.len() == 0 {
        return Some(v);
    }
    if p[0] != '/' {
        return None;
    }
    let rest = crate::text::slice_chars(&p, 1, p.len());
    assert(rest@ =~= path@.drop_first());
    let tokens = crate::text::split_char_exec(&rest, '/');
    let ghost tv = tokens@.map_values(|x: Vec<char>| x@);
    assert(p@ == path@);
    let tilde1 = chars_of("~1");
    let tilde0 = chars_of("~0");
    let slash = chars_of("/");
    let tilde = chars_of("~");
    proof {
        reveal_strlit("~1");
        reveal_strlit("~0");
    }
    let mut cur: &Json = v;
    let mut i: usize = 0;
    while i < tokens.len()
        invariant
            i <= tokens@.len(),
            tv == tokens@.map_values(|x: Vec<char>| x@),
            tv == split_char(path@.drop_first(), '/'),
            path@.len() > 0 && path@[0] == '/',
            tv.len() == tokens@.len(),
            tilde1@ == "~1"@,
            tilde0@ == "~0"@,
            tilde1@.len() == 2,
            tilde0@.len() == 2,
            slash@ == "/"@,
            tilde@ == "~"@,
            walk(v@, tv.take(i as int)) == Some(cur@),
        decreases tokens.len() - i,
    {
        let once = crate::text::replace_exec(&tokens[i], &tilde1, &slash);
        let token = crate::text::replace_exec(&once, &tilde0, &tilde);
        proof {
            assert(tv.take(i + 1).drop_last() =~= tv.take(i as int));
            assert(tv.take(i + 1).last() == tokens@[i as int]@);
            assert(token@ == unescape_token(tv[i as int]));
        }
        match step(cur, &token) {
            Some(next) => {
                cur = next;
            },
            None => {
                proof {
                    assert(walk(v@, tv.take(i + 1)) is None);
                    lemma_walk_stuck(v@, tv, i as int);
                }
                return None;
            },
        }
        i = i + 1;
    }
    assert(tv.take(tokens@.len() as int) =~= tv);
    Some(cur)
}

proof fn lemma_walk_stuck(v: JsonV, tokens: Seq<Seq<char>>, i: int)
    requires
        0 <= i < tokens.len(),
        walk(v, tokens.take(i + 1)) is None,
    ensures
        walk(v, tokens) is None,
    decreases tokens.len() - i,
{
    if i + 1 < tokens.len() {
        assert(tokens.take(i + 2).drop_last() =~= tokens.take(i + 1));
        lemma_walk_stuck(v, tokens, i + 1);
    } else {
        assert(tokens.take(i + 1) =~= tokens);
    }
}

// ---------------------------------------------------------------------------
// Endpoints and revisions

/// A URL's parts as the `url` crate reads them back.
pub struct UrlParts {
    pub scheme: String,
    pub username: String,
    pub password: Option<String>,
    pub host: Option<String>,
    pub origin: String,
    pub path: String,
    pub query: Option<String>,
    pub fragment: Option<String>,
    pub serialization: String,
}

pub open spec fn opt_text(o: Option<String>) -> Option<Seq<char>> {
    match o {
        Some(s) => Some(s@),
        None => None,
    }
}

/// A URL's parts as character sequences: scheme, username, password, host,
/// origin (its ASCII serialization), path, query, fragment and
/// serialization.
pub open spec fn parts_view(p: UrlParts) -> (
    Seq<char>,
    Seq<char>,
    Option<Seq<char>>,
    Option<Seq<char>>,
    Seq<char>,
    Seq<char>,
    Option<Seq<char>>,
    Option<Seq<char>>,
    Seq<char>,
) {
    (
        p.scheme@,
        p.username@,
        opt_text(p.password),
        opt_text(p.host),
        p.origin@,
        p.path@,
        opt_text(p.query),
        opt_text(p.fragment),
        p.serialization@,
    )
}

/// What `url::Url::parse` makes of a text, read back through its part
/// accessors; `None` when it refuses the text.
pub uninterp spec fn parsed_url(input: Seq<char>) -> Option<(Seq<char>, Seq<char>, Option<Seq<char>>, Option<Seq<char>>, Seq<char>, Seq<char>, Option<Seq<char>>, Option<Seq<char>>, Seq<char>)>;

/// `url::Url::parse`, read back through `scheme`, `username`, `password`,
/// `host_str`, `origin().ascii_serialization()`, `path`, `query`, `fragment`
/// and `as_str`. The WHATWG parsing it performs
/// is not restated: its outcome is named `parsed_url` of the input.
#[verifier::external_body]
pub(crate) fn url_parts(input: &str) -> (r: Option<UrlParts>)
    ensures
        match r {
            Some(p) => parsed_url(input@) == Some(parts_view(p)),
            None => parsed_url(input@) is None,
        },
{
    match ::url::Url::parse(input) {
        Ok(u) => Some(UrlParts {
            scheme: u.scheme().to_string(),
            username: u.username().to_string(),
            password: u.password().map(str::to_string),
            host: u.host_str().map(str::to_string),
            origin: u.origin().ascii_serialization(),
            path: u.path().to_string(),
            query: u.query().map(str::to_string),
            fragment: u.fragment().map(str::to_string),
            serialization: u.as_str().to_string(),
        }),
        Err(_) => None,
    }
}

/// Whether a URL's parts make it a canonical Weles API base: `http` or
/// `https`, no credentials, the path `/api/v1`, no query or fragment, and a
/// serialization equal to the text given.
pub open spec fn canonical_endpoint_parts(
    value: Seq<char>,
    parts: Option<(Seq<char>, Seq<char>, Option<Seq<char>>, Option<Seq<char>>, Seq<char>, Seq<char>, Option<Seq<char>>, Option<Seq<char>>, Seq<char>)>,
) -> bool {
    match parts {
        Some((scheme, username, password, _host, _origin, path, query, fragment, serialization)) => (scheme
            == "http"@ || scheme == "https"@) && username.len() == 0 && password is None && path
            == "/api/v1"@ && query is None && fragment is None && serialization == value,
        None => false,
    }
}

/// Whether the parts a URL parsed into make `value` a canonical Weles API
/// base.
pub fn endpoint_parts_canonical(value: &str, parts: &Option<UrlParts>) -> (r: bool)
    ensures
        r == canonical_endpoint_parts(
            value@,
            match parts {
                Some(p) => Some(parts_view(*p)),
                None => None,
            },
        ),
{
    match parts {
        Some(p) => (str_eq(p.scheme.as_str(), "http") || str_eq(p.scheme.as_str(), "https"))
            && p.username.as_str().unicode_len() == 0 && p.password.is_none() && str_eq(
            p.path.as_str(),
            "/api/v1",
        ) && p.query.is_none() && p.fragment.is_none() && str_eq(p.serialization.as_str(), value),
        None => false,
    }
}

/// Whether `value` is exactly a canonical Weles API base
/// `<scheme>://<host>[:port]/api/v1`.
pub fn canonical_api_endpoint(value: &str) -> (r: bool)
    ensures
        r == canonical_endpoint_parts(value@, parsed_url(value@)),
{
    let parts = url_parts(value);
    endpoint_parts_canonical(value, &parts)
}

/// A full lowercase hexadecimal git revision.
pub open spec fn git_revision_spec(v: Seq<char>) -> bool {
    v.len() == 40 && forall|i: int|
        0 <= i < v.len() ==> (crate::text::is_digit_char(#[trigger] v[i]) || ('a' <= v[i] && v[i] <= 'f'))
}

pub fn is_git_revision(value: &str) -> (r: bool)
    ensures
        r == git_revision_spec(value@),
{
    let v = chars_of(value);
    if v.len() != 40 {
        return false;
    }
    let mut i: usize = 0;
    while i < 40
        invariant
            i <= 40,
            v@ == value@,
            v@.len() == 40,
            forall|j: int|
                0 <= j < i ==> (crate::text::is_digit_char(#[trigger] v@[j]) || ('a' <= v@[j] && v@[j] <= 'f')),
        decreases 40 - i,
    {
        let c = v[i];
        if !(crate::text::is_digit(c) || ('a' <= c && c <= 'f')) {
            return false;
        }
        i = i + 1;
    }
    true
}

// ---------------------------------------------------------------------------
// The Weles admission service

pub open spec fn ptr_str(v: JsonV, path: Seq<char>) -> Option<Seq<char>> {
    match pointer_v(v, path) {
        Some(x) => str_v(x),
        None => None,
    }
}

pub open spec fn ptr_items(v: JsonV, path: Seq<char>) -> Option<Seq<JsonV>> {
    match pointer_v(v, path) {
        Some(x) => array_v(x),
        None => None,
    }
}

/// Whether a JSON array lists the string `s`.
pub open spec fn lists_str(items: Seq<JsonV>, s: Seq<char>) -> bool {
    exists|k: int| 0 <= k < items.len() && str_v(#[trigger] items[k]) == Some(s)
}

/// A target named `host`.
pub open spec fn named(host: Seq<char>) -> spec_fn(JsonV) -> bool {
    |t: JsonV| get_str_v(t, "name"@) == Some(host)
}

/// An always-on target.
pub open spec fn always_on() -> spec_fn(JsonV) -> bool {
    |t: JsonV| get_str_v(t, "role"@) == Some("always-on"@)
}

/// An always-on target on which Weles is enabled.
pub open spec fn always_on_with_weles() -> spec_fn(JsonV) -> bool {
    |t: JsonV|
        get_str_v(t, "role"@) == Some("always-on"@) && match pointer_v(t, "/weles/enabled"@) {
            Some(x) => bool_v(x) == Some(true),
            None => false,
        }
}

/// A target whose mobile runtime declares the Appium driver `driver`.
pub open spec fn declares_driver(driver: Seq<char>) -> spec_fn(JsonV) -> bool {
    |t: JsonV|
        match ptr_items(t, "/mobile_runtime/drivers"@) {
            Some(drivers) => lists_str(drivers, driver),
            None => false,
        }
}

/// The name of the first target a search accepts, if that target has one.
pub open spec fn found_name(targets: Seq<JsonV>, f: spec_fn(JsonV) -> bool) -> Option<Seq<char>> {
    match first_index(targets, f) {
        Some(i) => get_str_v(targets[i], "name"@),
        None => None,
    }
}

/// The service's endpoint for `host`, when it is a canonical API base.
pub open spec fn endpoint_for(service: JsonV, host: Seq<char>) -> Option<Seq<char>> {
    match ptr_str(service, "/endpoints/"@ + host + "/url"@) {
        Some(e) => if canonical_endpoint_parts(e, parsed_url(e)) {
            Some(e)
        } else {
            None
        },
        None => None,
    }
}

/// A field of the service's endpoint for `host`, or else of the service.
pub open spec fn endpoint_field(service: JsonV, host: Seq<char>, field: Seq<char>) -> Option<Seq<char>> {
    match pointer_v(service, "/endpoints/"@ + host + "/"@ + field) {
        Some(x) => str_v(x),
        None => get_str_v(service, field),
    }
}

/// A pinned worker release: `weles-worker@` and a non-empty version.
pub open spec fn worker_release(s: Seq<char>) -> bool {
    starts_with(s, "weles-worker@"@) && s != "weles-worker@"@
}

/// What the registry says of the Weles admission service, as (generation,
/// active host, endpoint, release, source revision): present only when the
/// service offers browser evidence to spis, its active host is a target that
/// runs generic browser tasks, the endpoint is canonical, the release is
/// pinned and the revision is a full git revision.
pub open spec fn identity_spec(registry: JsonV, targets: Seq<JsonV>) -> Option<
    (u64, Seq<char>, Seq<char>, Seq<char>, Seq<char>),
> {
    match pointer_v(registry, "/service_directory/services/weles-admission"@) {
        None => None,
        Some(service) => {
            let generation = match pointer_v(registry, "/service_directory/generation"@) {
                Some(x) => u64_v(x),
                None => None,
            };
            let capabilities = ptr_items(service, "/consumers/spis/capabilities"@);
            let host = get_str_v(service, "active_host"@);
            if generation is None || capabilities is None || !lists_str(
                capabilities.unwrap(),
                "browser-evidence"@,
            ) || host is None {
                None
            } else {
                let h = host.unwrap();
                let actions = match first_index(targets, named(h)) {
                    Some(i) => ptr_items(targets[i], "/weles/actions"@),
                    None => None,
                };
                let endpoint = endpoint_for(service, h);
                let release = endpoint_field(service, h, "release_id"@);
                let revision = endpoint_field(service, h, "source_revision"@);
                if actions is None || !lists_str(actions.unwrap(), "generic_browser_task"@)
                    || endpoint is None || release is None || !worker_release(release.unwrap())
                    || revision is None || !git_revision_spec(revision.unwrap()) {
                    None
                } else {
                    Some(
                        (
                            generation.unwrap(),
                            h,
                            endpoint.unwrap(),
                            release.unwrap(),
                            revision.unwrap(),
                        ),
                    )
                }
            }
        },
    }
}

/// The Weles admission service a web crawl is bound to.
#[derive(Debug)]
pub struct RuntimeServiceIdentity {
    pub name: String,
    pub generation: u64,
    pub consumer: String,
    pub capability: String,
    pub active_host: String,
    pub endpoint: String,
    pub action: String,
    pub release_id: String,
    pub source_revision: String,
}

/// The identity as (generation, active host, endpoint, release, source
/// revision), with its fixed fields checked.
pub open spec fn identity_view(id: RuntimeServiceIdentity) -> Option<
    (u64, Seq<char>, Seq<char>, Seq<char>, Seq<char>),
> {
    if id.name@ == "weles-admission"@ && id.consumer@ == "spis"@ && id.capability@
        == "browser-evidence"@ && id.action@ == "generic_browser_task"@ {
        Some((id.generation, id.active_host@, id.endpoint@, id.release_id@, id.source_revision@))
    } else {
        None
    }
}

/// `Value::pointer(..).and_then(Value::as_str)`.
fn pointer_str<'a>(v: &'a Json, path: &str) -> (r: Option<&'a str>)
    ensures
        match r {
            Some(s) => ptr_str(v@, path@) == Some(s@),
            None => ptr_str(v@, path@) is None,
        },
{
    match pointer(v, path) {
        Some(x) => x.as_str(),
        None => None,
    }
}

/// `Value::pointer(..).and_then(Value::as_array)`.
fn pointer_items<'a>(v: &'a Json, path: &str) -> (r: Option<&'a Vec<Json>>)
    ensures
        match r {
            Some(items) => ptr_items(v@, path@) == Some(view_arr(items@)),
            None => ptr_items(v@, path@) is None,
        },
{
    match pointer(v, path) {
        Some(x) => x.as_array(),
        None => None,
    }
}

fn lists(items: &Vec<Json>, s: &str) -> (r: bool)
    ensures
        r == lists_str(view_arr(items@), s@),
{
    broadcast use group_json_view;

    proof {
        crate::json::lemma_view_arr(items@);
    }
    let ghost v = view_arr(items@);
    let mut i: usize = 0;
    while i < items.len()
        invariant
            i <= items@.len(),
            v == view_arr(items@),
            v.len() == items@.len(),
            forall|j: int| 0 <= j < items@.len() ==> #[trigger] v[j] == items@[j]@,
            forall|j: int| 0 <= j < i ==> str_v(#[trigger] v[j]) != Some(s@),
        decreases items.len() - i,
    {
        assert(v[i as int] == items@[i as int]@);
        match items[i].as_str() {
            Some(x) => if str_eq(x, s) {
                return true;
            },
            None => {},
        }
        i = i + 1;
    }
    false
}

/// The searches made among a registry's targets.
enum TargetTest<'a> {
    Named(&'a str),
    AlwaysOn,
    AlwaysOnWithWeles,
    Driver(&'a str),
}

spec fn test_fn(test: TargetTest) -> spec_fn(JsonV) -> bool {
    match test {
        TargetTest::Named(h) => named(h@),
        TargetTest::AlwaysOn => always_on(),
        TargetTest::AlwaysOnWithWeles => always_on_with_weles(),
        TargetTest::Driver(d) => declares_driver(d@),
    }
}

fn passes(test: &TargetTest, t: &Json) -> (r: bool)
    ensures
        r == test_fn(*test)(t@),
{
    match test {
        TargetTest::Named(h) => match t.get_str("name") {
            Some(n) => str_eq(n, h),
            None => false,
        },
        TargetTest::AlwaysOn => match t.get_str("role") {
            Some(role) => str_eq(role, "always-on"),
            None => false,
        },
        TargetTest::AlwaysOnWithWeles => {
            let on = match t.get_str("role") {
                Some(role) => str_eq(role, "always-on"),
                None => false,
            };
            on && match pointer(t, "/weles/enabled") {
                Some(x) => x.as_bool() == Some(true),
                None => false,
            }
        },
        TargetTest::Driver(d) => match pointer_items(t, "/mobile_runtime/drivers") {
            Some(drivers) => lists(drivers, d),
            None => false,
        },
    }
}

/// The first target a search accepts.
fn find_target(targets: &Vec<Json>, test: &TargetTest) -> (r: Option<usize>)
    ensures
        match r {
            Some(i) => i < targets@.len() && first_index(view_arr(targets@), test_fn(*test)) == Some(
                i as int,
            ),
            None => first_index(view_arr(targets@), test_fn(*test)) is None,
        },
{
    proof {
        crate::json::lemma_view_arr(targets@);
    }
    let ghost f = test_fn(*test);
    let ghost v = view_arr(targets@);
    let mut i: usize = 0;
    while i < targets.len()
        invariant
            i <= targets@.len(),
            v == view_arr(targets@),
            v.len() == targets@.len(),
            forall|j: int| 0 <= j < targets@.len() ==> #[trigger] v[j] == targets@[j]@,
            f == test_fn(*test),
            forall|j: int| 0 <= j < i ==> !f(#[trigger] v[j]),
        decreases targets.len() - i,
    {
        assert(v[i as int] == targets@[i as int]@);
        if passes(test, &targets[i]) {
            proof {
                lemma_first_index(v, f, i as int);
            }
            return Some(i);
        }
        i = i + 1;
    }
    proof {
        lemma_first_index(v, f, i as int);
    }
    None
}

/// The name of the first target a search accepts, if it has one.
fn found_target_name(targets: &Vec<Json>, test: &TargetTest) -> (r: Option<String>)
    ensures
        match r {
            Some(n) => found_name(view_arr(targets@), test_fn(*test)) == Some(n@),
            None => found_name(view_arr(targets@), test_fn(*test)) is None,
        },
{
    proof {
        crate::json::lemma_view_arr(targets@);
    }
    match find_target(targets, test) {
        Some(i) => match targets[i].get_str("name") {
            Some(n) => Some(String::from_str(n)),
            None => None,
        },
        None => None,
    }
}

fn endpoint_field_exec<'a>(service: &'a Json, host: &str, field: &str) -> (r: Option<&'a str>)
    ensures
        match r {
            Some(x) => endpoint_field(service@, host@, field@) == Some(x@),
            None => endpoint_field(service@, host@, field@) is None,
        },
{
    let base = concat("/endpoints/", host);
    let with_slash = concat(base.as_str(), "/");
    let path = concat(with_slash.as_str(), field);
    match pointer(service, path.as_str()) {
        Some(x) => x.as_str(),
        None => service.get_str(field),
    }
}

fn is_worker_release(s: &str) -> (r: bool)
    ensures
        r == worker_release(s@),
{
    let v = chars_of(s);
    let prefix = chars_of("weles-worker@");
    starts_with_exec(&v, &prefix) && !str_eq(s, "weles-worker@")
}

/// The Weles admission service the registry binds web crawls to, when it
/// offers spis browser evidence on a host that can run it.
pub fn weles_service_identity(registry: &Json, targets: &Vec<Json>) -> (r: Option<RuntimeServiceIdentity>)
    ensures
        match r {
            Some(id) => identity_view(id) is Some && identity_spec(registry@, view_arr(targets@))
                == identity_view(id),
            None => identity_spec(registry@, view_arr(targets@)) is None,
        },
{
    proof {
        crate::json::lemma_view_arr(targets@);
    }
    let service = match pointer(registry, "/service_directory/services/weles-admission") {
        Some(x) => x,
        None => return None,
    };
    let generation = match pointer(registry, "/service_directory/generation") {
        Some(x) => match x.as_u64() {
            Some(g) => g,
            None => return None,
        },
        None => return None,
    };
    let capabilities = match pointer_items(service, "/consumers/spis/capabilities") {
        Some(c) => c,
        None => return None,
    };
    if !lists(capabilities, "browser-evidence") {
        return None;
    }
    let host = match service.get_str("active_host") {
        Some(h) => h,
        None => return None,
    };
    let target = match find_target(targets, &TargetTest::Named(host)) {
        Some(i) => &targets[i],
        None => return None,
    };
    let actions = match pointer_items(target, "/weles/actions") {
        Some(a) => a,
        None => return None,
    };
    if !lists(actions, "generic_browser_task") {
        return None;
    }
    let base = concat("/endpoints/", host);
    let url_path = concat(base.as_str(), "/url");
    let endpoint = match pointer_str(service, url_path.as_str()) {
        Some(e) => if canonical_api_endpoint(e) {
            e
        } else {
            return None;
        },
        None => return None,
    };
    let release = match endpoint_field_exec(service, host, "release_id") {
        Some(x) => if is_worker_release(x) {
            x
        } else {
            return None;
        },
        None => return None,
    };
    let revision = match endpoint_field_exec(service, host, "source_revision") {
        Some(x) => if is_git_revision(x) {
            x
        } else {
            return None;
        },
        None => return None,
    };
    Some(
        RuntimeServiceIdentity {
            name: String::from_str("weles-admission"),
            generation,
            consumer: String::from_str("spis"),
            capability: String::from_str("browser-evidence"),
            active_host: String::from_str(host),
            endpoint: String::from_str(endpoint),
            action: String::from_str("generic_browser_task"),
            release_id: String::from_str(release),
            source_revision: String::from_str(revision),
        },
    )
}

// ---------------------------------------------------------------------------
// Placements

/// The registry's targets.
pub open spec fn targets_spec(registry: JsonV) -> Option<Seq<JsonV>> {
    match get_v(registry, "targets"@) {
        Some(t) => array_v(t),
        None => None,
    }
}

pub open spec fn entry(key: Seq<char>, host: Option<Seq<char>>) -> Seq<(Seq<char>, Seq<char>)> {
    match host {
        Some(h) => seq![(key, h)],
        None => Seq::empty(),
    }
}

/// The host of each execution boundary, in key order: web crawls go to the
/// Weles admission service's active host, desktop crawls to the first
/// always-on target with Weles enabled, iOS and Android apps to the first
/// target whose mobile runtime declares XCUITest or UiAutomator2, and CLI,
/// TUI and docs crawls to the first always-on target.
pub open spec fn placements_spec(registry: JsonV, targets: Seq<JsonV>) -> Seq<(Seq<char>, Seq<char>)> {
    let cpu = found_name(targets, always_on());
    let web = match identity_spec(registry, targets) {
        Some(id) => Some(id.1),
        None => None,
    };
    entry("android-app-examples"@, found_name(targets, declares_driver("uiautomator2"@))) + entry(
        "cli"@,
        cpu,
    ) + entry("desktop"@, found_name(targets, always_on_with_weles())) + entry("docs"@, cpu) + entry(
        "ios-app-examples"@,
        found_name(targets, declares_driver("xcuitest"@)),
    ) + entry("tui"@, cpu) + entry("web"@, web)
}

/// A registry without a `targets` array.
#[derive(Debug, PartialEq, Eq, Structural)]
pub enum RegistryError {
    NoTargets,
}

impl RegistryError {
    pub fn message(&self) -> (r: String)
        ensures
            r@ == "Stado registry has no targets"@,
    {
        String::from_str("Stado registry has no targets")
    }
}

fn push_entry(out: &mut Vec<(String, String)>, key: &str, host: &Option<String>)
    ensures
        pair_views(final(out)@) == pair_views(old(out)@) + entry(
            key@,
            match host {
                Some(h) => Some(h@),
                None => None,
            },
        ),
{
    match host {
        Some(h) => {
            out.push((String::from_str(key), h.clone()));
            assert(pair_views(out@) =~= pair_views(old(out)@) + seq![(key@, h@)]);
        },
        None => {
            assert(pair_views(out@) =~= pair_views(old(out)@) + Seq::empty());
        },
    }
}

/// Where each kind of crawl runs, and the Weles admission service, as a
/// Stado registry declares them.
pub fn registry_placements(registry: &Json) -> (r: Result<
    (Vec<(String, String)>, Option<RuntimeServiceIdentity>),
    RegistryError,
>)
    ensures
        match targets_spec(registry@) {
            None => r == Err::<(Vec<(String, String)>, Option<RuntimeServiceIdentity>), _>(
                RegistryError::NoTargets,
            ),
            Some(targets) => r matches Ok((placements, id)) && pair_views(placements@)
                == placements_spec(registry@, targets) && match id {
                Some(i) => identity_view(i) is Some && identity_spec(registry@, targets)
                    == identity_view(i),
                None => identity_spec(registry@, targets) is None,
            },
        },
{
    let targets = match registry.get("targets") {
        Some(t) => match t.as_array() {
            Some(items) => items,
            None => return Err(RegistryError::NoTargets),
        },
        None => return Err(RegistryError::NoTargets),
    };
    let identity = weles_service_identity(registry, targets);
    let web = match &identity {
        Some(id) => Some(id.active_host.clone()),
        None => None,
    };
    let desktop = found_target_name(targets, &TargetTest::AlwaysOnWithWeles);
    let cpu = found_target_name(targets, &TargetTest::AlwaysOn);
    let ios = found_target_name(targets, &TargetTest::Driver("xcuitest"));
    let android = found_target_name(targets, &TargetTest::Driver("uiautomator2"));
    let mut out: Vec<(String, String)> = Vec::new();
    assert(pair_views(out@) =~= Seq::empty());
    push_entry(&mut out, "android-app-examples", &android);
    push_entry(&mut out, "cli", &cpu);
    push_entry(&mut out, "desktop", &desktop);
    push_entry(&mut out, "docs", &cpu);
    push_entry(&mut out, "ios-app-examples", &ios);
    push_entry(&mut out, "tui", &cpu);
    push_entry(&mut out, "web", &web);
    Ok((out, identity))
}

// ---------------------------------------------------------------------------
// Choosing a record's host

/// A pair under `key`.
pub open spec fn key_is(key: Seq<char>) -> spec_fn((Seq<char>, Seq<char>)) -> bool {
    |p: (Seq<char>, Seq<char>)| p.0 == key
}

/// The value of the first pair under `key`.
pub open spec fn lookup(pairs: Seq<(Seq<char>, Seq<char>)>, key: Seq<char>) -> Option<Seq<char>> {
    match first_index(pairs, key_is(key)) {
        Some(i) => Some(pairs[i].1),
        None => None,
    }
}

/// An explicit host for the catalog, else for the engine, else for every
/// boundary (`*`), else the host the registry declares for the engine.
pub open spec fn host_for_spec(
    catalog: Seq<char>,
    engine: Seq<char>,
    explicit: Seq<(Seq<char>, Seq<char>)>,
    discovered: Seq<(Seq<char>, Seq<char>)>,
) -> Option<Seq<char>> {
    match lookup(explicit, catalog) {
        Some(h) => Some(h),
        None => match lookup(explicit, engine) {
            Some(h) => Some(h),
            None => match lookup(explicit, "*"@) {
                Some(h) => Some(h),
                None => lookup(discovered, engine),
            },
        },
    }
}

pub open spec fn no_host_message(catalog: Seq<char>, engine: Seq<char>) -> Seq<char> {
    "no Stado host advertises the "@ + engine + " execution boundary for "@ + catalog
        + "; pass --host "@ + engine + "=TARGET after registering that capability"@
}

fn lookup_exec(pairs: &Vec<(String, String)>, key: &str) -> (r: Option<String>)
    ensures
        match r {
            Some(h) => lookup(pair_views(pairs@), key@) == Some(h@),
            None => lookup(pair_views(pairs@), key@) is None,
        },
{
    let ghost v = pair_views(pairs@);
    let ghost f = key_is(key@);
    let mut i: usize = 0;
    while i < pairs.len()
        invariant
            i <= pairs@.len(),
            v == pair_views(pairs@),
            v.len() == pairs@.len(),
            f == key_is(key@),
            forall|j: int| 0 <= j < i ==> !f(#[trigger] v[j]),
        decreases pairs.len() - i,
    {
        assert(v[i as int] == (pairs@[i as int].0@, pairs@[i as int].1@));
        if str_eq(pairs[i].0.as_str(), key) {
            proof {
                lemma_first_index(v, f, i as int);
            }
            return Some(pairs[i].1.clone());
        }
        i = i + 1;
    }
    proof {
        lemma_first_index(v, f, i as int);
    }
    None
}

/// The host a record of `catalog` crawled by `engine` runs on.
pub fn host_for(
    catalog: &str,
    engine: &str,
    explicit: &Vec<(String, String)>,
    discovered: &Vec<(String, String)>,
) -> (r: Result<String, String>)
    ensures
        match host_for_spec(catalog@, engine@, pair_views(explicit@), pair_views(discovered@)) {
            Some(h) => r matches Ok(x) && x@ == h,
            None => r matches Err(m) && m@ == no_host_message(catalog@, engine@),
        },
{
    if let Some(h) = lookup_exec(explicit, catalog) {
        return Ok(h);
    }
    if let Some(h) = lookup_exec(explicit, engine) {
        return Ok(h);
    }
    if let Some(h) = lookup_exec(explicit, "*") {
        return Ok(h);
    }
    if let Some(h) = lookup_exec(discovered, engine) {
        return Ok(h);
    }
    let a = concat("no Stado host advertises the ", engine);
    let b = concat(a.as_str(), " execution boundary for ");
    let c = concat(b.as_str(), catalog);
    let d = concat(c.as_str(), "; pass --host ");
    let e = concat(d.as_str(), engine);
    Err(concat(e.as_str(), "=TARGET after registering that capability"))
}

} // verus!

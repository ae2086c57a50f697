//! Collecting one attributable interface image per catalog entry: which
//! catalogs, which fetched images qualify, and where a stored image lives.
use vstd::prelude::*;
use crate::json::{get_str_v, get_v, group_json_view, set_v, settable_v, Json, JsonV};
use crate::manifest::text_of;
use crate::text::{chars_of, decimal, decimal_spec, str_eq, string_of};

verus! {

/// The catalogs whose entries get a collected image.
pub const IMAGE_CATALOGS: [&'static str; 13] = [
    "ios-app-examples",
    "android-app-examples",
    "macos-app-examples",
    "desktop-app-examples",
    "web-app-examples",
    "dashboard-console-examples",
    "tui-examples",
    "cli-examples",
    "onboarding-auth-examples",
    "documentation-site-examples",
    "app-store-listing-examples",
    "design-system-examples",
    "report-evidence-examples",
];

pub open spec fn image_catalogs_spec() -> Seq<Seq<char>> {
    crate::host::words_view(IMAGE_CATALOGS@)
}

/// The parsed command line of a collection.
pub struct CollectArgs {
    /// The catalogs to collect, in order; every catalog when none is named.
    pub catalogs: Vec<String>,
    /// Whether entries that already carry an image are collected again.
    pub replace: bool,
}

/// Why a collection command line was refused.
pub enum CollectArgsError {
    /// An option that is not `--replace`.
    UnknownArgument(String),
    /// Named catalogs that are not image catalogs, in order.
    UnknownCatalogs(Vec<String>),
}

/// The words of a collection command line that name catalogs.
pub open spec fn named_catalogs(rest: Seq<Seq<char>>) -> Seq<Seq<char>> {
    rest.filter(|w: Seq<char>| !(w.len() > 0 && w[0] == '-'))
}

/// The first option other than `--replace`, if any.
pub open spec fn first_unknown_option(rest: Seq<Seq<char>>) -> Option<int> {
    crate::text::first_index(
        rest,
        |w: Seq<char>| w.len() > 0 && w[0] == '-' && w != "--replace"@,
    )
}

/// Read a collection command line: `--replace` and catalog names.
pub fn parse_collect_args(rest: &[String]) -> (r: Result<CollectArgs, CollectArgsError>)
    ensures
        match first_unknown_option(crate::crawl::strings_view(rest@)) {
            Some(i) => r matches Err(CollectArgsError::UnknownArgument(w)) && w@ == rest@[i]@,
            None => {
                let named = named_catalogs(crate::crawl::strings_view(rest@));
                let unknown = named.filter(|w: Seq<char>| !image_catalogs_spec().contains(w));
                if unknown.len() > 0 {
                    r matches Err(CollectArgsError::UnknownCatalogs(u)) && crate::text::string_views(
                        u@,
                    ) == unknown
                } else {
                    r matches Ok(a) && a.replace == crate::crawl::strings_view(rest@).contains(
                        "--replace"@,
                    ) && crate::text::string_views(a.catalogs@) == if named.len() == 0 {
                        image_catalogs_spec()
                    } else {
                        named
                    }
                }
            },
        },
{
    proof {
        reveal_strlit("--replace");
    }
    let ghost rv = crate::crawl::strings_view(rest@);
    let ghost bad = |w: Seq<char>| w.len() > 0 && w[0] == '-' && w != "--replace"@;
    let mut selected: Vec<String> = Vec::new();
    let mut replace = false;
    let mut i: usize = 0;
    while i < rest.len()
        invariant
            i <= rest@.len(),
            rv == crate::crawl::strings_view(rest@),
            bad == (|w: Seq<char>| w.len() > 0 && w[0] == '-' && w != "--replace"@),
            forall|j: int| 0 <= j < i ==> !bad(#[trigger] rv[j]),
            crate::text::string_views(selected@) == named_catalogs(rv.take(i as int)),
            replace == rv.take(i as int).contains("--replace"@),
        decreases rest.len() - i,
    {
        let w = chars_of(rest[i].as_str());
        assert(rv[i as int] == w@);
        proof {
            reveal(Seq::filter);
            reveal_strlit("--replace");
            assert(rv.take(i + 1).drop_last() =~= rv.take(i as int));
            assert(rv.take(i + 1).last() == rv[i as int]);
        }
        let ghost prev = selected@;
        if crate::text::str_eq(rest[i].as_str(), "--replace") {
            replace = true;
            assert(rv.take(i + 1)[i as int] == "--replace"@);
        } else if w.len() > 0 && w[0] == '-' {
            proof {
                lemma_first_index_bad(rv, i as int);
            }
            return Err(CollectArgsError::UnknownArgument(rest[i].clone()));
        } else {
            selected.push(rest[i].clone());
            assert(crate::text::string_views(selected@) =~= crate::text::string_views(prev).push(
                rv[i as int],
            ));
        }
        proof {
            if replace {
                assert(rv.take(i + 1).contains("--replace"@)) by {
                    if rv.take(i as int).contains("--replace"@) {
                        let t = rv.take(i as int);
                        let k = choose|k: int| 0 <= k < t.len() && t[k] == "--replace"@;
                        assert(rv.take(i + 1)[k] == "--replace"@);
                    }
                }
            } else {
                assert(!rv.take(i + 1).contains("--replace"@)) by {
                    if rv.take(i + 1).contains("--replace"@) {
                        let t = rv.take(i + 1);
                        let k = choose|k: int| 0 <= k < t.len() && t[k] == "--replace"@;
                        if k < i {
                            assert(rv.take(i as int)[k] == "--replace"@);
                        }
                    }
                }
            }
        }
        i = i + 1;
    }
    proof {
        crate::text::lemma_first_index(rv, bad, rv.len() as int);
        assert(rv.take(rv.len() as int) =~= rv);
    }
    let ghost named = named_catalogs(rv);
    let ghost known = image_catalogs_spec();
    let table = IMAGE_CATALOGS;
    let mut unknown: Vec<String> = Vec::new();
    let mut k: usize = 0;
    while k < selected.len()
        invariant
            k <= selected@.len(),
            table@ == IMAGE_CATALOGS@,
            known == image_catalogs_spec(),
            crate::text::string_views(selected@) == named,
            crate::text::string_views(unknown@) == named.take(k as int).filter(
                |w: Seq<char>| !known.contains(w),
            ),
        decreases selected.len() - k,
    {
        proof {
            reveal(Seq::filter);
            assert(named.take(k + 1).drop_last() =~= named.take(k as int));
            assert(named.take(k + 1).last() == named[k as int]);
            assert(named[k as int] == selected@[k as int]@);
        }
        let mut found = false;
        let mut m: usize = 0;
        while m < 13
            invariant
                m <= 13,
                k < selected@.len(),
                table@ == IMAGE_CATALOGS@,
                known == image_catalogs_spec(),
                found == exists|q: int| 0 <= q < m && known[q] == selected@[k as int]@,
            decreases 13 - m,
        {
            if str_eq(table[m], selected[k].as_str()) {
                assert(known[m as int] == IMAGE_CATALOGS@[m as int]@);
                found = true;
            }
            m = m + 1;
        }
        assert(found == known.contains(named[k as int])) by {
            if known.contains(named[k as int]) {
                let q = choose|q: int| 0 <= q < known.len() && known[q] == named[k as int];
            }
        }
        let ghost prev = unknown@;
        if !found {
            unknown.push(selected[k].clone());
            assert(crate::text::string_views(unknown@) =~= crate::text::string_views(prev).push(
                named[k as int],
            ));
        }
        k = k + 1;
    }
    assert(named.take(selected@.len() as int) =~= named);
    if unknown.len() > 0 {
        return Err(CollectArgsError::UnknownCatalogs(unknown));
    }
    if selected.len() == 0 {
        let mut all: Vec<String> = Vec::new();
        let mut q: usize = 0;
        while q < 13
            invariant
                q <= 13,
                table@ == IMAGE_CATALOGS@,
                all@.len() == q,
                forall|j: int| 0 <= j < q ==> #[trigger] all@[j]@ == IMAGE_CATALOGS@[j]@,
            decreases 13 - q,
        {
            all.push(String::from_str(table[q]));
            q = q + 1;
        }
        assert(crate::text::string_views(all@) =~= image_catalogs_spec());
        return Ok(CollectArgs { catalogs: all, replace });
    }
    Ok(CollectArgs { catalogs: selected, replace })
}

proof fn lemma_first_index_bad(rv: Seq<Seq<char>>, i: int)
    requires
        0 <= i < rv.len(),
        rv[i].len() > 0 && rv[i][0] == '-' && rv[i] != "--replace"@,
        forall|j: int|
            0 <= j < i ==> !((|w: Seq<char>| w.len() > 0 && w[0] == '-' && w != "--replace"@)(
                #[trigger] rv[j],
            )),
    ensures
        first_unknown_option(rv) == Some(i),
{
    crate::text::lemma_first_index(
        rv,
        |w: Seq<char>| w.len() > 0 && w[0] == '-' && w != "--replace"@,
        i,
    );
}

// ---------------------------------------------------------------------------
// Which fetched images qualify

/// A fetched image qualifies when its short side is at least 260 pixels, its
/// long side at least 480, and it is at most 5.2 times as wide as high and at
/// most 3.2 times as high as wide, the ratios compared exactly in integers
/// (10 * width <= 52 * height and 10 * height <= 32 * width).
pub open spec fn image_qualifies(width: u32, height: u32) -> bool {
    let short = if width < height {
        width
    } else {
        height
    };
    let long = if width < height {
        height
    } else {
        width
    };
    short >= 260 && long >= 480 && 10 * width <= 52 * height && 10 * height <= 32 * width
}

pub fn probe_dimensions_ok(width: u32, height: u32) -> (r: bool)
    ensures
        r == image_qualifies(width, height),
{
    let short = if width < height {
        width
    } else {
        height
    };
    let long = if width < height {
        height
    } else {
        width
    };
    short >= 260 && long >= 480 && 10 * (width as u64) <= 52 * (height as u64) && 10 * (
    height as u64) <= 32 * (width as u64)
}

// ---------------------------------------------------------------------------
// Where a stored image lives

/// A number written with at least two digits.
pub open spec fn two_digits(n: nat) -> Seq<char> {
    if n < 10 {
        seq!['0'] + decimal_spec(n)
    } else {
        decimal_spec(n)
    }
}

/// `images/NN-SLUG.FORMAT` for the entry at 1-based `index`.
pub open spec fn image_relative_path_spec(index: nat, slug: Seq<char>, format: Seq<char>) -> Seq<
    char,
> {
    "images/"@ + two_digits(index) + "-"@ + slug + "."@ + format
}

pub fn image_relative_path(index: u64, slug: &str, format: &str) -> (r: String)
    ensures
        r@ == image_relative_path_spec(index as nat, slug@, format@),
{
    proof {
        reveal_strlit("-");
        reveal_strlit(".");
    }
    let mut out = chars_of("images/");
    if index < 10 {
        out.push('0');
    }
    crate::text::append_chars(&mut out, &chars_of(decimal(index).as_str()));
    out.push('-');
    crate::text::append_chars(&mut out, &chars_of(slug));
    out.push('.');
    crate::text::append_chars(&mut out, &chars_of(format));
    assert(out@ =~= image_relative_path_spec(index as nat, slug@, format@));
    string_of(&out)
}

/// The hint retained with a stored image: the candidate's hint, or its
/// origin when it had none.
pub fn source_hint(hint: &str, origin: &str) -> (r: String)
    ensures
        r@ == if hint@.len() == 0 {
            origin@
        } else {
            hint@
        },
{
    if chars_of(hint).len() == 0 {
        String::from_str(origin)
    } else {
        String::from_str(hint)
    }
}

// ---------------------------------------------------------------------------
// One catalog entry

/// What collecting one catalog entry does.
pub enum CollectPlan {
    /// Keep its image and refresh the provenance recorded with it.
    Keep,
    /// Capture an image, trying these URLs in order, each with the kind of
    /// capture it makes.
    Capture(Vec<(String, &'static str)>),
}

/// The URL a page screenshot of `source` is taken from.
pub open spec fn screenshot_url(source: Seq<char>) -> Seq<char> {
    "https://image.thum.io/get/width/1400/crop/1000/noanimate/"@ + source
}

/// `None` to keep an entry's image (it has a visual object and images are
/// not being replaced); else the capture URLs in order: its visual source
/// URL (its source URL when that is empty or absent) as an official source
/// image, then a remote screenshot of its source page.
pub open spec fn collect_plan_spec(example: JsonV, replace: bool) -> Option<Seq<(Seq<char>, Seq<char>)>> {
    if (get_v(example, "visual"@) matches Some(JsonV::Object(_))) && !replace {
        None
    } else {
        let source = text_of(example, "source_url"@);
        let primary = match get_str_v(example, "visual_source_url"@) {
            Some(u) => if u.len() > 0 {
                u
            } else {
                source
            },
            None => source,
        };
        Some(
            seq![
                (primary, "official-source-image"@),
                (screenshot_url(source), "remote-page-screenshot"@),
            ],
        )
    }
}

pub fn collect_plan(example: &Json, replace: bool) -> (r: CollectPlan)
    ensures
        match collect_plan_spec(example@, replace) {
            None => r is Keep,
            Some(urls) => r matches CollectPlan::Capture(v) && v@.map_values(
                |p: (String, &'static str)| (p.0@, p.1@),
            ) == urls,
        },
{
    broadcast use group_json_view;

    let has_visual = match example.get("visual") {
        Some(v) => v.is_object(),
        None => false,
    };
    if has_visual && !replace {
        return CollectPlan::Keep;
    }
    let source = match example.get_str("source_url") {
        Some(s) => String::from_str(s),
        None => String::new(),
    };
    let primary = match example.get_str("visual_source_url") {
        Some(u) => if chars_of(u).len() > 0 {
            String::from_str(u)
        } else {
            source.clone()
        },
        None => source.clone(),
    };
    let shot = crate::text::concat("https://image.thum.io/get/width/1400/crop/1000/noanimate/", source.as_str());
    let mut urls: Vec<(String, &'static str)> = Vec::new();
    urls.push((primary, "official-source-image"));
    urls.push((shot, "remote-page-screenshot"));
    proof {
        let expected = collect_plan_spec(example@, replace).unwrap();
        assert(urls@.map_values(|p: (String, &'static str)| (p.0@, p.1@)) =~= expected);
    }
    CollectPlan::Capture(urls)
}

/// A kept entry's visual with its provenance refreshed: its source page is
/// the entry's source URL and a recorded image URL is made stable; the
/// boolean is whether there was an image URL (the catalog is then written).
pub open spec fn refreshed_visual_spec(visual: JsonV, source: Seq<char>, stable: Option<Seq<char>>) -> JsonV {
    let paged = set_v(visual, "source_page_url"@, JsonV::Str(source));
    match stable {
        Some(u) => set_v(paged, "source_image_url"@, JsonV::Str(u)),
        None => paged,
    }
}

/// Refresh a kept entry's visual; `true` when it names an image URL, made
/// stable here.
pub fn refresh_visual(visual: &mut Json, source_url: &str) -> (r: bool)
    requires
        old(visual)@ is Object,
    ensures
        r == (get_str_v(old(visual)@, "source_image_url"@) is Some),
        final(visual)@ == refreshed_visual_spec(
            old(visual)@,
            source_url@,
            match get_str_v(old(visual)@, "source_image_url"@) {
                Some(u) => Some(crate::url::provenance_with_host(u, crate::case::unicode_lower(crate::url::host_part_spec(u)))),
                None => None,
            },
        ),
{
    let image = match visual.get_str("source_image_url") {
        Some(u) => Some(crate::url::stable_provenance_url(u)),
        None => None,
    };
    proof {
        crate::json::lemma_get_set(
            old(visual)@,
            "source_page_url"@,
            JsonV::Str(source_url@),
            "source_image_url"@,
        );
        reveal_strlit("source_page_url");
        reveal_strlit("source_image_url");
        assert("source_page_url"@.len() != "source_image_url"@.len());
    }
    visual.set("source_page_url", crate::json::jstr(source_url));
    match image {
        Some(u) => {
            visual.set("source_image_url", Json::Str(u));
            true
        },
        None => false,
    }
}

/// A captured image's visual, with the kind of capture that made it and
/// the entry's source page.
pub fn captured_visual(visual: Json, kind: &str, source_url: &str) -> (r: Json)
    requires
        settable_v(visual@),
    ensures
        r@ == set_v(set_v(visual@, "capture_kind"@, JsonV::Str(kind@)), "source_page_url"@, JsonV::Str(source_url@)),
{
    let mut visual = visual;
    visual.set("capture_kind", crate::json::jstr(kind));
    visual.set("source_page_url", crate::json::jstr(source_url));
    visual
}

/// The record of an entry no image could be collected for.
pub open spec fn collection_failure_spec(index: u64, name: Seq<char>, url: Seq<char>, error: Seq<char>) -> JsonV {
    JsonV::Object(
        seq![
            ("index"@, JsonV::UInt(index)),
            ("name"@, JsonV::Str(name)),
            ("url"@, JsonV::Str(url)),
            ("error"@, JsonV::Str(error)),
        ],
    )
}

pub fn collection_failure(index: u64, name: &str, url: &str, error: &str) -> (r: Json)
    ensures
        r@ == collection_failure_spec(index, name@, url@, error@),
{
    broadcast use group_json_view;

    let mut fields: Vec<(String, Json)> = Vec::new();
    crate::json::push_field(&mut fields, "index", Json::UInt(index));
    crate::json::push_field(&mut fields, "name", crate::json::jstr(name));
    crate::json::push_field(&mut fields, "url", crate::json::jstr(url));
    crate::json::push_field(&mut fields, "error", crate::json::jstr(error));
    assert(crate::json::view_obj(fields@) =~= collection_failure_spec(index, name@, url@, error@)->Object_0);
    Json::Object(fields)
}

} // verus!

//! Image candidates read out of a product page: tag attributes, CSS
//! backgrounds and image URLs embedded in free text.
use vstd::prelude::*;
use crate::case::{decode_utf8_lossy, lowercase, unicode_lower, utf8_lossy};
use crate::text::{
    append_chars, before_any, before_any_exec, chars_of, find_from, find_from_exec, find_seq,
    first_where, is_alnum, is_alnum_char, is_space, is_space_char, lemma_find_from_bounds,
    lemma_first_where_is, matches_at, matches_at_exec, slice_chars, split_char, split_char_exec,
    starts_with, starts_with_exec, string_of, trim, trim_chars,
};

verus! {

// ---------------------------------------------------------------------------
// Character references

/// The character references decoded in attribute values.
pub open spec fn entity_at(s: Seq<char>) -> Option<(nat, char)> {
    if starts_with(s, "&amp;"@) {
        Some((5, '&'))
    } else if starts_with(s, "&lt;"@) {
        Some((4, '<'))
    } else if starts_with(s, "&gt;"@) {
        Some((4, '>'))
    } else if starts_with(s, "&quot;"@) {
        Some((6, '"'))
    } else if starts_with(s, "&#39;"@) {
        Some((5, '\''))
    } else if starts_with(s, "&apos;"@) {
        Some((6, '\''))
    } else {
        None
    }
}

/// Attribute text with its character references decoded, left to right.
pub open spec fn html_unescape_spec(s: Seq<char>) -> Seq<char>
    decreases s.len(),
{
    if s.len() == 0 {
        Seq::empty()
    } else {
        match entity_at(s) {
            Some((n, c)) => if 0 < n <= s.len() {
                seq![c] + html_unescape_spec(s.skip(n as int))
            } else {
                Seq::empty()
            },
            None => seq![s[0]] + html_unescape_spec(s.drop_first()),
        }
    }
}

fn entity_at_exec(v: &Vec<char>, i: usize) -> (r: Option<(usize, char)>)
    requires
        i <= v@.len(),
    ensures
        match entity_at(v@.skip(i as int)) {
            Some((n, c)) => r == Some((n as usize, c)) && 0 < n <= v@.len() - i,
            None => r is None,
        },
{
    proof {
        reveal_strlit("&amp;");
        reveal_strlit("&lt;");
        reveal_strlit("&gt;");
        reveal_strlit("&quot;");
        reveal_strlit("&#39;");
        reveal_strlit("&apos;");
    }
    let ghost rest = v@.skip(i as int);
    let amp = chars_of("&amp;");
    let lt = chars_of("&lt;");
    let gt = chars_of("&gt;");
    let quot = chars_of("&quot;");
    let apos_num = chars_of("&#39;");
    let apos = chars_of("&apos;");
    proof {
        assert forall|p: Seq<char>, k: int|
            0 <= k && k + p.len() <= v@.len() implies (matches_at(v@, p, k) == starts_with(
            v@.skip(k),
            p,
        )) by {
            assert(v@.skip(k).take(p.len() as int) =~= v@.subrange(k, k + p.len()));
        }
    }
    if matches_at_exec(v, &amp, i) {
        Some((5, '&'))
    } else if matches_at_exec(v, &lt, i) {
        Some((4, '<'))
    } else if matches_at_exec(v, &gt, i) {
        Some((4, '>'))
    } else if matches_at_exec(v, &quot, i) {
        Some((6, '"'))
    } else if matches_at_exec(v, &apos_num, i) {
        Some((5, '\''))
    } else if matches_at_exec(v, &apos, i) {
        Some((6, '\''))
    } else {
        None
    }
}

/// Decode the character references of attribute text.
pub fn html_unescape(s: &str) -> (r: String)
    ensures
        r@ == html_unescape_spec(s@),
{
    let v = chars_of(s);
    let mut out: Vec<char> = Vec::new();
    let mut i: usize = 0;
    assert(v@.skip(0) =~= v@);
    while i < v.len()
        invariant
            i <= v@.len(),
            v@ == s@,
            out@ + html_unescape_spec(v@.skip(i as int)) == html_unescape_spec(v@),
        decreases v.len() - i,
    {
        let ghost rest = v@.skip(i as int);
        match entity_at_exec(&v, i) {
            Some((n, c)) => {
                assert(rest.skip(n as int) =~= v@.skip(i + n));
                out.push(c);
                assert(out@ + html_unescape_spec(v@.skip(i + n)) =~= out@.drop_last() + (seq![c]
                    + html_unescape_spec(v@.skip(i + n))));
                i = i + n;
            },
            None => {
                assert(rest.drop_first() =~= v@.skip(i + 1));
                out.push(v[i]);
                assert(out@ + html_unescape_spec(v@.skip(i + 1)) =~= out@.drop_last() + (seq![
                    v@[i as int],
                ] + html_unescape_spec(v@.skip(i + 1))));
                i = i + 1;
            },
        }
    }
    assert(v@.skip(i as int) =~= Seq::<char>::empty());
    assert(out@ + Seq::<char>::empty() =~= out@);
    string_of(&out)
}

// ---------------------------------------------------------------------------
// Attribute values

/// Whether the match of `name=` at `abs` starts a whole attribute name.
pub open spec fn attr_boundary_ok(t: Seq<char>, abs: int) -> bool {
    abs == 0 || !(is_alnum_char(t[abs - 1]) || t[abs - 1] == '-' || t[abs - 1] == '_')
}

pub open spec fn ends_bare_value(c: char) -> bool {
    is_space_char(c) || c == '>'
}

/// The raw value that starts `rest`: up to the matching quote when quoted,
/// else up to whitespace or `>`.
pub open spec fn raw_attr_value(rest: Seq<char>) -> Seq<char> {
    if rest.len() > 0 && (rest[0] == '"' || rest[0] == '\'') {
        match crate::text::index_of(rest.drop_first(), rest[0]) {
            Some(e) => rest.subrange(1, 1 + e),
            None => Seq::empty(),
        }
    } else {
        match first_where(rest, |c: char| ends_bare_value(c)) {
            Some(k) => rest.take(k),
            None => rest,
        }
    }
}

/// The value of the first `needle` at or after `from` that starts a whole
/// attribute name and is followed by at least one character.
pub open spec fn attr_search(t: Seq<char>, needle: Seq<char>, from: int) -> Seq<char>
    decreases t.len() + 1 - from,
{
    if from < 0 || needle.len() == 0 {
        Seq::empty()
    } else {
        match find_from(t, needle, from) {
            None => Seq::empty(),
            Some(abs) => {
                let after = abs + needle.len();
                if attr_boundary_ok(t, abs) && after < t.len() {
                    html_unescape_spec(raw_attr_value(t.skip(after)))
                } else {
                    proof {
                        lemma_find_from_bounds(t, needle, from);
                    }
                    attr_search(t, needle, after)
                }
            },
        }
    }
}

/// The decoded value of attribute `name` in the text of one tag, or empty.
pub open spec fn attr_value_spec(tag_text: Seq<char>, name: Seq<char>) -> Seq<char> {
    attr_search(tag_text, name + "="@, 0)
}

fn raw_attr_value_exec(t: &Vec<char>, after: usize) -> (r: Vec<char>)
    requires
        after < t@.len(),
    ensures
        r@ == raw_attr_value(t@.skip(after as int)),
{
    let ghost rest = t@.skip(after as int);
    let n = t.len();
    let q = t[after];
    if q == '"' || q == '\'' {
        let mut e: usize = after + 1;
        while e < t.len() && t[e] != q
            invariant
                after + 1 <= e <= t@.len(),
                q == t@[after as int],
                forall|j: int| after + 1 <= j < e ==> t@[j] != q,
            decreases t.len() - e,
        {
            e = e + 1;
        }
        proof {
            let d = rest.drop_first();
            let f = crate::text::is_char(q);
            assert forall|j: int| 0 <= j < e - after - 1 implies !f(d[j]) by {
                assert(d[j] == t@[after + 1 + j]);
            }
            if e < t@.len() {
                assert(d[e - after - 1] == t@[e as int]);
            }
            lemma_first_where_is(d, f, e - after - 1);
        }
        if e < t.len() {
            let r = slice_chars(t, after + 1, e);
            assert(r@ =~= rest.subrange(1, 1 + (e - after - 1)));
            r
        } else {
            Vec::new()
        }
    } else {
        let mut e: usize = after;
        while e < t.len() && !(is_space(t[e]) || t[e] == '>')
            invariant
                after <= e <= t@.len(),
                forall|j: int| after <= j < e ==> !ends_bare_value(t@[j]),
            decreases t.len() - e,
        {
            e = e + 1;
        }
        proof {
            let f = |c: char| ends_bare_value(c);
            assert forall|j: int| 0 <= j < e - after implies !f(rest[j]) by {
                assert(rest[j] == t@[after + j]);
            }
            if e < t@.len() {
                assert(rest[e - after] == t@[e as int]);
            }
            lemma_first_where_is(rest, f, e - after);
        }
        let r = slice_chars(t, after, e);
        assert(r@ =~= if e < t@.len() {
            rest.take(e - after)
        } else {
            rest
        });
        r
    }
}

/// The value of `name="value"`, `name='value'` or `name=value` within the
/// full text of one tag, with character references decoded; empty when the
/// attribute is absent.
pub fn attr_value(tag_text: &str, name: &str) -> (r: String)
    ensures
        r@ == attr_value_spec(tag_text@, name@),
{
    let t = chars_of(tag_text);
    let mut needle = chars_of(name);
    needle.push('=');
    proof {
        reveal_strlit("=");
    }
    assert(needle@ =~= name@ + "="@);
    let mut from: usize = 0;
    while from <= t.len()
        invariant
            t@ == tag_text@,
            needle@ == name@ + "="@,
            needle@.len() >= 1,
            attr_search(t@, needle@, from as int) == attr_value_spec(tag_text@, name@),
        decreases t.len() + 1 - from,
    {
        proof {
            lemma_find_from_bounds(t@, needle@, from as int);
        }
        match find_from_exec(&t, &needle, from) {
            None => {
                return String::new();
            },
            Some(abs) => {
                let after = abs + needle.len();
                let boundary = abs == 0 || !(is_alnum(t[abs - 1]) || t[abs - 1] == '-' || t[abs
                    - 1] == '_');
                if boundary && after < t.len() {
                    let raw = raw_attr_value_exec(&t, after);
                    return html_unescape(string_of(&raw).as_str());
                }
                from = after;
            },
        }
    }
    String::new()
}

// ---------------------------------------------------------------------------
// Candidates

/// One image URL found on a page, with the text around it and where it came
/// from.
#[derive(Debug)]
pub struct Candidate {
    pub url: String,
    pub hint: String,
    pub order: usize,
    pub origin: &'static str,
}

/// A candidate as character sequences.
pub struct CandidateV {
    pub url: Seq<char>,
    pub hint: Seq<char>,
    pub order: nat,
    pub origin: Seq<char>,
}

impl View for Candidate {
    type V = CandidateV;

    open spec fn view(&self) -> CandidateV {
        CandidateV { url: self.url@, hint: self.hint@, order: self.order as nat, origin: self.origin@ }
    }
}

pub open spec fn cand(url: Seq<char>, hint: Seq<char>, order: nat, origin: Seq<char>) -> CandidateV {
    CandidateV { url, hint, order, origin }
}

pub open spec fn cands_view(v: Seq<Candidate>) -> Seq<CandidateV> {
    v.map_values(|c: Candidate| c@)
}

fn make(url: String, hint: String, order: usize, origin: &'static str) -> (r: Candidate)
    ensures
        r@ == cand(url@, hint@, order as nat, origin@),
{
    Candidate { url, hint, order, origin }
}

/// Append a candidate and advance the order.
fn emit(out: &mut Vec<Candidate>, order: &mut usize, url: String, hint: String, origin: &'static str)
    requires
        *old(order) <= old(out)@.len() || *old(order) < usize::MAX,
    ensures
        cands_view(final(out)@) == cands_view(old(out)@).push(
            cand(url@, hint@, *old(order) as nat, origin@),
        ),
        *final(order) == *old(order) + 1,
        *old(order) <= old(out)@.len() ==> *final(order) <= final(out)@.len(),
{
    let c = make(url, hint, *order, origin);
    let ghost before = out@;
    out.push(c);
    let n = out.len();
    assert(cands_view(out@) =~= cands_view(before).push(c@));
    *order = *order + 1;
}

/// The `og:` and `twitter:` image keys a `meta` tag may carry.
pub open spec fn meta_image_key(key: Seq<char>) -> bool {
    key == "og:image"@ || key == "og:image:secure_url"@ || key == "twitter:image"@ || key
        == "twitter:image:src"@
}

/// The first URL of each `srcset` item, in order.
pub open spec fn srcset_cands(items: Seq<Seq<char>>, hint: Seq<char>, order: nat, origin: Seq<char>) -> Seq<
    CandidateV,
>
    decreases items.len(),
{
    if items.len() == 0 {
        Seq::empty()
    } else {
        srcset_cands(items.drop_last(), hint, order, origin).push(
            cand(
                before_any(trim(items.last()), " "@),
                hint,
                (order + items.len() - 1) as nat,
                origin,
            ),
        )
    }
}

proof fn lemma_srcset_len(items: Seq<Seq<char>>, hint: Seq<char>, order: nat, origin: Seq<char>)
    ensures
        srcset_cands(items, hint, order, origin).len() == items.len(),
    decreases items.len(),
{
    if items.len() > 0 {
        lemma_srcset_len(items.drop_last(), hint, order, origin);
    }
}

/// The candidates one tag yields, numbered from `order`.
pub open spec fn tag_cands(tag: Seq<char>, t: Seq<char>, order: nat) -> Seq<CandidateV> {
    if tag == "meta"@ {
        let prop = unicode_lower(attr_value_spec(t, "property"@));
        let key = if prop.len() == 0 {
            unicode_lower(attr_value_spec(t, "name"@))
        } else {
            prop
        };
        if meta_image_key(key) {
            seq![cand(attr_value_spec(t, "content"@), key, order, "meta"@)]
        } else {
            Seq::empty()
        }
    } else if tag == "img"@ || tag == "source"@ {
        let hint = trim(
            attr_value_spec(t, "alt"@) + " "@ + attr_value_spec(t, "title"@) + " "@
                + attr_value_spec(t, "class"@),
        );
        let single = if tag == "img"@ {
            "img"@
        } else {
            "source"@
        };
        let set = if tag == "img"@ {
            "img-srcset"@
        } else {
            "source-srcset"@
        };
        let first = split_char(attr_value_spec(t, "srcset"@), ',');
        let second = split_char(attr_value_spec(t, "data-srcset"@), ',');
        seq![
            cand(attr_value_spec(t, "src"@), hint, order, single),
            cand(attr_value_spec(t, "data-src"@), hint, order + 1, single),
            cand(attr_value_spec(t, "data-lazy-src"@), hint, order + 2, single),
            cand(attr_value_spec(t, "data-original"@), hint, order + 3, single),
        ] + srcset_cands(first, hint, order + 4, set) + srcset_cands(
            second,
            hint,
            order + 4 + first.len(),
            set,
        )
    } else if tag == "link"@ {
        if find_seq(unicode_lower(attr_value_spec(t, "rel"@)), "image_src"@) is Some {
            seq![cand(attr_value_spec(t, "href"@), attr_value_spec(t, "title"@), order, "link"@)]
        } else {
            Seq::empty()
        }
    } else {
        Seq::empty()
    }
}

/// Candidates of every tag from position `i` on, numbered from `order`.
pub open spec fn tag_scan(text: Seq<char>, i: int, order: nat) -> Seq<CandidateV>
    decreases text.len() - i,
{
    if i < 0 || i > text.len() {
        Seq::empty()
    } else {
        match crate::text::index_of(text.skip(i), '<') {
            None => Seq::empty(),
            Some(lt) => {
                let start = i + lt;
                let rest = text.skip(start + 1);
                proof {
                    crate::text::lemma_first_where(text.skip(i), crate::text::is_char('<'));
                }
                if rest.len() > 0 && (rest[0] == '!' || rest[0] == '?' || rest[0] == '/') {
                    tag_scan(text, start + 1, order)
                } else {
                    let name_end = match first_where(rest, |c: char| !is_alnum_char(c)) {
                        Some(k) => k,
                        None => rest.len() as int,
                    };
                    let tag = crate::text::lower_seq(rest.take(name_end));
                    proof {
                        crate::text::lemma_first_where(rest, |c: char| !is_alnum_char(c));
                    }
                    match crate::text::index_of(rest.skip(name_end), '>') {
                        None => Seq::empty(),
                        Some(g) => {
                            proof {
                                crate::text::lemma_first_where(
                                    rest.skip(name_end),
                                    crate::text::is_char('>'),
                                );
                            }
                            let end = start + 1 + name_end + g;
                            let found = tag_cands(tag, text.subrange(start, end + 1), order);
                            found + tag_scan(text, end + 1, order + found.len())
                        },
                    }
                }
            },
        }
    }
}

fn push_srcset(
    raw: &str,
    hint: &Vec<char>,
    origin: &'static str,
    out: &mut Vec<Candidate>,
    order: &mut usize,
)
    requires
        *old(order) <= old(out)@.len() || *old(order) + split_char(raw@, ',').len() <= usize::MAX,
    ensures
        cands_view(final(out)@) == cands_view(old(out)@) + srcset_cands(
            split_char(raw@, ','),
            hint@,
            *old(order) as nat,
            origin@,
        ),
        *final(order) == *old(order) + split_char(raw@, ',').len(),
        *old(order) <= old(out)@.len() ==> *final(order) <= final(out)@.len(),
{
    let items = split_char_exec(&chars_of(raw), ',');
    let ghost iv = items@.map_values(|x: Vec<char>| x@);
    let ghost start = cands_view(out@);
    let ghost o0 = *order as nat;
    let ghost within = *order <= out@.len();
    let space = chars_of(" ");
    let mut k: usize = 0;
    while k < items.len()
        invariant
            k <= items@.len(),
            iv == items@.map_values(|x: Vec<char>| x@),
            iv == split_char(raw@, ','),
            space@ == " "@,
            *order == o0 + k,
            within ==> *order <= out@.len(),
            !within ==> o0 + iv.len() <= usize::MAX,
            cands_view(out@) == start + srcset_cands(iv.take(k as int), hint@, o0, origin@),
        decreases items.len() - k,
    {
        let url = before_any_exec(&trim_chars(&items[k]), &space);
        assert(iv.take(k + 1).drop_last() =~= iv.take(k as int));
        assert(iv.take(k + 1).last() == items@[k as int]@);
        emit(out, order, string_of(&url), string_of(hint), origin);
        assert(cands_view(out@) =~= start + srcset_cands(iv.take(k + 1), hint@, o0, origin@));
        k = k + 1;
    }
    assert(iv.take(items@.len() as int) =~= iv);
}

fn attr(t: &String, name: &str) -> (r: String)
    ensures
        r@ == attr_value_spec(t@, name@),
{
    attr_value(t.as_str(), name)
}

fn push_tag_cands(
    tag: &Vec<char>,
    t: &String,
    out: &mut Vec<Candidate>,
    order: &mut usize,
)
    requires
        *old(order) <= old(out)@.len() || *old(order) + tag_cands(tag@, t@, *old(order) as nat).len()
            <= usize::MAX,
    ensures
        cands_view(final(out)@) == cands_view(old(out)@) + tag_cands(tag@, t@, *old(order) as nat),
        *final(order) == *old(order) + tag_cands(tag@, t@, *old(order) as nat).len(),
        *old(order) <= old(out)@.len() ==> *final(order) <= final(out)@.len(),
{
    let ghost o0 = *order as nat;
    let ghost start = cands_view(out@);
    let tag_s = string_of(tag);
    if crate::text::str_eq(tag_s.as_str(), "meta") {
        let prop = lowercase(attr(t, "property").as_str());
        let key = if chars_of(prop.as_str()).len() == 0 {
            lowercase(attr(t, "name").as_str())
        } else {
            prop
        };
        let k = key.as_str();
        if crate::text::str_eq(k, "og:image") || crate::text::str_eq(k, "og:image:secure_url")
            || crate::text::str_eq(k, "twitter:image") || crate::text::str_eq(
            k,
            "twitter:image:src",
        ) {
            let hint = String::from_str(k);
            assert(tag_cands(tag@, t@, o0).len() == 1);
            emit(out, order, attr(t, "content"), hint, "meta");
            assert(cands_view(out@) =~= start + tag_cands(tag@, t@, o0));
        } else {
            assert(tag_cands(tag@, t@, o0) =~= Seq::<CandidateV>::empty());
            assert(cands_view(out@) =~= start + tag_cands(tag@, t@, o0));
        }
    } else if crate::text::str_eq(tag_s.as_str(), "img") || crate::text::str_eq(
        tag_s.as_str(),
        "source",
    ) {
        let is_img = crate::text::str_eq(tag_s.as_str(), "img");
        let mut joined = chars_of(attr(t, "alt").as_str());
        joined.push(' ');
        append_chars(&mut joined, &chars_of(attr(t, "title").as_str()));
        joined.push(' ');
        append_chars(&mut joined, &chars_of(attr(t, "class").as_str()));
        proof {
            reveal_strlit(" ");
        }
        assert(joined@ =~= attr_value_spec(t@, "alt"@) + " "@ + attr_value_spec(t@, "title"@)
            + " "@ + attr_value_spec(t@, "class"@));
        let hint = trim_chars(&joined);
        let single: &'static str = if is_img {
            "img"
        } else {
            "source"
        };
        let set: &'static str = if is_img {
            "img-srcset"
        } else {
            "source-srcset"
        };
        let first = attr(t, "srcset");
        let second = attr(t, "data-srcset");
        proof {
            lemma_srcset_len(split_char(first@, ','), hint@, o0 + 4, set@);
            lemma_srcset_len(
                split_char(second@, ','),
                hint@,
                o0 + 4 + split_char(first@, ',').len(),
                set@,
            );
            assert(tag_cands(tag@, t@, o0).len() == 4 + split_char(first@, ',').len() + split_char(
                second@,
                ',',
            ).len());
        }
        emit(out, order, attr(t, "src"), string_of(&hint), single);
        emit(out, order, attr(t, "data-src"), string_of(&hint), single);
        emit(out, order, attr(t, "data-lazy-src"), string_of(&hint), single);
        emit(out, order, attr(t, "data-original"), string_of(&hint), single);
        let ghost mid = cands_view(out@);
        push_srcset(first.as_str(), &hint, set, out, order);
        push_srcset(second.as_str(), &hint, set, out, order);
        assert(cands_view(out@) =~= start + tag_cands(tag@, t@, o0));
    } else if crate::text::str_eq(tag_s.as_str(), "link") {
        let rel = lowercase(attr(t, "rel").as_str());
        if find_from_exec(&chars_of(rel.as_str()), &chars_of("image_src"), 0).is_some() {
            assert(tag_cands(tag@, t@, o0).len() == 1);
            emit(out, order, attr(t, "href"), attr(t, "title"), "link");
            assert(cands_view(out@) =~= start + tag_cands(tag@, t@, o0));
        } else {
            assert(cands_view(out@) =~= start + tag_cands(tag@, t@, o0));
        }
    } else {
        assert(cands_view(out@) =~= start + tag_cands(tag@, t@, o0));
    }
}

/// The origins a tag candidate can have.
pub open spec fn tag_origin(o: Seq<char>) -> bool {
    o == "meta"@ || o == "img"@ || o == "source"@ || o == "img-srcset"@ || o == "source-srcset"@
        || o == "link"@
}

/// Candidates numbered one after another from `order`, each from a tag.
pub open spec fn numbered_from(s: Seq<CandidateV>, order: nat) -> bool {
    forall|i: int| 0 <= i < s.len() ==> (#[trigger] s[i]).order == order + i && tag_origin(s[i].origin)
}

proof fn lemma_srcset_numbered(items: Seq<Seq<char>>, hint: Seq<char>, order: nat, origin: Seq<char>)
    requires
        tag_origin(origin),
    ensures
        numbered_from(srcset_cands(items, hint, order, origin), order),
    decreases items.len(),
{
    lemma_srcset_len(items, hint, order, origin);
    if items.len() > 0 {
        lemma_srcset_numbered(items.drop_last(), hint, order, origin);
        lemma_srcset_len(items.drop_last(), hint, order, origin);
    }
}

proof fn lemma_tag_cands_numbered(tag: Seq<char>, t: Seq<char>, order: nat)
    ensures
        numbered_from(tag_cands(tag, t, order), order),
{
    reveal_strlit("meta");
    reveal_strlit("img");
    reveal_strlit("source");
    reveal_strlit("img-srcset");
    reveal_strlit("source-srcset");
    reveal_strlit("link");
    if tag == "img"@ || tag == "source"@ {
        let single = if tag == "img"@ {
            "img"@
        } else {
            "source"@
        };
        let set = if tag == "img"@ {
            "img-srcset"@
        } else {
            "source-srcset"@
        };
        let hint = trim(
            attr_value_spec(t, "alt"@) + " "@ + attr_value_spec(t, "title"@) + " "@ + attr_value_spec(
                t,
                "class"@,
            ),
        );
        let first = split_char(attr_value_spec(t, "srcset"@), ',');
        let second = split_char(attr_value_spec(t, "data-srcset"@), ',');
        let head = seq![
            cand(attr_value_spec(t, "src"@), hint, order, single),
            cand(attr_value_spec(t, "data-src"@), hint, order + 1, single),
            cand(attr_value_spec(t, "data-lazy-src"@), hint, order + 2, single),
            cand(attr_value_spec(t, "data-original"@), hint, order + 3, single),
        ];
        let s1 = srcset_cands(first, hint, order + 4, set);
        let s2 = srcset_cands(second, hint, order + 4 + first.len(), set);
        lemma_srcset_numbered(first, hint, order + 4, set);
        lemma_srcset_numbered(second, hint, order + 4 + first.len(), set);
        lemma_srcset_len(first, hint, order + 4, set);
        let all = tag_cands(tag, t, order);
        assert("meta"@.len() == 4 && "img"@.len() == 3 && "source"@.len() == 6);
        assert(tag != "meta"@);
        assert(all =~= head + s1 + s2);
        assert forall|i: int| 0 <= i < all.len() implies (#[trigger] all[i]).order == order + i && tag_origin(
            all[i].origin,
        ) by {
            if i < 4 {
                assert(all[i] == head[i]);
            } else if i < 4 + s1.len() {
                assert(all[i] == s1[i - 4]);
            } else {
                assert(all[i] == s2[i - 4 - s1.len()]);
            }
        }
    }
}

proof fn lemma_tag_scan_numbered(text: Seq<char>, i: int, order: nat)
    ensures
        numbered_from(tag_scan(text, i, order), order),
    decreases text.len() - i,
{
    if 0 <= i <= text.len() {
        match crate::text::index_of(text.skip(i), '<') {
            None => {},
            Some(lt) => {
                crate::text::lemma_first_where(text.skip(i), crate::text::is_char('<'));
                let start = i + lt;
                let rest = text.skip(start + 1);
                if rest.len() > 0 && (rest[0] == '!' || rest[0] == '?' || rest[0] == '/') {
                    lemma_tag_scan_numbered(text, start + 1, order);
                } else {
                    let name_end = match first_where(rest, |c: char| !is_alnum_char(c)) {
                        Some(k) => k,
                        None => rest.len() as int,
                    };
                    crate::text::lemma_first_where(rest, |c: char| !is_alnum_char(c));
                    let tag = crate::text::lower_seq(rest.take(name_end));
                    match crate::text::index_of(rest.skip(name_end), '>') {
                        None => {},
                        Some(g) => {
                            crate::text::lemma_first_where(rest.skip(name_end), crate::text::is_char('>'));
                            let end = start + 1 + name_end + g;
                            let found = tag_cands(tag, text.subrange(start, end + 1), order);
                            lemma_tag_cands_numbered(tag, text.subrange(start, end + 1), order);
                            lemma_tag_scan_numbered(text, end + 1, order + found.len());
                            let later = tag_scan(text, end + 1, order + found.len());
                            let all = tag_scan(text, i, order);
                            assert(all == found + later);
                            assert forall|k: int| 0 <= k < all.len() implies (#[trigger] all[k]).order == order
                                + k && tag_origin(all[k].origin) by {
                                if k < found.len() {
                                    assert(all[k] == found[k]);
                                } else {
                                    assert(all[k] == later[k - found.len()]);
                                }
                            }
                        },
                    }
                }
            },
        }
    }
}

/// Extracting tag candidates leaves the candidates already there untouched
/// and appends ones numbered one after another from the starting order,
/// each from a `meta`, `img`, `source`, `img` or `source` `srcset`, or
/// `link` tag.
pub proof fn law_tag_candidates_numbered(before: Seq<CandidateV>, text: Seq<char>, order: nat)
    ensures
        ({
            let after = before + tag_scan(text, 0, order);
            &&& after.take(before.len() as int) == before
            &&& forall|i: int|
                0 <= i < after.len() - before.len() ==> (#[trigger] after[before.len() + i]).order == order
                    + i && tag_origin(after[before.len() + i].origin)
        }),
{
    let scan = tag_scan(text, 0, order);
    let after = before + scan;
    lemma_tag_scan_numbered(text, 0, order);
    assert(after.take(before.len() as int) =~= before);
    assert forall|i: int| 0 <= i < after.len() - before.len() implies (#[trigger] after[before.len() + i]).order
        == order + i && tag_origin(after[before.len() + i].origin) by {
        assert(after[before.len() + i] == scan[i]);
    }
}

/// Append the candidates of every `meta`, `img`, `source` and `link` tag of
/// `text`, numbering them from `*order`. The numbering may not pass
/// `usize::MAX`: it starts within the length of `out`, or the new
/// candidates' numbers fit.
#[verifier::rlimit(60)]
pub fn extract_tag_candidates(text: &str, out: &mut Vec<Candidate>, order: &mut usize)
    requires
        *old(order) <= old(out)@.len() || *old(order) + tag_scan(text@, 0, *old(order) as nat).len()
            <= usize::MAX,
    ensures
        cands_view(final(out)@) == cands_view(old(out)@) + tag_scan(text@, 0, *old(order) as nat),
        *final(order) == *old(order) + tag_scan(text@, 0, *old(order) as nat).len(),
        *old(order) <= old(out)@.len() ==> *final(order) <= final(out)@.len(),
{
    let v = chars_of(text);
    let ghost start_out = cands_view(out@);
    let ghost o0 = *order as nat;
    let ghost within = *order <= out@.len();
    let mut i: usize = 0;
    while i <= v.len()
        invariant
            v@ == text@,
            i <= v@.len(),
            start_out == cands_view(old(out)@),
            o0 == *old(order) as nat,
            within == (*old(order) <= old(out)@.len()),
            within ==> *order <= out@.len(),
            !within ==> o0 + tag_scan(v@, 0, o0).len() <= usize::MAX,
            *order >= o0,
            cands_view(out@) + tag_scan(v@, i as int, *order as nat) == start_out + tag_scan(
                v@,
                0,
                o0,
            ),
            *order + tag_scan(v@, i as int, *order as nat).len() == o0 + tag_scan(v@, 0, o0).len(),
        decreases v.len() + 1 - i,
    {
        let ghost o = *order as nat;
        let ghost before = cands_view(out@);
        let tail = slice_chars(&v, i, v.len());
        assert(tail@ =~= v@.skip(i as int));
        let lt = match crate::text::index_of_exec(&tail, '<') {
            Some(k) => k,
            None => {
                assert(tag_scan(v@, i as int, o) =~= Seq::<CandidateV>::empty());
                assert(cands_view(out@) =~= start_out + tag_scan(v@, 0, o0));
                return;
            },
        };
        proof {
            crate::text::lemma_first_where(v@.skip(i as int), crate::text::is_char('<'));
        }
        let start = i + lt;
        let ghost rest = v@.skip(start + 1);
        if start + 1 < v.len() && (v[start + 1] == '!' || v[start + 1] == '?' || v[start + 1]
            == '/') {
            assert(rest[0] == v@[start + 1]);
            i = start + 1;
        } else {
            let mut name_end: usize = start + 1;
            while name_end < v.len() && is_alnum(v[name_end])
                invariant
                    start + 1 <= name_end <= v@.len(),
                    forall|j: int| start + 1 <= j < name_end ==> is_alnum_char(v@[j]),
                decreases v.len() - name_end,
            {
                name_end = name_end + 1;
            }
            let ghost ne = name_end - start - 1;
            proof {
                let f = |c: char| !is_alnum_char(c);
                assert forall|j: int| 0 <= j < ne implies !f(rest[j]) by {
                    assert(rest[j] == v@[start + 1 + j]);
                }
                if ne < rest.len() {
                    assert(rest[ne] == v@[name_end as int]);
                }
                lemma_first_where_is(rest, f, ne);
                if start + 1 >= v@.len() {
                    assert(rest.len() == 0);
                }
            }
            let name = slice_chars(&v, start + 1, name_end);
            let tag = crate::text::lower_chars(&name);
            assert(name@ =~= rest.take(ne));
            let gt = match crate::text::index_of_exec(&slice_chars(&v, name_end, v.len()), '>') {
                Some(g) => g,
                None => {
                    assert(v@.subrange(name_end as int, v@.len() as int) =~= rest.skip(ne));
                    assert(tag_scan(v@, i as int, o) =~= Seq::<CandidateV>::empty());
                    assert(cands_view(out@) =~= start_out + tag_scan(v@, 0, o0));
                    return;
                },
            };
            assert(v@.subrange(name_end as int, v@.len() as int) =~= rest.skip(ne));
            proof {
                crate::text::lemma_first_where(rest.skip(ne), crate::text::is_char('>'));
            }
            let end = name_end + gt;
            let tag_text = string_of(&slice_chars(&v, start, end + 1));
            assert(tag_scan(v@, i as int, o) == tag_cands(tag@, tag_text@, o) + tag_scan(
                v@,
                end + 1,
                o + tag_cands(tag@, tag_text@, o).len(),
            ));
            push_tag_cands(&tag, &tag_text, out, order);
            assert(cands_view(out@) =~= before + tag_cands(tag@, v@.subrange(start as int, end + 1), o));
            i = end + 1;
        }
    }
    assert(tag_scan(v@, i as int, *order as nat) =~= Seq::<CandidateV>::empty());
    assert(cands_view(out@) =~= start_out + tag_scan(v@, 0, o0));
}

// ---------------------------------------------------------------------------
// CSS backgrounds

/// The length of the quote that may open a CSS `url(`.
pub open spec fn css_opener_len(s: Seq<char>) -> nat {
    if starts_with(s, "&quot;"@) {
        6
    } else if starts_with(s, "'"@) {
        1
    } else if starts_with(s, "\""@) {
        1
    } else {
        0
    }
}

pub open spec fn ends_css_url(c: char) -> bool {
    c == ')' || c == '\'' || c == '"' || is_space_char(c)
}

/// The `http(s)` URLs of CSS `url(...)` values from position `i` on.
///
/// `url(` is searched in the lowercased remainder of the text and the
/// position found is applied to the text itself, as the collector has always
/// done; positions count characters.
pub open spec fn css_scan(t: Seq<char>, i: int, order: nat) -> Seq<CandidateV>
    decreases t.len() - i,
{
    if i < 0 || i > t.len() {
        Seq::empty()
    } else {
        match find_seq(unicode_lower(t.skip(i)), "url("@) {
            None => Seq::empty(),
            Some(pos) => {
                proof {
                    lemma_find_from_bounds(unicode_lower(t.skip(i)), "url("@, 0);
                    reveal_strlit("url(");
                }
                let abs = i + pos + 4;
                if abs > t.len() {
                    Seq::empty()
                } else {
                    let j = abs + css_opener_len(t.skip(abs));
                    let u = t.skip(j);
                    let found = if starts_with(u, "http://"@) || starts_with(u, "https://"@) {
                        let end = match first_where(u, |c: char| ends_css_url(c)) {
                            Some(k) => k,
                            None => u.len() as int,
                        };
                        seq![cand(u.take(end), "css background"@, order, "css"@)]
                    } else {
                        Seq::empty()
                    };
                    found + css_scan(t, abs, order + found.len())
                }
            },
        }
    }
}

fn css_opener_len_exec(v: &Vec<char>, k: usize) -> (r: usize)
    requires
        k <= v@.len(),
    ensures
        r == css_opener_len(v@.skip(k as int)),
        k + r <= v@.len(),
{
    proof {
        reveal_strlit("&quot;");
        reveal_strlit("'");
        reveal_strlit("\"");
    }
    let tail = slice_chars(v, k, v.len());
    assert(tail@ =~= v@.skip(k as int));
    if starts_with_exec(&tail, &chars_of("&quot;")) {
        6
    } else if starts_with_exec(&tail, &chars_of("'")) {
        1
    } else if starts_with_exec(&tail, &chars_of("\"")) {
        1
    } else {
        0
    }
}

/// Append every `http(s)` URL of a CSS `url(...)` in `text`, numbering them
/// from `*order`. The numbering may not pass `usize::MAX`: it starts within
/// the length of `out`, or the new candidates' numbers fit.
#[verifier::rlimit(60)]
pub fn extract_css_candidates(text: &str, out: &mut Vec<Candidate>, order: &mut usize)
    requires
        *old(order) <= old(out)@.len() || *old(order) + css_scan(text@, 0, *old(order) as nat).len()
            <= usize::MAX,
    ensures
        cands_view(final(out)@) == cands_view(old(out)@) + css_scan(text@, 0, *old(order) as nat),
        *final(order) == *old(order) + css_scan(text@, 0, *old(order) as nat).len(),
        *old(order) <= old(out)@.len() ==> *final(order) <= final(out)@.len(),
{
    proof {
        reveal_strlit("url(");
        reveal_strlit("http://");
        reveal_strlit("https://");
    }
    let v = chars_of(text);
    let ghost o0 = *order as nat;
    let ghost start_out = cands_view(out@);
    let ghost within = *order <= out@.len();
    let needle = chars_of("url(");
    let http = chars_of("http://");
    let https = chars_of("https://");
    let mut i: usize = 0;
    loop
        invariant
            v@ == text@,
            i <= v@.len(),
            needle@ == "url("@,
            http@ == "http://"@,
            https@ == "https://"@,
            start_out == cands_view(old(out)@),
            o0 == *old(order) as nat,
            within ==> *order <= out@.len(),
            !within ==> o0 + css_scan(v@, 0, o0).len() <= usize::MAX,
            cands_view(out@) + css_scan(v@, i as int, *order as nat) == start_out + css_scan(
                v@,
                0,
                o0,
            ),
            *order + css_scan(v@, i as int, *order as nat).len() == o0 + css_scan(v@, 0, o0).len(),
        decreases v@.len() - i,
    {
        let ghost o = *order as nat;
        let ghost before = cands_view(out@);
        let tail = slice_chars(&v, i, v.len());
        assert(tail@ =~= v@.skip(i as int));
        let lowered = chars_of(lowercase(string_of(&tail).as_str()).as_str());
        proof {
            lemma_find_from_bounds(lowered@, needle@, 0);
        }
        let pos = match find_from_exec(&lowered, &needle, 0) {
            Some(p) => p,
            None => {
                assert(css_scan(v@, i as int, o) =~= Seq::<CandidateV>::empty());
                assert(cands_view(out@) =~= start_out + css_scan(v@, 0, o0));
                return;
            },
        };
        if pos > v.len() - i || v.len() - i - pos < 4 {
            assert(css_scan(v@, i as int, o) =~= Seq::<CandidateV>::empty());
            assert(cands_view(out@) =~= start_out + css_scan(v@, 0, o0));
            return;
        }
        let abs = i + pos + 4;
        let j = abs + css_opener_len_exec(&v, abs);
        let u = slice_chars(&v, j, v.len());
        assert(u@ =~= v@.skip(j as int));
        if starts_with_exec(&u, &http) || starts_with_exec(&u, &https) {
            let mut e: usize = 0;
            while e < u.len() && !(u[e] == ')' || u[e] == '\'' || u[e] == '"' || is_space(u[e]))
                invariant
                    e <= u@.len(),
                    forall|m: int| 0 <= m < e ==> !ends_css_url(u@[m]),
                decreases u.len() - e,
            {
                e = e + 1;
            }
            proof {
                lemma_first_where_is(u@, |c: char| ends_css_url(c), e as int);
            }
            let url = slice_chars(&u, 0, e);
            assert(url@ =~= u@.take(e as int));
            assert(css_scan(v@, i as int, o).len() >= 1);
            emit(out, order, string_of(&url), String::from_str("css background"), "css");
        }
        assert(cands_view(out@) + css_scan(v@, abs as int, *order as nat) =~= before + css_scan(
            v@,
            i as int,
            o,
        ));
        i = abs;
    }
}

// ---------------------------------------------------------------------------
// Image URLs in free text

pub open spec fn ends_embedded_run(c: char) -> bool {
    is_space_char(c) || c == '\'' || c == '"' || c == '<' || c == '>'
}

/// Whether a lowercased URL stem names a PNG, JPEG or WebP file.
pub open spec fn image_ext(stem: Seq<char>) -> bool {
    crate::text::ends_with(stem, ".png"@) || crate::text::ends_with(stem, ".jpg"@)
        || crate::text::ends_with(stem, ".jpeg"@) || crate::text::ends_with(stem, ".webp"@)
}

/// The first `http://` or `https://` at or after `i`.
pub open spec fn next_http(t: Seq<char>, i: int) -> Option<int> {
    match (find_from(t, "http://"@, i), find_from(t, "https://"@, i)) {
        (Some(a), Some(b)) => Some(if a < b {
            a
        } else {
            b
        }),
        (Some(a), None) => Some(a),
        (None, Some(b)) => Some(b),
        (None, None) => None,
    }
}

/// The image URLs written out in free text from position `i` on.
pub open spec fn embedded_scan(t: Seq<char>, i: int, order: nat) -> Seq<CandidateV>
    decreases t.len() - i,
{
    if i < 0 || i >= t.len() {
        Seq::empty()
    } else {
        match next_http(t, i) {
            None => Seq::empty(),
            Some(abs) => {
                proof {
                    lemma_find_from_bounds(t, "http://"@, i);
                    lemma_find_from_bounds(t, "https://"@, i);
                    reveal_strlit("http://");
                    reveal_strlit("https://");
                }
                let u = t.skip(abs);
                let run = match first_where(u, |c: char| ends_embedded_run(c)) {
                    Some(e) => u.take(e),
                    None => u,
                };
                let stem = before_any(run, "?"@);
                let found = if image_ext(unicode_lower(stem)) && crate::text::utf8_encode(stem).len()
                    > 4 {
                    seq![cand(run, "embedded image URL"@, order, "embedded"@)]
                } else {
                    Seq::empty()
                };
                found + embedded_scan(t, abs + 4, order + found.len())
            },
        }
    }
}

fn has_image_ext(stem: &Vec<char>) -> (r: bool)
    ensures
        r == image_ext(unicode_lower(stem@)),
{
    let l = chars_of(lowercase(string_of(stem).as_str()).as_str());
    crate::text::ends_with_exec(&l, &chars_of(".png")) || crate::text::ends_with_exec(
        &l,
        &chars_of(".jpg"),
    ) || crate::text::ends_with_exec(&l, &chars_of(".jpeg")) || crate::text::ends_with_exec(
        &l,
        &chars_of(".webp"),
    )
}

/// Append every `http(s)` URL in `text` whose path names a PNG, JPEG or
/// WebP file, numbering them from `*order`. The numbering may not pass
/// `usize::MAX`: it starts within the length of `out`, or the new
/// candidates' numbers fit.
#[verifier::rlimit(60)]
pub fn extract_embedded_candidates(text: &str, out: &mut Vec<Candidate>, order: &mut usize)
    requires
        *old(order) <= old(out)@.len() || *old(order) + embedded_scan(text@, 0, *old(order) as nat).len()
            <= usize::MAX,
    ensures
        cands_view(final(out)@) == cands_view(old(out)@) + embedded_scan(
            text@,
            0,
            *old(order) as nat,
        ),
        *final(order) == *old(order) + embedded_scan(text@, 0, *old(order) as nat).len(),
        *old(order) <= old(out)@.len() ==> *final(order) <= final(out)@.len(),
{
    proof {
        reveal_strlit("http://");
        reveal_strlit("https://");
    }
    let v = chars_of(text);
    let ghost o0 = *order as nat;
    let ghost start_out = cands_view(out@);
    let ghost within = *order <= out@.len();
    let http = chars_of("http://");
    let https = chars_of("https://");
    let question = chars_of("?");
    let mut i: usize = 0;
    while i < v.len()
        invariant
            v@ == text@,
            http@ == "http://"@,
            https@ == "https://"@,
            question@ == "?"@,
            start_out == cands_view(old(out)@),
            o0 == *old(order) as nat,
            within ==> *order <= out@.len(),
            !within ==> o0 + embedded_scan(v@, 0, o0).len() <= usize::MAX,
            cands_view(out@) + embedded_scan(v@, i as int, *order as nat) == start_out
                + embedded_scan(v@, 0, o0),
            *order + embedded_scan(v@, i as int, *order as nat).len() == o0 + embedded_scan(
                v@,
                0,
                o0,
            ).len(),
        decreases v@.len() - i,
    {
        let ghost o = *order as nat;
        let ghost before = cands_view(out@);
        proof {
            lemma_find_from_bounds(v@, "http://"@, i as int);
            lemma_find_from_bounds(v@, "https://"@, i as int);
            reveal_strlit("http://");
            reveal_strlit("https://");
        }
        let a = find_from_exec(&v, &http, i);
        let b = find_from_exec(&v, &https, i);
        let abs = match (a, b) {
            (Some(x), Some(y)) => if x < y {
                x
            } else {
                y
            },
            (Some(x), None) => x,
            (None, Some(y)) => y,
            (None, None) => {
                assert(embedded_scan(v@, i as int, o) =~= Seq::<CandidateV>::empty());
                assert(cands_view(out@) =~= start_out + embedded_scan(v@, 0, o0));
                return;
            },
        };
        let u = slice_chars(&v, abs, v.len());
        assert(u@ =~= v@.skip(abs as int));
        let mut e: usize = 0;
        while e < u.len() && !(is_space(u[e]) || u[e] == '\'' || u[e] == '"' || u[e] == '<'
            || u[e] == '>')
            invariant
                e <= u@.len(),
                forall|m: int| 0 <= m < e ==> !ends_embedded_run(u@[m]),
            decreases u.len() - e,
        {
            e = e + 1;
        }
        proof {
            lemma_first_where_is(u@, |c: char| ends_embedded_run(c), e as int);
        }
        let run = slice_chars(&u, 0, e);
        assert(run@ =~= if e < u@.len() {
            u@.take(e as int)
        } else {
            u@
        });
        let stem = before_any_exec(&run, &question);
        let bytes = crate::text::utf8_bytes(&stem);
        if has_image_ext(&stem) && bytes.len() > 4 {
            assert(embedded_scan(v@, i as int, o).len() >= 1);
            emit(out, order, string_of(&run), String::from_str("embedded image URL"), "embedded");
        }
        assert(cands_view(out@) + embedded_scan(v@, abs + 4, *order as nat) =~= before
            + embedded_scan(v@, i as int, o));
        i = abs + 4;
    }
    assert(embedded_scan(v@, i as int, *order as nat) =~= Seq::<CandidateV>::empty());
    assert(cands_view(out@) =~= start_out + embedded_scan(v@, 0, o0));
}

// ---------------------------------------------------------------------------
// Scoring

/// The words whose presence in a candidate's URL or hint moves its score, and
/// by how much, in thousandths.
pub open spec fn score_terms() -> Seq<(Seq<char>, int)> {
    seq![
        ("screenshot"@, 35000int),
        ("screen"@, 18000int),
        ("interface"@, 24000int),
        ("dashboard"@, 22000int),
        ("window"@, 16000int),
        ("workflow"@, 14000int),
        ("product"@, 8000int),
        ("hero"@, 5000int),
        ("app"@, 4000int),
        ("logo"@, -45000int),
        ("icon"@, -38000int),
        ("avatar"@, -40000int),
        ("badge"@, -50000int),
        ("favicon"@, -60000int),
        ("opengraph"@, -22000int),
        ("emoji"@, -45000int),
        ("spinner"@, -45000int),
    ]
}

/// The sum of the weights of the terms that occur in `text`.
pub open spec fn word_score(text: Seq<char>, terms: Seq<(Seq<char>, int)>) -> int
    decreases terms.len(),
{
    if terms.len() == 0 {
        0
    } else {
        word_score(text, terms.drop_last()) + if find_seq(text, terms.last().0) is Some {
            terms.last().1
        } else {
            0
        }
    }
}

/// How strongly a candidate's own text suggests a product screenshot, in
/// thousandths: the weighted words of its lowercased URL and hint, a bonus
/// for `meta` and `srcset` origins, and 15 per position on the page.
pub open spec fn preflight_score_spec(c: CandidateV) -> int {
    lowered_score_spec(unicode_lower(c.url + " "@ + c.hint), c.origin, c.order)
}

/// The score of a candidate whose URL and hint, joined by a space, read
/// `text` once lowercased.
pub open spec fn lowered_score_spec(text: Seq<char>, origin: Seq<char>, order: nat) -> int {
    word_score(text, score_terms()) + (if origin == "meta"@ {
        9000int
    } else {
        0int
    }) + (if crate::text::ends_with(origin, "-srcset"@) {
        7000int
    } else {
        0int
    }) - 15 * order
}

/// The score of a candidate before any image is fetched, in thousandths.
pub fn preflight_score(candidate: &Candidate) -> (r: i128)
    ensures
        r == preflight_score_spec(candidate@),
{
    let mut joined = chars_of(candidate.url.as_str());
    joined.push(' ');
    append_chars(&mut joined, &chars_of(candidate.hint.as_str()));
    proof {
        reveal_strlit(" ");
    }
    assert(joined@ =~= candidate.url@ + " "@ + candidate.hint@);
    let lowered = lowercase(string_of(&joined).as_str());
    lowered_score(lowered.as_str(), candidate.origin, candidate.order)
}

/// The score of a candidate from its lowercased URL and hint (joined by a
/// space), its origin and its position on the page, in thousandths.
pub fn lowered_score(lowered: &str, origin: &str, order: usize) -> (r: i128)
    ensures
        r == lowered_score_spec(lowered@, origin@, order as nat),
{
    let terms: [(&str, i128); 17] = [
        ("screenshot", 35000),
        ("screen", 18000),
        ("interface", 24000),
        ("dashboard", 22000),
        ("window", 16000),
        ("workflow", 14000),
        ("product", 8000),
        ("hero", 5000),
        ("app", 4000),
        ("logo", -45000),
        ("icon", -38000),
        ("avatar", -40000),
        ("badge", -50000),
        ("favicon", -60000),
        ("opengraph", -22000),
        ("emoji", -45000),
        ("spinner", -45000),
    ];
    let ghost tv = terms@.map_values(|p: (&str, i128)| (p.0@, p.1 as int));
    assert(tv =~= score_terms());
    let text = chars_of(lowered);
    let mut score: i128 = 0;
    let mut i: usize = 0;
    while i < 17
        invariant
            i <= 17,
            tv == terms@.map_values(|p: (&str, i128)| (p.0@, p.1 as int)),
            score == word_score(text@, tv.take(i as int)),
            -1000000 * i <= score <= 1000000 * i,
            forall|k: int| 0 <= k < 17 ==> -100000 <= #[trigger] terms@[k].1 <= 100000,
        decreases 17 - i,
    {
        assert(tv.take(i + 1).drop_last() =~= tv.take(i as int));
        assert(tv.take(i + 1).last() == (terms@[i as int].0@, terms@[i as int].1 as int));
        let (word, weight) = terms[i];
        if find_from_exec(&text, &chars_of(word), 0).is_some() {
            score = score + weight;
        }
        i = i + 1;
    }
    assert(tv.take(17) =~= tv);
    if crate::text::str_eq(origin, "meta") {
        score = score + 9000;
    }
    if crate::text::ends_with_exec(&chars_of(origin), &chars_of("-srcset")) {
        score = score + 7000;
    }
    score - 15 * (order as i128)
}

// ---------------------------------------------------------------------------
// Names

/// The slug being built and whether it ends in a separator, after `s`.
pub open spec fn slug_fold(s: Seq<char>) -> (Seq<char>, bool)
    decreases s.len(),
{
    if s.len() == 0 {
        (Seq::empty(), false)
    } else {
        let (slug, dash) = slug_fold(s.drop_last());
        let c = s.last();
        if crate::text::is_lower_char(c) || crate::text::is_digit_char(c) {
            (slug.push(c), false)
        } else if !dash && slug.len() > 0 {
            (slug.push('-'), true)
        } else {
            (slug, dash)
        }
    }
}

/// The number of trailing `-` of a slug.
pub open spec fn trailing_dashes(s: Seq<char>) -> nat
    decreases s.len(),
{
    if s.len() > 0 && s.last() == '-' {
        1 + trailing_dashes(s.drop_last())
    } else {
        0
    }
}

/// The slug of text that is already lowercased: runs of anything but ASCII
/// lowercase letters and digits become one `-`, none leading or trailing, at
/// most 60 characters.
pub open spec fn slug_of_lowered(s: Seq<char>) -> Seq<char> {
    let slug = slug_fold(s).0;
    let kept = slug.take(slug.len() - trailing_dashes(slug));
    if kept.len() > 60 {
        kept.take(60)
    } else {
        kept
    }
}

/// The slug of a catalog entry's name.
pub open spec fn slugify_spec(name: Seq<char>) -> Seq<char> {
    slug_of_lowered(unicode_lower(name))
}

proof fn lemma_trailing_dashes(s: Seq<char>)
    ensures
        trailing_dashes(s) <= s.len(),
        trailing_dashes(s) < s.len() ==> s[s.len() - 1 - trailing_dashes(s)] != '-',
        forall|j: int| s.len() - trailing_dashes(s) <= j < s.len() ==> s[j] == '-',
    decreases s.len(),
{
    if s.len() > 0 && s.last() == '-' {
        lemma_trailing_dashes(s.drop_last());
        assert forall|j: int| s.len() - trailing_dashes(s) <= j < s.len() implies s[j] == '-' by {
            if j < s.len() - 1 {
                assert(s[j] == s.drop_last()[j]);
            }
        }
    }
}

proof fn lemma_trailing_dashes_exact(s: Seq<char>, n: int)
    requires
        0 <= n <= s.len(),
        forall|j: int| s.len() - n <= j < s.len() ==> s[j] == '-',
        n == s.len() || s[s.len() - 1 - n] != '-',
    ensures
        trailing_dashes(s) == n,
    decreases n,
{
    if n > 0 {
        let t = s.drop_last();
        assert forall|j: int| t.len() - (n - 1) <= j < t.len() implies t[j] == '-' by {
            assert(t[j] == s[j]);
        }
        if n - 1 < t.len() {
            assert(t[t.len() - 1 - (n - 1)] == s[s.len() - 1 - n]);
        }
        lemma_trailing_dashes_exact(t, n - 1);
    }
}

/// What `slug_fold` keeps true of the slug it builds.
pub open spec fn slug_shape(slug: Seq<char>) -> bool {
    &&& forall|i: int|
        0 <= i < slug.len() ==> crate::text::is_lower_char(#[trigger] slug[i])
            || crate::text::is_digit_char(slug[i]) || slug[i] == '-'
    &&& slug.len() > 0 ==> slug[0] != '-'
    &&& forall|i: int| 0 <= i < slug.len() - 1 ==> !(#[trigger] slug[i] == '-' && slug[i + 1] == '-')
}

proof fn lemma_slug_fold(s: Seq<char>)
    ensures
        slug_shape(slug_fold(s).0),
        slug_fold(s).1 <==> (slug_fold(s).0.len() > 0 && slug_fold(s).0.last() == '-'),
        (forall|i: int|
            0 <= i < s.len() ==> !crate::text::is_lower_char(#[trigger] s[i])
                && !crate::text::is_digit_char(s[i])) ==> slug_fold(s).0.len() == 0,
    decreases s.len(),
{
    if s.len() > 0 {
        let d = s.drop_last();
        lemma_slug_fold(d);
        let (slug, dash) = slug_fold(d);
        let next = slug_fold(s).0;
        let c = s.last();
        if crate::text::is_lower_char(c) || crate::text::is_digit_char(c) || (!dash && slug.len() > 0) {
            assert forall|i: int| 0 <= i < slug.len() implies #[trigger] next[i] == slug[i] by {}
        }
        if (forall|i: int|
            0 <= i < s.len() ==> !crate::text::is_lower_char(#[trigger] s[i])
                && !crate::text::is_digit_char(s[i])) {
            assert forall|i: int|
                0 <= i < d.len() implies !crate::text::is_lower_char(#[trigger] d[i])
                && !crate::text::is_digit_char(d[i]) by {
                assert(d[i] == s[i]);
            }
            assert(!crate::text::is_lower_char(s[s.len() - 1]));
        }
    }
}

proof fn lemma_slug_prefix(slug: Seq<char>, n: int)
    requires
        slug_shape(slug),
        0 <= n <= slug.len(),
    ensures
        slug_shape(slug.take(n)),
{
    let t = slug.take(n);
    assert forall|i: int| 0 <= i < t.len() implies crate::text::is_lower_char(#[trigger] t[i])
        || crate::text::is_digit_char(t[i]) || t[i] == '-' by {
        assert(t[i] == slug[i]);
    }
    assert forall|i: int| 0 <= i < t.len() - 1 implies !(#[trigger] t[i] == '-' && t[i + 1] == '-') by {
        assert(t[i] == slug[i] && t[i + 1] == slug[i + 1]);
    }
}

/// A slug is made of ASCII lowercase letters, digits and single `-`
/// separators, never starts with a `-`, is at most 60 characters long and,
/// shorter than that, never ends with a `-`; a name without an ASCII
/// lowercase letter or digit once lowercased has the empty slug.
pub proof fn law_slug_shape(name: Seq<char>)
    ensures
        slug_shape(slugify_spec(name)),
        slugify_spec(name).len() <= 60,
        slugify_spec(name).len() < 60 && slugify_spec(name).len() > 0 ==> slugify_spec(name).last()
            != '-',
        (forall|i: int|
            0 <= i < unicode_lower(name).len() ==> !crate::text::is_lower_char(
                #[trigger] unicode_lower(name)[i],
            ) && !crate::text::is_digit_char(unicode_lower(name)[i])) ==> slugify_spec(name).len()
            == 0,
{
    let lowered = unicode_lower(name);
    lemma_slug_fold(lowered);
    let slug = slug_fold(lowered).0;
    lemma_trailing_dashes(slug);
    let kept = slug.take(slug.len() - trailing_dashes(slug));
    lemma_slug_prefix(slug, slug.len() - trailing_dashes(slug));
    if kept.len() > 60 {
        lemma_slug_prefix(kept, 60);
    } else if kept.len() > 0 {
        assert(kept.last() == slug[slug.len() - 1 - trailing_dashes(slug)]);
    }
}

/// The slug of a catalog entry's name, as its image file is named.
pub fn slugify_name(name: &str) -> (r: String)
    ensures
        r@ == slugify_spec(name@),
{
    let lowered = lowercase(name);
    slug_of_lowercased(lowered.as_str())
}

/// The slug of a name already lowercased.
pub fn slug_of_lowercased(text: &str) -> (r: String)
    ensures
        r@ == slug_of_lowered(text@),
{
    let lowered = chars_of(text);
    let mut slug: Vec<char> = Vec::new();
    let mut dash = false;
    let mut i: usize = 0;
    while i < lowered.len()
        invariant
            i <= lowered@.len(),
            (slug@, dash) == slug_fold(lowered@.take(i as int)),
        decreases lowered.len() - i,
    {
        let c = lowered[i];
        assert(lowered@.take(i + 1).drop_last() =~= lowered@.take(i as int));
        if ('a' <= c && c <= 'z') || ('0' <= c && c <= '9') {
            slug.push(c);
            dash = false;
        } else if !dash && slug.len() > 0 {
            slug.push('-');
            dash = true;
        }
        i = i + 1;
    }
    assert(lowered@.take(lowered@.len() as int) =~= lowered@);
    let mut n: usize = 0;
    while n < slug.len() && slug[slug.len() - 1 - n] == '-'
        invariant
            n <= slug@.len(),
            forall|j: int| slug@.len() - n <= j < slug@.len() ==> slug@[j] == '-',
        decreases slug.len() - n,
    {
        n = n + 1;
    }
    proof {
        lemma_trailing_dashes_exact(slug@, n as int);
    }
    let keep = slug.len() - n;
    let take = if keep > 60 {
        60
    } else {
        keep
    };
    let out = slice_chars(&slug, 0, take);
    assert(out@ =~= slug_of_lowered(lowered@));
    string_of(&out)
}

// ---------------------------------------------------------------------------
// Selection

/// The most candidates kept for one page.
pub const MAX_CANDIDATES: usize = 14;

impl Candidate {
    /// A copy of the candidate.
    pub fn duplicate(&self) -> (r: Candidate)
        ensures
            r@ == self@,
    {
        Candidate {
            url: self.url.clone(),
            hint: self.hint.clone(),
            order: self.order,
            origin: self.origin,
        }
    }
}

/// A resolved URL with a non-empty host part after its `scheme://`.
pub open spec fn has_netloc(r: Seq<char>) -> bool {
    match crate::url::split_scheme_spec(r) {
        Some((_, rest)) => before_any(rest, "/"@).len() > 0,
        None => false,
    }
}

/// The candidates resolved against the page URL and cleaned, each URL once
/// (the first candidate that yields it is kept), in the order found.
pub open spec fn unique_cands(page: Seq<char>, raw: Seq<CandidateV>) -> Seq<CandidateV>
    decreases raw.len(),
{
    if raw.len() == 0 {
        Seq::empty()
    } else {
        let prev = unique_cands(page, raw.drop_last());
        let c = raw.last();
        match crate::url::join_url_spec(page, c.url) {
            None => prev,
            Some(resolved) => if !has_netloc(resolved) {
                prev
            } else {
                let clean = crate::url::clean_url_spec(crate::text::utf8_encode(resolved));
                if exists|k: int| 0 <= k < prev.len() && (#[trigger] prev[k]).url == clean {
                    prev
                } else {
                    prev.push(cand(clean, trim(c.hint), c.order, c.origin))
                }
            },
        }
    }
}

/// Where a stable descending sort places `c` among the already sorted `s`:
/// after every candidate that scores at least as high.
pub open spec fn insert_pos(s: Seq<CandidateV>, c: CandidateV) -> int
    decreases s.len(),
{
    if s.len() == 0 {
        0
    } else if preflight_score_spec(s.last()) >= preflight_score_spec(c) {
        s.len() as int
    } else {
        insert_pos(s.drop_last(), c)
    }
}

/// The candidates in descending score, ties in the order found.
pub open spec fn sort_desc(s: Seq<CandidateV>) -> Seq<CandidateV>
    decreases s.len(),
{
    if s.len() == 0 {
        Seq::empty()
    } else {
        let sorted = sort_desc(s.drop_last());
        sorted.insert(insert_pos(sorted, s.last()), s.last())
    }
}

proof fn lemma_insert_pos_bounds(s: Seq<CandidateV>, c: CandidateV)
    ensures
        0 <= insert_pos(s, c) <= s.len(),
    decreases s.len(),
{
    if s.len() > 0 {
        lemma_insert_pos_bounds(s.drop_last(), c);
    }
}

proof fn lemma_sort_desc_len(s: Seq<CandidateV>)
    ensures
        sort_desc(s).len() == s.len(),
    decreases s.len(),
{
    if s.len() > 0 {
        lemma_sort_desc_len(s.drop_last());
        lemma_insert_pos_bounds(sort_desc(s.drop_last()), s.last());
    }
}

pub open spec fn distinct_urls(s: Seq<CandidateV>) -> bool {
    forall|i: int, j: int| 0 <= i < j < s.len() ==> (#[trigger] s[i]).url != (#[trigger] s[j]).url
}

pub open spec fn best_first(s: Seq<CandidateV>) -> bool {
    forall|i: int, j: int|
        0 <= i < j < s.len() ==> preflight_score_spec(#[trigger] s[i]) >= preflight_score_spec(
            #[trigger] s[j],
        )
}

proof fn lemma_unique_distinct(page: Seq<char>, raw: Seq<CandidateV>)
    ensures
        distinct_urls(unique_cands(page, raw)),
    decreases raw.len(),
{
    if raw.len() > 0 {
        lemma_unique_distinct(page, raw.drop_last());
        let prev = unique_cands(page, raw.drop_last());
        let now = unique_cands(page, raw);
        if now.len() == prev.len() + 1 {
            assert forall|i: int, j: int| 0 <= i < j < now.len() implies (#[trigger] now[i]).url
                != (#[trigger] now[j]).url by {
                if j < prev.len() {
                    assert(now[i] == prev[i] && now[j] == prev[j]);
                } else {
                    assert(now[i] == prev[i]);
                }
            }
        }
    }
}

proof fn lemma_insert_pos_split(s: Seq<CandidateV>, c: CandidateV)
    requires
        best_first(s),
    ensures
        forall|k: int| 0 <= k < insert_pos(s, c) ==> preflight_score_spec(#[trigger] s[k])
            >= preflight_score_spec(c),
        forall|k: int| insert_pos(s, c) <= k < s.len() ==> preflight_score_spec(#[trigger] s[k])
            < preflight_score_spec(c),
    decreases s.len(),
{
    lemma_insert_pos_bounds(s, c);
    if s.len() > 0 {
        let d = s.drop_last();
        assert forall|i: int, j: int| 0 <= i < j < d.len() implies preflight_score_spec(#[trigger] d[i])
            >= preflight_score_spec(#[trigger] d[j]) by {
            assert(d[i] == s[i] && d[j] == s[j]);
        }
        if preflight_score_spec(s.last()) >= preflight_score_spec(c) {
            assert forall|k: int| 0 <= k < insert_pos(s, c) implies preflight_score_spec(#[trigger] s[k])
                >= preflight_score_spec(c) by {
                if k < s.len() - 1 {
                    assert(preflight_score_spec(s[k]) >= preflight_score_spec(s[s.len() - 1]));
                }
            }
        } else {
            lemma_insert_pos_split(d, c);
            assert forall|k: int| 0 <= k < insert_pos(s, c) implies preflight_score_spec(#[trigger] s[k])
                >= preflight_score_spec(c) by {
                assert(s[k] == d[k]);
            }
            assert forall|k: int| insert_pos(s, c) <= k < s.len() implies preflight_score_spec(
                #[trigger] s[k],
            ) < preflight_score_spec(c) by {
                if k < s.len() - 1 {
                    assert(s[k] == d[k]);
                }
            }
        }
    }
}

proof fn lemma_sort_desc(s: Seq<CandidateV>)
    ensures
        sort_desc(s).len() == s.len(),
        best_first(sort_desc(s)),
        forall|x: CandidateV| sort_desc(s).contains(x) <==> s.contains(x),
        distinct_urls(s) ==> distinct_urls(sort_desc(s)),
    decreases s.len(),
{
    lemma_sort_desc_len(s);
    if s.len() > 0 {
        let d = s.drop_last();
        let c = s.last();
        lemma_sort_desc(d);
        let sorted = sort_desc(d);
        let pos = insert_pos(sorted, c);
        lemma_insert_pos_bounds(sorted, c);
        lemma_insert_pos_split(sorted, c);
        let r = sort_desc(s);
        assert(r == sorted.insert(pos, c));
        assert forall|k: int| 0 <= k < r.len() implies #[trigger] r[k] == if k < pos {
            sorted[k]
        } else if k == pos {
            c
        } else {
            sorted[k - 1]
        } by {}
        assert forall|i: int, j: int| 0 <= i < j < r.len() implies preflight_score_spec(#[trigger] r[i])
            >= preflight_score_spec(#[trigger] r[j]) by {
            if j < pos {
            } else if j == pos {
            } else if i < pos {
                assert(preflight_score_spec(sorted[i]) >= preflight_score_spec(c));
                assert(preflight_score_spec(sorted[j - 1]) < preflight_score_spec(c));
            } else if i == pos {
                assert(preflight_score_spec(sorted[j - 1]) < preflight_score_spec(c));
            } else {
            }
        }
        assert forall|x: CandidateV| r.contains(x) <==> s.contains(x) by {
            if r.contains(x) {
                let k = choose|k: int| 0 <= k < r.len() && r[k] == x;
                if k == pos {
                    assert(s[s.len() - 1] == x);
                } else {
                    let m = if k < pos { k } else { k - 1 };
                    assert(sorted[m] == x);
                    assert(sorted.contains(x));
                    assert(d.contains(x));
                    let n = choose|n: int| 0 <= n < d.len() && d[n] == x;
                    assert(s[n] == x);
                }
            }
            if s.contains(x) {
                let n = choose|n: int| 0 <= n < s.len() && s[n] == x;
                if n == s.len() - 1 {
                    assert(r[pos] == x);
                } else {
                    assert(d[n] == x);
                    assert(d.contains(x));
                    let m = choose|m: int| 0 <= m < sorted.len() && sorted[m] == x;
                    if m < pos {
                        assert(r[m] == x);
                    } else {
                        assert(r[m + 1] == x);
                    }
                }
            }
        }
        if distinct_urls(s) {
            assert forall|i: int, j: int| 0 <= i < j < d.len() implies (#[trigger] d[i]).url
                != (#[trigger] d[j]).url by {
                assert(d[i] == s[i] && d[j] == s[j]);
            }
            assert forall|m: int| 0 <= m < sorted.len() implies (#[trigger] sorted[m]).url != c.url by {
                assert(sorted.contains(sorted[m]));
                assert(d.contains(sorted[m]));
                let n = choose|n: int| 0 <= n < d.len() && d[n] == sorted[m];
                assert(s[n] == d[n]);
                assert(s[s.len() - 1] == c);
            }
            assert forall|i: int, j: int| 0 <= i < j < r.len() implies (#[trigger] r[i]).url
                != (#[trigger] r[j]).url by {
                if i == pos {
                    assert(r[j] == sorted[j - 1]);
                } else if j == pos {
                    assert(r[i] == sorted[i]);
                } else {
                    let a = if i < pos { i } else { i - 1 };
                    let b = if j < pos { j } else { j - 1 };
                    assert(a < b);
                }
            }
        }
    }
}

/// The candidates of a page are at most `MAX_CANDIDATES`, name each URL at
/// most once, and come best first: no candidate scores above one before it.
pub proof fn law_page_candidates_best_first(page: Seq<char>, decoded: Seq<char>)
    ensures
        page_candidates(page, decoded).len() <= 14,
        distinct_urls(page_candidates(page, decoded)),
        best_first(page_candidates(page, decoded)),
{
    let unique = unique_cands(page, raw_candidates(unescaped(decoded)));
    lemma_unique_distinct(page, raw_candidates(unescaped(decoded)));
    lemma_sort_desc(unique);
    let sorted = sort_desc(unique);
    if sorted.len() > 14 {
        let t = sorted.take(14);
        assert forall|i: int, j: int| 0 <= i < j < t.len() implies (#[trigger] t[i]).url
            != (#[trigger] t[j]).url by {
            assert(t[i] == sorted[i] && t[j] == sorted[j]);
        }
        assert forall|i: int, j: int| 0 <= i < j < t.len() implies preflight_score_spec(#[trigger] t[i])
            >= preflight_score_spec(#[trigger] t[j]) by {
            assert(t[i] == sorted[i] && t[j] == sorted[j]);
        }
    }
}

/// A candidate URL cleaned from a resolved URL with a non-empty authority.
pub open spec fn from_netloc(c: CandidateV) -> bool {
    exists|resolved: Seq<char>|
        has_netloc(resolved) && #[trigger] crate::url::clean_url_spec(crate::text::utf8_encode(resolved))
            == c.url
}

proof fn lemma_unique_from_netloc(page: Seq<char>, raw: Seq<CandidateV>)
    ensures
        forall|k: int| 0 <= k < unique_cands(page, raw).len() ==> from_netloc(#[trigger] unique_cands(page, raw)[k]),
    decreases raw.len(),
{
    if raw.len() > 0 {
        lemma_unique_from_netloc(page, raw.drop_last());
        let prev = unique_cands(page, raw.drop_last());
        let now = unique_cands(page, raw);
        assert forall|k: int| 0 <= k < now.len() implies from_netloc(#[trigger] now[k]) by {
            if k < prev.len() {
                assert(now[k] == prev[k]);
            } else {
                let resolved = crate::url::join_url_spec(page, raw.last().url).unwrap();
                assert(has_netloc(resolved));
                assert(now[k].url == crate::url::clean_url_spec(crate::text::utf8_encode(resolved)));
            }
        }
    }
}

proof fn lemma_netloc_first(rest: Seq<char>)
    ensures
        before_any(rest, "/"@).len() > 0 <==> rest.len() >= 1 && rest[0] != '/',
{
    reveal_strlit("/");
    let f = |x: char| "/"@.contains(x);
    crate::text::lemma_first_where(rest, f);
    if rest.len() >= 1 {
        assert(f(rest[0]) <==> rest[0] == '/') by {
            if rest[0] == '/' {
                assert("/"@[0] == '/');
            }
        }
    }
}

/// A URL cleaned from one with a non-empty authority has a non-empty
/// authority.
proof fn lemma_clean_keeps_netloc(r: Seq<char>)
    requires
        has_netloc(r),
    ensures
        has_netloc(crate::url::clean_url_spec(crate::text::utf8_encode(r))),
{
    crate::url::lemma_clean_keeps_scheme_split(r);
    let b = crate::url::split_scheme_spec(r).unwrap().1;
    lemma_netloc_first(b);
    let c = crate::url::split_scheme_spec(crate::url::clean_url_spec(crate::text::utf8_encode(r))).unwrap().1;
    lemma_netloc_first(c);
}

/// No candidate of a page that the cap of `MAX_CANDIDATES` leaves out
/// scores above the last one kept, and each kept candidate's URL is the
/// cleaned form of a resolved URL with a non-empty authority, and has a
/// non-empty authority itself.
pub proof fn law_page_candidates_cap(page: Seq<char>, decoded: Seq<char>)
    ensures
        ({
            let all = unique_cands(page, raw_candidates(unescaped(decoded)));
            let kept = page_candidates(page, decoded);
            &&& forall|k: int| 0 <= k < kept.len() ==> from_netloc(#[trigger] kept[k])
            &&& forall|k: int| 0 <= k < kept.len() ==> has_netloc(#[trigger] kept[k].url)
            &&& forall|c: CandidateV|
                all.contains(c) && !kept.contains(c) ==> kept.len() == 14 && preflight_score_spec(c)
                    <= preflight_score_spec(kept.last())
        }),
{
    let all = unique_cands(page, raw_candidates(unescaped(decoded)));
    lemma_sort_desc(all);
    lemma_unique_from_netloc(page, raw_candidates(unescaped(decoded)));
    let sorted = sort_desc(all);
    let kept = page_candidates(page, decoded);
    assert forall|k: int| 0 <= k < kept.len() implies from_netloc(#[trigger] kept[k]) by {
        assert(kept.len() <= sorted.len());
        assert(kept[k] == sorted[k]);
        assert(sorted.contains(sorted[k]));
        assert(all.contains(sorted[k]));
        let j = choose|j: int| 0 <= j < all.len() && all[j] == sorted[k];
        assert(from_netloc(all[j]));
    }
    assert forall|k: int| 0 <= k < kept.len() implies has_netloc(#[trigger] kept[k].url) by {
        assert(from_netloc(kept[k]));
        let resolved = choose|resolved: Seq<char>|
            has_netloc(resolved) && #[trigger] crate::url::clean_url_spec(crate::text::utf8_encode(resolved))
                == kept[k].url;
        lemma_clean_keeps_netloc(resolved);
    }
    assert forall|c: CandidateV| all.contains(c) && !kept.contains(c) implies kept.len() == 14
        && preflight_score_spec(c) <= preflight_score_spec(kept.last()) by {
        assert(sorted.contains(c));
        let k = choose|k: int| 0 <= k < sorted.len() && sorted[k] == c;
        if sorted.len() <= 14 {
            assert(kept == sorted);
            assert(kept[k] == c);
        } else {
            if k < 14 {
                assert(kept[k] == sorted[k]);
            }
            assert(kept.last() == sorted[13]);
        }
    }
}

/// The page text candidates are read from: the body decoded as UTF-8, with
/// the JSON escapes `\/`, `\u0026` and `\u003d` undone.
pub open spec fn page_text(body: Seq<u8>) -> Seq<char> {
    unescaped(utf8_lossy(body))
}

/// Decoded page text with the JSON escapes `\/`, `\u0026` and `\u003d`
/// undone.
pub open spec fn unescaped(decoded: Seq<char>) -> Seq<char> {
    crate::text::replace_all(
        crate::text::replace_all(
            crate::text::replace_all(decoded, "\\/"@, "/"@),
            "\\u0026"@,
            "&"@,
        ),
        "\\u003d"@,
        "="@,
    )
}

/// Every candidate of a page text: tags, then CSS, then embedded URLs,
/// numbered in that order.
pub open spec fn raw_candidates(text: Seq<char>) -> Seq<CandidateV> {
    let tags = tag_scan(text, 0, 0);
    let css = css_scan(text, 0, tags.len());
    tags + css + embedded_scan(text, 0, tags.len() + css.len())
}

/// The candidates of a fetched page, best first, at most `MAX_CANDIDATES`;
/// a fetched image is its own single candidate.
pub open spec fn candidate_urls_spec(page: Seq<char>, body: Seq<u8>, content_type: Seq<char>) -> Seq<
    CandidateV,
> {
    if starts_with(content_type, "image/"@) {
        seq![cand(page, "direct image"@, 0, "direct"@)]
    } else {
        page_candidates(page, utf8_lossy(body))
    }
}

/// The candidates of a page whose body decoded to `decoded`, best first, at
/// most `MAX_CANDIDATES`.
pub open spec fn page_candidates(page: Seq<char>, decoded: Seq<char>) -> Seq<CandidateV> {
    let sorted = sort_desc(unique_cands(page, raw_candidates(unescaped(decoded))));
    if sorted.len() > 14 {
        sorted.take(14)
    } else {
        sorted
    }
}

fn resolve_candidate(page_url: &str, c: &Candidate) -> (r: Option<Candidate>)
    ensures
        match crate::url::join_url_spec(page_url@, c@.url) {
            None => r is None,
            Some(resolved) => if !has_netloc(resolved) {
                r is None
            } else {
                r matches Some(x) && x@ == cand(
                    crate::url::clean_url_spec(crate::text::utf8_encode(resolved)),
                    trim(c@.hint),
                    c@.order,
                    c@.origin,
                )
            },
        },
{
    let resolved = match crate::url::join_url(page_url, c.url.as_str()) {
        Some(r) => r,
        None => return None,
    };
    let netloc = match crate::url::split_scheme(resolved.as_str()) {
        Some((_, rest)) => before_any_exec(&chars_of(rest.as_str()), &chars_of("/")).len() > 0,
        None => false,
    };
    if !netloc {
        return None;
    }
    let clean = crate::url::clean_url(resolved.as_str());
    let hint = trim_chars(&chars_of(c.hint.as_str()));
    Some(Candidate { url: clean, hint: string_of(&hint), order: c.order, origin: c.origin })
}

/// The raw candidates resolved against the page URL, cleaned, and kept only
/// at the first of each URL.
pub fn unique_candidates(page_url: &str, raw: &Vec<Candidate>) -> (r: Vec<Candidate>)
    ensures
        cands_view(r@) == unique_cands(page_url@, cands_view(raw@)),
{
    let ghost rv = cands_view(raw@);
    let mut out: Vec<Candidate> = Vec::new();
    let mut i: usize = 0;
    while i < raw.len()
        invariant
            i <= raw@.len(),
            rv == cands_view(raw@),
            cands_view(out@) == unique_cands(page_url@, rv.take(i as int)),
        decreases raw.len() - i,
    {
        assert(rv.take(i + 1).drop_last() =~= rv.take(i as int));
        assert(rv.take(i + 1).last() == raw@[i as int]@);
        let ghost prev = cands_view(out@);
        match resolve_candidate(page_url, &raw[i]) {
            None => {},
            Some(c) => {
                let mut seen = false;
                let mut k: usize = 0;
                while k < out.len()
                    invariant
                        k <= out@.len(),
                        prev == cands_view(out@),
                        seen == exists|m: int| 0 <= m < k && (#[trigger] prev[m]).url == c@.url,
                    decreases out.len() - k,
                {
                    if crate::text::str_eq(out[k].url.as_str(), c.url.as_str()) {
                        assert(prev[k as int].url == c@.url);
                        seen = true;
                    }
                    k = k + 1;
                }
                if !seen {
                    out.push(c);
                    assert(cands_view(out@) =~= prev.push(c@));
                }
            },
        }
        i = i + 1;
    }
    assert(rv.take(raw@.len() as int) =~= rv);
    out
}

/// The candidates by descending preflight score, those that score alike in
/// their given order.
pub fn sort_candidates(items: &Vec<Candidate>) -> (r: Vec<Candidate>)
    ensures
        cands_view(r@) == sort_desc(cands_view(items@)),
{
    let ghost iv = cands_view(items@);
    let mut sorted: Vec<Candidate> = Vec::new();
    let mut scores: Vec<i128> = Vec::new();
    let mut i: usize = 0;
    while i < items.len()
        invariant
            i <= items@.len(),
            iv == cands_view(items@),
            cands_view(sorted@) == sort_desc(iv.take(i as int)),
            scores@.len() == sorted@.len(),
            forall|j: int|
                0 <= j < scores@.len() ==> #[trigger] scores@[j] == preflight_score_spec(
                    sorted@[j]@,
                ),
        decreases items.len() - i,
    {
        assert(iv.take(i + 1).drop_last() =~= iv.take(i as int));
        assert(iv.take(i + 1).last() == items@[i as int]@);
        let c = items[i].duplicate();
        let sc = preflight_score(&c);
        let ghost s = cands_view(sorted@);
        let mut k: usize = sorted.len();
        assert(s.take(k as int) =~= s);
        while k > 0 && scores[k - 1] < sc
            invariant
                k <= sorted@.len(),
                s == cands_view(sorted@),
                scores@.len() == sorted@.len(),
                sc == preflight_score_spec(c@),
                forall|j: int|
                    0 <= j < scores@.len() ==> #[trigger] scores@[j] == preflight_score_spec(
                        sorted@[j]@,
                    ),
                insert_pos(s, c@) == insert_pos(s.take(k as int), c@),
            decreases k,
        {
            assert(s.take(k as int).drop_last() =~= s.take(k - 1));
            assert(s.take(k as int).last() == sorted@[k - 1]@);
            k = k - 1;
        }
        proof {
            if k > 0 {
                assert(s.take(k as int).last() == sorted@[k - 1]@);
            } else {
                assert(s.take(0) =~= Seq::<CandidateV>::empty());
            }
            assert(insert_pos(s, c@) == k);
        }
        let ghost before = sorted@;
        sorted.insert(k, c);
        scores.insert(k, sc);
        assert(cands_view(sorted@) =~= s.insert(k as int, c@));
        assert forall|j: int| 0 <= j < scores@.len() implies #[trigger] scores@[j]
            == preflight_score_spec(sorted@[j]@) by {
            if j < k {
                assert(sorted@[j] == before[j]);
            } else if j > k {
                assert(sorted@[j] == before[j - 1]);
            }
        }
        i = i + 1;
    }
    assert(iv.take(items@.len() as int) =~= iv);
    sorted
}

/// The image candidates of a fetched page, best first and at most
/// `MAX_CANDIDATES` of them; a fetched image is its own single candidate.
///
/// Candidates that score alike keep the order in which the page yields them.
pub fn candidate_urls(page_url: &str, body: &[u8], content_type: &str) -> (r: Vec<Candidate>)
    ensures
        cands_view(r@) == candidate_urls_spec(page_url@, body@, content_type@),
{
    proof {
        reveal_strlit("image/");
    }
    if starts_with_exec(&chars_of(content_type), &chars_of("image/")) {
        let mut one: Vec<Candidate> = Vec::new();
        one.push(
            Candidate {
                url: String::from_str(page_url),
                hint: String::from_str("direct image"),
                order: 0,
                origin: "direct",
            },
        );
        assert(cands_view(one@) =~= seq![cand(page_url@, "direct image"@, 0, "direct"@)]);
        return one;
    }
    let decoded = decode_utf8_lossy(body);
    page_image_candidates(page_url, decoded.as_str())
}

/// The image candidates of a page whose body decoded to `decoded`, best
/// first and at most `MAX_CANDIDATES` of them.
pub fn page_image_candidates(page_url: &str, decoded: &str) -> (r: Vec<Candidate>)
    ensures
        cands_view(r@) == page_candidates(page_url@, decoded@),
{
    proof {
        reveal_strlit("\\/");
        reveal_strlit("\\u0026");
        reveal_strlit("\\u003d");
    }
    let decoded = chars_of(decoded);
    let step1 = crate::text::replace_exec(&decoded, &chars_of("\\/"), &chars_of("/"));
    let step2 = crate::text::replace_exec(&step1, &chars_of("\\u0026"), &chars_of("&"));
    let step3 = crate::text::replace_exec(&step2, &chars_of("\\u003d"), &chars_of("="));
    let text = string_of(&step3);
    assert(text@ == unescaped(decoded@));
    let mut raw: Vec<Candidate> = Vec::new();
    let mut order: usize = 0;
    extract_tag_candidates(text.as_str(), &mut raw, &mut order);
    extract_css_candidates(text.as_str(), &mut raw, &mut order);
    extract_embedded_candidates(text.as_str(), &mut raw, &mut order);
    assert(cands_view(raw@) =~= raw_candidates(unescaped(decoded@)));
    let unique = unique_candidates(page_url, &raw);
    let mut sorted = sort_candidates(&unique);
    proof {
        lemma_sort_desc_len(cands_view(unique@));
    }
    sorted.truncate(MAX_CANDIDATES);
    assert(cands_view(sorted@) =~= page_candidates(page_url@, decoded@));
    sorted
}

} // verus!

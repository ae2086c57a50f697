//! URL handling: scheme splitting, reference resolution against a page URL,
//! percent-encoding and host names.
use vstd::prelude::*;
use crate::text::{
    append_chars, before_any, before_any_exec, chars_of, first_where, index_of, index_of_exec,
    is_alnum, is_alnum_char, is_alpha_char, join_exec, join_with, last_index_of,
    last_index_of_exec, lemma_first_where, matches_at, slice_chars, split_char, split_char_exec,
    split_once_exec, split_once_seq, starts_with, starts_with_exec, string_of,
};
use crate::case::{lowercase, unicode_lower};

verus! {

// ---------------------------------------------------------------------------
// Scheme

/// `url.split_once("://")`.
pub open spec fn split_scheme_spec(url: Seq<char>) -> Option<(Seq<char>, Seq<char>)> {
    split_once_seq(url, "://"@)
}

/// Splits `scheme://rest` at its first `://`.
pub fn split_scheme(url: &str) -> (r: Option<(String, String)>)
    ensures
        match split_scheme_spec(url@) {
            Some((a, b)) => r matches Some((x, y)) && x@ == a && y@ == b,
            None => r is None,
        },
{
    let v = chars_of(url);
    let sep = chars_of("://");
    match split_once_exec(&v, &sep) {
        Some((a, b)) => Some((string_of(&a), string_of(&b))),
        None => None,
    }
}

// ---------------------------------------------------------------------------
// Reference resolution

pub open spec fn is_scheme_char(c: char) -> bool {
    is_alnum_char(c) || c == '+' || c == '.' || c == '-'
}

/// A reference that is itself an absolute URI with a non-hierarchical
/// scheme (`data:`, `mailto:`, ...): text before the first `:` is a valid
/// scheme and no `/` follows the colon.
pub open spec fn is_opaque_absolute(r: Seq<char>) -> bool {
    match index_of(r, ':') {
        Some(colon) => {
            let scheme = r.take(colon);
            &&& scheme.len() > 0
            &&& is_alpha_char(scheme[0])
            &&& forall|i: int| 0 <= i < scheme.len() ==> is_scheme_char(scheme[i])
            &&& !starts_with(r.skip(colon + 1), "/"@)
        },
        None => false,
    }
}

/// One step of dot-segment removal: `.` and empty segments are dropped, `..`
/// removes the last segment (when there is one), anything else is appended.
pub open spec fn push_segment(segments: Seq<Seq<char>>, piece: Seq<char>) -> Seq<Seq<char>> {
    if piece == "."@ || piece.len() == 0 {
        segments
    } else if piece == ".."@ {
        if segments.len() > 0 {
            segments.drop_last()
        } else {
            segments
        }
    } else {
        segments.push(piece)
    }
}

/// Folds `push_segment` over `pieces`.
pub open spec fn resolve_segments(segments: Seq<Seq<char>>, pieces: Seq<Seq<char>>) -> Seq<
    Seq<char>,
>
    decreases pieces.len(),
{
    if pieces.len() == 0 {
        segments
    } else {
        push_segment(resolve_segments(segments, pieces.drop_last()), pieces.last())
    }
}

/// The non-empty pieces of `s` between `/`.
pub open spec fn nonempty_segments(s: Seq<char>) -> Seq<Seq<char>> {
    split_char(s, '/').filter(|x: Seq<char>| x.len() > 0)
}

/// The query and/or fragment of a reference: from its first `?` up to (not
/// including) the following `#`, or else from its first `#` to the end.
pub open spec fn query_part(r: Seq<char>) -> Seq<char> {
    match index_of(r, '?') {
        Some(q) => match index_of(r.skip(q), '#') {
            Some(f) => r.subrange(q, q + f),
            None => r.skip(q),
        },
        None => match index_of(r, '#') {
            Some(f) => r.skip(f),
            None => Seq::empty(),
        },
    }
}

/// The directory of a base path: everything up to and including its last `/`.
pub open spec fn base_directory(path: Seq<char>) -> Seq<char> {
    match last_index_of(path, '/') {
        Some(k) => path.take(k + 1),
        None => "/"@,
    }
}

/// `urljoin(base, reference)` as the collector resolves candidate URLs.
pub open spec fn join_url_spec(base: Seq<char>, r: Seq<char>) -> Option<Seq<char>> {
    if starts_with(r, "http://"@) || starts_with(r, "https://"@) || is_opaque_absolute(r) {
        Some(r)
    } else {
        match split_scheme_spec(base) {
            None => None,
            Some((scheme, base_rest)) => {
                if starts_with(r, "//"@) {
                    Some(scheme + "://"@ + r.skip(2))
                } else {
                    let authority = split_char(base_rest, '/')[0];
                    let base_path = match index_of(base_rest, '/') {
                        Some(k) => base_rest.skip(k),
                        None => "/"@,
                    };
                    let path_only = before_any(base_path, "?#"@);
                    if starts_with(r, "/"@) {
                        Some(scheme + "://"@ + authority + r)
                    } else {
                        let segments = resolve_segments(
                            nonempty_segments(base_directory(path_only)),
                            split_char(before_any(r, "?#"@), '/'),
                        );
                        let joined = if segments.len() == 0 {
                            "/"@
                        } else {
                            "/"@ + join_with(segments, "/"@)
                        };
                        Some(scheme + "://"@ + authority + joined + query_part(r))
                    }
                }
            },
        }
    }
}

pub proof fn lemma_split_char_nonempty(s: Seq<char>, c: char)
    ensures
        split_char(s, c).len() >= 1,
        split_char(s, c)[0] == before_any(s, seq![c]),
{
    crate::text::lemma_first_where(s, crate::text::is_char(c));
    crate::text::lemma_first_where(s, |x: char| seq![c].contains(x));
    assert forall|x: char| #[trigger] seq![c].contains(x) == crate::text::is_char(c)(x) by {
        if x == c {
            assert(seq![c][0] == x);
        }
    }
    let f = |x: char| seq![c].contains(x);
    assert(f =~= crate::text::is_char(c));
}

fn is_opaque_absolute_exec(r: &Vec<char>) -> (b: bool)
    ensures
        b == is_opaque_absolute(r@),
{
    proof {
        lemma_first_where(r@, crate::text::is_char(':'));
    }
    match index_of_exec(r, ':') {
        Some(colon) => {
            if colon == 0 {
                return false;
            }
            let first = r[0];
            assert(r@.take(colon as int)[0] == r@[0]);
            if !(('a' <= first && first <= 'z') || ('A' <= first && first <= 'Z')) {
                assert(!is_alpha_char(r@.take(colon as int)[0]));
                assert(index_of(r@, ':') == Some(colon as int));
                let ghost scheme = r@.take(colon as int);
                assert(!(scheme.len() > 0 && is_alpha_char(scheme[0])));
                assert(!is_opaque_absolute(r@));
                return false;
            }
            let mut i: usize = 0;
            while i < colon
                invariant
                    colon < r.len(),
                    index_of(r@, ':') == Some(colon as int),
                    i <= colon,
                    forall|j: int| 0 <= j < i ==> is_scheme_char(r@[j]),
                decreases colon - i,
            {
                let c = r[i];
                if !(is_alnum(c) || c == '+' || c == '.' || c == '-') {
                    assert(r@.take(colon as int)[i as int] == c);
                    assert(!is_scheme_char(r@.take(colon as int)[i as int]));
                    return false;
                }
                i = i + 1;
            }
            let after = slice_chars(r, colon + 1, r.len());
            let slash = chars_of("/");
            assert(after@ =~= r@.skip(colon + 1));
            let r2 = !starts_with_exec(&after, &slash);
            assert(forall|j: int| 0 <= j < colon ==> r@.take(colon as int)[j] == r@[j]);
            r2
        },
        None => false,
    }
}

fn push_segment_exec(segments: &mut Vec<Vec<char>>, piece: &Vec<char>)
    ensures
        final(segments)@.map_values(|x: Vec<char>| x@) == push_segment(
            old(segments)@.map_values(|x: Vec<char>| x@),
            piece@,
        ),
{
    let dot = chars_of(".");
    let dotdot = chars_of("..");
    let ghost before = segments@.map_values(|x: Vec<char>| x@);
    if crate::text::seq_eq(piece, &dot) || piece.len() == 0 {
    } else if crate::text::seq_eq(piece, &dotdot) {
        if segments.len() > 0 {
            segments.pop();
            assert(segments@.map_values(|x: Vec<char>| x@) =~= before.drop_last());
        }
    } else {
        segments.push(piece.clone());
        assert(segments@.map_values(|x: Vec<char>| x@) =~= before.push(piece@));
    }
}

fn nonempty_segments_exec(s: &Vec<char>) -> (r: Vec<Vec<char>>)
    ensures
        r@.map_values(|x: Vec<char>| x@) == nonempty_segments(s@),
{
    let pieces = split_char_exec(s, '/');
    let ghost pv = pieces@.map_values(|x: Vec<char>| x@);
    let ghost f = |x: Seq<char>| x.len() > 0;
    let mut out: Vec<Vec<char>> = Vec::new();
    let mut i: usize = 0;
    while i < pieces.len()
        invariant
            i <= pieces.len(),
            pv == pieces@.map_values(|x: Vec<char>| x@),
            f == (|x: Seq<char>| x.len() > 0),
            out@.map_values(|x: Vec<char>| x@) == pv.take(i as int).filter(f),
        decreases pieces.len() - i,
    {
        let ghost prev = out@.map_values(|x: Vec<char>| x@);
        assert(pv.take(i + 1).drop_last() =~= pv.take(i as int));
        reveal_with_fuel(Seq::filter, 1);
        if pieces[i].len() > 0 {
            out.push(pieces[i].clone());
            assert(out@.map_values(|x: Vec<char>| x@) =~= prev.push(pv[i as int]));
        }
        i = i + 1;
    }
    assert(pv.take(pieces.len() as int) =~= pv);
    out
}

fn query_part_exec(r: &Vec<char>) -> (q: Vec<char>)
    ensures
        q@ == query_part(r@),
{
    proof {
        lemma_first_where(r@, crate::text::is_char('?'));
        lemma_first_where(r@, crate::text::is_char('#'));
    }
    match index_of_exec(r, '?') {
        Some(qpos) => {
            let rest = slice_chars(r, qpos, r.len());
            assert(rest@ =~= r@.skip(qpos as int));
            proof {
                lemma_first_where(rest@, crate::text::is_char('#'));
            }
            match index_of_exec(&rest, '#') {
                Some(f) => slice_chars(r, qpos, qpos + f),
                None => rest,
            }
        },
        None => match index_of_exec(r, '#') {
            Some(f) => {
                let out = slice_chars(r, f, r.len());
                assert(out@ =~= r@.skip(f as int));
                out
            },
            None => Vec::new(),
        },
    }
}

/// Resolves `reference` against the page URL `base`.
///
/// Absolute `http(s)` references and other absolute URIs (`data:`,
/// `mailto:`, ...) pass through unchanged; network-path (`//host/...`),
/// absolute-path and relative references are resolved with `.` and `..`
/// segments removed. `None` when `base` has no `scheme://`.
pub fn join_url(base: &str, reference: &str) -> (r: Option<String>)
    ensures
        match join_url_spec(base@, reference@) {
            Some(s) => r matches Some(x) && x@ == s,
            None => r is None,
        },
{
    proof {
        reveal_strlit("//");
        reveal_strlit("/");
        reveal_strlit("?#");
    }
    let rv = chars_of(reference);
    let http = chars_of("http://");
    let https = chars_of("https://");
    if starts_with_exec(&rv, &http) || starts_with_exec(&rv, &https) || is_opaque_absolute_exec(
        &rv,
    ) {
        return Some(string_of(&rv));
    }
    let bv = chars_of(base);
    let sep = chars_of("://");
    let (scheme, base_rest) = match split_once_exec(&bv, &sep) {
        Some(pair) => pair,
        None => return None,
    };
    let mut out = scheme.clone();
    append_chars(&mut out, &sep);
    let slashes = chars_of("//");
    if starts_with_exec(&rv, &slashes) {
        let rest = slice_chars(&rv, 2, rv.len());
        assert(rest@ =~= rv@.skip(2));
        append_chars(&mut out, &rest);
        return Some(string_of(&out));
    }
    proof {
        lemma_split_char_nonempty(base_rest@, '/');
        lemma_first_where(base_rest@, crate::text::is_char('/'));
    }
    let slash_only = chars_of("/");
    assert(slash_only@ =~= seq!['/']);
    let authority = before_any_exec(&base_rest, &slash_only);
    let base_path = match index_of_exec(&base_rest, '/') {
        Some(k) => {
            let p = slice_chars(&base_rest, k, base_rest.len());
            assert(p@ =~= base_rest@.skip(k as int));
            p
        },
        None => chars_of("/"),
    };
    let stops = chars_of("?#");
    let path_only = before_any_exec(&base_path, &stops);
    append_chars(&mut out, &authority);
    if starts_with_exec(&rv, &slash_only) {
        append_chars(&mut out, &rv);
        return Some(string_of(&out));
    }
    proof {
        crate::text::lemma_last_where(path_only@, crate::text::is_char('/'));
    }
    let dir = match last_index_of_exec(&path_only, '/') {
        Some(k) => {
            let n = path_only.len();
            slice_chars(&path_only, 0, k + 1)
        },
        None => chars_of("/"),
    };
    assert(dir@ == base_directory(path_only@));
    let mut segments = nonempty_segments_exec(&dir);
    let tail = before_any_exec(&rv, &stops);
    let pieces = split_char_exec(&tail, '/');
    let ghost start = segments@.map_values(|x: Vec<char>| x@);
    let ghost pv = pieces@.map_values(|x: Vec<char>| x@);
    let mut i: usize = 0;
    while i < pieces.len()
        invariant
            i <= pieces.len(),
            pv == pieces@.map_values(|x: Vec<char>| x@),
            segments@.map_values(|x: Vec<char>| x@) == resolve_segments(
                start,
                pv.take(i as int),
            ),
        decreases pieces.len() - i,
    {
        push_segment_exec(&mut segments, &pieces[i]);
        assert(pv.take(i + 1).drop_last() =~= pv.take(i as int));
        i = i + 1;
    }
    assert(pv.take(pieces.len() as int) =~= pv);
    if segments.len() == 0 {
        append_chars(&mut out, &slash_only);
    } else {
        append_chars(&mut out, &slash_only);
        let joined = join_exec(&segments, &slash_only);
        append_chars(&mut out, &joined);
    }
    let q = query_part_exec(&rv);
    append_chars(&mut out, &q);
    Some(string_of(&out))
}

// ---------------------------------------------------------------------------
// Percent-encoding

pub open spec fn is_url_safe_byte(b: u8) -> bool {
    ||| crate::text::is_alnum_byte(b)
    ||| b == 0x2d || b == 0x5f || b == 0x2e || b == 0x7e
    ||| b == 0x3a || b == 0x2f || b == 0x3f || b == 0x26 || b == 0x3d || b == 0x23
    ||| b == 0x25 || b == 0x2b || b == 0x40 || b == 0x2c || b == 0x3b || b == 0x5b
    ||| b == 0x5d || b == 0x21 || b == 0x24 || b == 0x27 || b == 0x28 || b == 0x29
    ||| b == 0x2a
}

pub open spec fn amp_entity() -> Seq<u8> {
    seq![0x26u8, 0x61, 0x6d, 0x70, 0x3b]
}

/// Every `&amp;` replaced by `&`, scanning left to right.
pub open spec fn unescape_amp(b: Seq<u8>) -> Seq<u8>
    decreases b.len(),
{
    if b.len() == 0 {
        b
    } else if b.len() >= 5 && b.take(5) == amp_entity() {
        seq![0x26u8] + unescape_amp(b.skip(5))
    } else {
        seq![b[0]] + unescape_amp(b.drop_first())
    }
}

pub open spec fn hex_upper_digit(n: u8) -> char {
    if n < 10 {
        ((n + 48) as u8) as char
    } else {
        ((n + 55) as u8) as char
    }
}

/// A byte as it appears in a cleaned URL: itself when safe, else `%XX`.
pub open spec fn encode_byte(b: u8) -> Seq<char> {
    if is_url_safe_byte(b) {
        seq![b as char]
    } else {
        seq!['%', hex_upper_digit(b / 16), hex_upper_digit(b % 16)]
    }
}

pub open spec fn encode_bytes(b: Seq<u8>) -> Seq<char>
    decreases b.len(),
{
    if b.len() == 0 {
        Seq::empty()
    } else {
        encode_bytes(b.drop_last()) + encode_byte(b.last())
    }
}

/// The cleaned form of a URL given by its UTF-8 bytes.
pub open spec fn clean_url_spec(b: Seq<u8>) -> Seq<char> {
    encode_bytes(unescape_amp(b))
}

/// A character a cleaned URL may hold: an ASCII character whose byte is
/// URL-safe.
pub open spec fn url_safe_char(c: char) -> bool {
    (c as u32) < 128 && is_url_safe_byte((c as u32) as u8)
}

proof fn lemma_encode_byte_safe(b: u8)
    ensures
        forall|i: int| 0 <= i < encode_byte(b).len() ==> url_safe_char(#[trigger] encode_byte(b)[i]),
{
    let e = encode_byte(b);
    if is_url_safe_byte(b) {
        assert(e[0] == b as char);
        assert((b as char) as u32 == b as u32);
    } else {
        let hi = b / 16;
        let lo = b % 16;
        assert(hi < 16 && lo < 16);
        assert(e[0] == '%');
        assert(e[1] == hex_upper_digit(hi));
        assert(e[2] == hex_upper_digit(lo));
        assert((hex_upper_digit(hi) as u32) < 128 && crate::text::is_alnum_byte(
            (hex_upper_digit(hi) as u32) as u8,
        ));
        assert((hex_upper_digit(lo) as u32) < 128 && crate::text::is_alnum_byte(
            (hex_upper_digit(lo) as u32) as u8,
        ));
    }
}

proof fn lemma_encode_bytes_safe(b: Seq<u8>)
    ensures
        forall|i: int| 0 <= i < encode_bytes(b).len() ==> url_safe_char(#[trigger] encode_bytes(b)[i]),
        (forall|i: int| 0 <= i < b.len() ==> is_url_safe_byte(#[trigger] b[i])) ==> encode_bytes(b)
            == b.map_values(|x: u8| x as char),
    decreases b.len(),
{
    if b.len() > 0 {
        let d = b.drop_last();
        lemma_encode_bytes_safe(d);
        lemma_encode_byte_safe(b.last());
        let e = encode_bytes(b);
        let head = encode_bytes(d);
        let tail = encode_byte(b.last());
        assert forall|i: int| 0 <= i < e.len() implies url_safe_char(#[trigger] e[i]) by {
            if i < head.len() {
                assert(e[i] == head[i]);
            } else {
                assert(e[i] == tail[i - head.len()]);
            }
        }
        if forall|i: int| 0 <= i < b.len() ==> is_url_safe_byte(#[trigger] b[i]) {
            assert forall|i: int| 0 <= i < d.len() implies is_url_safe_byte(#[trigger] d[i]) by {
                assert(d[i] == b[i]);
            }
            assert(is_url_safe_byte(b[b.len() - 1]));
            assert(e =~= b.map_values(|x: u8| x as char));
        }
    }
}

/// Whether `&amp;` occurs in `b`.
pub open spec fn has_amp_entity(b: Seq<u8>) -> bool {
    exists|i: int| 0 <= i && i + 5 <= b.len() && #[trigger] b.subrange(i, i + 5) == amp_entity()
}

proof fn lemma_unescape_plain(b: Seq<u8>)
    requires
        !has_amp_entity(b),
    ensures
        unescape_amp(b) == b,
    decreases b.len(),
{
    if b.len() > 0 {
        if b.len() >= 5 && b.take(5) == amp_entity() {
            let z: int = 0;
            assert(b.subrange(z, z + 5) =~= b.take(5));
            assert(has_amp_entity(b));
        }
        let rest = b.drop_first();
        assert(!has_amp_entity(rest)) by {
            if has_amp_entity(rest) {
                let i = choose|i: int| 0 <= i && i + 5 <= rest.len() && #[trigger] rest.subrange(i, i + 5)
                    == amp_entity();
                let j = i + 1;
                assert(b.subrange(j, j + 5) =~= rest.subrange(i, i + 5));
                assert(has_amp_entity(b));
            }
        }
        lemma_unescape_plain(rest);
        assert(seq![b[0]] + rest =~= b);
    }
}

/// Cleaning a URL unescapes every `&amp;` to `&`, then keeps each URL-safe
/// byte as its character and writes every other byte `x` as `%` and the two
/// uppercase hexadecimal digits of `x`; so a cleaned URL holds only URL-safe
/// ASCII characters, and a URL of URL-safe bytes without `&amp;` is its own
/// cleaned form.
pub proof fn law_clean_url(b: Seq<u8>, x: u8)
    ensures
        clean_url_spec(b) == encode_bytes(unescape_amp(b)),
        is_url_safe_byte(x) ==> encode_byte(x) == seq![x as char],
        !is_url_safe_byte(x) ==> encode_byte(x) == seq!['%', hex_upper_digit(x / 16), hex_upper_digit(x % 16)]
            && (forall|k: int|
            1 <= k < 3 ==> ('0' <= #[trigger] encode_byte(x)[k] <= '9' || 'A' <= encode_byte(x)[k]
                <= 'F')),
        forall|i: int| 0 <= i < clean_url_spec(b).len() ==> url_safe_char(#[trigger] clean_url_spec(b)[i]),
        (forall|i: int| 0 <= i < b.len() ==> is_url_safe_byte(#[trigger] b[i])) && !has_amp_entity(b)
            ==> clean_url_spec(b) == b.map_values(|x: u8| x as char),
{
    if !is_url_safe_byte(x) {
        assert(x / 16 < 16 && x % 16 < 16);
    }
    lemma_encode_bytes_safe(unescape_amp(b));
    if !has_amp_entity(b) {
        lemma_unescape_plain(b);
        lemma_encode_bytes_safe(b);
    }
}

fn unescape_amp_exec(b: &[u8]) -> (r: Vec<u8>)
    ensures
        r@ == unescape_amp(b@),
{
    let mut out: Vec<u8> = Vec::new();
    let mut i: usize = 0;
    let n = b.len();
    assert(b@.skip(0) =~= b@);
    assert(out@ + unescape_amp(b@) =~= unescape_amp(b@));
    while i < n
        invariant
            n == b@.len(),
            i <= n,
            unescape_amp(b@) == out@ + unescape_amp(b@.skip(i as int)),
        decreases n - i,
    {
        let ghost rest = b@.skip(i as int);
        if n - i >= 5 && b[i] == 0x26 && b[i + 1] == 0x61 && b[i + 2] == 0x6d && b[i + 3]
            == 0x70 && b[i + 4] == 0x3b {
            assert(rest.take(5) =~= amp_entity());
            assert(rest.skip(5) =~= b@.skip(i + 5));
            out.push(0x26);
            assert(out@ + unescape_amp(b@.skip(i + 5)) =~= out@.drop_last() + (seq![0x26u8]
                + unescape_amp(b@.skip(i + 5))));
            i = i + 5;
        } else {
            assert(!(rest.len() >= 5 && rest.take(5) == amp_entity())) by {
                if rest.len() >= 5 && rest.take(5) == amp_entity() {
                    assert(rest.take(5)[0] == b@[i as int]);
                    assert(rest.take(5)[1] == b@[i + 1]);
                    assert(rest.take(5)[2] == b@[i + 2]);
                    assert(rest.take(5)[3] == b@[i + 3]);
                    assert(rest.take(5)[4] == b@[i + 4]);
                }
            }
            assert(rest.drop_first() =~= b@.skip(i + 1));
            out.push(b[i]);
            assert(out@ + unescape_amp(b@.skip(i + 1)) =~= out@.drop_last() + (seq![b@[i as int]]
                + unescape_amp(b@.skip(i + 1))));
            i = i + 1;
        }
    }
    assert(b@.skip(n as int) =~= Seq::<u8>::empty());
    assert(out@ + Seq::<u8>::empty() =~= out@);
    out
}

fn hex_upper(n: u8) -> (c: char)
    requires
        n < 16,
    ensures
        c == hex_upper_digit(n),
{
    if n < 10 {
        (n + 48) as char
    } else {
        (n + 55) as char
    }
}

fn is_url_safe(b: u8) -> (r: bool)
    ensures
        r == is_url_safe_byte(b),
{
    crate::text::is_alnum_b(b) || b == 0x2d || b == 0x5f || b == 0x2e || b == 0x7e || b == 0x3a
        || b == 0x2f || b == 0x3f || b == 0x26 || b == 0x3d || b == 0x23 || b == 0x25 || b
        == 0x2b || b == 0x40 || b == 0x2c || b == 0x3b || b == 0x5b || b == 0x5d || b == 0x21
        || b == 0x24 || b == 0x27 || b == 0x28 || b == 0x29 || b == 0x2a
}

/// Decodes `&amp;` and percent-encodes every byte outside the unreserved and
/// URL-delimiter characters (uppercase hex), as `urllib.parse.quote` does
/// with the safe set `:/?&=#%+@,;[]!$'()*`.
pub fn clean_url(url: &str) -> (r: String)
    ensures
        r@ == clean_url_spec(crate::text::utf8_encode(url@)),
{
    let encoded = crate::text::utf8_bytes(&chars_of(url));
    let bytes = unescape_amp_exec(encoded.as_slice());
    let mut out: Vec<char> = Vec::new();
    let mut i: usize = 0;
    while i < bytes.len()
        invariant
            i <= bytes.len(),
            out@ == encode_bytes(bytes@.take(i as int)),
        decreases bytes.len() - i,
    {
        let b = bytes[i];
        assert(bytes@.take(i + 1).drop_last() =~= bytes@.take(i as int));
        if is_url_safe(b) {
            out.push(b as char);
        } else {
            out.push('%');
            out.push(hex_upper(b / 16));
            out.push(hex_upper(b % 16));
        }
        assert(out@ =~= encode_bytes(bytes@.take(i + 1)));
        i = i + 1;
    }
    assert(bytes@.take(bytes.len() as int) =~= bytes@);
    string_of(&out)
}

// ---------------------------------------------------------------------------
// What cleaning keeps of a URL's shape

/// No `c` followed by two `d` (a `://`) occurs in `s`.
pub open spec fn sep_free<A>(s: Seq<A>, c: A, d: A) -> bool {
    forall|j: int|
        0 <= j && j + 2 < s.len() ==> !(#[trigger] s[j] == c && s[j + 1] == d && s[j + 2] == d)
}

pub open spec fn starts1<A>(s: Seq<A>, d: A) -> bool {
    s.len() >= 1 && s[0] == d
}

pub open spec fn starts2<A>(s: Seq<A>, d: A) -> bool {
    s.len() >= 2 && s[0] == d && s[1] == d
}

proof fn lemma_sep_free_concat<A>(x: Seq<A>, y: Seq<A>, c: A, d: A)
    requires
        sep_free(x, c, d),
        sep_free(y, c, d),
        x.len() >= 1 && x.last() == c ==> !starts2(y, d),
        x.len() >= 2 && x[x.len() - 2] == c && x.last() == d ==> !starts1(y, d),
    ensures
        sep_free(x + y, c, d),
{
    let s = x + y;
    assert forall|j: int| 0 <= j && j + 2 < s.len() implies !(#[trigger] s[j] == c && s[j + 1] == d
        && s[j + 2] == d) by {
        if j + 2 < x.len() {
            assert(s[j] == x[j] && s[j + 1] == x[j + 1] && s[j + 2] == x[j + 2]);
        } else if j >= x.len() {
            let k = j - x.len();
            assert(s[j] == y[k] && s[j + 1] == y[k + 1] && s[j + 2] == y[k + 2]);
        } else if j == x.len() - 1 {
            assert(s[j] == x.last() && s[j + 1] == y[0] && s[j + 2] == y[1]);
        } else {
            assert(s[j] == x[x.len() - 2] && s[j + 1] == x.last() && s[j + 2] == y[0]);
        }
    }
}

proof fn lemma_sep_free_suffix<A>(s: Seq<A>, k: int, c: A, d: A)
    requires
        sep_free(s, c, d),
        0 <= k <= s.len(),
    ensures
        sep_free(s.skip(k), c, d),
{
    let t = s.skip(k);
    assert forall|j: int| 0 <= j && j + 2 < t.len() implies !(#[trigger] t[j] == c && t[j + 1] == d
        && t[j + 2] == d) by {
        assert(t[j] == s[j + k] && t[j + 1] == s[j + k + 1] && t[j + 2] == s[j + k + 2]);
    }
}

proof fn lemma_utf8_concat(x: Seq<char>, y: Seq<char>)
    ensures
        crate::text::utf8_encode(x + y) == crate::text::utf8_encode(x) + crate::text::utf8_encode(y),
    decreases y.len(),
{
    if y.len() == 0 {
        assert(x + y =~= x);
        assert(crate::text::utf8_encode(x) + crate::text::utf8_encode(y) =~= crate::text::utf8_encode(x));
    } else {
        lemma_utf8_concat(x, y.drop_last());
        assert((x + y).drop_last() =~= x + y.drop_last());
        assert((x + y).last() == y.last());
        assert(crate::text::utf8_encode(x + y) =~= crate::text::utf8_encode(x) + crate::text::utf8_encode(y));
    }
}

/// The bytes of one character hold `:` or `/` only where the character is
/// that ASCII character itself.
proof fn lemma_utf8_char_delims(c: char)
    ensures
        crate::text::utf8_char(c).len() >= 1,
        crate::text::utf8_char(c)[0] == 0x3au8 <==> c == ':',
        crate::text::utf8_char(c)[0] == 0x2fu8 <==> c == '/',
        crate::text::utf8_char(c).len() > 1 ==> forall|i: int|
            0 <= i < crate::text::utf8_char(c).len() ==> #[trigger] crate::text::utf8_char(c)[i] >= 0x80,
{
    let n = c as u32;
    assert(n <= 0x10ffff);
    if n < 0x80 {
    } else if n < 0x800 {
        assert(n / 64 < 32);
    } else if n < 0x10000 {
        assert(n / 4096 < 16);
    } else {
        assert(n / 262144 < 5);
    }
}

proof fn lemma_utf8_front(s: Seq<char>)
    requires
        s.len() >= 1,
    ensures
        crate::text::utf8_encode(s) == crate::text::utf8_char(s[0]) + crate::text::utf8_encode(s.drop_first()),
{
    let head = seq![s[0]];
    lemma_utf8_concat(head, s.drop_first());
    assert(head + s.drop_first() =~= s);
    assert(head.drop_last() =~= Seq::<char>::empty());
    assert(crate::text::utf8_encode(head.drop_last()) =~= Seq::<u8>::empty());
    assert(head.last() == s[0]);
    assert(crate::text::utf8_encode(head) =~= crate::text::utf8_char(s[0]));
}

/// UTF-8 encoding keeps where a string starts with `/` and `//`, and adds no
/// `://`.
proof fn lemma_utf8_shape(s: Seq<char>)
    ensures
        s.len() >= 1 ==> crate::text::utf8_encode(s).len() >= 1,
        starts1(crate::text::utf8_encode(s), 0x2fu8) <==> starts1(s, '/'),
        starts2(crate::text::utf8_encode(s), 0x2fu8) ==> starts2(s, '/'),
        sep_free(s, ':', '/') ==> sep_free(crate::text::utf8_encode(s), 0x3au8, 0x2fu8),
    decreases s.len(),
{
    if s.len() > 0 {
        let rest = s.drop_first();
        lemma_utf8_shape(rest);
        lemma_utf8_front(s);
        lemma_utf8_char_delims(s[0]);
        let e = crate::text::utf8_char(s[0]);
        let u = crate::text::utf8_encode(rest);
        let whole = crate::text::utf8_encode(s);
        assert(whole == e + u);
        assert(whole[0] == e[0]);
        if starts2(whole, 0x2fu8) {
            if e.len() > 1 {
                assert(e[0] >= 0x80);
            } else {
                assert(whole[1] == u[0]);
                assert(s[1] == rest[0]);
            }
        }
        if sep_free(s, ':', '/') {
            lemma_sep_free_suffix(s, 1, ':', '/');
            assert(s.skip(1) =~= rest);
            if e.len() == 1 && e.last() == 0x3au8 && starts2(u, 0x2fu8) {
                assert(s[1] == rest[0] && s[2] == rest[1]);
                assert(s[0] == ':' && s[1] == '/' && s[2] == '/');
            }
            if e.len() >= 2 {
                assert(e[e.len() - 2] >= 0x80);
            }
            if e.len() > 1 {
                assert forall|j: int| 0 <= j && j + 2 < e.len() implies !(#[trigger] e[j] == 0x3au8
                    && e[j + 1] == 0x2fu8 && e[j + 2] == 0x2fu8) by {
                    assert(e[j] >= 0x80);
                }
            }
            lemma_sep_free_concat(e, u, 0x3au8, 0x2fu8);
        }
    }
}

/// Unescaping `&amp;` keeps where a byte string starts with `/` and `//`,
/// and adds no `://`.
proof fn lemma_unescape_shape(b: Seq<u8>)
    ensures
        b.len() >= 1 ==> unescape_amp(b).len() >= 1,
        starts1(unescape_amp(b), 0x2fu8) <==> starts1(b, 0x2fu8),
        starts2(unescape_amp(b), 0x2fu8) ==> starts2(b, 0x2fu8),
        sep_free(b, 0x3au8, 0x2fu8) ==> sep_free(unescape_amp(b), 0x3au8, 0x2fu8),
    decreases b.len(),
{
    if b.len() > 0 {
        if b.len() >= 5 && b.take(5) == amp_entity() {
            let rest = b.skip(5);
            lemma_unescape_shape(rest);
            assert(b[0] == b.take(5)[0]);
            let u = unescape_amp(rest);
            assert(unescape_amp(b) == seq![0x26u8] + u);
            if sep_free(b, 0x3au8, 0x2fu8) {
                lemma_sep_free_suffix(b, 5, 0x3au8, 0x2fu8);
                lemma_sep_free_concat(seq![0x26u8], u, 0x3au8, 0x2fu8);
            }
        } else {
            let rest = b.drop_first();
            lemma_unescape_shape(rest);
            let u = unescape_amp(rest);
            assert(unescape_amp(b) == seq![b[0]] + u);
            if starts2(unescape_amp(b), 0x2fu8) {
                assert(unescape_amp(b)[1] == u[0]);
                assert(b[1] == rest[0]);
            }
            if sep_free(b, 0x3au8, 0x2fu8) {
                lemma_sep_free_suffix(b, 1, 0x3au8, 0x2fu8);
                assert(b.skip(1) =~= rest);
                if b[0] == 0x3au8 && starts2(u, 0x2fu8) {
                    assert(b[1] == rest[0] && b[2] == rest[1]);
                }
                lemma_sep_free_concat(seq![b[0]], u, 0x3au8, 0x2fu8);
            }
        }
    }
}

proof fn lemma_encode_concat(x: Seq<u8>, y: Seq<u8>)
    ensures
        encode_bytes(x + y) == encode_bytes(x) + encode_bytes(y),
    decreases y.len(),
{
    if y.len() == 0 {
        assert(x + y =~= x);
        assert(encode_bytes(x) + encode_bytes(y) =~= encode_bytes(x));
    } else {
        lemma_encode_concat(x, y.drop_last());
        assert((x + y).drop_last() =~= x + y.drop_last());
        assert((x + y).last() == y.last());
        assert(encode_bytes(x + y) =~= encode_bytes(x) + encode_bytes(y));
    }
}

proof fn lemma_encode_front(b: Seq<u8>)
    requires
        b.len() >= 1,
    ensures
        encode_bytes(b) == encode_byte(b[0]) + encode_bytes(b.drop_first()),
{
    let head = seq![b[0]];
    lemma_encode_concat(head, b.drop_first());
    assert(head + b.drop_first() =~= b);
    assert(head.drop_last() =~= Seq::<u8>::empty());
    assert(encode_bytes(head.drop_last()) =~= Seq::<char>::empty());
    assert(head.last() == b[0]);
    assert(encode_bytes(head) =~= encode_byte(b[0]));
}

/// The encoding of one byte holds `:` or `/` only where the byte is that
/// character itself.
proof fn lemma_encode_byte_delims(x: u8)
    ensures
        encode_byte(x).len() >= 1,
        encode_byte(x)[0] == ':' <==> x == 0x3au8,
        encode_byte(x)[0] == '/' <==> x == 0x2fu8,
        encode_byte(x).len() > 1 ==> forall|i: int|
            0 <= i < encode_byte(x).len() ==> #[trigger] encode_byte(x)[i] != ':' && encode_byte(x)[i]
                != '/',
{
    let e = encode_byte(x);
    if is_url_safe_byte(x) {
        assert((x as char) as u32 == x as u32);
    } else {
        assert(x / 16 < 16 && x % 16 < 16);
        assert(e[0] == '%');
        assert(e[1] == hex_upper_digit(x / 16));
        assert(e[2] == hex_upper_digit(x % 16));
    }
}

/// Percent-encoding keeps where a byte string starts with `/` and `//`, and
/// adds no `://`.
proof fn lemma_encode_shape(b: Seq<u8>)
    ensures
        b.len() >= 1 ==> encode_bytes(b).len() >= 1,
        starts1(encode_bytes(b), '/') <==> starts1(b, 0x2fu8),
        starts2(encode_bytes(b), '/') ==> starts2(b, 0x2fu8),
        sep_free(b, 0x3au8, 0x2fu8) ==> sep_free(encode_bytes(b), ':', '/'),
    decreases b.len(),
{
    if b.len() > 0 {
        let rest = b.drop_first();
        lemma_encode_shape(rest);
        lemma_encode_front(b);
        lemma_encode_byte_delims(b[0]);
        let e = encode_byte(b[0]);
        let u = encode_bytes(rest);
        let whole = encode_bytes(b);
        assert(whole == e + u);
        assert(whole[0] == e[0]);
        if starts2(whole, '/') {
            if e.len() > 1 {
                assert(e[1] != '/');
            } else {
                assert(whole[1] == u[0]);
                assert(b[1] == rest[0]);
            }
        }
        if sep_free(b, 0x3au8, 0x2fu8) {
            lemma_sep_free_suffix(b, 1, 0x3au8, 0x2fu8);
            assert(b.skip(1) =~= rest);
            if e.len() == 1 && e.last() == ':' && starts2(u, '/') {
                assert(b[1] == rest[0] && b[2] == rest[1]);
            }
            if e.len() >= 2 {
                assert(e[e.len() - 2] != ':');
            }
            if e.len() > 1 {
                assert forall|j: int| 0 <= j && j + 2 < e.len() implies !(#[trigger] e[j] == ':' && e[j
                    + 1] == '/' && e[j + 2] == '/') by {
                    assert(e[j] != ':');
                }
            }
            lemma_sep_free_concat(e, u, ':', '/');
        }
    }
}

proof fn lemma_unescape_cons(x: u8, y: Seq<u8>)
    requires
        x != 0x26u8,
    ensures
        unescape_amp(seq![x] + y) == seq![x] + unescape_amp(y),
{
    let s = seq![x] + y;
    assert(s[0] == x);
    if s.len() >= 5 {
        assert(s.take(5)[0] == x);
        assert(s.take(5) != amp_entity());
    }
    assert(s.drop_first() =~= y);
}

/// Unescaping splits at any point where no entity can straddle: before a
/// byte that cannot continue `&amp;`.
proof fn lemma_unescape_concat(x: Seq<u8>, y: Seq<u8>)
    requires
        y.len() >= 1,
        y[0] != 0x61u8 && y[0] != 0x6du8 && y[0] != 0x70u8 && y[0] != 0x3bu8,
    ensures
        unescape_amp(x + y) == unescape_amp(x) + unescape_amp(y),
    decreases x.len(),
{
    let s = x + y;
    if x.len() == 0 {
        assert(s =~= y);
        assert(unescape_amp(x) + unescape_amp(y) =~= unescape_amp(y));
    } else if s.len() >= 5 && s.take(5) == amp_entity() {
        if x.len() < 5 {
            assert(s[x.len() as int] == y[0]);
            assert(s.take(5)[x.len() as int] == s[x.len() as int]);
        }
        assert(x.take(5) =~= s.take(5));
        lemma_unescape_concat(x.skip(5), y);
        assert(s.skip(5) =~= x.skip(5) + y);
        assert(unescape_amp(s) =~= unescape_amp(x) + unescape_amp(y));
    } else {
        if x.len() >= 5 {
            assert(x.take(5) =~= s.take(5));
        }
        lemma_unescape_concat(x.drop_first(), y);
        assert(s.drop_first() =~= x.drop_first() + y);
        assert(s[0] == x[0]);
        assert(unescape_amp(s) =~= unescape_amp(x) + unescape_amp(y));
    }
}

proof fn lemma_find_from_is(s: Seq<char>, p: Seq<char>, i: int, k: int)
    requires
        0 <= i <= k,
        matches_at(s, p, k),
        forall|j: int| i <= j < k ==> !matches_at(s, p, j),
    ensures
        crate::text::find_from(s, p, i) == Some(k),
    decreases k - i,
{
    if i < k {
        lemma_find_from_is(s, p, i + 1, k);
    }
}

/// Cleaning `a://b` cleans `a` and `b` apart around the `://`.
proof fn lemma_clean_around_sep(a: Seq<char>, b: Seq<char>)
    ensures
        clean_url_spec(crate::text::utf8_encode(a + seq![':', '/', '/'] + b)) == encode_bytes(
            unescape_amp(crate::text::utf8_encode(a)),
        ) + seq![':', '/', '/'] + encode_bytes(unescape_amp(crate::text::utf8_encode(b))),
{
    let sep = seq![':', '/', '/'];
    let sb = seq![0x3au8, 0x2fu8, 0x2fu8];
    lemma_utf8_concat(a + sep, b);
    lemma_utf8_concat(a, sep);
    lemma_utf8_front(sep);
    lemma_utf8_front(sep.drop_first());
    lemma_utf8_front(sep.drop_first().drop_first());
    assert(sep.drop_first().drop_first().drop_first() =~= Seq::<char>::empty());
    assert(crate::text::utf8_encode(sep) =~= sb);
    let ua = crate::text::utf8_encode(a);
    let ub = crate::text::utf8_encode(b);
    assert(crate::text::utf8_encode(a + sep + b) =~= ua + (sb + ub));
    lemma_unescape_concat(ua, sb + ub);
    lemma_unescape_cons(0x3au8, seq![0x2fu8, 0x2fu8] + ub);
    lemma_unescape_cons(0x2fu8, seq![0x2fu8] + ub);
    lemma_unescape_cons(0x2fu8, ub);
    assert(sb + ub =~= seq![0x3au8] + (seq![0x2fu8, 0x2fu8] + ub));
    assert(seq![0x2fu8, 0x2fu8] + ub =~= seq![0x2fu8] + (seq![0x2fu8] + ub));
    let xa = unescape_amp(ua);
    let xb = unescape_amp(ub);
    assert(unescape_amp(crate::text::utf8_encode(a + sep + b)) =~= xa + (sb + xb));
    lemma_encode_concat(xa, sb + xb);
    lemma_encode_front(sb + xb);
    lemma_encode_front(seq![0x2fu8, 0x2fu8] + xb);
    lemma_encode_front(seq![0x2fu8] + xb);
    assert((sb + xb).drop_first() =~= seq![0x2fu8, 0x2fu8] + xb);
    assert((seq![0x2fu8, 0x2fu8] + xb).drop_first() =~= seq![0x2fu8] + xb);
    assert((seq![0x2fu8] + xb).drop_first() =~= xb);
    assert(encode_byte(0x3au8) =~= seq![':']);
    assert(encode_byte(0x2fu8) =~= seq!['/']);
    assert(encode_bytes(xa + (sb + xb)) =~= encode_bytes(xa) + sep + encode_bytes(xb));
}

/// What comes before the first `://` of `r` holds no `://`.
proof fn lemma_before_first_sep(r: Seq<char>, i: int)
    requires
        crate::text::find_seq(r, "://"@) == Some(i),
    ensures
        sep_free(r.take(i), ':', '/'),
        r == r.take(i) + seq![':', '/', '/'] + r.skip(i + 3),
{
    let sep_s = "://"@;
    crate::text::lemma_find_from_bounds(r, sep_s, 0);
    reveal_strlit("://");
    let sep = seq![':', '/', '/'];
    assert(sep_s =~= sep);
    let a = r.take(i);
    assert(r.subrange(i, i + 3) == sep);
    assert(r =~= a + sep + r.skip(i + 3));
    assert forall|j: int| 0 <= j && j + 2 < a.len() implies !(#[trigger] a[j] == ':' && a[j + 1]
        == '/' && a[j + 2] == '/') by {
        if a[j] == ':' && a[j + 1] == '/' && a[j + 2] == '/' {
            assert(a[j] == r[j] && a[j + 1] == r[j + 1] && a[j + 2] == r[j + 2]);
            assert(r.subrange(j, j + 3) =~= sep_s);
            assert(matches_at(r, sep_s, j));
        }
    }
}

/// Cleaning a URL keeps its first `://`: what follows it is empty exactly
/// where it was empty before cleaning, and starts with `/` exactly where it
/// did.
pub proof fn lemma_clean_keeps_scheme_split(r: Seq<char>)
    ensures
        match split_scheme_spec(r) {
            Some((_, b)) => match split_scheme_spec(clean_url_spec(crate::text::utf8_encode(r))) {
                Some((_, c)) => (c.len() >= 1 <==> b.len() >= 1) && (starts1(c, '/') <==> starts1(b, '/')),
                None => false,
            },
            None => true,
        },
{
    let sep_s = "://"@;
    if let Some(i) = crate::text::find_seq(r, sep_s) {
        lemma_before_first_sep(r, i);
        reveal_strlit("://");
        let sep = seq![':', '/', '/'];
        assert(sep_s =~= sep);
        let a = r.take(i);
        let b = r.skip(i + 3);
        lemma_clean_around_sep(a, b);
        let xa = unescape_amp(crate::text::utf8_encode(a));
        let xb = unescape_amp(crate::text::utf8_encode(b));
        let ea = encode_bytes(xa);
        let eb = encode_bytes(xb);
        let cleaned = clean_url_spec(crate::text::utf8_encode(r));
        assert(cleaned == ea + sep + eb);
        lemma_utf8_shape(a);
        lemma_unescape_shape(crate::text::utf8_encode(a));
        lemma_encode_shape(xa);
        lemma_utf8_shape(b);
        lemma_unescape_shape(crate::text::utf8_encode(b));
        lemma_encode_shape(xb);
        let k = ea.len() as int;
        assert(cleaned.subrange(k, k + 3) =~= sep_s);
        assert forall|j: int| 0 <= j < k implies !matches_at(cleaned, sep_s, j) by {
            if matches_at(cleaned, sep_s, j) {
                let w = cleaned.subrange(j, j + 3);
                assert(w[0] == cleaned[j] && w[1] == cleaned[j + 1] && w[2] == cleaned[j + 2]);
                if j + 2 < k {
                    assert(cleaned[j] == ea[j] && cleaned[j + 1] == ea[j + 1] && cleaned[j + 2] == ea[j + 2]);
                } else {
                    assert(cleaned[k] == ':');
                }
            }
        }
        lemma_find_from_is(cleaned, sep_s, 0, k);
        assert(cleaned.skip(k + 3) =~= eb);
    }
}

// ---------------------------------------------------------------------------
// Host names

/// The authority's host text of a URL, before lowercasing: the part after the
/// scheme, up to the first `/`, after the last `@`, before the first `:`.
pub open spec fn host_part_spec(url: Seq<char>) -> Seq<char> {
    let rest = match split_scheme_spec(url) {
        Some((_, rest)) => rest,
        None => url,
    };
    let authority = before_any(rest, "/"@);
    let after_at = match last_index_of(authority, '@') {
        Some(k) => authority.skip(k + 1),
        None => authority,
    };
    before_any(after_at, ":"@)
}

/// The host text of a URL, before lowercasing.
pub fn host_part(url: &str) -> (r: String)
    ensures
        r@ == host_part_spec(url@),
{
    let v = chars_of(url);
    let sep = chars_of("://");
    let rest = match split_once_exec(&v, &sep) {
        Some((_, rest)) => rest,
        None => v,
    };
    let slash = chars_of("/");
    let authority = before_any_exec(&rest, &slash);
    proof {
        crate::text::lemma_last_where(authority@, crate::text::is_char('@'));
    }
    let after_at = match last_index_of_exec(&authority, '@') {
        Some(k) => {
            let n = authority.len();
            slice_chars(&authority, k + 1, n)
        },
        None => authority,
    };
    proof {
        if let Some(k) = last_index_of(before_any(rest@, "/"@), '@') {
            crate::text::lemma_last_where(before_any(rest@, "/"@), crate::text::is_char('@'));
            assert(after_at@ =~= before_any(rest@, "/"@).skip(k + 1));
        }
    }
    let colon = chars_of(":");
    let host = before_any_exec(&after_at, &colon);
    string_of(&host)
}

/// The lowercased host name of a URL.
pub fn hostname_of(url: &str) -> (r: String)
    ensures
        r@ == unicode_lower(host_part_spec(url@)),
{
    let host = host_part(url);
    lowercase(host.as_str())
}

pub open spec fn stripped_host(h: Seq<char>) -> bool {
    h == "private-user-images.githubusercontent.com"@ || h
        == "github-production-user-asset-6210df.s3.amazonaws.com"@
}

/// The provenance form of an image URL given the lowercased host name
/// `host`: signed GitHub asset hosts lose their query and fragment.
pub open spec fn provenance_with_host(value: Seq<char>, host: Seq<char>) -> Seq<char> {
    if stripped_host(host) {
        match split_scheme_spec(value) {
            Some((scheme, rest)) => scheme + "://"@ + before_any(rest, "?#"@),
            None => value,
        }
    } else {
        value
    }
}

/// `stable_provenance_url` once the host name has been computed.
pub fn provenance_for_host(value: &str, host: &str) -> (r: String)
    ensures
        r@ == provenance_with_host(value@, host@),
{
    let a = crate::text::str_eq(host, "private-user-images.githubusercontent.com");
    let b = crate::text::str_eq(host, "github-production-user-asset-6210df.s3.amazonaws.com");
    if a || b {
        let v = chars_of(value);
        let sep = chars_of("://");
        match split_once_exec(&v, &sep) {
            Some((scheme, rest)) => {
                let stops = chars_of("?#");
                let path = before_any_exec(&rest, &stops);
                let mut out = scheme;
                append_chars(&mut out, &sep);
                append_chars(&mut out, &path);
                return string_of(&out);
            },
            None => {},
        }
    }
    String::from_str(value)
}

/// The URL retained as an image's provenance: signed GitHub user-asset URLs
/// lose their expiring query, every other URL is kept verbatim.
pub fn stable_provenance_url(value: &str) -> (r: String)
    ensures
        r@ == provenance_with_host(value@, unicode_lower(host_part_spec(value@))),
{
    let host = hostname_of(value);
    provenance_for_host(value, host.as_str())
}

} // verus!

//! Character and string primitives shared by every parser of the library.
//!
//! Text is reasoned about as `Seq<char>` (the view of `str`/`String`) or as
//! `Seq<u8>` where the behaviour is defined over UTF-8 bytes.
use vstd::prelude::*;

verus! {

// ---------------------------------------------------------------------------
// Classification of characters

pub open spec fn is_digit_char(c: char) -> bool {
    '0' <= c && c <= '9'
}

pub open spec fn is_lower_char(c: char) -> bool {
    'a' <= c && c <= 'z'
}

pub open spec fn is_upper_char(c: char) -> bool {
    'A' <= c && c <= 'Z'
}

pub open spec fn is_alpha_char(c: char) -> bool {
    is_lower_char(c) || is_upper_char(c)
}

pub open spec fn is_alnum_char(c: char) -> bool {
    is_alpha_char(c) || is_digit_char(c)
}

pub open spec fn is_hex_char(c: char) -> bool {
    is_digit_char(c) || ('a' <= c && c <= 'f') || ('A' <= c && c <= 'F')
}

/// The Unicode `White_Space` property, which `char::is_whitespace` tests.
pub open spec fn is_space_char(c: char) -> bool {
    ||| ('\u{9}' <= c && c <= '\u{d}')
    ||| c == ' '
    ||| c == '\u{85}'
    ||| c == '\u{a0}'
    ||| c == '\u{1680}'
    ||| ('\u{2000}' <= c && c <= '\u{200a}')
    ||| c == '\u{2028}'
    ||| c == '\u{2029}'
    ||| c == '\u{202f}'
    ||| c == '\u{205f}'
    ||| c == '\u{3000}'
}

/// `char::to_ascii_lowercase`.
pub open spec fn lower_char(c: char) -> char {
    if is_upper_char(c) {
        ((c as u32) + 32) as char
    } else {
        c
    }
}

pub open spec fn is_digit_byte(b: u8) -> bool {
    48 <= b && b <= 57
}

pub open spec fn is_alnum_byte(b: u8) -> bool {
    is_digit_byte(b) || (65 <= b && b <= 90) || (97 <= b && b <= 122)
}

pub open spec fn is_hex_byte(b: u8) -> bool {
    is_digit_byte(b) || (97 <= b && b <= 102) || (65 <= b && b <= 70)
}

pub open spec fn is_lower_hex_byte(b: u8) -> bool {
    is_digit_byte(b) || (97 <= b && b <= 102)
}

pub fn is_digit(c: char) -> (r: bool)
    ensures
        r == is_digit_char(c),
{
    '0' <= c && c <= '9'
}

pub fn is_alnum(c: char) -> (r: bool)
    ensures
        r == is_alnum_char(c),
{
    ('a' <= c && c <= 'z') || ('A' <= c && c <= 'Z') || ('0' <= c && c <= '9')
}

pub fn is_space(c: char) -> (r: bool)
    ensures
        r == is_space_char(c),
{
    ('\u{9}' <= c && c <= '\u{d}') || c == ' ' || c == '\u{85}' || c == '\u{a0}' || c
        == '\u{1680}' || ('\u{2000}' <= c && c <= '\u{200a}') || c == '\u{2028}' || c
        == '\u{2029}' || c == '\u{202f}' || c == '\u{205f}' || c == '\u{3000}'
}

pub fn to_lower(c: char) -> (r: char)
    ensures
        r == lower_char(c),
{
    if 'A' <= c && c <= 'Z' {
        let n: u32 = (c as u32) + 32;
        assert(0x61 <= n <= 0x7a);
        char_from_ascii(n)
    } else {
        c
    }
}

fn char_from_ascii(n: u32) -> (r: char)
    requires
        n < 128,
    ensures
        r == n as char,
{
    let b: u8 = n as u8;
    b as char
}

pub fn is_alnum_b(b: u8) -> (r: bool)
    ensures
        r == is_alnum_byte(b),
{
    (48 <= b && b <= 57) || (65 <= b && b <= 90) || (97 <= b && b <= 122)
}

pub fn is_hex_b(b: u8) -> (r: bool)
    ensures
        r == is_hex_byte(b),
{
    (48 <= b && b <= 57) || (97 <= b && b <= 102) || (65 <= b && b <= 70)
}

pub fn is_lower_hex_b(b: u8) -> (r: bool)
    ensures
        r == is_lower_hex_byte(b),
{
    (48 <= b && b <= 57) || (97 <= b && b <= 102)
}

// ---------------------------------------------------------------------------
// Conversions between `str`, `String` and character vectors

pub fn chars_of(s: &str) -> (r: Vec<char>)
    ensures
        r@ == s@,
{
    let mut out: Vec<char> = Vec::new();
    for c in it: s.chars()
        invariant
            out@ == it.seq().take(it.index() as int),
    {
        out.push(c);
    }
    out
}

/// `String::push`.
#[verifier::external_body]
pub fn push_char(s: &mut String, c: char)
    ensures
        final(s)@ == old(s)@.push(c),
{
    s.push(c);
}

pub fn string_of(v: &Vec<char>) -> (r: String)
    ensures
        r@ == v@,
{
    string_of_range(v, 0, v.len())
}

pub fn string_of_range(v: &Vec<char>, from: usize, to: usize) -> (r: String)
    requires
        from <= to <= v.len(),
    ensures
        r@ == v@.subrange(from as int, to as int),
{
    let mut out = String::new();
    let mut i: usize = from;
    while i < to
        invariant
            from <= i <= to <= v.len(),
            out@ == v@.subrange(from as int, i as int),
        decreases to - i,
    {
        push_char(&mut out, v[i]);
        assert(v@.subrange(from as int, i + 1) == v@.subrange(from as int, i as int).push(
            v@[i as int],
        ));
        i = i + 1;
    }
    out
}

pub fn str_eq(a: &str, b: &str) -> (r: bool)
    ensures
        r == (a@ == b@),
{
    let x = a.to_owned();
    let y = b.to_owned();
    x == y
}

pub fn seq_eq(a: &Vec<char>, b: &Vec<char>) -> (r: bool)
    ensures
        r == (a@ == b@),
{
    if a.len() != b.len() {
        return false;
    }
    let mut i: usize = 0;
    while i < a.len()
        invariant
            a.len() == b.len(),
            i <= a.len(),
            forall|j: int| 0 <= j < i ==> a@[j] == b@[j],
        decreases a.len() - i,
    {
        if a[i] != b[i] {
            return false;
        }
        i = i + 1;
    }
    assert(a@ =~= b@);
    true
}

/// Concatenation of two strings.
pub fn concat(a: &str, b: &str) -> (r: String)
    ensures
        r@ == a@ + b@,
{
    let mut out = String::from_str(a);
    out.append(b);
    out
}

// ---------------------------------------------------------------------------
// Searching

pub open spec fn matches_at(s: Seq<char>, p: Seq<char>, i: int) -> bool {
    0 <= i && i + p.len() <= s.len() && s.subrange(i, i + p.len()) == p
}

/// The first index at or after `i` where `p` occurs in `s`.
pub open spec fn find_from(s: Seq<char>, p: Seq<char>, i: int) -> Option<int>
    decreases s.len() + 1 - i,
{
    if i < 0 || i + p.len() > s.len() {
        None
    } else if matches_at(s, p, i) {
        Some(i)
    } else {
        find_from(s, p, i + 1)
    }
}

pub open spec fn find_seq(s: Seq<char>, p: Seq<char>) -> Option<int> {
    find_from(s, p, 0)
}

pub open spec fn starts_with(s: Seq<char>, p: Seq<char>) -> bool {
    p.len() <= s.len() && s.take(p.len() as int) == p
}

pub open spec fn ends_with(s: Seq<char>, p: Seq<char>) -> bool {
    p.len() <= s.len() && s.skip(s.len() - p.len()) == p
}

pub proof fn lemma_find_from_bounds(s: Seq<char>, p: Seq<char>, i: int)
    requires
        0 <= i,
    ensures
        find_from(s, p, i) matches Some(k) ==> i <= k && matches_at(s, p, k) && forall|j: int|
            i <= j < k ==> !matches_at(s, p, j),
        find_from(s, p, i) is None ==> forall|j: int| i <= j ==> !matches_at(s, p, j),
    decreases s.len() + 1 - i,
{
    if i + p.len() > s.len() {
    } else if matches_at(s, p, i) {
    } else {
        lemma_find_from_bounds(s, p, i + 1);
    }
}

pub fn matches_at_exec(s: &Vec<char>, p: &Vec<char>, i: usize) -> (r: bool)
    ensures
        r == matches_at(s@, p@, i as int),
{
    if i > s.len() || p.len() > s.len() - i {
        return false;
    }
    let mut j: usize = 0;
    while j < p.len()
        invariant
            i + p.len() <= s.len(),
            j <= p.len(),
            forall|k: int| 0 <= k < j ==> s@[i + k] == p@[k],
        decreases p.len() - j,
    {
        if s[i + j] != p[j] {
            assert(s@.subrange(i as int, i + p.len())[j as int] != p@[j as int]);
            return false;
        }
        j = j + 1;
    }
    assert(s@.subrange(i as int, i + p.len()) =~= p@);
    true
}

/// `str::find` from a starting position, over characters.
pub fn find_from_exec(s: &Vec<char>, p: &Vec<char>, start: usize) -> (r: Option<usize>)
    ensures
        r matches Some(k) ==> find_from(s@, p@, start as int) == Some(k as int),
        r is None ==> find_from(s@, p@, start as int) is None,
{
    let mut i: usize = start;
    if i > s.len() || p.len() > s.len() - i {
        return None;
    }
    let bound = s.len() - p.len();
    while i < bound
        invariant
            start <= i <= bound,
            bound == s.len() - p.len(),
            p.len() <= s.len(),
            find_from(s@, p@, start as int) == find_from(s@, p@, i as int),
        decreases bound - i,
    {
        if matches_at_exec(s, p, i) {
            return Some(i);
        }
        i = i + 1;
    }
    if matches_at_exec(s, p, i) {
        Some(i)
    } else {
        assert(find_from(s@, p@, i + 1) is None);
        None
    }
}

pub fn starts_with_exec(s: &Vec<char>, p: &Vec<char>) -> (r: bool)
    ensures
        r == starts_with(s@, p@),
{
    let r = matches_at_exec(s, p, 0);
    proof {
        if r {
            assert(s@.take(p@.len() as int) =~= s@.subrange(0, p@.len() as int));
        } else if p@.len() <= s@.len() {
            assert(s@.take(p@.len() as int) =~= s@.subrange(0, p@.len() as int));
        }
    }
    r
}

pub fn ends_with_exec(s: &Vec<char>, p: &Vec<char>) -> (r: bool)
    ensures
        r == ends_with(s@, p@),
{
    if p.len() > s.len() {
        return false;
    }
    let r = matches_at_exec(s, p, s.len() - p.len());
    proof {
        assert(s@.skip(s@.len() - p@.len()) =~= s@.subrange(
            s@.len() - p@.len(),
            s@.len() as int,
        ));
    }
    r
}

// ---------------------------------------------------------------------------
// Trimming

/// Number of leading whitespace characters.
pub open spec fn leading_space(s: Seq<char>) -> nat
    decreases s.len(),
{
    if s.len() > 0 && is_space_char(s[0]) {
        1 + leading_space(s.drop_first())
    } else {
        0
    }
}

/// Number of trailing whitespace characters.
pub open spec fn trailing_space(s: Seq<char>) -> nat
    decreases s.len(),
{
    if s.len() > 0 && is_space_char(s.last()) {
        1 + trailing_space(s.drop_last())
    } else {
        0
    }
}

/// `str::trim_start`.
pub open spec fn trim_start(s: Seq<char>) -> Seq<char> {
    s.skip(leading_space(s) as int)
}

/// `str::trim_end`.
pub open spec fn trim_end(s: Seq<char>) -> Seq<char> {
    s.take(s.len() - trailing_space(s))
}

/// `str::trim`.
pub open spec fn trim(s: Seq<char>) -> Seq<char> {
    trim_end(trim_start(s))
}

pub proof fn lemma_leading_space(s: Seq<char>, i: int)
    requires
        0 <= i <= s.len(),
        forall|j: int| 0 <= j < i ==> is_space_char(s[j]),
    ensures
        leading_space(s) >= i,
        leading_space(s) <= s.len(),
        i < s.len() && !is_space_char(s[i]) ==> leading_space(s) == i,
    decreases i,
{
    lemma_leading_space_le(s);
    if i > 0 {
        lemma_leading_space(s.drop_first(), i - 1);
    } else if s.len() > 0 && !is_space_char(s[0]) {
    }
}

pub proof fn lemma_leading_space_le(s: Seq<char>)
    ensures
        leading_space(s) <= s.len(),
        leading_space(s) < s.len() ==> !is_space_char(s[leading_space(s) as int]),
        forall|j: int| 0 <= j < leading_space(s) ==> is_space_char(s[j]),
    decreases s.len(),
{
    if s.len() > 0 && is_space_char(s[0]) {
        lemma_leading_space_le(s.drop_first());
        assert forall|j: int| 0 <= j < leading_space(s) implies is_space_char(s[j]) by {
            if j > 0 {
                assert(s[j] == s.drop_first()[j - 1]);
            }
        }
    }
}

pub proof fn lemma_trailing_space_le(s: Seq<char>)
    ensures
        trailing_space(s) <= s.len(),
        trailing_space(s) < s.len() ==> !is_space_char(s[s.len() - 1 - trailing_space(s)]),
        forall|j: int| s.len() - trailing_space(s) <= j < s.len() ==> is_space_char(s[j]),
    decreases s.len(),
{
    if s.len() > 0 && is_space_char(s.last()) {
        lemma_trailing_space_le(s.drop_last());
        assert forall|j: int| s.len() - trailing_space(s) <= j < s.len() implies is_space_char(
            s[j],
        ) by {
            if j < s.len() - 1 {
                assert(s[j] == s.drop_last()[j]);
            }
        }
    }
}

/// The index of the first non-whitespace character, or the length.
pub fn leading_space_exec(v: &Vec<char>) -> (r: usize)
    ensures
        r == leading_space(v@),
{
    let mut i: usize = 0;
    while i < v.len() && is_space(v[i])
        invariant
            i <= v.len(),
            forall|j: int| 0 <= j < i ==> is_space_char(v@[j]),
        decreases v.len() - i,
    {
        i = i + 1;
    }
    proof {
        lemma_leading_space(v@, i as int);
        lemma_leading_space_le(v@);
    }
    i
}

fn trailing_space_exec(v: &Vec<char>) -> (r: usize)
    ensures
        r == trailing_space(v@),
{
    let mut n: usize = 0;
    while n < v.len() && is_space(v[v.len() - 1 - n])
        invariant
            n <= v.len(),
            forall|j: int| v.len() - n <= j < v.len() ==> is_space_char(v@[j]),
        decreases v.len() - n,
    {
        n = n + 1;
    }
    proof {
        lemma_trailing_space_exact(v@, n as int);
    }
    n
}

pub proof fn lemma_trailing_space_exact(s: Seq<char>, n: int)
    requires
        0 <= n <= s.len(),
        forall|j: int| s.len() - n <= j < s.len() ==> is_space_char(s[j]),
        n == s.len() || !is_space_char(s[s.len() - 1 - n]),
    ensures
        trailing_space(s) == n,
    decreases n,
{
    if n > 0 {
        let t = s.drop_last();
        assert forall|j: int| t.len() - (n - 1) <= j < t.len() implies is_space_char(t[j]) by {
            assert(t[j] == s[j]);
        }
        if n - 1 < t.len() {
            assert(t[t.len() - 1 - (n - 1)] == s[s.len() - 1 - n]);
        }
        lemma_trailing_space_exact(t, n - 1);
    }
}

/// A sequence with no surrounding whitespace is its own trim.
pub proof fn lemma_trim_unchanged(s: Seq<char>)
    requires
        s.len() > 0 ==> !is_space_char(s[0]) && !is_space_char(s.last()),
    ensures
        trim(s) == s,
{
    lemma_leading_space(s, 0);
    lemma_leading_space_le(s);
    assert(trim_start(s) =~= s);
    lemma_trailing_space_exact(s, 0);
    assert(trim_end(s) =~= s);
}

/// ASCII lowering moves no character in or out of the whitespace class, so
/// it commutes with trimming.
pub proof fn lemma_trim_map_lower(s: Seq<char>)
    ensures
        trim(lower_seq(s)) == lower_seq(trim(s)),
{
    let l = lower_seq(s);
    assert forall|c: char| #[trigger] is_space_char(lower_char(c)) == is_space_char(c) by {}
    lemma_leading_space_le(s);
    let a = leading_space(s) as int;
    assert forall|j: int| 0 <= j < a implies is_space_char(l[j]) by {
        assert(is_space_char(lower_char(s[j])));
    }
    lemma_leading_space(l, a);
    lemma_leading_space_le(l);
    if a < s.len() {
        assert(!is_space_char(lower_char(s[a])));
        assert(!is_space_char(l[a]));
    }
    assert(leading_space(l) == a);
    let t = trim_start(s);
    let lt = trim_start(l);
    assert(lt =~= lower_seq(t));
    lemma_trailing_space_le(t);
    let b = trailing_space(t) as int;
    assert forall|j: int| lt.len() - b <= j < lt.len() implies is_space_char(lt[j]) by {
        assert(is_space_char(lower_char(t[j])));
    }
    if b < t.len() {
        assert(!is_space_char(lower_char(t[t.len() - 1 - b])));
    }
    lemma_trailing_space_exact(lt, b);
    assert(trim_end(lt) =~= lower_seq(trim_end(t)));
}

/// `str::trim` over characters.
pub fn trim_chars(v: &Vec<char>) -> (r: Vec<char>)
    ensures
        r@ == trim(v@),
{
    let lead = leading_space_exec(v);
    proof {
        lemma_leading_space_le(v@);
    }
    let mut rest: Vec<char> = Vec::new();
    let mut i: usize = lead;
    while i < v.len()
        invariant
            lead <= i <= v.len(),
            rest@ == v@.subrange(lead as int, i as int),
        decreases v.len() - i,
    {
        rest.push(v[i]);
        assert(v@.subrange(lead as int, i + 1) == v@.subrange(lead as int, i as int).push(
            v@[i as int],
        ));
        i = i + 1;
    }
    assert(rest@ =~= trim_start(v@));
    let tail = trailing_space_exec(&rest);
    proof {
        lemma_trailing_space_le(rest@);
    }
    let mut out: Vec<char> = Vec::new();
    let keep = rest.len() - tail;
    let mut k: usize = 0;
    while k < keep
        invariant
            keep <= rest.len(),
            k <= keep,
            out@ == rest@.take(k as int),
        decreases keep - k,
    {
        out.push(rest[k]);
        assert(rest@.take(k + 1) == rest@.take(k as int).push(rest@[k as int]));
        k = k + 1;
    }
    out
}

/// `str::trim` on a string slice.
pub fn trim_str(s: &str) -> (r: String)
    ensures
        r@ == trim(s@),
{
    let v = chars_of(s);
    let t = trim_chars(&v);
    string_of(&t)
}

// ---------------------------------------------------------------------------
// ASCII case

pub open spec fn lower_seq(s: Seq<char>) -> Seq<char> {
    s.map_values(|c: char| lower_char(c))
}

/// `str::to_ascii_lowercase`.
pub fn lower_chars(v: &Vec<char>) -> (r: Vec<char>)
    ensures
        r@ == lower_seq(v@),
{
    let mut out: Vec<char> = Vec::new();
    let mut i: usize = 0;
    while i < v.len()
        invariant
            i <= v.len(),
            out@ == lower_seq(v@.take(i as int)),
        decreases v.len() - i,
    {
        out.push(to_lower(v[i]));
        assert(lower_seq(v@.take(i + 1)) =~= lower_seq(v@.take(i as int)).push(
            lower_char(v@[i as int]),
        ));
        i = i + 1;
    }
    assert(v@.take(v.len() as int) =~= v@);
    out
}

/// `str::eq_ignore_ascii_case`.
pub open spec fn eq_ignore_case(a: Seq<char>, b: Seq<char>) -> bool {
    lower_seq(a) == lower_seq(b)
}

pub fn eq_ignore_case_exec(a: &Vec<char>, b: &Vec<char>) -> (r: bool)
    ensures
        r == eq_ignore_case(a@, b@),
{
    let la = lower_chars(a);
    let lb = lower_chars(b);
    let r = seq_eq(&la, &lb);
    r
}

/// Whether every character of `s` satisfies a predicate, checked by the caller.
pub open spec fn all_chars(s: Seq<char>, f: spec_fn(char) -> bool) -> bool {
    forall|i: int| 0 <= i < s.len() ==> f(s[i])
}

pub open spec fn all_bytes(s: Seq<u8>, f: spec_fn(u8) -> bool) -> bool {
    forall|i: int| 0 <= i < s.len() ==> f(s[i])
}

pub fn has_space(v: &Vec<char>) -> (r: bool)
    ensures
        r == exists|i: int| 0 <= i < v@.len() && is_space_char(v@[i]),
{
    let mut i: usize = 0;
    while i < v.len()
        invariant
            i <= v.len(),
            forall|j: int| 0 <= j < i ==> !is_space_char(v@[j]),
        decreases v.len() - i,
    {
        if is_space(v[i]) {
            return true;
        }
        i = i + 1;
    }
    false
}

pub fn contains_char(v: &Vec<char>, c: char) -> (r: bool)
    ensures
        r == v@.contains(c),
{
    let mut i: usize = 0;
    while i < v.len()
        invariant
            i <= v.len(),
            forall|j: int| 0 <= j < i ==> v@[j] != c,
        decreases v.len() - i,
    {
        if v[i] == c {
            assert(v@[i as int] == c);
            return true;
        }
        i = i + 1;
    }
    false
}

/// Copy of `v[from..to]`.
pub fn slice_chars(v: &Vec<char>, from: usize, to: usize) -> (r: Vec<char>)
    requires
        from <= to <= v.len(),
    ensures
        r@ == v@.subrange(from as int, to as int),
{
    let mut out: Vec<char> = Vec::new();
    let mut i: usize = from;
    while i < to
        invariant
            from <= i <= to <= v.len(),
            out@ == v@.subrange(from as int, i as int),
        decreases to - i,
    {
        out.push(v[i]);
        assert(v@.subrange(from as int, i + 1) == v@.subrange(from as int, i as int).push(
            v@[i as int],
        ));
        i = i + 1;
    }
    out
}

/// `a + b` on character vectors.
pub fn append_chars(a: &mut Vec<char>, b: &Vec<char>)
    ensures
        final(a)@ == old(a)@ + b@,
{
    let mut i: usize = 0;
    while i < b.len()
        invariant
            i <= b.len(),
            a@ == old(a)@ + b@.take(i as int),
        decreases b.len() - i,
    {
        a.push(b[i]);
        assert(b@.take(i + 1) == b@.take(i as int).push(b@[i as int]));
        i = i + 1;
    }
    assert(b@.take(b.len() as int) =~= b@);
}

} // verus!

verus! {

// ---------------------------------------------------------------------------
// Positions of characters

/// The first position whose character satisfies `f`.
pub open spec fn first_where(s: Seq<char>, f: spec_fn(char) -> bool) -> Option<int>
    decreases s.len(),
{
    if s.len() == 0 {
        None
    } else if f(s[0]) {
        Some(0)
    } else {
        match first_where(s.drop_first(), f) {
            Some(i) => Some(i + 1),
            None => None,
        }
    }
}

/// The last position whose character satisfies `f`.
pub open spec fn last_where(s: Seq<char>, f: spec_fn(char) -> bool) -> Option<int>
    decreases s.len(),
{
    if s.len() == 0 {
        None
    } else if f(s.last()) {
        Some(s.len() - 1)
    } else {
        last_where(s.drop_last(), f)
    }
}

pub proof fn lemma_first_where(s: Seq<char>, f: spec_fn(char) -> bool)
    ensures
        first_where(s, f) matches Some(i) ==> 0 <= i < s.len() && f(s[i]) && forall|j: int|
            0 <= j < i ==> !f(s[j]),
        first_where(s, f) is None ==> forall|j: int| 0 <= j < s.len() ==> !f(s[j]),
    decreases s.len(),
{
    if s.len() > 0 && !f(s[0]) {
        lemma_first_where(s.drop_first(), f);
        assert forall|j: int| 1 <= j < s.len() implies s[j] == s.drop_first()[j - 1] by {}
    }
}

pub proof fn lemma_first_where_is(s: Seq<char>, f: spec_fn(char) -> bool, i: int)
    requires
        0 <= i <= s.len(),
        forall|j: int| 0 <= j < i ==> !f(s[j]),
        i < s.len() ==> f(s[i]),
    ensures
        i < s.len() ==> first_where(s, f) == Some(i),
        i == s.len() ==> first_where(s, f) is None,
{
    lemma_first_where(s, f);
    match first_where(s, f) {
        Some(k) => {
            if k > i {
                assert(i < s.len());
            }
        },
        None => {
            if i < s.len() {
                assert(f(s[i]));
            }
        },
    }
}

pub proof fn lemma_last_where(s: Seq<char>, f: spec_fn(char) -> bool)
    ensures
        last_where(s, f) matches Some(i) ==> 0 <= i < s.len() && f(s[i]) && forall|j: int|
            i < j < s.len() ==> !f(s[j]),
        last_where(s, f) is None ==> forall|j: int| 0 <= j < s.len() ==> !f(s[j]),
    decreases s.len(),
{
    if s.len() > 0 && !f(s.last()) {
        lemma_last_where(s.drop_last(), f);
        assert forall|j: int| 0 <= j < s.len() - 1 implies s[j] == s.drop_last()[j] by {}
    }
}

pub proof fn lemma_last_where_is(s: Seq<char>, f: spec_fn(char) -> bool, n: int)
    requires
        0 <= n <= s.len(),
        forall|j: int| s.len() - n <= j < s.len() ==> !f(s[j]),
        n < s.len() ==> f(s[s.len() - 1 - n]),
    ensures
        n < s.len() ==> last_where(s, f) == Some(s.len() - 1 - n),
        n == s.len() ==> last_where(s, f) is None,
{
    lemma_last_where(s, f);
    match last_where(s, f) {
        Some(k) => {
            if k < s.len() - 1 - n {
                assert(n < s.len());
            }
        },
        None => {
            if n < s.len() {
                assert(f(s[s.len() - 1 - n]));
            }
        },
    }
}

pub open spec fn is_char(c: char) -> spec_fn(char) -> bool {
    |x: char| x == c
}

/// `str::find(c)`.
pub open spec fn index_of(s: Seq<char>, c: char) -> Option<int> {
    first_where(s, is_char(c))
}

/// `str::rfind(c)`.
pub open spec fn last_index_of(s: Seq<char>, c: char) -> Option<int> {
    last_where(s, is_char(c))
}

pub fn index_of_exec(v: &Vec<char>, c: char) -> (r: Option<usize>)
    ensures
        r matches Some(i) ==> index_of(v@, c) == Some(i as int),
        r is None ==> index_of(v@, c) is None,
{
    let mut i: usize = 0;
    while i < v.len()
        invariant
            i <= v.len(),
            forall|j: int| 0 <= j < i ==> !is_char(c)(v@[j]),
        decreases v.len() - i,
    {
        if v[i] == c {
            proof {
                lemma_first_where_is(v@, is_char(c), i as int);
            }
            return Some(i);
        }
        i = i + 1;
    }
    proof {
        lemma_first_where_is(v@, is_char(c), i as int);
    }
    None
}

pub fn last_index_of_exec(v: &Vec<char>, c: char) -> (r: Option<usize>)
    ensures
        r matches Some(i) ==> last_index_of(v@, c) == Some(i as int),
        r is None ==> last_index_of(v@, c) is None,
{
    let mut n: usize = 0;
    while n < v.len()
        invariant
            n <= v.len(),
            forall|j: int| v.len() - n <= j < v.len() ==> !is_char(c)(v@[j]),
        decreases v.len() - n,
    {
        if v[v.len() - 1 - n] == c {
            proof {
                lemma_last_where_is(v@, is_char(c), n as int);
            }
            return Some(v.len() - 1 - n);
        }
        n = n + 1;
    }
    proof {
        lemma_last_where_is(v@, is_char(c), n as int);
    }
    None
}

/// The part of `s` before the first character in `stops`, or all of `s`
/// (`s.split(stops).next()`).
pub open spec fn before_any(s: Seq<char>, stops: Seq<char>) -> Seq<char> {
    match first_where(s, |x: char| stops.contains(x)) {
        Some(i) => s.take(i),
        None => s,
    }
}

pub fn before_any_exec(v: &Vec<char>, stops: &Vec<char>) -> (r: Vec<char>)
    ensures
        r@ == before_any(v@, stops@),
{
    let ghost f = |x: char| stops@.contains(x);
    let mut i: usize = 0;
    while i < v.len() && !contains_char(stops, v[i])
        invariant
            i <= v.len(),
            f == (|x: char| stops@.contains(x)),
            forall|j: int| 0 <= j < i ==> !f(v@[j]),
        decreases v.len() - i,
    {
        i = i + 1;
    }
    proof {
        lemma_first_where_is(v@, f, i as int);
    }
    let r = slice_chars(v, 0, i);
    assert(i == v.len() ==> r@ =~= v@);
    r
}

// ---------------------------------------------------------------------------
// Splitting and joining

/// `str::split(c)`: the pieces between occurrences of `c`, empty ones included.
pub open spec fn split_char(s: Seq<char>, c: char) -> Seq<Seq<char>>
    decreases s.len(),
{
    match index_of(s, c) {
        Some(i) => {
            if 0 <= i < s.len() {
                seq![s.take(i)] + split_char(s.skip(i + 1), c)
            } else {
                seq![s]
            }
        },
        None => seq![s],
    }
}

/// `str::split_once(c)` for a single character.
pub open spec fn split_once_char(s: Seq<char>, c: char) -> Option<(Seq<char>, Seq<char>)> {
    match index_of(s, c) {
        Some(i) => Some((s.take(i), s.skip(i + 1))),
        None => None,
    }
}

/// `str::split_once(p)`.
pub open spec fn split_once_seq(s: Seq<char>, p: Seq<char>) -> Option<(Seq<char>, Seq<char>)> {
    match find_seq(s, p) {
        Some(i) => Some((s.take(i), s.skip(i + p.len()))),
        None => None,
    }
}

pub fn split_char_exec(v: &Vec<char>, c: char) -> (r: Vec<Vec<char>>)
    ensures
        r@.map_values(|x: Vec<char>| x@) == split_char(v@, c),
    decreases v.len(),
{
    proof {
        lemma_first_where(v@, is_char(c));
    }
    match index_of_exec(v, c) {
        Some(i) => {
            let head = slice_chars(v, 0, i);
            let tail = slice_chars(v, i + 1, v.len());
            assert(tail@ =~= v@.skip(i + 1));
            let rest = split_char_exec(&tail, c);
            let mut out: Vec<Vec<char>> = Vec::new();
            out.push(head);
            let mut k: usize = 0;
            while k < rest.len()
                invariant
                    k <= rest.len(),
                    out@.len() == k + 1,
                    out@[0]@ == v@.take(i as int),
                    forall|j: int| 0 <= j < k ==> out@[j + 1]@ == rest@[j]@,
                decreases rest.len() - k,
            {
                out.push(rest[k].clone());
                k = k + 1;
            }
            assert(out@.map_values(|x: Vec<char>| x@) =~= seq![v@.take(i as int)] + rest@.map_values(
                |x: Vec<char>| x@,
            ));
            out
        },
        None => {
            let mut out: Vec<Vec<char>> = Vec::new();
            out.push(v.clone());
            assert(out@.map_values(|x: Vec<char>| x@) =~= seq![v@]);
            out
        },
    }
}

/// `str::split_once(c)` for a single character.
pub fn split_once_char_exec(v: &Vec<char>, c: char) -> (r: Option<(Vec<char>, Vec<char>)>)
    ensures
        match split_once_char(v@, c) {
            Some((a, b)) => r matches Some((x, y)) && x@ == a && y@ == b,
            None => r is None,
        },
{
    proof {
        lemma_first_where(v@, is_char(c));
    }
    match index_of_exec(v, c) {
        Some(i) => {
            let a = slice_chars(v, 0, i);
            let b = slice_chars(v, i + 1, v.len());
            assert(b@ =~= v@.skip(i + 1));
            Some((a, b))
        },
        None => None,
    }
}

/// `str::split_once(p)`.
pub fn split_once_exec(v: &Vec<char>, p: &Vec<char>) -> (r: Option<(Vec<char>, Vec<char>)>)
    ensures
        match split_once_seq(v@, p@) {
            Some((a, b)) => r matches Some((x, y)) && x@ == a && y@ == b,
            None => r is None,
        },
{
    proof {
        lemma_find_from_bounds(v@, p@, 0);
    }
    match find_from_exec(v, p, 0) {
        Some(i) => {
            assert(matches_at(v@, p@, i as int));
            let n = v.len();
            let m = p.len();
            assert(i + m <= n);
            let a = slice_chars(v, 0, i);
            let b = slice_chars(v, i + m, n);
            assert(b@ =~= v@.skip(i + p@.len()));
            Some((a, b))
        },
        None => None,
    }
}

/// `pieces.join(sep)`.
pub open spec fn join_with(pieces: Seq<Seq<char>>, sep: Seq<char>) -> Seq<char>
    decreases pieces.len(),
{
    if pieces.len() == 0 {
        Seq::empty()
    } else if pieces.len() == 1 {
        pieces[0]
    } else {
        join_with(pieces.drop_last(), sep) + sep + pieces.last()
    }
}

pub fn join_exec(pieces: &Vec<Vec<char>>, sep: &Vec<char>) -> (r: Vec<char>)
    ensures
        r@ == join_with(pieces@.map_values(|x: Vec<char>| x@), sep@),
{
    let ghost views = pieces@.map_values(|x: Vec<char>| x@);
    let mut out: Vec<char> = Vec::new();
    let mut i: usize = 0;
    while i < pieces.len()
        invariant
            i <= pieces.len(),
            views == pieces@.map_values(|x: Vec<char>| x@),
            out@ == join_with(views.take(i as int), sep@),
        decreases pieces.len() - i,
    {
        if i > 0 {
            append_chars(&mut out, sep);
        }
        append_chars(&mut out, &pieces[i]);
        assert(views.take(i + 1).drop_last() =~= views.take(i as int));
        assert(views.take(i + 1).last() == pieces@[i as int]@);
        if i == 0 {
            assert(out@ =~= join_with(views.take(1), sep@));
        }
        i = i + 1;
    }
    assert(views.take(pieces.len() as int) =~= views);
    out
}

} // verus!

verus! {

// ---------------------------------------------------------------------------
// Decimal numbers

pub open spec fn digit_char(d: nat) -> char {
    ((d + 48) as u8) as char
}

/// The decimal rendering of a natural number, as `u64`'s `Display` writes it.
pub open spec fn decimal_spec(n: nat) -> Seq<char>
    decreases n,
{
    if n < 10 {
        seq![digit_char(n)]
    } else {
        decimal_spec(n / 10).push(digit_char(n % 10))
    }
}

/// `n.to_string()`.
pub fn decimal(n: u64) -> (r: String)
    ensures
        r@ == decimal_spec(n as nat),
{
    let mut rev: Vec<char> = Vec::new();
    let mut m: u64 = n;
    let ghost mut tail: Seq<char> = Seq::empty();
    assert(decimal_spec(n as nat) =~= decimal_spec(m as nat) + tail);
    while m >= 10
        invariant
            m <= n,
            decimal_spec(n as nat) == decimal_spec(m as nat) + tail,
            rev@.len() == tail.len(),
            forall|j: int| 0 <= j < tail.len() ==> #[trigger] rev@[j] == tail[tail.len() - 1 - j],
        decreases m,
    {
        let d = m % 10;
        let c = ((d + 48) as u8) as char;
        assert(c == digit_char((m % 10) as nat));
        assert(decimal_spec(m as nat) == decimal_spec((m / 10) as nat).push(c));
        rev.push(c);
        proof {
            assert(decimal_spec((m / 10) as nat).push(c) + tail =~= decimal_spec((m / 10) as nat)
                + (seq![c] + tail));
            tail = seq![c] + tail;
        }
        m = m / 10;
    }
    let c = ((m + 48) as u8) as char;
    assert(decimal_spec(m as nat) == seq![c]);
    rev.push(c);
    proof {
        tail = seq![c] + tail;
    }
    let mut out: Vec<char> = Vec::new();
    let mut k: usize = rev.len();
    assert(tail.take(0) =~= Seq::<char>::empty());
    while k > 0
        invariant
            k <= rev@.len(),
            rev@.len() == tail.len(),
            forall|j: int| 0 <= j < tail.len() ==> #[trigger] rev@[j] == tail[tail.len() - 1 - j],
            out@ == tail.take(tail.len() - k),
        decreases k,
    {
        k = k - 1;
        out.push(rev[k]);
        assert(tail.take(tail.len() - k) =~= tail.take(tail.len() - k - 1).push(
            tail[tail.len() - 1 - k as int],
        ));
    }
    assert(tail.take(tail.len() as int) =~= tail);
    string_of(&out)
}

// ---------------------------------------------------------------------------
// Words and unsigned numbers

/// `s.split_whitespace().next()`.
pub open spec fn first_word(s: Seq<char>) -> Option<Seq<char>> {
    let t = s.skip(leading_space(s) as int);
    if t.len() == 0 {
        None
    } else {
        match first_where(t, |c: char| is_space_char(c)) {
            Some(k) => Some(t.take(k)),
            None => Some(t),
        }
    }
}

pub fn first_word_exec(v: &Vec<char>) -> (r: Option<Vec<char>>)
    ensures
        match r {
            Some(w) => first_word(v@) == Some(w@),
            None => first_word(v@) is None,
        },
{
    let lead = leading_space_exec(v);
    proof {
        lemma_leading_space_le(v@);
    }
    if lead == v.len() {
        return None;
    }
    let ghost t = v@.skip(lead as int);
    let mut end: usize = lead;
    while end < v.len() && !is_space(v[end])
        invariant
            lead <= end <= v.len(),
            t == v@.skip(lead as int),
            forall|j: int| lead <= j < end ==> !is_space_char(v@[j]),
        decreases v.len() - end,
    {
        end = end + 1;
    }
    proof {
        let f = |c: char| is_space_char(c);
        let k = end - lead;
        assert forall|j: int| 0 <= j < k implies !f(t[j]) by {
            assert(t[j] == v@[lead + j]);
        }
        if k < t.len() {
            assert(t[k] == v@[end as int]);
        }
        lemma_first_where_is(t, f, k as int);
        if k < t.len() {
            assert(v@.subrange(lead as int, end as int) =~= t.take(k as int));
        } else {
            assert(v@.subrange(lead as int, end as int) =~= t);
        }
    }
    Some(slice_chars(v, lead, end))
}

/// The value of a run of ASCII digits.
pub open spec fn digits_value(s: Seq<char>) -> nat
    decreases s.len(),
{
    if s.len() == 0 {
        0
    } else {
        digits_value(s.drop_last()) * 10 + ((s.last() as u32) - 48) as nat
    }
}

/// What `str::parse::<usize>` accepts: an optional `+`, then one or more
/// ASCII digits whose value fits in `usize`.
pub open spec fn unsigned_digits(s: Seq<char>) -> Seq<char> {
    if s.len() > 0 && s[0] == '+' {
        s.drop_first()
    } else {
        s
    }
}

pub open spec fn parse_usize_spec(s: Seq<char>) -> Option<nat> {
    let d = unsigned_digits(s);
    if d.len() > 0 && (forall|i: int| 0 <= i < d.len() ==> is_digit_char(#[trigger] d[i]))
        && digits_value(d) <= usize::MAX {
        Some(digits_value(d))
    } else {
        None
    }
}

proof fn lemma_digits_value_monotone(s: Seq<char>, i: int)
    requires
        0 <= i <= s.len(),
        forall|j: int| 0 <= j < s.len() ==> is_digit_char(#[trigger] s[j]),
    ensures
        digits_value(s.take(i)) <= digits_value(s),
    decreases s.len() - i,
{
    if i < s.len() {
        lemma_digits_value_monotone(s, i + 1);
        assert(s.take(i + 1).drop_last() =~= s.take(i));
        assert(is_digit_char(s[i]));
    } else {
        assert(s.take(i) =~= s);
    }
}

/// `s.parse::<usize>().ok()`.
pub fn parse_usize(v: &Vec<char>) -> (r: Option<usize>)
    ensures
        match r {
            Some(n) => parse_usize_spec(v@) == Some(n as nat),
            None => parse_usize_spec(v@) is None,
        },
{
    let start: usize = if v.len() > 0 && v[0] == '+' {
        1
    } else {
        0
    };
    let ghost d = v@.skip(start as int);
    assert(d =~= unsigned_digits(v@));
    if start == v.len() {
        return None;
    }
    let mut value: u128 = 0;
    let mut i: usize = start;
    while i < v.len()
        invariant
            start <= i <= v.len(),
            d == v@.skip(start as int),
            d == unsigned_digits(v@),
            forall|j: int| start <= j < i ==> is_digit_char(#[trigger] v@[j]),
            value == digits_value(d.take(i - start)),
            value <= usize::MAX,
        decreases v.len() - i,
    {
        let c = v[i];
        if !is_digit(c) {
            assert(d[i - start] == c);
            assert(!is_digit_char(d[i - start]));
            return None;
        }
        let digit = (c as u32 - 48) as u128;
        assert(d.take(i + 1 - start).drop_last() =~= d.take(i - start));
        assert(d.take(i + 1 - start).last() == c);
        let next = value * 10 + digit;
        if next > usize::MAX as u128 {
            proof {
                assert(digits_value(d.take(i + 1 - start)) == next);
                if forall|j: int| 0 <= j < d.len() ==> is_digit_char(#[trigger] d[j]) {
                    lemma_digits_value_monotone(d, i + 1 - start);
                }
            }
            return None;
        }
        value = next;
        i = i + 1;
    }
    assert(d.take(v.len() - start) =~= d);
    assert forall|j: int| 0 <= j < d.len() implies is_digit_char(#[trigger] d[j]) by {
        assert(d[j] == v@[start + j]);
    }
    Some(value as usize)
}

// ---------------------------------------------------------------------------
// The order of strings

/// `String`'s order: lexicographic by character, a proper prefix first.
pub open spec fn seq_lt(a: Seq<char>, b: Seq<char>) -> bool
    decreases a.len(),
{
    if a.len() == 0 {
        b.len() > 0
    } else if b.len() == 0 {
        false
    } else if a[0] != b[0] {
        a[0] < b[0]
    } else {
        seq_lt(a.drop_first(), b.drop_first())
    }
}

pub proof fn lemma_seq_lt_total(a: Seq<char>, b: Seq<char>)
    ensures
        a == b || seq_lt(a, b) || seq_lt(b, a),
        !(seq_lt(a, b) && seq_lt(b, a)),
        !seq_lt(a, a),
    decreases a.len(),
{
    if a.len() > 0 && b.len() > 0 {
        lemma_seq_lt_total(a.drop_first(), b.drop_first());
        if a[0] == b[0] && a.drop_first() == b.drop_first() {
            assert(a =~= seq![a[0]] + a.drop_first());
            assert(b =~= seq![b[0]] + b.drop_first());
        }
        lemma_seq_lt_total(a.drop_first(), a.drop_first());
    } else if a.len() == 0 && b.len() == 0 {
        assert(a =~= b);
    } else if a.len() > 0 {
        lemma_seq_lt_total(a.drop_first(), a.drop_first());
    }
}

pub proof fn lemma_seq_lt_transitive(a: Seq<char>, b: Seq<char>, c: Seq<char>)
    requires
        seq_lt(a, b),
        seq_lt(b, c),
    ensures
        seq_lt(a, c),
    decreases a.len(),
{
    if a.len() > 0 && b.len() > 0 && c.len() > 0 && a[0] == b[0] && b[0] == c[0] {
        lemma_seq_lt_transitive(a.drop_first(), b.drop_first(), c.drop_first());
    }
}

/// `a < b` for strings.
pub fn seq_lt_exec(a: &Vec<char>, b: &Vec<char>) -> (r: bool)
    ensures
        r == seq_lt(a@, b@),
{
    let mut i: usize = 0;
    assert(a@.skip(0) =~= a@);
    assert(b@.skip(0) =~= b@);
    while i < a.len() && i < b.len() && a[i] == b[i]
        invariant
            i <= a.len(),
            i <= b.len(),
            seq_lt(a@, b@) == seq_lt(a@.skip(i as int), b@.skip(i as int)),
        decreases a.len() - i,
    {
        assert(a@.skip(i as int).drop_first() =~= a@.skip(i + 1));
        assert(b@.skip(i as int).drop_first() =~= b@.skip(i + 1));
        i = i + 1;
    }
    if i == a.len() {
        i < b.len()
    } else if i == b.len() {
        false
    } else {
        assert(a@.skip(i as int)[0] == a@[i as int]);
        assert(b@.skip(i as int)[0] == b@[i as int]);
        a[i] < b[i]
    }
}

pub open spec fn string_views(v: Seq<String>) -> Seq<Seq<char>> {
    v.map_values(|x: String| x@)
}

/// Strictly increasing in `String`'s order: sorted, and each string once.
pub open spec fn strictly_sorted(s: Seq<Seq<char>>) -> bool {
    forall|i: int, j: int| 0 <= i < j < s.len() ==> seq_lt(#[trigger] s[i], #[trigger] s[j])
}

/// Insert a string into a strictly sorted vector, as `BTreeSet::insert` does.
pub fn insert_sorted(v: &mut Vec<String>, x: String)
    requires
        strictly_sorted(string_views(old(v)@)),
    ensures
        strictly_sorted(string_views(final(v)@)),
        forall|y: Seq<char>|
            string_views(final(v)@).contains(y) <==> (string_views(old(v)@).contains(y) || y
                == x@),
{
    let ghost before = string_views(v@);
    let xv = chars_of(x.as_str());
    let mut k: usize = 0;
    while k < v.len() && seq_lt_exec(&chars_of(v[k].as_str()), &xv)
        invariant
            k <= v@.len(),
            xv@ == x@,
            before == string_views(v@),
            strictly_sorted(before),
            forall|j: int| 0 <= j < k ==> seq_lt(#[trigger] before[j], x@),
        decreases v.len() - k,
    {
        k = k + 1;
    }
    if k < v.len() && str_eq(v[k].as_str(), x.as_str()) {
        assert(before[k as int] == x@);
        assert forall|y: Seq<char>|
            string_views(v@).contains(y) <==> (before.contains(y) || y == x@) by {
            if y == x@ {
                assert(before[k as int] == y);
            }
        }
        return;
    }
    proof {
        if k < v@.len() {
            lemma_seq_lt_total(before[k as int], x@);
            assert(seq_lt(x@, before[k as int]));
        }
    }
    v.insert(k, x);
    let ghost after = string_views(v@);
    assert(after =~= before.insert(k as int, xv@));
    assert forall|i: int, j: int| 0 <= i < j < after.len() implies seq_lt(
        #[trigger] after[i],
        #[trigger] after[j],
    ) by {
        if j < k {
        } else if j == k {
        } else if i < k {
            assert(after[j] == before[j - 1]);
            assert(seq_lt(x@, before[k as int]));
            if j - 1 > k {
                lemma_seq_lt_transitive(x@, before[k as int], before[j - 1]);
            }
            lemma_seq_lt_transitive(before[i], x@, before[j - 1]);
        } else if i == k {
            assert(after[j] == before[j - 1]);
            if j - 1 > k {
                lemma_seq_lt_transitive(x@, before[k as int], before[j - 1]);
            }
        } else {
            assert(after[i] == before[i - 1]);
            assert(after[j] == before[j - 1]);
        }
    }
    assert forall|y: Seq<char>| after.contains(y) <==> (before.contains(y) || y == x@) by {
        if after.contains(y) {
            let i = choose|i: int| 0 <= i < after.len() && after[i] == y;
            if i < k {
                assert(before[i] == y);
            } else if i > k {
                assert(before[i - 1] == y);
            }
        }
        if before.contains(y) {
            let i = choose|i: int| 0 <= i < before.len() && before[i] == y;
            if i < k {
                assert(after[i] == y);
            } else {
                assert(after[i + 1] == y);
            }
        }
        if y == x@ {
            assert(after[k as int] == y);
        }
    }
}

// ---------------------------------------------------------------------------
// The first element satisfying a predicate

/// The first position of `s` whose element satisfies `f`.
pub open spec fn first_index<T>(s: Seq<T>, f: spec_fn(T) -> bool) -> Option<int>
    decreases s.len(),
{
    if s.len() == 0 {
        None
    } else if f(s[0]) {
        Some(0)
    } else {
        match first_index(s.drop_first(), f) {
            Some(i) => Some(i + 1),
            None => None,
        }
    }
}

pub proof fn lemma_first_index_found<T>(s: Seq<T>, f: spec_fn(T) -> bool)
    ensures
        first_index(s, f) matches Some(k) ==> 0 <= k < s.len() && f(s[k]) && forall|j: int|
            0 <= j < k ==> !f(#[trigger] s[j]),
        first_index(s, f) is None ==> forall|j: int| 0 <= j < s.len() ==> !f(#[trigger] s[j]),
    decreases s.len(),
{
    if s.len() > 0 && !f(s[0]) {
        lemma_first_index_found(s.drop_first(), f);
        assert forall|j: int| 1 <= j < s.len() implies s[j] == s.drop_first()[j - 1] by {}
    }
}

pub proof fn lemma_first_index<T>(s: Seq<T>, f: spec_fn(T) -> bool, i: int)
    requires
        0 <= i <= s.len(),
        forall|j: int| 0 <= j < i ==> !f(#[trigger] s[j]),
        i < s.len() ==> f(s[i]),
    ensures
        i < s.len() ==> first_index(s, f) == Some(i),
        i == s.len() ==> first_index(s, f) is None,
    decreases i,
{
    if i > 0 {
        let t = s.drop_first();
        assert forall|j: int| 0 <= j < i - 1 implies !f(#[trigger] t[j]) by {
            assert(t[j] == s[j + 1]);
        }
        if i < s.len() {
            assert(t[i - 1] == s[i]);
        }
        lemma_first_index(t, f, i - 1);
    }
}

// ---------------------------------------------------------------------------
// UTF-8

/// The UTF-8 encoding of one character.
pub open spec fn utf8_char(c: char) -> Seq<u8> {
    let n = c as u32;
    if n < 0x80 {
        seq![n as u8]
    } else if n < 0x800 {
        seq![(0xc0 + n / 64) as u8, (0x80 + n % 64) as u8]
    } else if n < 0x10000 {
        seq![(0xe0 + n / 4096) as u8, (0x80 + (n / 64) % 64) as u8, (0x80 + n % 64) as u8]
    } else {
        seq![
            (0xf0 + n / 262144) as u8,
            (0x80 + (n / 4096) % 64) as u8,
            (0x80 + (n / 64) % 64) as u8,
            (0x80 + n % 64) as u8,
        ]
    }
}

/// The UTF-8 encoding of a string, the bytes `str::as_bytes` gives.
pub open spec fn utf8_encode(s: Seq<char>) -> Seq<u8>
    decreases s.len(),
{
    if s.len() == 0 {
        Seq::empty()
    } else {
        utf8_encode(s.drop_last()) + utf8_char(s.last())
    }
}

/// The UTF-8 bytes of a character sequence.
pub fn utf8_bytes(v: &Vec<char>) -> (r: Vec<u8>)
    ensures
        r@ == utf8_encode(v@),
{
    let mut out: Vec<u8> = Vec::new();
    let mut i: usize = 0;
    while i < v.len()
        invariant
            i <= v@.len(),
            out@ == utf8_encode(v@.take(i as int)),
        decreases v.len() - i,
    {
        let c = v[i];
        let n = c as u32;
        assert(v@.take(i + 1).drop_last() =~= v@.take(i as int));
        if n < 0x80 {
            out.push(n as u8);
        } else if n < 0x800 {
            out.push((0xc0 + n / 64) as u8);
            out.push((0x80 + n % 64) as u8);
        } else if n < 0x10000 {
            out.push((0xe0 + n / 4096) as u8);
            out.push((0x80 + (n / 64) % 64) as u8);
            out.push((0x80 + n % 64) as u8);
        } else {
            out.push((0xf0 + n / 262144) as u8);
            out.push((0x80 + (n / 4096) % 64) as u8);
            out.push((0x80 + (n / 64) % 64) as u8);
            out.push((0x80 + n % 64) as u8);
        }
        assert(out@ =~= utf8_encode(v@.take(i + 1)));
        i = i + 1;
    }
    assert(v@.take(v@.len() as int) =~= v@);
    out
}

// ---------------------------------------------------------------------------
// Replacing

/// `s.replace(from, to)` for a non-empty `from`: matches found left to right,
/// without overlap.
pub open spec fn replace_all(s: Seq<char>, from: Seq<char>, to: Seq<char>) -> Seq<char>
    decreases s.len(),
{
    if s.len() == 0 || from.len() == 0 {
        s
    } else if starts_with(s, from) {
        to + replace_all(s.skip(from.len() as int), from, to)
    } else {
        seq![s[0]] + replace_all(s.drop_first(), from, to)
    }
}

/// `str::replace` over characters.
pub fn replace_exec(v: &Vec<char>, from: &Vec<char>, to: &Vec<char>) -> (r: Vec<char>)
    requires
        from@.len() > 0,
    ensures
        r@ == replace_all(v@, from@, to@),
{
    let mut out: Vec<char> = Vec::new();
    let mut i: usize = 0;
    assert(v@.skip(0) =~= v@);
    while i < v.len()
        invariant
            i <= v@.len(),
            from@.len() > 0,
            out@ + replace_all(v@.skip(i as int), from@, to@) == replace_all(v@, from@, to@),
        decreases v.len() - i,
    {
        let ghost rest = v@.skip(i as int);
        if matches_at_exec(v, from, i) {
            assert(rest.take(from@.len() as int) =~= v@.subrange(i as int, i + from@.len()));
            assert(rest.skip(from@.len() as int) =~= v@.skip(i + from@.len()));
            let ghost before = out@;
            append_chars(&mut out, to);
            assert(out@ + replace_all(v@.skip(i + from@.len()), from@, to@) =~= before + (to@
                + replace_all(v@.skip(i + from@.len()), from@, to@)));
            i = i + from.len();
        } else {
            proof {
                if rest.len() >= from@.len() {
                    assert(rest.take(from@.len() as int) =~= v@.subrange(i as int, i + from@.len()));
                }
            }
            assert(rest.drop_first() =~= v@.skip(i + 1));
            let ghost before = out@;
            out.push(v[i]);
            assert(out@ + replace_all(v@.skip(i + 1), from@, to@) =~= before + (seq![v@[i as int]]
                + replace_all(v@.skip(i + 1), from@, to@)));
            i = i + 1;
        }
    }
    assert(v@.skip(i as int) =~= Seq::<char>::empty());
    assert(out@ + Seq::<char>::empty() =~= out@);
    out
}

} // verus!

//! The free space a host reported in its own preflight, and how many records
//! of one catalog that space lets it hold at once.
use vstd::prelude::*;
use crate::device::{lines, lines_spec};
use crate::json::{get_items_v, get_str_v, get_v, group_json_view, view_arr, Json, JsonV};
use crate::text::{
    chars_of, str_eq, digits_value, first_index, index_of, index_of_exec, is_char, is_digit, is_digit_char,
    is_space, is_space_char, lemma_first_index, lemma_first_where, slice_chars,
};

verus! {

// ---------------------------------------------------------------------------
// Fields of a line

/// `str::split_whitespace`: the maximal runs of non-whitespace characters.
pub open spec fn words_spec(s: Seq<char>) -> Seq<Seq<char>>
    decreases s.len(),
{
    if s.len() == 0 {
        Seq::empty()
    } else {
        let before = words_spec(s.drop_last());
        let c = s.last();
        if is_space_char(c) {
            before
        } else if s.len() >= 2 && !is_space_char(s[s.len() - 2]) && before.len() > 0 {
            before.drop_last().push(before.last().push(c))
        } else {
            before.push(seq![c])
        }
    }
}

pub fn words(v: &Vec<char>) -> (r: Vec<Vec<char>>)
    ensures
        r@.map_values(|x: Vec<char>| x@) == words_spec(v@),
{
    let mut out: Vec<Vec<char>> = Vec::new();
    let mut current: Vec<char> = Vec::new();
    let mut i: usize = 0;
    while i < v.len()
        invariant
            i <= v.len(),
            i > 0 && !is_space_char(v@[i - 1]) ==> current@.len() > 0 && words_spec(v@.take(i as int))
                == out@.map_values(|x: Vec<char>| x@).push(current@),
            !(i > 0 && !is_space_char(v@[i - 1])) ==> current@.len() == 0 && words_spec(v@.take(i as int))
                == out@.map_values(|x: Vec<char>| x@),
        decreases v.len() - i,
    {
        let c = v[i];
        let ghost prefix = v@.take(i + 1);
        assert(prefix.drop_last() =~= v@.take(i as int));
        assert(prefix.last() == c);
        if is_space(c) {
            if current.len() > 0 {
                let ghost before = out@;
                out.push(current);
                assert(out@.map_values(|x: Vec<char>| x@) =~= before.map_values(|x: Vec<char>| x@).push(
                    current@,
                ));
                current = Vec::new();
            }
        } else {
            if i > 0 && !is_space(v[i - 1]) {
                assert(prefix[prefix.len() - 2] == v@[i - 1]);
                let ghost w = words_spec(v@.take(i as int));
                assert(w.drop_last() =~= out@.map_values(|x: Vec<char>| x@));
                current.push(c);
            } else {
                if i > 0 {
                    assert(prefix[prefix.len() - 2] == v@[i - 1]);
                }
                current = Vec::new();
                current.push(c);
                assert(current@ =~= seq![c]);
            }
        }
        i = i + 1;
    }
    assert(v@.take(v.len() as int) =~= v@);
    if current.len() > 0 {
        let ghost before = out@;
        out.push(current);
        assert(out@.map_values(|x: Vec<char>| x@) =~= before.map_values(|x: Vec<char>| x@).push(current@));
    }
    out
}


// ---------------------------------------------------------------------------
// A size as `df -h` prints it

/// The most records of one catalog that may occupy a host at the same
/// time, whatever its disk says.
pub const HOST_RECORD_WINDOW: u64 = 3;

pub open spec fn pow10(n: nat) -> nat
    decreases n,
{
    if n == 0 {
        1
    } else {
        10 * pow10((n - 1) as nat)
    }
}

proof fn lemma_pow10_le(a: nat, b: nat)
    requires
        a <= b,
    ensures
        pow10(a) <= pow10(b),
    decreases b,
{
    if a < b {
        lemma_pow10_le(a, (b - 1) as nat);
    }
}

pub open spec fn all_digits(s: Seq<char>) -> bool {
    forall|i: int| 0 <= i < s.len() ==> is_digit_char(#[trigger] s[i])
}

/// What a size's number is, as `f64`'s parser reads it: infinite, not a
/// number, or finite, written by its integer digits, its fraction digits and
/// its decimal exponent.
pub enum SizeNumber {
    Infinite,
    NotANumber,
    Finite(Seq<char>, Seq<char>, int),
}

/// The value of an optionally signed run of ASCII digits, when it is one.
pub open spec fn signed_digits(s: Seq<char>) -> Option<int> {
    let negative = s.len() > 0 && s[0] == '-';
    let digits = if s.len() > 0 && (s[0] == '+' || s[0] == '-') {
        s.drop_first()
    } else {
        s
    };
    if digits.len() > 0 && all_digits(digits) {
        Some(
            if negative {
                -(digits_value(digits) as int)
            } else {
                digits_value(digits) as int
            },
        )
    } else {
        None
    }
}

/// A number as `f64`'s parser reads one: an optional sign, then `inf`,
/// `infinity` or `nan` in any case, or ASCII digits with at most one `.`
/// among them and at least one digit, then optionally `e` or `E` and an
/// optionally signed run of digits. Its parts: whether it is negative, and
/// what it is.
pub open spec fn float_parts(s: Seq<char>) -> Option<(bool, SizeNumber)> {
    let negative = s.len() > 0 && s[0] == '-';
    let body = if s.len() > 0 && (s[0] == '+' || s[0] == '-') {
        s.drop_first()
    } else {
        s
    };
    let lowered = crate::text::lower_seq(body);
    if lowered == "inf"@ || lowered == "infinity"@ {
        Some((negative, SizeNumber::Infinite))
    } else if lowered == "nan"@ {
        Some((negative, SizeNumber::NotANumber))
    } else {
        let (mantissa, exponent) = match index_of(lowered, 'e') {
            Some(k) => (body.take(k), signed_digits(body.skip(k + 1))),
            None => (body, Some(0int)),
        };
        let (whole, fraction) = match index_of(mantissa, '.') {
            Some(k) => (mantissa.take(k), mantissa.skip(k + 1)),
            None => (mantissa, Seq::<char>::empty()),
        };
        match exponent {
            Some(e) => if whole.len() + fraction.len() > 0 && all_digits(whole) && all_digits(fraction) {
                Some((negative, SizeNumber::Finite(whole, fraction, e)))
            } else {
                None
            },
            None => None,
        }
    }
}

/// The whole number written by the first `m` of `digits`, zeros filling in
/// past their end: with the decimal point after the `m`-th digit, the
/// number's integer part.
pub open spec fn leading_value(digits: Seq<char>, m: int) -> int {
    if m <= 0 {
        0
    } else if m <= digits.len() {
        digits_value(digits.take(m)) as int
    } else {
        (digits_value(digits) * pow10((m - digits.len()) as nat)) as int
    }
}

pub open spec fn is_unit(c: char) -> bool {
    c == 'K' || c == 'k' || c == 'M' || c == 'm' || c == 'G' || c == 'g' || c == 'T' || c == 't'
}

/// One record's peak cost on a host, four GiB, counted in hundred-millionths
/// of the unit `unit` names (K, M, G, T in either case; any other character
/// leaves the size in bytes). Each is a whole number, so counting a size in
/// hundred-millionths of its unit, its further decimals dropped, decides
/// exactly how many whole peaks it holds.
pub open spec fn peak_in_units(unit: char) -> int {
    if unit == 'K' || unit == 'k' {
        419430400000000
    } else if unit == 'M' || unit == 'm' {
        409600000000
    } else if unit == 'G' || unit == 'g' {
        400000000
    } else if unit == 'T' || unit == 't' {
        390625
    } else {
        429496729600000000
    }
}

/// The records a free space of `amount` affords, with `peak` the cost of
/// one in the same measure: the whole peaks it holds, less one kept
/// unspent, never below none and never above the host window.
pub open spec fn afforded(amount: int, peak: int) -> int {
    let whole = amount / peak - 1;
    if whole < 0 {
        0
    } else if whole > HOST_RECORD_WINDOW {
        HOST_RECORD_WINDOW as int
    } else {
        whole
    }
}

/// The window a number with the unit whose peak is `peak` affords; `None`
/// when it is no number. A negative size, or one that is not a number,
/// affords nothing; an infinite one the whole window; a finite one is
/// counted in hundred-millionths of its unit, further decimals dropped.
pub open spec fn number_window(number: Seq<char>, peak: int) -> Option<int> {
    match float_parts(number) {
        None => None,
        Some((negative, n)) => Some(
            if negative {
                0
            } else {
                match n {
                    SizeNumber::Infinite => HOST_RECORD_WINDOW as int,
                    SizeNumber::NotANumber => 0,
                    SizeNumber::Finite(whole, fraction, e) => afforded(
                        leading_value(whole + fraction, whole.len() + e + 8),
                        peak,
                    ),
                }
            },
        ),
    }
}

/// The window a `df -h` size such as `12Gi`, `980Mi` or `1.2Ti` affords:
/// a trailing `i` is dropped, then a trailing K, M, G or T (in either case)
/// names the unit, and without one the size is in bytes.
pub open spec fn size_window(size: Seq<char>) -> Option<int>
    decreases size.len(),
{
    if size.len() == 0 {
        None
    } else if size.last() == 'i' {
        size_window(size.drop_last())
    } else if is_unit(size.last()) {
        number_window(size.drop_last(), peak_in_units(size.last()))
    } else {
        number_window(size, peak_in_units(size.last()))
    }
}

/// The window is the whole peaks the free space holds less one, never below
/// none and never above the host window: `min(3, max(0, floor(free /
/// peak) - 1))`. A size of `N` whole gibibytes, written `NGi`, affords
/// `min(3, max(0, floor(N / 4) - 1))` records: twelve afford two.
pub proof fn law_window_whole_gibibytes(amount: int, peak: int, digits: Seq<char>)
    requires
        peak > 0,
    ensures
        afforded(amount, peak) == if amount / peak - 1 < 0 {
            0
        } else if amount / peak - 1 > 3 {
            3
        } else {
            amount / peak - 1
        },
        digits.len() > 0 && all_digits(digits) ==> size_window(digits + "Gi"@) == Some(
            if (digits_value(digits) as int) / 4 - 1 < 0 {
                0
            } else if (digits_value(digits) as int) / 4 - 1 > 3 {
                3
            } else {
                (digits_value(digits) as int) / 4 - 1
            },
        ),
{
    if digits.len() > 0 && all_digits(digits) {
        reveal_strlit("Gi");
        reveal_strlit("inf");
        reveal_strlit("infinity");
        reveal_strlit("nan");
        let sized = digits + "Gi"@;
        assert(sized.last() == 'i');
        assert(sized.drop_last() =~= digits + seq!['G']);
        let g = digits + seq!['G'];
        assert(g.last() == 'G' && g.drop_last() =~= digits);
        assert(is_digit_char(digits[0]));
        let lowered = crate::text::lower_seq(digits);
        assert(lowered =~= digits) by {
            assert forall|k: int| 0 <= k < digits.len() implies lowered[k] == digits[k] by {
                assert(is_digit_char(digits[k]));
            }
        }
        assert(lowered != "inf"@ && lowered != "infinity"@ && lowered != "nan"@) by {
            assert(lowered[0] != 'i' && lowered[0] != 'n');
        }
        crate::text::lemma_first_where(lowered, is_char('e'));
        crate::text::lemma_first_where(digits, is_char('.'));
        assert forall|k: int| 0 <= k < digits.len() implies !is_char('e')(lowered[k]) && !is_char('.')(
            digits[k],
        ) by {
            assert(is_digit_char(digits[k]));
        }
        assert(index_of(lowered, 'e') is None);
        assert(index_of(digits, '.') is None);
        assert(float_parts(digits) == Some((false, SizeNumber::Finite(digits, Seq::<char>::empty(), 0))));
        assert(digits + Seq::<char>::empty() =~= digits);
        reveal_with_fuel(pow10, 9);
        assert(pow10(8) == 100000000);
        assert(digits.take(digits.len() as int) =~= digits);
        let dv = digits_value(digits) as int;
        assert(leading_value(digits, digits.len() + 8int) == dv * 100000000);
        assert((dv * 100000000) / 400000000 == dv / 4) by (nonlinear_arith)
            requires
                dv >= 0,
        ;
        assert(is_unit('G') && peak_in_units('G') == 400000000);
        assert(number_window(digits, 400000000) == Some(afforded(dv * 100000000, 400000000)));
        assert(size_window(g) == number_window(digits, 400000000));
        assert(size_window(sized) == size_window(g));
    }
}

fn all_digits_exec(v: &Vec<char>) -> (r: bool)
    ensures
        r == all_digits(v@),
{
    let mut i: usize = 0;
    while i < v.len()
        invariant
            i <= v.len(),
            forall|j: int| 0 <= j < i ==> is_digit_char(#[trigger] v@[j]),
        decreases v.len() - i,
    {
        if !is_digit(v[i]) {
            return false;
        }
        i = i + 1;
    }
    true
}

/// Digit values and exponents are read up to this; beyond it any size is
/// decided.
const CAP: u128 = 100000000000000000000;

/// The value of the first `k` digits, or `cap` when that is more.
fn capped_value(v: &Vec<char>, k: usize, cap: u128) -> (r: u128)
    requires
        all_digits(v@),
        k <= v.len(),
        cap <= CAP,
    ensures
        r == if digits_value(v@.take(k as int)) < cap {
            digits_value(v@.take(k as int)) as int
        } else {
            cap as int
        },
{
    let mut value: u128 = 0;
    let mut i: usize = 0;
    assert(v@.take(0) =~= Seq::<char>::empty());
    while i < k
        invariant
            i <= k <= v.len(),
            all_digits(v@),
            cap <= CAP,
            value == if digits_value(v@.take(i as int)) < cap {
                digits_value(v@.take(i as int)) as int
            } else {
                cap as int
            },
        decreases k - i,
    {
        let c = v[i];
        assert(is_digit_char(v@[i as int]));
        assert(v@.take(i + 1).drop_last() =~= v@.take(i as int));
        assert(v@.take(i + 1).last() == c);
        if value < cap {
            let next = value * 10 + (c as u32 - 48) as u128;
            value = if next < cap {
                next
            } else {
                cap
            };
        }
        i = i + 1;
    }
    value
}

fn signed_digits_exec(v: &Vec<char>) -> (r: Option<i128>)
    ensures
        match signed_digits(v@) {
            Some(e) => r matches Some(x) && (-(CAP as int) <= e <= CAP ==> x == e) && (e > CAP ==> x
                == CAP) && (e < -(CAP as int) ==> x == -(CAP as int)),
            None => r is None,
        },
{
    let negative = v.len() > 0 && v[0] == '-';
    let start: usize = if v.len() > 0 && (v[0] == '+' || v[0] == '-') {
        1
    } else {
        0
    };
    let digits = slice_chars(v, start, v.len());
    assert(digits@ =~= (if v@.len() > 0 && (v@[0] == '+' || v@[0] == '-') {
        v@.drop_first()
    } else {
        v@
    }));
    if digits.len() == 0 || !all_digits_exec(&digits) {
        return None;
    }
    let n = capped_value(&digits, digits.len(), CAP);
    assert(digits@.take(digits.len() as int) =~= digits@);
    if negative {
        Some(-(n as i128))
    } else {
        Some(n as i128)
    }
}

fn float_parts_exec(v: &Vec<char>) -> (r: Option<(bool, u8, Vec<char>, Vec<char>, i128)>)
    ensures
        match float_parts(v@) {
            None => r is None,
            Some((negative, SizeNumber::Infinite)) => r matches Some((n, k, _, _, _)) && n == negative && k
                == 0,
            Some((negative, SizeNumber::NotANumber)) => r matches Some((n, k, _, _, _)) && n == negative
                && k == 1,
            Some((negative, SizeNumber::Finite(whole, fraction, e))) => r matches Some((n, k, w, f, x))
                && n == negative && k == 2 && w@ == whole && f@ == fraction && all_digits(whole)
                && all_digits(fraction) && (-(CAP as int) <= e <= CAP ==> x == e) && (e > CAP ==> x == CAP)
                && (e < -(CAP as int) ==> x == -(CAP as int)),
        },
{
    proof {
        reveal_strlit("inf");
        reveal_strlit("infinity");
        reveal_strlit("nan");
    }
    let negative = v.len() > 0 && v[0] == '-';
    let start: usize = if v.len() > 0 && (v[0] == '+' || v[0] == '-') {
        1
    } else {
        0
    };
    let body = slice_chars(v, start, v.len());
    let ghost spec_body = if v@.len() > 0 && (v@[0] == '+' || v@[0] == '-') {
        v@.drop_first()
    } else {
        v@
    };
    assert(body@ =~= spec_body);
    let lowered = crate::text::lower_chars(&body);
    if crate::text::seq_eq(&lowered, &chars_of("inf")) || crate::text::seq_eq(&lowered, &chars_of("infinity")) {
        return Some((negative, 0, Vec::new(), Vec::new(), 0));
    }
    if crate::text::seq_eq(&lowered, &chars_of("nan")) {
        return Some((negative, 1, Vec::new(), Vec::new(), 0));
    }
    proof {
        lemma_first_where(lowered@, is_char('e'));
    }
    let (mantissa, exponent) = match index_of_exec(&lowered, 'e') {
        Some(k) => {
            let m = slice_chars(&body, 0, k);
            assert(m@ =~= body@.take(k as int));
            let rest = slice_chars(&body, k + 1, body.len());
            assert(rest@ =~= body@.skip(k + 1));
            (m, signed_digits_exec(&rest))
        },
        None => {
            let m = slice_chars(&body, 0, body.len());
            assert(m@ =~= body@);
            (m, Some(0i128))
        },
    };
    let e = match exponent {
        Some(e) => e,
        None => return None,
    };
    proof {
        lemma_first_where(mantissa@, is_char('.'));
    }
    let (whole, fraction) = match index_of_exec(&mantissa, '.') {
        Some(k) => {
            let w = slice_chars(&mantissa, 0, k);
            let f = slice_chars(&mantissa, k + 1, mantissa.len());
            assert(w@ =~= mantissa@.take(k as int));
            assert(f@ =~= mantissa@.skip(k + 1));
            (w, f)
        },
        None => {
            let w = slice_chars(&mantissa, 0, mantissa.len());
            assert(w@ =~= mantissa@);
            let f: Vec<char> = Vec::new();
            assert(f@ =~= Seq::<char>::empty());
            (w, f)
        },
    };
    if whole.len() > 0 || fraction.len() > 0 {
        if all_digits_exec(&whole) && all_digits_exec(&fraction) {
            return Some((negative, 2, whole, fraction, e));
        }
    }
    None
}

proof fn lemma_times_pow10(x: int, j: nat)
    requires
        x >= 0,
    ensures
        x * pow10(j + 1) == (x * pow10(j)) * 10,
        x * pow10(j) >= 0,
{
    let p = pow10(j);
    assert(pow10(j + 1) == 10 * p);
    assert(x * (10 * p) == (x * p) * 10) by (nonlinear_arith);
    assert(x * p >= 0) by (nonlinear_arith)
        requires
            x >= 0,
            p >= 0,
    ;
}

proof fn lemma_pow10_pos(j: nat)
    ensures
        pow10(j) >= 1,
    decreases j,
{
    if j > 0 {
        lemma_pow10_pos((j - 1) as nat);
    }
}

/// `leading_value(digits, m)`, or `CAP` when that is more.
fn capped_leading_value(digits: &Vec<char>, m: i128) -> (r: u128)
    requires
        all_digits(digits@),
    ensures
        r == if leading_value(digits@, m as int) < CAP {
            leading_value(digits@, m as int)
        } else {
            CAP as int
        },
{
    if m <= 0 {
        return 0;
    }
    let n = digits.len();
    if m <= n as i128 {
        return capped_value(digits, m as usize, CAP);
    }
    let mut acc = capped_value(digits, n, CAP);
    assert(digits@.take(n as int) =~= digits@);
    let ghost d = digits_value(digits@) as int;
    let pad: i128 = m - n as i128;
    let mut j: i128 = 0;
    proof {
        reveal_with_fuel(pow10, 1);
        assert(pow10(0) == 1);
        assert(d * pow10(0) == d) by (nonlinear_arith)
            requires
                pow10(0) == 1,
        ;
    }
    while j < pad && acc > 0 && acc < CAP
        invariant
            0 <= j <= pad,
            d >= 0,
            d * pow10(j as nat) >= 0,
            acc == if d * pow10(j as nat) < CAP {
                d * pow10(j as nat)
            } else {
                CAP as int
            },
        decreases pad - j,
    {
        proof {
            lemma_times_pow10(d, j as nat);
        }
        let next = acc * 10;
        acc = if next < CAP {
            next
        } else {
            CAP
        };
        j = j + 1;
    }
    proof {
        let k = pad as nat;
        lemma_pow10_pos(j as nat);
        lemma_pow10_le(j as nat, k);
        let pj = pow10(j as nat);
        let pk = pow10(k);
        assert(d * pj <= d * pk) by (nonlinear_arith)
            requires
                d >= 0,
                pj <= pk,
        ;
        if acc == 0 {
            assert(d == 0) by (nonlinear_arith)
                requires
                    d >= 0,
                    pj >= 1,
                    d * pj == 0,
            ;
            assert(d * pk == 0) by (nonlinear_arith)
                requires
                    d == 0,
            ;
        }
    }
    acc
}

proof fn lemma_afforded_cap(x: int, peak: int)
    requires
        x >= CAP,
        0 < peak <= 429496729600000000,
    ensures
        afforded(x, peak) == HOST_RECORD_WINDOW,
        afforded(CAP as int, peak) == HOST_RECORD_WINDOW,
{
    assert(x / peak >= 5) by (nonlinear_arith)
        requires
            x >= 100000000000000000000,
            0 < peak <= 429496729600000000,
    ;
    assert((CAP as int) / peak >= 5) by (nonlinear_arith)
        requires
            0 < peak <= 429496729600000000,
    ;
}

/// A finite number's leading value with its exponent read up to `CAP`
/// affords what the exact one does.
proof fn lemma_capped_exponent(digits: Seq<char>, wlen: int, e: int, x: int, peak: int)
    requires
        0 <= wlen <= digits.len() <= usize::MAX,
        all_digits(digits),
        -(CAP as int) <= e <= CAP ==> x == e,
        e > CAP ==> x == CAP,
        e < -(CAP as int) ==> x == -(CAP as int),
        0 < peak <= 429496729600000000,
    ensures
        afforded(leading_value(digits, wlen + x + 8), peak) == afforded(
            leading_value(digits, wlen + e + 8),
            peak,
        ),
{
    if e > CAP {
        let n = digits.len() as int;
        let d = digits_value(digits) as int;
        let m1 = wlen + x + 8;
        let m2 = wlen + e + 8;
        assert(m1 > n + 25 && m2 > m1);
        lemma_pow10_le(25, (m1 - n) as nat);
        lemma_pow10_le((m1 - n) as nat, (m2 - n) as nat);
        reveal_with_fuel(pow10, 26);
        assert(pow10(25) == 10000000000000000000000000);
        let p1 = pow10((m1 - n) as nat);
        let p2 = pow10((m2 - n) as nat);
        if d == 0 {
            assert(d * p1 == 0 && d * p2 == 0);
        } else {
            assert(d * p1 >= p1 && d * p2 >= p2) by (nonlinear_arith)
                requires
                    d >= 1,
                    p1 >= 0,
                    p2 >= 0,
            ;
            lemma_afforded_cap(d * p1, peak);
            lemma_afforded_cap(d * p2, peak);
        }
    }
}

fn afforded_exec(amount: u128, peak: u128) -> (r: u64)
    requires
        peak > 0,
    ensures
        r == afforded(amount as int, peak as int),
{
    let whole = amount / peak;
    if whole <= 1 {
        0
    } else if whole - 1 > HOST_RECORD_WINDOW as u128 {
        HOST_RECORD_WINDOW
    } else {
        (whole - 1) as u64
    }
}

fn peak_in_units_exec(unit: char) -> (r: u128)
    ensures
        r == peak_in_units(unit),
{
    if unit == 'K' || unit == 'k' {
        419430400000000
    } else if unit == 'M' || unit == 'm' {
        409600000000
    } else if unit == 'G' || unit == 'g' {
        400000000
    } else if unit == 'T' || unit == 't' {
        390625
    } else {
        429496729600000000
    }
}

fn number_window_exec(number: &Vec<char>, peak: u128) -> (r: Option<u64>)
    requires
        0 < peak <= 429496729600000000,
    ensures
        match number_window(number@, peak as int) {
            Some(w) => r == Some(w as u64) && 0 <= w <= HOST_RECORD_WINDOW,
            None => r is None,
        },
{
    match float_parts_exec(number) {
        None => None,
        Some((negative, kind, whole, fraction, e)) => {
            if negative {
                return Some(0);
            }
            if kind == 0 {
                return Some(HOST_RECORD_WINDOW);
            }
            if kind == 1 {
                return Some(0);
            }
            let mut digits = whole.clone();
            crate::text::append_chars(&mut digits, &fraction);
            assert(digits@ =~= whole@ + fraction@);
            assert(all_digits(digits@)) by {
                assert forall|i: int| 0 <= i < digits@.len() implies is_digit_char(#[trigger] digits@[i]) by {
                    if i < whole@.len() {
                        assert(digits@[i] == whole@[i]);
                    } else {
                        assert(digits@[i] == fraction@[i - whole@.len()]);
                    }
                }
            }
            let m: i128 = whole.len() as i128 + e + 8;
            let amount = capped_leading_value(&digits, m);
            proof {
                let exact = leading_value(digits@, m as int);
                if exact >= CAP {
                    lemma_afforded_cap(exact, peak as int);
                }
                if let Some((_, SizeNumber::Finite(w, f, ev))) = float_parts(number@) {
                    assert(w == whole@ && f == fraction@);
                    assert(digits@.len() == w.len() + f.len());
                    lemma_capped_exponent(digits@, w.len() as int, ev, e as int, peak as int);
                }
            }
            Some(afforded_exec(amount, peak))
        },
    }
}

#[verifier::rlimit(40)]
fn size_window_exec(size: &Vec<char>) -> (r: Option<u64>)
    ensures
        match size_window(size@) {
            Some(w) => r == Some(w as u64) && 0 <= w <= HOST_RECORD_WINDOW,
            None => r is None,
        },
{
    let mut n: usize = size.len();
    assert(size@.take(n as int) =~= size@);
    while n > 0 && size[n - 1] == 'i'
        invariant
            n <= size.len(),
            size_window(size@.take(n as int)) == size_window(size@),
        decreases n,
    {
        assert(size@.take(n as int).drop_last() =~= size@.take(n - 1));
        assert(size@.take(n as int).last() == size@[n - 1]);
        n = n - 1;
    }
    if n == 0 {
        return None;
    }
    let ghost t = size@.take(n as int);
    let last = size[n - 1];
    assert(t.last() == last);
    let unit = last == 'K' || last == 'k' || last == 'M' || last == 'm' || last == 'G' || last == 'g'
        || last == 'T' || last == 't';
    if unit {
        let number = slice_chars(size, 0, n - 1);
        assert(number@ =~= t.drop_last());
        number_window_exec(&number, peak_in_units_exec(last))
    } else {
        let number = slice_chars(size, 0, n);
        assert(number@ =~= t);
        number_window_exec(&number, peak_in_units_exec(last))
    }
}

// ---------------------------------------------------------------------------
// The host's report

/// The size a `df -h` line gives for the root volume, whatever its device
/// is called: the fourth field of a line of at least six whose last field
/// is the mount point `/`.
pub open spec fn root_size(line: Seq<char>) -> Option<Seq<char>> {
    let fields = words_spec(line);
    if fields.len() >= 6 && fields.last() == "/"@ {
        Some(fields[3])
    } else {
        None
    }
}

pub open spec fn line_window(line: Seq<char>) -> Option<int> {
    match root_size(line) {
        Some(size) => size_window(size),
        None => None,
    }
}

/// The window of the first line that gives a readable root size.
pub open spec fn first_window(lines: Seq<Seq<char>>) -> Option<int>
    decreases lines.len(),
{
    if lines.len() == 0 {
        None
    } else {
        match line_window(lines[0]) {
            Some(w) => Some(w),
            None => first_window(lines.drop_first()),
        }
    }
}

/// A retained check that ran exactly `df -h`.
pub open spec fn is_df_probe(check: JsonV) -> bool {
    match get_v(check, "command"@) {
        Some(JsonV::Array(c)) => c.len() == 2 && c[0] == JsonV::Str("df"@) && c[1] == JsonV::Str("-h"@),
        _ => false,
    }
}

/// The output of the first `df -h` check of a host preflight report, when
/// that check has a textual `stdout`.
pub open spec fn df_output(report: JsonV) -> Option<Seq<char>> {
    let checks = get_items_v(report, "checks"@);
    match first_index(checks, |c: JsonV| is_df_probe(c)) {
        Some(i) => get_str_v(checks[i], "stdout"@),
        None => None,
    }
}

/// How many records of one catalog may be submitted against the free space
/// the host reported, keeping one record's peak of it unspent: none when
/// the report has no readable root size.
pub open spec fn host_record_window_spec(report: JsonV) -> int {
    match df_output(report) {
        Some(out) => match first_window(lines_spec(out)) {
            Some(w) => w,
            None => 0,
        },
        None => 0,
    }
}

fn root_size_exec(line: &Vec<char>) -> (r: Option<Vec<char>>)
    ensures
        match root_size(line@) {
            Some(s) => r matches Some(x) && x@ == s,
            None => r is None,
        },
{
    let fields = words(line);
    let ghost fv = fields@.map_values(|x: Vec<char>| x@);
    let n = fields.len();
    if n >= 6 && fields[n - 1].len() == 1 && fields[n - 1][0] == '/' {
        proof {
            reveal_strlit("/");
            assert(fv.last() == fields@[n - 1]@);
            assert(fv.last() =~= "/"@);
            assert(fv[3] == fields@[3]@);
        }
        Some(fields[3].clone())
    } else {
        proof {
            reveal_strlit("/");
            if n >= 6 {
                assert(fv.last() == fields@[n - 1]@);
                if fv.last() == "/"@ {
                    assert(fv.last().len() == 1 && fv.last()[0] == '/');
                }
            }
        }
        None
    }
}

fn line_window_exec(line: &Vec<char>) -> (r: Option<u64>)
    ensures
        match line_window(line@) {
            Some(w) => r == Some(w as u64) && 0 <= w <= HOST_RECORD_WINDOW,
            None => r is None,
        },
{
    match root_size_exec(line) {
        Some(size) => size_window_exec(&size),
        None => None,
    }
}

fn is_df_probe_exec(check: &Json) -> (r: bool)
    ensures
        r == is_df_probe(check@),
{
    broadcast use group_json_view;

    match check.get("command") {
        Some(command) => match command.as_array() {
            Some(items) => {
                if items.len() != 2 {
                    return false;
                }
                let first = match items[0].as_str() {
                    Some(s) => str_eq(s, "df"),
                    None => false,
                };
                let second = match items[1].as_str() {
                    Some(s) => str_eq(s, "-h"),
                    None => false,
                };
                first && second
            },
            None => false,
        },
        None => false,
    }
}

/// `host_record_window`: the records of one catalog the host may hold at
/// once, by the free space its preflight's `df -h` check reported.
pub fn host_record_window(host_report: &Json) -> (r: u64)
    ensures
        r == host_record_window_spec(host_report@),
        r <= HOST_RECORD_WINDOW,
{
    broadcast use group_json_view;

    let checks = host_report.get_items("checks");
    let ghost cv = view_arr(checks@);
    proof {
        crate::json::lemma_view_arr(checks@);
    }
    let mut i: usize = 0;
    while i < checks.len()
        invariant
            i <= checks.len(),
            cv == view_arr(checks@),
            cv == get_items_v(host_report@, "checks"@),
            cv.len() == checks@.len(),
            forall|j: int| 0 <= j < checks@.len() ==> #[trigger] cv[j] == checks@[j]@,
            forall|j: int| 0 <= j < i ==> !is_df_probe(#[trigger] cv[j]),
        ensures
            i <= checks.len(),
            i < checks.len() ==> is_df_probe(cv[i as int]),
            forall|j: int| 0 <= j < i ==> !is_df_probe(#[trigger] cv[j]),
        decreases checks.len() - i,
    {
        assert(cv[i as int] == checks@[i as int]@);
        if is_df_probe_exec(&checks[i]) {
            break;
        }
        i = i + 1;
    }
    proof {
        if i < checks.len() {
            assert(cv[i as int] == checks@[i as int]@);
        }
        lemma_first_index(cv, |c: JsonV| is_df_probe(c), i as int);
    }
    if i == checks.len() {
        return 0;
    }
    let out = match checks[i].get_str("stdout") {
        Some(s) => s,
        None => {
            return 0;
        },
    };
    let text = chars_of(out);
    let all = lines(&text);
    let ghost lv = all@.map_values(|x: Vec<char>| x@);
    let mut k: usize = 0;
    assert(lv.skip(0) =~= lv);
    assert(cv[i as int] == checks@[i as int]@);
    assert(df_output(host_report@) == Some(text@));
    assert(lv == lines_spec(text@));
    while k < all.len()
        invariant
            k <= all.len(),
            lv == all@.map_values(|x: Vec<char>| x@),
            lv == lines_spec(text@),
            df_output(host_report@) == Some(text@),
            first_window(lv.skip(k as int)) == first_window(lv),
        decreases all.len() - k,
    {
        let ghost rest = lv.skip(k as int);
        assert(rest[0] == all@[k as int]@);
        assert(rest.drop_first() =~= lv.skip(k + 1));
        match line_window_exec(&all[k]) {
            Some(w) => {
                return w;
            },
            None => {},
        }
        k = k + 1;
    }
    assert(lv.skip(k as int) =~= Seq::<Seq<char>>::empty());
    0
}

} // verus!

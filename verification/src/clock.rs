//! UTC timestamps of the form `YYYY-MM-DDTHH:MM:SSZ`, from seconds since the
//! Unix epoch, on the proleptic Gregorian calendar.
use vstd::prelude::*;
use crate::text::{decimal, decimal_spec};

verus! {

/// The civil date (year, month, day) of a day counted from 1970-01-01, by
/// shifting to years that begin on March 1 and counting 400-year eras.
pub open spec fn civil_from_days(days: nat) -> (nat, nat, nat) {
    let z = days + 719468;
    let era = z / 146097;
    let doe = (z - era * 146097) as nat;
    let yoe = ((doe - doe / 1460 + doe / 36524 - doe / 146096) / 365) as nat;
    let doy = (doe - (365 * yoe + yoe / 4 - yoe / 100)) as nat;
    let mp = (5 * doy + 2) / 153;
    let d = (doy - (153 * mp + 2) / 5 + 1) as nat;
    let m = if mp < 10 {
        (mp + 3) as nat
    } else {
        (mp - 9) as nat
    };
    let y = yoe + era * 400 + if m <= 2 {
        1nat
    } else {
        0nat
    };
    (y, m, d)
}

/// A number written with at least `width` digits, zero-padded.
pub open spec fn padded(n: nat, width: nat) -> Seq<char>
    decreases width,
{
    let digits = decimal_spec(n);
    if digits.len() >= width || width == 0 {
        digits
    } else {
        seq!['0'] + padded(n, (width - 1) as nat)
    }
}

/// The timestamp of a moment `seconds` after the epoch.
pub open spec fn utc_timestamp_spec(seconds: nat) -> Seq<char> {
    let (y, m, d) = civil_from_days(seconds / 86400);
    let s = seconds % 86400;
    padded(y, 4) + "-"@ + padded(m, 2) + "-"@ + padded(d, 2) + "T"@ + padded(s / 3600, 2) + ":"@
        + padded((s % 3600) / 60, 2) + ":"@ + padded(s % 60, 2) + "Z"@
}

fn pad(n: u64, width: u64) -> (r: String)
    requires
        width <= 4,
    ensures
        r@ == padded(n as nat, width as nat),
    decreases width,
{
    let digits = decimal(n);
    let len = digits.as_str().unicode_len();
    if len as u64 >= width || width == 0 {
        digits
    } else {
        let rest = pad(n, width - 1);
        let mut out = String::from_str("0");
        proof {
            reveal_strlit("0");
        }
        out.append(rest.as_str());
        assert(out@ =~= seq!['0'] + padded(n as nat, (width - 1) as nat));
        out
    }
}

fn civil(days: u64) -> (r: (u64, u64, u64))
    requires
        days <= 0xffff_ffff_ffff,
    ensures
        (r.0 as nat, r.1 as nat, r.2 as nat) == civil_from_days(days as nat),
{
    let z: u64 = days + 719468;
    let era: u64 = z / 146097;
    assert(era * 146097 <= z) by (nonlinear_arith)
        requires
            era == z / 146097,
    ;
    let doe: u64 = z - era * 146097;
    assert(doe < 146097) by (nonlinear_arith)
        requires
            era == z / 146097,
            doe == z - era * 146097,
    ;
    let yoe: u64 = (doe - doe / 1460 + doe / 36524 - doe / 146096) / 365;
    assert(yoe <= 400);
    assert(365 * yoe + yoe / 4 - yoe / 100 <= doe) by (nonlinear_arith)
        requires
            yoe == (doe - doe / 1460 + doe / 36524 - doe / 146096) / 365,
            doe < 146097,
    ;
    let doy: u64 = doe - (365 * yoe + yoe / 4 - yoe / 100);
    assert(doy < 366) by (nonlinear_arith)
        requires
            yoe == (doe - doe / 1460 + doe / 36524 - doe / 146096) / 365,
            doy == doe - (365 * yoe + yoe / 4 - yoe / 100),
            doe < 146097,
    ;
    let mp: u64 = (5 * doy + 2) / 153;
    assert((153 * mp + 2) / 5 <= doy) by (nonlinear_arith)
        requires
            mp == (5 * doy + 2) / 153,
    ;
    let d: u64 = doy - (153 * mp + 2) / 5 + 1;
    let m: u64 = if mp < 10 {
        mp + 3
    } else {
        mp - 9
    };
    let y: u64 = yoe + era * 400 + if m <= 2 {
        1
    } else {
        0
    };
    (y, m, d)
}

/// The UTC timestamp of a moment `seconds` after the Unix epoch.
pub fn utc_timestamp(seconds: u64) -> (r: String)
    ensures
        r@ == utc_timestamp_spec(seconds as nat),
{
    let (y, m, d) = civil(seconds / 86400);
    let s = seconds % 86400;
    let mut out = pad(y, 4);
    out.append("-");
    out.append(pad(m, 2).as_str());
    out.append("-");
    out.append(pad(d, 2).as_str());
    out.append("T");
    out.append(pad(s / 3600, 2).as_str());
    out.append(":");
    out.append(pad((s % 3600) / 60, 2).as_str());
    out.append(":");
    out.append(pad(s % 60, 2).as_str());
    out.append("Z");
    out
}

} // verus!

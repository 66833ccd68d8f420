//! Rendering of durations, in the ISO 8601 form that chrono displays and in
//! the Spark interval form.

use vstd::prelude::*;
use vstd::arithmetic::div_mod::lemma_fundamental_div_mod_converse;
use crate::column::TimeUnit;
use crate::options::DurationFormat;
use crate::text::{digits_of, digit_char, digit_str, push_decimal};
use datafusion::arrow::temporal_conversions::{duration_ns_to_duration, duration_us_to_duration};

verus! {

/// The number of a unit's ticks in one second.
pub open spec fn unit_scale(u: TimeUnit) -> nat {
    match u {
        TimeUnit::Second => 1,
        TimeUnit::Millisecond => 1_000,
        TimeUnit::Microsecond => 1_000_000,
        TimeUnit::Nanosecond => 1_000_000_000,
    }
}

/// The number of fractional digits of a second that a unit can express.
pub open spec fn unit_width(u: TimeUnit) -> nat {
    match u {
        TimeUnit::Second => 0,
        TimeUnit::Millisecond => 3,
        TimeUnit::Microsecond => 6,
        TimeUnit::Nanosecond => 9,
    }
}

/// The magnitude of an integer.
pub open spec fn abs(v: int) -> nat {
    if v < 0 {
        (-v) as nat
    } else {
        v as nat
    }
}

/// The last `w` decimal digits of `n`, with leading zeros.
pub open spec fn padded(n: nat, w: nat) -> Seq<char>
    decreases w,
{
    if w == 0 {
        seq![]
    } else {
        padded(n / 10, (w - 1) as nat).push(digit_char(n % 10))
    }
}

/// The `w`-digit form of the fraction `f`, without its trailing zeros.
pub open spec fn trimmed_digits(f: nat, w: nat) -> Seq<char>
    decreases w,
{
    if w > 0 && f > 0 && f % 10 == 0 {
        trimmed_digits(f / 10, (w - 1) as nat)
    } else {
        padded(f, w)
    }
}

/// The fractional part `f` (of `w` digits) after a decimal point; nothing when
/// it is zero.
pub open spec fn fraction_text(f: nat, w: nat) -> Seq<char> {
    if f == 0 {
        seq![]
    } else {
        seq!['.'] + trimmed_digits(f, w)
    }
}

/// chrono's ISO 8601 text of a duration of `t` nanoseconds: an optional `-`,
/// followed by `P0D` for zero, else `PT`, the whole seconds, the fraction without
/// trailing zeros, and `S`.
pub open spec fn iso_duration_text(t: int) -> Seq<char> {
    let a = abs(t);
    (if t < 0 {
        seq!['-']
    } else {
        seq![]
    }) + seq!['P'] + if a == 0 {
        seq!['0', 'D']
    } else {
        seq!['T'] + digits_of(a / 1_000_000_000) + fraction_text(a % 1_000_000_000, 9) + seq![
            'S',
        ]
    }
}

/// The largest number of whole seconds that a chrono duration holds.
pub open spec fn max_delta_seconds() -> int {
    9_223_372_036_854_775
}

/// The Spark interval text of a duration of `v` ticks of unit `u`:
/// `INTERVAL '[-]D HH:MM:SS[.fff]' DAY TO SECOND`, with the fraction
/// written without trailing zeros and left out when it is zero.
pub open spec fn spark_duration_text(v: int, u: TimeUnit) -> Seq<char> {
    let a = abs(v);
    let secs = a / unit_scale(u);
    let frac = a % unit_scale(u);
    "INTERVAL '"@ + (if v < 0 {
        seq!['-']
    } else {
        seq![]
    }) + digits_of(secs / 86400) + seq![' '] + padded((secs % 86400) / 3600, 2) + seq![':']
        + padded((secs % 3600) / 60, 2) + seq![':'] + padded(secs % 60, 2) + fraction_text(
        frac,
        unit_width(u),
    ) + "' DAY TO SECOND"@
}

/// The ISO 8601 text of a duration of `v` ticks of unit `u`, or `ERROR` where
/// chrono cannot hold the duration.
pub open spec fn iso_duration_value_text(v: int, u: TimeUnit) -> Seq<char> {
    match u {
        TimeUnit::Second => if -max_delta_seconds() <= v <= max_delta_seconds() {
            iso_duration_text(v * 1_000_000_000)
        } else {
            "ERROR"@
        },
        TimeUnit::Millisecond => if v != i64::MIN {
            iso_duration_text(v * 1_000_000)
        } else {
            "ERROR"@
        },
        TimeUnit::Microsecond => iso_duration_text(v * 1_000),
        TimeUnit::Nanosecond => iso_duration_text(v),
    }
}

/// The text of a duration value in the given format.
pub open spec fn duration_text(v: int, u: TimeUnit, f: DurationFormat) -> Seq<char> {
    match f {
        DurationFormat::Iso8601 => iso_duration_value_text(v, u),
        DurationFormat::Spark => spark_duration_text(v, u),
    }
}

/// chrono's `TimeDelta::try_seconds`, rendered with chrono's `Display` for
/// `TimeDelta`. chrono returns no delta beyond `i64::MAX` milliseconds; the
/// text is the ISO 8601 form of `iso_duration_text`.
#[verifier::external_body]
fn chrono_seconds_text(v: i64) -> (r: Option<String>)
    ensures
        match r {
            Some(s) => -max_delta_seconds() <= v <= max_delta_seconds() && s@
                == iso_duration_text(v * 1_000_000_000),
            None => !(-max_delta_seconds() <= v <= max_delta_seconds()),
        },
{
    match chrono::TimeDelta::try_seconds(v) {
        Some(d) => Some(d.to_string()),
        None => None,
    }
}

/// chrono's `TimeDelta::try_milliseconds`, rendered with chrono's `Display`
/// for `TimeDelta`. chrono refuses only `i64::MIN` milliseconds.
#[verifier::external_body]
fn chrono_milliseconds_text(v: i64) -> (r: Option<String>)
    ensures
        match r {
            Some(s) => v != i64::MIN && s@ == iso_duration_text(v * 1_000_000),
            None => v == i64::MIN,
        },
{
    match chrono::TimeDelta::try_milliseconds(v) {
        Some(d) => Some(d.to_string()),
        None => None,
    }
}

/// arrow's `duration_us_to_duration`, rendered with chrono's `Display` for
/// `TimeDelta`: every number of microseconds is a delta.
#[verifier::external_body]
fn arrow_microseconds_text(v: i64) -> (r: String)
    ensures
        r@ == iso_duration_text(v * 1_000),
{
    duration_us_to_duration(v).to_string()
}

/// arrow's `duration_ns_to_duration`, rendered with chrono's `Display` for
/// `TimeDelta`: every number of nanoseconds is a delta.
#[verifier::external_body]
fn arrow_nanoseconds_text(v: i64) -> (r: String)
    ensures
        r@ == iso_duration_text(v as int),
{
    duration_ns_to_duration(v).to_string()
}

/// Appends the last `w` decimal digits of `n`, with leading zeros.
pub fn push_padded(out: &mut String, n: u64, w: u64)
    ensures
        final(out)@ == old(out)@ + padded(n as nat, w as nat),
    decreases w,
{
    if w > 0 {
        push_padded(out, n / 10, w - 1);
        out.append(digit_str(n % 10));
    }
}

/// Appends the fraction `f` of `w` digits after a decimal point, without its
/// trailing zeros; nothing when it is zero.
pub fn push_fraction(out: &mut String, f: u64, w: u64)
    ensures
        final(out)@ == old(out)@ + fraction_text(f as nat, w as nat),
{
    if f == 0 {
        assert(fraction_text(f as nat, w as nat) =~= seq![]);
        return;
    }
    proof {
        reveal_strlit(".");
    }
    out.append(".");
    let ghost goal = trimmed_digits(f as nat, w as nat);
    let mut f = f;
    let mut w = w;
    while w > 0 && f > 0 && f % 10 == 0
        invariant
            trimmed_digits(f as nat, w as nat) == goal,
        decreases w,
    {
        f = f / 10;
        w = w - 1;
    }
    push_padded(out, f, w);
}

fn unit_scale_of(u: TimeUnit) -> (r: u64)
    ensures
        r == unit_scale(u),
{
    match u {
        TimeUnit::Second => 1,
        TimeUnit::Millisecond => 1_000,
        TimeUnit::Microsecond => 1_000_000,
        TimeUnit::Nanosecond => 1_000_000_000,
    }
}

fn unit_width_of(u: TimeUnit) -> (r: u64)
    ensures
        r == unit_width(u),
{
    match u {
        TimeUnit::Second => 0,
        TimeUnit::Millisecond => 3,
        TimeUnit::Microsecond => 6,
        TimeUnit::Nanosecond => 9,
    }
}

/// Appends the Spark interval text of a duration of `v` ticks of unit `u`.
#[verifier::rlimit(50)]
pub fn push_spark_duration(out: &mut String, v: i64, u: TimeUnit)
    ensures
        final(out)@ == old(out)@ + spark_duration_text(v as int, u),
{
    let a: u64 = if v < 0 {
        (0i128 - v as i128) as u64
    } else {
        v as u64
    };
    let scale = unit_scale_of(u);
    let secs = a / scale;
    let frac = a % scale;
    let ghost start = out@;
    let ghost sign: Seq<char> = if v < 0 {
        seq!['-']
    } else {
        seq![]
    };
    proof {
        reveal_strlit("-");
        reveal_strlit(" ");
        reveal_strlit(":");
    }
    out.append("INTERVAL '");
    if v < 0 {
        out.append("-");
    }
    assert(out@ =~= start + "INTERVAL '"@ + sign);
    push_decimal(out, secs / 86400);
    out.append(" ");
    push_padded(out, (secs % 86400) / 3600, 2);
    out.append(":");
    push_padded(out, (secs % 3600) / 60, 2);
    out.append(":");
    push_padded(out, secs % 60, 2);
    push_fraction(out, frac, unit_width_of(u));
    out.append("' DAY TO SECOND");
    assert(out@ =~= start + spark_duration_text(v as int, u));
}

/// Appends the ISO 8601 text of a duration of `v` ticks of unit `u`, as
/// chrono displays it, or `ERROR` where chrono cannot hold the duration.
pub fn push_iso_duration(out: &mut String, v: i64, u: TimeUnit)
    ensures
        final(out)@ == old(out)@ + iso_duration_value_text(v as int, u),
{
    match u {
        TimeUnit::Second => match chrono_seconds_text(v) {
            Some(s) => out.append(s.as_str()),
            None => out.append("ERROR"),
        },
        TimeUnit::Millisecond => match chrono_milliseconds_text(v) {
            Some(s) => out.append(s.as_str()),
            None => out.append("ERROR"),
        },
        TimeUnit::Microsecond => {
            let s = arrow_microseconds_text(v);
            out.append(s.as_str());
        },
        TimeUnit::Nanosecond => {
            let s = arrow_nanoseconds_text(v);
            out.append(s.as_str());
        },
    }
}

/// Appends the text of a duration of `v` ticks of unit `u` in format `f`.
pub fn push_duration(out: &mut String, v: i64, u: TimeUnit, f: DurationFormat)
    ensures
        final(out)@ == old(out)@ + duration_text(v as int, u, f),
{
    match f {
        DurationFormat::Iso8601 => push_iso_duration(out, v, u),
        DurationFormat::Spark => push_spark_duration(out, v, u),
    }
}

/// The unit a thousand times finer than `u` (the finest unit stays).
pub open spec fn finer_unit(u: TimeUnit) -> TimeUnit {
    match u {
        TimeUnit::Second => TimeUnit::Millisecond,
        TimeUnit::Millisecond => TimeUnit::Microsecond,
        TimeUnit::Microsecond => TimeUnit::Nanosecond,
        TimeUnit::Nanosecond => TimeUnit::Nanosecond,
    }
}

/// A fraction with a trailing zero reads as the fraction without it.
proof fn lemma_trimmed_digits_shift(f: nat, w: nat)
    requires
        f > 0,
    ensures
        trimmed_digits(f * 10, w + 1) == trimmed_digits(f, w),
{
    assert((f * 10) % 10 == 0 && (f * 10) / 10 == f && f * 10 > 0) by (nonlinear_arith)
        requires
            f > 0,
    ;
}

/// Three more digits of zeros do not change the text of a fraction.
proof fn lemma_fraction_text_scaled(f: nat, w: nat)
    ensures
        fraction_text(f * 1000, w + 3) == fraction_text(f, w),
{
    if f > 0 {
        lemma_trimmed_digits_shift(f, w);
        lemma_trimmed_digits_shift(f * 10, w + 1);
        lemma_trimmed_digits_shift(f * 100, w + 2);
        assert(f * 10 * 10 == f * 100 && f * 100 * 10 == f * 1000 && f * 1000 > 0) by (nonlinear_arith)
            requires
                f > 0,
        ;
    } else {
        assert(f * 1000 == 0);
    }
}

/// A duration displays alike in the Spark form whichever unit counts it:
/// `v` ticks of `u` read as `1000 * v` ticks of the next finer unit.
pub proof fn lemma_spark_duration_unit_free(v: int, u: TimeUnit)
    requires
        u != TimeUnit::Nanosecond,
    ensures
        spark_duration_text(v * 1000, finer_unit(u)) == spark_duration_text(v, u),
{
    let a = abs(v);
    let s = unit_scale(u);
    let q = a / s;
    let r = a % s;
    assert(abs(v * 1000) == a * 1000);
    assert(unit_scale(finer_unit(u)) == s * 1000);
    assert(unit_width(finer_unit(u)) == unit_width(u) + 3);
    assert(a * 1000 == q * (s * 1000) + r * 1000 && 0 <= r * 1000 < s * 1000) by (nonlinear_arith)
        requires
            a == q * s + r,
            0 <= r < s,
    ;
    lemma_fundamental_div_mod_converse((a * 1000) as int, (s * 1000) as int, q as int, (r * 1000) as int);
    lemma_fraction_text_scaled(r, unit_width(u));
}

/// A duration displays alike in the ISO 8601 form whichever unit counts it,
/// where the finer count fits in an `i64`.
pub proof fn lemma_iso_duration_unit_free(v: int, u: TimeUnit)
    requires
        u != TimeUnit::Nanosecond,
        i64::MIN <= v * 1000 <= i64::MAX,
    ensures
        iso_duration_value_text(v * 1000, finer_unit(u)) == iso_duration_value_text(v, u),
{
    match u {
        TimeUnit::Second => {
            assert(-max_delta_seconds() <= v <= max_delta_seconds());
            assert(v * 1000 != i64::MIN);
            assert(v * 1000 * 1_000_000 == v * 1_000_000_000);
        },
        TimeUnit::Millisecond => {
            assert(v != i64::MIN);
            assert(v * 1000 * 1_000 == v * 1_000_000);
        },
        _ => {},
    }
}

/// The display of a duration does not depend on the unit that counts it.
pub proof fn lemma_duration_unit_free(v: int, u: TimeUnit, f: DurationFormat)
    requires
        u != TimeUnit::Nanosecond,
        i64::MIN <= v * 1000 <= i64::MAX,
    ensures
        duration_text(v * 1000, finer_unit(u), f) == duration_text(v, u, f),
{
    lemma_spark_duration_unit_free(v, u);
    lemma_iso_duration_unit_free(v, u);
}

/// Negating a nonzero duration adds a `-` before the ISO 8601 text and
/// changes nothing else.
pub proof fn lemma_iso_duration_negated(t: int)
    requires
        t > 0,
    ensures
        iso_duration_text(-t) == seq!['-'] + iso_duration_text(t),
{
    assert(iso_duration_text(-t) =~= seq!['-'] + iso_duration_text(t));
}

/// Negating a nonzero duration adds a `-` after `INTERVAL '` in the Spark
/// text and changes nothing else.
pub proof fn lemma_spark_duration_negated(v: int, u: TimeUnit)
    requires
        v > 0,
    ensures
        spark_duration_text(-v, u) == spark_duration_text(v, u).take(10) + seq!['-']
            + spark_duration_text(v, u).skip(10),
{
    reveal_strlit("INTERVAL '");
    assert("INTERVAL '"@.len() == 10);
    let head = "INTERVAL '"@;
    let pos = spark_duration_text(v, u);
    assert(pos.take(10) =~= head);
    assert(spark_duration_text(-v, u) =~= pos.take(10) + seq!['-'] + pos.skip(10));
}

} // verus!

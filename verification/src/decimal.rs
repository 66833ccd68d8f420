//! Rendering of decimal values, as arrow writes them.

use vstd::prelude::*;
use crate::duration::abs;
use crate::text::{digits_of, pow10};
use vstd::arithmetic::div_mod::{
    lemma_basic_div, lemma_div_denominator, lemma_div_non_zero, lemma_fundamental_div_mod_converse,
};
use datafusion::arrow::datatypes::{i256, Decimal128Type, Decimal256Type, DecimalType};

verus! {

/// `n` zeros.
pub open spec fn zeros(n: nat) -> Seq<char> {
    Seq::new(n, |i: int| '0')
}

/// The text arrow writes for a decimal of unscaled value `value`: the sign
/// and the digits of the value, cut to at most `precision` digits; then for
/// a zero scale that text, for a negative scale that text followed by as many
/// zeros, and for a positive scale the point placed `scale` places from the
/// right, or, where the value has no more digits than the scale, `0.`
/// followed by the digits of the value padded with zeros to `scale` places.
pub open spec fn decimal_text(value: int, precision: nat, scale: int) -> Seq<char> {
    let sign = if value < 0 {
        seq!['-']
    } else {
        seq![]
    };
    let rest = digits_of(abs(value));
    let cut = sign + rest.take(if precision < rest.len() {
        precision as int
    } else {
        rest.len() as int
    });
    if scale == 0 {
        cut
    } else if scale < 0 {
        cut + zeros((-scale) as nat)
    } else if rest.len() > scale {
        cut.take(cut.len() - scale) + seq!['.'] + cut.skip(cut.len() - scale)
    } else {
        sign + seq!['0', '.'] + zeros((scale - rest.len()) as nat) + rest
    }
}

/// Whether arrow writes the decimal without panicking: it cannot place the
/// point when cutting to `precision` digits leaves fewer characters than the
/// scale.
pub open spec fn decimal_formats(value: int, precision: nat, scale: int) -> bool {
    let rest = digits_of(abs(value));
    let cut_len = (if value < 0 {
        1int
    } else {
        0
    }) + if precision < rest.len() {
        precision as int
    } else {
        rest.len() as int
    };
    !(scale > 0 && rest.len() > scale && cut_len < scale)
}

/// arrow's `Decimal128Type::format_decimal`: the text of `decimal_text`.
#[verifier::external_body]
pub(crate) fn arrow_decimal128_text(value: i128, precision: u8, scale: i8) -> (r: String)
    requires
        decimal_formats(value as int, precision as nat, scale as int),
    ensures
        r@ == decimal_text(value as int, precision as nat, scale as int),
{
    <Decimal128Type as DecimalType>::format_decimal(value, precision, scale)
}

/// The value of a 256-bit integer given by its high and low halves.
pub open spec fn i256_value(high: i128, low: u128) -> int {
    high * 0x1_0000_0000_0000_0000_0000_0000_0000_0000 + low
}

/// arrow's `Decimal256Type::format_decimal` of the `i256` with the given
/// halves: the text of `decimal_text`.
#[verifier::external_body]
pub(crate) fn arrow_decimal256_text(high: i128, low: u128, precision: u8, scale: i8) -> (r: String)
    requires
        decimal_formats(i256_value(high, low), precision as nat, scale as int),
    ensures
        r@ == decimal_text(i256_value(high, low), precision as nat, scale as int),
{
    <Decimal256Type as DecimalType>::format_decimal(i256::from_parts(low, high), precision, scale)
}

/// The number whose high and low 128-bit halves are `h` and `l`.
pub open spec fn halves_value(h: u128, l: u128) -> int {
    h * 0x1_0000_0000_0000_0000_0000_0000_0000_0000 + l
}

/// The halves of `halves_value(h, l) / 10`, rounded down.
fn halves_div10(h: u128, l: u128) -> (r: (u128, u128))
    ensures
        halves_value(r.0, r.1) == halves_value(h, l) / 10,
{
    let qh = h / 10;
    let r0 = h % 10;
    let lh = l / 0x1_0000_0000_0000_0000;
    let ll = l % 0x1_0000_0000_0000_0000;
    assert(l == lh * 0x1_0000_0000_0000_0000 + ll);
    let t1 = r0 * 0x1_0000_0000_0000_0000 + lh;
    let q1 = t1 / 10;
    let r1 = t1 % 10;
    let t2 = r1 * 0x1_0000_0000_0000_0000 + ll;
    let q2 = t2 / 10;
    let r2 = t2 % 10;
    assert(q1 < 0x1_0000_0000_0000_0000);
    assert(q2 < 0x1_0000_0000_0000_0000);
    let low = q1 * 0x1_0000_0000_0000_0000 + q2;
    proof {
        let x = halves_value(h, l);
        let q = halves_value(qh, low);
        assert(h == qh * 10 + r0);
        assert(t1 == q1 * 10 + r1);
        assert(t2 == q2 * 10 + r2);
        assert(x == q * 10 + r2);
        lemma_fundamental_div_mod_converse(x, 10, q, r2 as int);
    }
    (qh, low)
}

/// Ten to a power is positive, and each power is ten times the one before.
proof fn lemma_pow10_step(k: nat)
    ensures
        pow10(k) > 0,
        pow10(k + 1) == pow10(k) * 10,
    decreases k,
{
    if k > 0 {
        lemma_pow10_step((k - 1) as nat);
    }
}

/// Whether the number with halves `h` and `l` is at least `10^s`.
fn halves_at_least_pow10(h: u128, l: u128, s: u8) -> (r: bool)
    ensures
        r == (halves_value(h, l) >= pow10(s as nat)),
{
    let ghost x = halves_value(h, l);
    let mut qh = h;
    let mut ql = l;
    let mut k: u8 = 0;
    proof {
        lemma_pow10_step(0);
        assert(x / 1 == x);
    }
    while k < s
        invariant
            k <= s,
            x == halves_value(h, l),
            x >= 0,
            pow10(k as nat) > 0,
            halves_value(qh, ql) == x / (pow10(k as nat) as int),
        decreases s - k,
    {
        let (a, b) = halves_div10(qh, ql);
        proof {
            lemma_pow10_step(k as nat);
            lemma_div_denominator(x, pow10(k as nat) as int, 10);
        }
        qh = a;
        ql = b;
        k = k + 1;
    }
    proof {
        let d = pow10(s as nat) as int;
        if x >= d {
            lemma_div_non_zero(x, d);
        } else {
            lemma_basic_div(x, d);
        }
    }
    qh != 0 || ql != 0
}

/// Whether a decimal of the given magnitude, sign, precision and scale
/// formats: it fails only where the scale is positive, the precision and the
/// sign leave fewer characters than the scale, and the magnitude has more
/// digits than the scale.
fn magnitude_formats(h: u128, l: u128, negative: bool, precision: u8, scale: i8) -> (r: bool)
    requires
        negative ==> halves_value(h, l) > 0,
    ensures
        r == decimal_formats(
            if negative {
                -halves_value(h, l)
            } else {
                halves_value(h, l)
            },
            precision as nat,
            scale as int,
        ),
{
    let ghost v = if negative {
        -halves_value(h, l)
    } else {
        halves_value(h, l)
    };
    assert(abs(v) == halves_value(h, l));
    if scale <= 0 {
        return true;
    }
    let sign: u16 = if negative {
        1
    } else {
        0
    };
    if precision as u16 + sign >= scale as u16 {
        return true;
    }
    let more = halves_at_least_pow10(h, l, scale as u8);
    proof {
        lemma_digits_len_pow10(abs(v), scale as nat);
    }
    !more
}

/// A number has more than `k` digits exactly when it is at least `10^k`.
proof fn lemma_digits_len_pow10(n: nat, k: nat)
    requires
        k >= 1,
    ensures
        digits_of(n).len() > k <==> n >= pow10(k),
    decreases k,
{
    crate::text::lemma_digits_len(n);
    lemma_pow10_step(0);
    if k == 1 {
        assert(pow10(1) == 10);
    } else {
        lemma_pow10_step((k - 1) as nat);
        crate::text::lemma_pow10_at_least_ten((k - 1) as nat);
        if n >= 10 {
            lemma_digits_len_pow10(n / 10, (k - 1) as nat);
            assert(digits_of(n).len() == digits_of(n / 10).len() + 1);
            assert(n / 10 >= pow10((k - 1) as nat) <==> n >= pow10((k - 1) as nat) * 10);
        }
    }
}

/// Whether arrow writes the 128-bit decimal `value` without panicking.
pub fn decimal128_formats(value: i128, precision: u8, scale: i8) -> (r: bool)
    ensures
        r == decimal_formats(value as int, precision as nat, scale as int),
{
    if value < 0 {
        let m = ((-(value + 1)) as u128) + 1;
        magnitude_formats(0, m, true, precision, scale)
    } else {
        magnitude_formats(0, value as u128, false, precision, scale)
    }
}

/// Whether arrow writes the 256-bit decimal with the given halves without
/// panicking.
pub fn decimal256_formats(high: i128, low: u128, precision: u8, scale: i8) -> (r: bool)
    ensures
        r == decimal_formats(i256_value(high, low), precision as nat, scale as int),
{
    if high >= 0 {
        magnitude_formats(high as u128, low, false, precision, scale)
    } else if low == 0 {
        let h = ((-(high + 1)) as u128) + 1;
        magnitude_formats(h, 0, true, precision, scale)
    } else {
        let h = (-(high + 1)) as u128;
        let l = (u128::MAX - low) + 1;
        magnitude_formats(h, l, true, precision, scale)
    }
}

} // verus!

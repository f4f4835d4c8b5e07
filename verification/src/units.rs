//! Fixed-point helpers for sensor values and thresholds.
//!
//! Every temperature/humidity value is stored as [`Tenths`]: an integer scaled
//! by 10, i.e. one decimal place (`750` means `75.0`). All conversions and
//! comparisons stay in integer arithmetic.
use vstd::prelude::*;

verus! {

/// A value scaled by 10 (one decimal place). `750` == `75.0`.
pub type Tenths = i16;

/// Above this temperature (75.0 F) the side's fan switches on.
pub const TEMP_FAN_THRESH: Tenths = 750;

/// Above this temperature (85.0 F) the side is "dangerously hot" and triggers the pump.
pub const TEMP_DANGER: Tenths = 850;

/// Below this humidity (70.0 %) a side is too dry and triggers the pump.
pub const HUMI_LOW_THRESH: Tenths = 700;

/// Humidity at or below this (10.0 %) is treated as implausible and ignored for control.
pub const HUMI_VALID_MIN: Tenths = 100;

/// Full-scale value of the SHT3x's 16-bit raw output (`2^16 - 1`).
const SHT3X_FULL_SCALE: i64 = 65535;

/// Integer division that rounds toward zero, as `/` does on Rust's signed integers.
pub open spec fn div_toward_zero(a: int, d: int) -> int {
    if a >= 0 {
        a / d
    } else {
        -((-a) / d)
    }
}

/// SHT3x datasheet temperature in thousandths of a degree Celsius:
/// `-45 + 175 * raw / 65535`, the division truncated.
pub open spec fn celsius_milli_of_raw(raw: int) -> int {
    -45_000 + (175_000 * raw) / 65535
}

/// `F = C * 9/5 + 32`, in thousandths, with Rust's truncating division.
pub open spec fn fahrenheit_milli_of_celsius_milli(c: int) -> int {
    div_toward_zero(c * 9, 5) + 32_000
}

/// Raw SHT3x temperature word to tenths of a degree Fahrenheit.
pub open spec fn temp_tenths_of_raw(raw: int) -> int {
    div_toward_zero(fahrenheit_milli_of_celsius_milli(celsius_milli_of_raw(raw)), 100)
}

/// Raw SHT3x humidity word to tenths of a percent: `1000 * raw / 65535`.
pub open spec fn humi_tenths_of_raw(raw: int) -> int {
    (1000 * raw) / 65535
}

proof fn lemma_scaled_raw_bounds(raw: int, scale: int)
    requires
        0 <= raw <= 65535,
        0 < scale,
    ensures
        0 <= (scale * raw) / 65535 <= scale,
{
    assert(0 <= scale * raw <= scale * 65535) by (nonlinear_arith)
        requires
            0 <= raw <= 65535,
            0 < scale,
    ;
    vstd::arithmetic::div_mod::lemma_div_is_ordered(scale * raw, scale * 65535, 65535);
    vstd::arithmetic::div_mod::lemma_div_by_multiple(scale, 65535);
    vstd::arithmetic::div_mod::lemma_div_pos_is_pos(scale * raw, 65535);
}

/// Converts a raw SHT3x reading to tenths of a degree Fahrenheit.
///
/// Datasheet: `T_celsius = -45 + 175 * raw / 65535`, then the usual
/// `F = C * 9/5 + 32`. The intermediate values are carried in milli-units
/// (thousandths) for precision, then scaled down to tenths at the end.
pub fn celsius_raw_to_tenths_f(raw: u16) -> (t: Tenths)
    ensures
        t as int == temp_tenths_of_raw(raw as int),
        -490 <= t <= 2660,
{
    proof {
        lemma_scaled_raw_bounds(raw as int, 175_000);
    }
    let celsius_milli: i64 = -45_000i64 + (175_000i64 * (raw as i64)) / SHT3X_FULL_SCALE;
    let fahrenheit_milli: i64 = celsius_milli * 9 / 5 + 32_000;
    (fahrenheit_milli / 100) as Tenths
}

/// Converts a raw SHT3x reading to tenths of a percent relative humidity.
///
/// Datasheet: `RH = 100 * raw / 65535`; scaled here to tenths (`1000 * ...`).
pub fn humi_raw_to_tenths(raw: u16) -> (h: Tenths)
    ensures
        h as int == humi_tenths_of_raw(raw as int),
        0 <= h <= 1000,
{
    proof {
        lemma_scaled_raw_bounds(raw as int, 1000);
    }
    ((1_000i64 * (raw as i64)) / SHT3X_FULL_SCALE) as Tenths
}

/// The ASCII character of the decimal digit `d` (`0 <= d < 10`).
pub open spec fn ascii_digit(d: int) -> u8 {
    (48 + d) as u8
}

/// The decimal digits of `n`, most significant first, without leading zeros
/// (`0` is the single digit `"0"`).
pub open spec fn decimal_text(n: nat) -> Seq<u8>
    decreases n,
{
    if n < 10 {
        seq![ascii_digit(n as int)]
    } else {
        decimal_text(n / 10).push(ascii_digit((n % 10) as int))
    }
}

/// The magnitude of a tenths value.
pub open spec fn magnitude(value: int) -> nat {
    if value < 0 {
        (-value) as nat
    } else {
        value as nat
    }
}

/// The full text of a tenths value: an optional `-`, the whole part in
/// decimal, a `.`, the tenths digit and the suffix (`752`, `F` gives `75.2F`).
pub open spec fn tenths_text(value: int, suffix: u8) -> Seq<u8> {
    let sign: Seq<u8> = if value < 0 {
        seq![45u8]
    } else {
        Seq::<u8>::empty()
    };
    sign + decimal_text(magnitude(value) / 10) + seq![
        46u8,
        ascii_digit((magnitude(value) % 10) as int),
        suffix,
    ]
}

/// `s` with the bytes from position `at` on replaced by `t`.
pub open spec fn overwrite(s: Seq<u8>, at: int, t: Seq<u8>) -> Seq<u8> {
    s.take(at) + t + s.skip(at + t.len())
}

/// The smaller of two integers.
pub open spec fn min_int(a: int, b: int) -> int {
    if a <= b {
        a
    } else {
        b
    }
}

proof fn lemma_decimal_text_len(n: nat)
    ensures
        1 <= decimal_text(n).len(),
        n < 10 ==> decimal_text(n).len() == 1,
        n >= 10 ==> decimal_text(n).len() == decimal_text(n / 10).len() + 1,
        n < 100 ==> decimal_text(n).len() <= 2,
        n < 1000 ==> decimal_text(n).len() <= 3,
        n < 10000 ==> decimal_text(n).len() <= 4,
        n < 100000 ==> decimal_text(n).len() <= 5,
    decreases n,
{
    if n >= 10 {
        lemma_decimal_text_len(n / 10);
    }
}

proof fn lemma_decimal_text_digits(n: nat)
    ensures
        forall|i: int|
            0 <= i < decimal_text(n).len() ==> 48 <= #[trigger] decimal_text(n)[i] <= 57,
    decreases n,
{
    if n >= 10 {
        lemma_decimal_text_digits(n / 10);
        let s = decimal_text(n);
        let prefix = decimal_text(n / 10);
        assert forall|i: int| 0 <= i < s.len() implies 48 <= #[trigger] s[i] <= 57 by {
            if i < prefix.len() {
                assert(s[i] == prefix[i]);
            }
        }
    }
}

/// Writes the decimal digits of `value` into `dest` from position `start` on,
/// returning the count. Digits are generated least-significant-first into a
/// scratch buffer, then emitted in the correct order; they are cut off at the
/// end of `dest`.
fn write_u16(dest: &mut [u8], start: usize, value: u16) -> (count: usize)
    requires
        start <= old(dest)@.len(),
    ensures
        count == min_int(old(dest)@.len() - start, decimal_text(value as nat).len() as int),
        final(dest)@ == overwrite(
            old(dest)@,
            start as int,
            decimal_text(value as nat).take(count as int),
        ),
{
    let ghost full = decimal_text(value as nat);
    proof {
        lemma_decimal_text_len(value as nat);
    }
    if start >= dest.len() {
        assert(old(dest)@ =~= overwrite(old(dest)@, start as int, full.take(0)));
        return 0;
    }
    if value == 0 {
        dest[start] = 48u8;
        assert(dest@ =~= overwrite(old(dest)@, start as int, full.take(1)));
        return 1;
    }
    let mut digits = [0u8; 5];
    let mut count: usize = 0;
    let mut rest: u16 = value;
    assert(full =~= decimal_text(rest as nat) + Seq::new(0, |k: int| digits@[0 - 1 - k]));
    while rest > 0
        invariant
            dest@ == old(dest)@,
            full.len() <= 5,
            count <= 5,
            full =~= (if rest > 0 {
                decimal_text(rest as nat)
            } else {
                Seq::<u8>::empty()
            }) + Seq::new(count as nat, |k: int| digits@[count - 1 - k]),
        decreases rest,
    {
        proof {
            lemma_decimal_text_len(rest as nat);
        }
        let ghost old_digits = digits@;
        let ghost old_tail = Seq::new(count as nat, |k: int| old_digits[count - 1 - k]);
        digits[count] = 48u8 + (rest % 10) as u8;
        let ghost d = digits@[count as int];
        let ghost new_tail = Seq::new((count + 1) as nat, |k: int| digits@[count - k]);
        assert(new_tail =~= seq![d] + old_tail);
        if rest >= 10 {
            assert(decimal_text(rest as nat) == decimal_text((rest / 10) as nat).push(d));
            assert(decimal_text(rest as nat) + old_tail =~= decimal_text((rest / 10) as nat)
                + new_tail);
        } else {
            assert(decimal_text(rest as nat) == seq![d]);
            assert(decimal_text(rest as nat) + old_tail =~= Seq::<u8>::empty() + new_tail);
        }
        rest = rest / 10;
        count = count + 1;
    }
    let total = count;
    assert(total == full.len());
    let mut len: usize = 0;
    while count > 0 && len < dest.len() - start
        invariant
            len + count == total,
            total <= 5,
            digits@.len() == 5,
            total == full.len(),
            start + len <= dest@.len(),
            dest@.len() == old(dest)@.len(),
            full =~= Seq::new(total as nat, |k: int| digits@[total - 1 - k]),
            dest@ == overwrite(old(dest)@, start as int, full.take(len as int)),
        decreases count,
    {
        count = count - 1;
        assert(full[len as int] == digits@[count as int]);
        dest[start + len] = digits[count];
        assert(dest@ =~= overwrite(old(dest)@, start as int, full.take(len + 1)));
        len = len + 1;
    }
    len
}

proof fn lemma_extend_written(before: Seq<u8>, text: Seq<u8>, len: int)
    requires
        0 <= len < text.len(),
        len < before.len(),
    ensures
        overwrite(before, 0, text.take(len)).update(len, text[len]) =~= overwrite(
            before,
            0,
            text.take(len + 1),
        ),
{
}

/// Formats a [`Tenths`] value as ASCII into `dest` (e.g. `752` -> `"75.2F"`),
/// appending `suffix` (such as `b'F'` or `b'%'`). Returns the number of bytes
/// written; text that does not fit in `dest` is cut off at its end.
#[verifier::rlimit(30)]
pub fn write_tenths(dest: &mut [u8], value: Tenths, suffix: u8) -> (n: usize)
    ensures
        n == min_int(old(dest)@.len() as int, tenths_text(value as int, suffix).len() as int),
        final(dest)@ == overwrite(old(dest)@, 0, tenths_text(value as int, suffix).take(n as int)),
{
    let ghost text = tenths_text(value as int, suffix);
    let ghost start = dest@;
    let negative = value < 0;
    let abs: u16 = if negative {
        (0i32 - (value as i32)) as u16
    } else {
        value as u16
    };
    assert(abs as nat == magnitude(value as int));
    let whole = abs / 10;
    let frac = abs % 10;
    let ghost sign: Seq<u8> = if negative {
        seq![45u8]
    } else {
        Seq::<u8>::empty()
    };
    let ghost digits = decimal_text(whole as nat);
    let ghost tail = seq![46u8, ascii_digit(frac as int), suffix];
    assert(text =~= sign + digits + tail);
    proof {
        lemma_decimal_text_len(whole as nat);
    }
    let ghost body: int = (sign.len() + digits.len()) as int;
    assert(text.len() == body + 3);
    assert(text[body] == 46u8);
    assert(text[body + 1] == ascii_digit(frac as int));
    assert(text[body + 2] == suffix);

    let mut len: usize = 0;
    if negative && len < dest.len() {
        proof {
            lemma_extend_written(start, text, 0);
        }
        dest[len] = 45u8;
        len = len + 1;
    }
    assert(dest@ =~= overwrite(start, 0, text.take(len as int)));
    let ghost len_sign = len;
    let count = write_u16(dest, len, whole);
    len = len + count;
    assert(len_sign < sign.len() ==> dest@.len() == 0);
    assert(dest@ =~= overwrite(start, 0, text.take(len as int))) by {
        if len_sign == sign.len() {
            assert(text.take(len as int) =~= text.take(len_sign as int) + digits.take(
                count as int,
            ));
        }
    }
    assert(len < dest@.len() ==> len == body);
    if len < dest.len() {
        proof {
            lemma_extend_written(start, text, len as int);
        }
        dest[len] = 46u8;
        len = len + 1;
    }
    if len < dest.len() {
        proof {
            lemma_extend_written(start, text, len as int);
        }
        dest[len] = 48u8 + frac as u8;
        len = len + 1;
    }
    if len < dest.len() {
        proof {
            lemma_extend_written(start, text, len as int);
        }
        dest[len] = suffix;
        len = len + 1;
    }
    len
}

/// The text of any tenths value is at most 8 bytes long (`-3276.8F`), so a
/// buffer of 8 or more bytes always holds it whole.
pub proof fn law_tenths_text_fits_eight(value: Tenths, suffix: u8)
    ensures
        tenths_text(value as int, suffix).len() <= 8,
{
    lemma_decimal_text_len(magnitude(value as int) / 10);
}

/// Every byte of a tenths text is printable ASCII when the suffix is: the text
/// is made of `-`, decimal digits, `.` and the suffix only.
pub proof fn law_tenths_text_ascii(value: Tenths, suffix: u8)
    requires
        32 <= suffix < 127,
    ensures
        forall|i: int|
            0 <= i < tenths_text(value as int, suffix).len() ==> 32 <= #[trigger] tenths_text(
                value as int,
                suffix,
            )[i] < 127,
{
    let m = magnitude(value as int);
    lemma_decimal_text_digits(m / 10);
    let sign: Seq<u8> = if value < 0 {
        seq![45u8]
    } else {
        Seq::<u8>::empty()
    };
    let digits = decimal_text(m / 10);
    let tail = seq![46u8, ascii_digit((m % 10) as int), suffix];
    let text = tenths_text(value as int, suffix);
    assert(text =~= sign + digits + tail);
    assert forall|i: int| 0 <= i < text.len() implies 32 <= #[trigger] text[i] < 127 by {
        if i < sign.len() {
        } else if i < sign.len() + digits.len() {
            assert(text[i] == digits[i - sign.len()]);
        } else {
            assert(text[i] == tail[i - sign.len() - digits.len()]);
        }
    }
}

/// A larger raw temperature word never reads as a lower temperature.
pub proof fn law_temp_conversion_monotonic(raw1: u16, raw2: u16)
    requires
        raw1 <= raw2,
    ensures
        temp_tenths_of_raw(raw1 as int) <= temp_tenths_of_raw(raw2 as int),
{
    assert(175_000 * (raw1 as int) <= 175_000 * (raw2 as int));
    vstd::arithmetic::div_mod::lemma_div_is_ordered(
        175_000 * (raw1 as int),
        175_000 * (raw2 as int),
        65535,
    );
    lemma_scaled_raw_bounds(raw1 as int, 175_000);
    lemma_scaled_raw_bounds(raw2 as int, 175_000);
    let c1 = celsius_milli_of_raw(raw1 as int);
    let c2 = celsius_milli_of_raw(raw2 as int);
    lemma_div_toward_zero_monotonic(c1 * 9, c2 * 9, 5);
    let f1 = fahrenheit_milli_of_celsius_milli(c1);
    let f2 = fahrenheit_milli_of_celsius_milli(c2);
    lemma_div_toward_zero_monotonic(f1, f2, 100);
}

proof fn lemma_div_toward_zero_monotonic(a: int, b: int, d: int)
    requires
        a <= b,
        0 < d,
    ensures
        div_toward_zero(a, d) <= div_toward_zero(b, d),
{
    if a >= 0 {
        vstd::arithmetic::div_mod::lemma_div_is_ordered(a, b, d);
    } else if b >= 0 {
        vstd::arithmetic::div_mod::lemma_div_pos_is_pos(-a, d);
        vstd::arithmetic::div_mod::lemma_div_pos_is_pos(b, d);
    } else {
        vstd::arithmetic::div_mod::lemma_div_is_ordered(-b, -a, d);
    }
}

/// A larger raw humidity word never reads as a lower humidity.
pub proof fn law_humi_conversion_monotonic(raw1: u16, raw2: u16)
    requires
        raw1 <= raw2,
    ensures
        humi_tenths_of_raw(raw1 as int) <= humi_tenths_of_raw(raw2 as int),
{
    vstd::arithmetic::div_mod::lemma_div_is_ordered(1000 * (raw1 as int), 1000 * (raw2 as int), 65535);
}

/// The number a string of decimal digits denotes, most significant first.
pub open spec fn digits_value(digits: Seq<u8>) -> int
    decreases digits.len(),
{
    if digits.len() == 0 {
        0
    } else {
        digits_value(digits.drop_last()) * 10 + (digits.last() - 48)
    }
}

/// The decimal text of a number is a string of digits that denotes exactly
/// that number, with no leading zero (unless the number is zero itself).
pub proof fn law_decimal_text_denotes(n: nat)
    ensures
        digits_value(decimal_text(n)) == n,
        forall|i: int|
            0 <= i < decimal_text(n).len() ==> 48 <= #[trigger] decimal_text(n)[i] <= 57,
        n > 0 ==> decimal_text(n)[0] != 48,
    decreases n,
{
    lemma_decimal_text_digits(n);
    lemma_decimal_text_len(n);
    if n >= 10 {
        law_decimal_text_denotes(n / 10);
        lemma_decimal_text_len(n / 10);
        let s = decimal_text(n);
        assert(s.drop_last() =~= decimal_text(n / 10));
        assert(s[0] == decimal_text(n / 10)[0]);
        assert(s.last() == ascii_digit((n % 10) as int));
        assert(digits_value(s) == digits_value(decimal_text(n / 10)) * 10 + (n % 10));
    } else {
        let s = decimal_text(n);
        assert(s.drop_last() =~= Seq::<u8>::empty());
        assert(digits_value(s.drop_last()) == 0);
        assert(digits_value(s) == n);
    }
}

/// The text of a tenths value reads back as that value: a `-` exactly when
/// it is negative, then digits whose number is the whole part, a `.`, the
/// tenths digit and the suffix; the whole part and the tenths digit put
/// together give the magnitude.
pub proof fn law_tenths_text_denotes(value: Tenths, suffix: u8)
    ensures
        ({
            let t = tenths_text(value as int, suffix);
            let n = t.len() as int;
            let start: int = if value < 0 {
                1
            } else {
                0
            };
            &&& n >= 4
            &&& (t[0] == 45u8 <==> value < 0)
            &&& t[n - 1] == suffix
            &&& t[n - 2] - 48 == (if value < 0 {
                -value
            } else {
                value as int
            }) % 10
            &&& t[n - 3] == 46u8
            &&& forall|i: int| start <= i < n - 3 ==> 48 <= #[trigger] t[i] <= 57
            &&& digits_value(t.subrange(start, n - 3)) * 10 + (t[n - 2] - 48) == (if value < 0 {
                -value
            } else {
                value as int
            })
        }),
{
    let m = magnitude(value as int);
    let d = decimal_text(m / 10);
    law_decimal_text_denotes(m / 10);
    lemma_decimal_text_len(m / 10);
    let sign: Seq<u8> = if value < 0 {
        seq![45u8]
    } else {
        Seq::<u8>::empty()
    };
    let tail = seq![46u8, ascii_digit((m % 10) as int), suffix];
    let t = tenths_text(value as int, suffix);
    assert(t =~= sign + d + tail);
    let start: int = if value < 0 {
        1
    } else {
        0
    };
    assert(t.subrange(start, t.len() - 3) =~= d);
    assert forall|i: int| start <= i < t.len() - 3 implies 48 <= #[trigger] t[i] <= 57 by {
        assert(t[i] == d[i - start]);
    }
    if value >= 0 {
        assert(t[0] == d[0]);
    }
}

} // verus!

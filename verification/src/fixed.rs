use vstd::prelude::*;
use vstd::string::*;
use vstd::arithmetic::div_mod::{lemma_basic_div, lemma_div_denominator};
use crate::decimal::{
    accumulate_digits, all_digits, clamp_bound, clamped, decimal_digits, digit_char,
    digit_run_end, digit_text, digit_value, digits_value, format_u64, int_of_text,
    is_ascii_image, is_digit, lemma_decimal_digits_value, lemma_digit_round_trip,
    lemma_digit_run, lemma_digit_run_ends_at, lemma_integer_text_is_ascii, scan_digits,
    scan_integer, CLAMP_BOUND,
};

verus! {

/// How many digits after the point a fixed-point number keeps.
pub const FRACTION_DIGITS: usize = 7;

/// The fixed-point number that stands for one.
pub const UNITS_PER_ONE: i64 = 10_000_000;

/// Ten to the power `e`.
pub open spec fn pow10(e: nat) -> nat
    decreases e,
{
    if e == 0 {
        1
    } else {
        10 * pow10((e - 1) as nat)
    }
}

/// A decimal literal taken apart: its sign, the digits before and after the
/// point in one run, how many of them stood after the point, and the
/// exponent.
pub struct Literal {
    pub negative: bool,
    pub mantissa: Seq<char>,
    pub fraction_len: nat,
    pub exponent: int,
}

/// Takes a decimal literal apart. The literal is an optional `-`, one or more
/// digits, then optionally a point with one or more digits, then optionally
/// `e` or `E` with a signed integer; nothing before it and nothing after.
pub open spec fn literal_of_text(s: Seq<char>) -> Option<Literal> {
    let negative = s.len() > 0 && s[0] == '-';
    let a: int = if negative {
        1
    } else {
        0
    };
    let b = digit_run_end(s, a);
    let pointed = b < s.len() && s[b] == '.';
    let c = if pointed {
        digit_run_end(s, b + 1)
    } else {
        b
    };
    let fraction = if pointed {
        s.subrange(b + 1, c)
    } else {
        Seq::<char>::empty()
    };
    let mantissa = s.subrange(a, b) + fraction;
    if b == a || (pointed && c == b + 1) {
        None
    } else if c == s.len() {
        Some(Literal { negative, mantissa, fraction_len: fraction.len(), exponent: 0 })
    } else if s[c] == 'e' || s[c] == 'E' {
        match int_of_text(s.skip(c + 1)) {
            Some(exponent) => Some(
                Literal { negative, mantissa, fraction_len: fraction.len(), exponent },
            ),
            None => None,
        }
    } else {
        None
    }
}

/// The number that `mantissa` stands for, times ten to the power `shift`,
/// rounded toward zero.
pub open spec fn shifted_value(mantissa: Seq<char>, shift: int) -> nat {
    if shift >= 0 {
        digits_value(mantissa) * pow10(shift as nat)
    } else {
        digits_value(mantissa) / pow10((-shift) as nat)
    }
}

/// The magnitude of a literal in units of ten to the power `-FRACTION_DIGITS`,
/// rounded toward zero.
pub open spec fn literal_units(literal: Literal) -> nat {
    shifted_value(literal.mantissa, literal.exponent - literal.fraction_len + FRACTION_DIGITS)
}

/// The fixed-point number that a decimal literal stands for: its value times
/// `UNITS_PER_ONE`, rounded toward zero. `None` where the text is no decimal
/// literal, and where the magnitude of the result is above `i64::MAX`.
pub open spec fn fixed_of_text(s: Seq<char>) -> Option<i64> {
    match literal_of_text(s) {
        None => None,
        Some(literal) => {
            let units = literal_units(literal);
            if units > i64::MAX {
                None
            } else if literal.negative {
                Some((-(units as int)) as i64)
            } else {
                Some(units as i64)
            }
        },
    }
}

/// A power of ten is at least one.
pub proof fn lemma_pow10_positive(e: nat)
    ensures
        pow10(e) >= 1,
    decreases e,
{
    if e > 0 {
        lemma_pow10_positive((e - 1) as nat);
    }
}

/// A larger exponent gives a power of ten that is no smaller.
pub proof fn lemma_pow10_monotonic(a: nat, b: nat)
    requires
        a <= b,
    ensures
        pow10(a) <= pow10(b),
    decreases b,
{
    if a < b {
        lemma_pow10_monotonic(a, (b - 1) as nat);
    }
}

/// A run of `n` digits stands for a number below ten to the power `n`.
pub proof fn lemma_digits_value_bound(s: Seq<char>)
    requires
        all_digits(s),
    ensures
        digits_value(s) < pow10(s.len()),
    decreases s.len(),
{
    if s.len() > 0 {
        let front = s.drop_last();
        assert forall|i: int| 0 <= i < front.len() implies is_digit(#[trigger] front[i]) by {
            assert(front[i] == s[i]);
        }
        lemma_digits_value_bound(front);
        assert(is_digit(s.last()));
    }
}

/// Dropping the last `k` digits divides by ten to the power `k`, rounding
/// toward zero.
pub proof fn lemma_drop_digits_divides(s: Seq<char>, k: nat)
    requires
        all_digits(s),
    ensures
        digits_value(s) / pow10(k) == if k <= s.len() {
            digits_value(s.take(s.len() - k))
        } else {
            0
        },
    decreases k,
{
    let v = digits_value(s) as int;
    if k > s.len() {
        lemma_digits_value_bound(s);
        lemma_pow10_monotonic(s.len(), k);
        lemma_basic_div(v, pow10(k) as int);
        assert(digits_value(s) / pow10(k) == 0);
    } else if k == 0 {
        assert(s.take(s.len() as int) =~= s);
        assert(pow10(0) == 1);
        assert(digits_value(s) / pow10(k) == digits_value(s));
    } else {
        let j = (k - 1) as nat;
        lemma_drop_digits_divides(s, j);
        lemma_pow10_positive(j);
        lemma_div_denominator(v, pow10(j) as int, 10);
        assert(pow10(k) == pow10(j) * 10);
        let longer = s.take(s.len() - j);
        assert(longer.drop_last() =~= s.take(s.len() - k));
        assert(is_digit(longer.last())) by {
            assert(longer.last() == s[s.len() - j - 1]);
        }
        let q = digits_value(longer.drop_last()) as int;
        let d = digit_value(longer.last()) as int;
        assert(digits_value(longer) == q * 10 + d);
        assert((q * 10 + d) / 10 == q);
        let c = pow10(j) as int;
        assert(v / c == q * 10 + d);
        assert((v / c) / 10 == v / (c * 10));
        assert(pow10(k) as int == c * 10);
        assert(v / (pow10(k) as int) == q);
        assert(digits_value(s) / pow10(k) == digits_value(s.take(s.len() - k)));
    }
}

/// The powers of ten that the reading of literals counts with.
pub proof fn lemma_pow10_values()
    ensures
        pow10(7) == 10_000_000,
        pow10(19) == 10_000_000_000_000_000_000,
        pow10(30) == clamp_bound(),
{
    reveal_with_fuel(pow10, 31);
}

/// A decimal literal holds ASCII characters only.
proof fn lemma_literal_is_ascii(s: Seq<char>)
    requires
        literal_of_text(s) is Some,
    ensures
        vstd::utf8::is_ascii_chars(s),
{
    let negative = s.len() > 0 && s[0] == '-';
    let a: int = if negative {
        1
    } else {
        0
    };
    lemma_digit_run(s, a);
    let b = digit_run_end(s, a);
    let pointed = b < s.len() && s[b] == '.';
    if pointed {
        lemma_digit_run(s, b + 1);
    }
    let c = if pointed {
        digit_run_end(s, b + 1)
    } else {
        b
    };
    if c < s.len() {
        let tail = s.skip(c + 1);
        lemma_integer_text_is_ascii(tail);
        assert forall|i: int| c < i < s.len() implies '\0' <= #[trigger] s[i] <= '\u{7f}' by {
            assert(s[i] == tail[i - c - 1]);
        }
    }
    assert forall|i: int| 0 <= i < s.len() implies '\0' <= #[trigger] s[i] <= '\u{7f}' by {
        if i < a {
        } else if i < b {
            assert(is_digit(s[i]));
        } else if i < c {
            if i > b {
                assert(is_digit(s[i]));
            }
        } else if i == c {
        } else {
        }
    }
}

/// Multiplies by ten to the power `shift`, from clamped value to clamped
/// value.
fn scale_up(start: u128, shift: u128, Ghost(value): Ghost<nat>) -> (scaled: u128)
    requires
        start == clamped(value),
    ensures
        scaled == clamped(value * pow10(shift as nat)),
{
    let bound: u128 = CLAMP_BOUND;
    let mut acc: u128 = start;
    let mut j: u128 = 0;
    assert(value * pow10(0) == value) by (nonlinear_arith)
        requires
            pow10(0) == 1,
    ;
    while j < shift && 0 < acc && acc < bound
        invariant
            j <= shift,
            bound == clamp_bound(),
            acc == clamped(value * pow10(j as nat)),
        decreases shift - j,
    {
        proof {
            let p = pow10(j as nat);
            assert(pow10((j + 1) as nat) == 10 * p);
            assert(value * (10 * p) == (value * p) * 10) by (nonlinear_arith);
        }
        let next: u128 = acc * 10;
        acc = if next > bound {
            bound
        } else {
            next
        };
        j += 1;
    }
    proof {
        let p = pow10(j as nat);
        let q = pow10(shift as nat);
        lemma_pow10_monotonic(j as nat, shift as nat);
        lemma_pow10_positive(j as nat);
        if j < shift {
            if acc == 0 {
                assert(value * p == 0);
                assert(value == 0) by (nonlinear_arith)
                    requires
                        value * p == 0,
                        p >= 1,
                ;
                assert(value * q == 0) by (nonlinear_arith)
                    requires
                        value == 0,
                ;
            } else {
                assert(value * p >= clamp_bound());
                assert(value * q >= value * p) by (nonlinear_arith)
                    requires
                        p <= q,
                ;
            }
        }
    }
    acc
}

/// Where the parts of a literal lie in its text, and its exponent with the
/// magnitude clamped at `clamp_bound()`.
struct Layout {
    negative: bool,
    whole_from: usize,
    whole_to: usize,
    pointed: bool,
    fraction_to: usize,
    exponent_down: bool,
    exponent_size: u128,
}

impl Layout {
    spec fn fraction(self, s: Seq<char>) -> Seq<char> {
        if self.pointed {
            s.subrange(self.whole_to + 1, self.fraction_to as int)
        } else {
            Seq::<char>::empty()
        }
    }

    spec fn mantissa(self, s: Seq<char>) -> Seq<char> {
        s.subrange(self.whole_from as int, self.whole_to as int) + self.fraction(s)
    }

    /// The layout is that of `literal` in `s`.
    spec fn describes(self, s: Seq<char>, literal: Literal) -> bool {
        &&& self.whole_from < self.whole_to <= self.fraction_to <= s.len()
        &&& self.pointed ==> self.whole_to + 1 < self.fraction_to
        &&& !self.pointed ==> self.whole_to == self.fraction_to
        &&& forall|k: int| self.whole_from <= k < self.whole_to ==> is_digit(#[trigger] s[k])
        &&& forall|k: int| self.whole_to < k < self.fraction_to ==> is_digit(#[trigger] s[k])
        &&& literal.negative == self.negative
        &&& literal.mantissa == self.mantissa(s)
        &&& literal.fraction_len == self.fraction(s).len()
        &&& self.exponent_size == clamped(
            (if literal.exponent < 0 {
                -literal.exponent
            } else {
                literal.exponent
            }) as nat,
        )
        &&& literal.exponent < 0 ==> self.exponent_down
        &&& literal.exponent > 0 ==> !self.exponent_down
    }
}

/// Finds the parts of a decimal literal.
fn lay_out(bytes: &[u8], Ghost(s): Ghost<Seq<char>>) -> (found: Option<Layout>)
    requires
        is_ascii_image(bytes@, s),
    ensures
        match found {
            Some(layout) => literal_of_text(s) is Some && layout.describes(
                s,
                literal_of_text(s).unwrap(),
            ),
            None => literal_of_text(s) is None,
        },
{
    let n = bytes.len();
    let negative = n > 0 && bytes[0] == 45u8;
    let a: usize = if negative {
        1
    } else {
        0
    };
    let b = scan_digits(bytes, Ghost(s), a);
    if b == a {
        return None;
    }
    let pointed = b < n && bytes[b] == 46u8;
    let c = if pointed {
        scan_digits(bytes, Ghost(s), b + 1)
    } else {
        b
    };
    if pointed && c == b + 1 {
        return None;
    }
    let mut down = false;
    let mut size: u128 = 0;
    if c < n {
        if bytes[c] != 101u8 && bytes[c] != 69u8 {
            return None;
        }
        match scan_integer(bytes, Ghost(s), c + 1) {
            None => {
                return None;
            },
            Some((minus, magnitude)) => {
                down = minus;
                size = magnitude;
            },
        }
    }
    Some(
        Layout {
            negative,
            whole_from: a,
            whole_to: b,
            pointed,
            fraction_to: c,
            exponent_down: down,
            exponent_size: size,
        },
    )
}

/// The digits of the mantissa but the last `lost`, as a clamped number.
fn read_kept_digits(bytes: &[u8], Ghost(s): Ghost<Seq<char>>, layout: &Layout, keep: usize) -> (kept:
    u128)
    requires
        is_ascii_image(bytes@, s),
        layout.whole_from < layout.whole_to <= layout.fraction_to <= s.len(),
        layout.pointed ==> layout.whole_to + 1 < layout.fraction_to,
        !layout.pointed ==> layout.whole_to == layout.fraction_to,
        forall|k: int| layout.whole_from <= k < layout.whole_to ==> is_digit(#[trigger] s[k]),
        forall|k: int| layout.whole_to < k < layout.fraction_to ==> is_digit(#[trigger] s[k]),
        keep <= layout.mantissa(s).len(),
    ensures
        kept == clamped(digits_value(layout.mantissa(s).take(keep as int))),
{
    let a = layout.whole_from;
    let b = layout.whole_to;
    let ghost none = Seq::<char>::empty();
    if keep <= b - a {
        let kept = accumulate_digits(bytes, Ghost(s), a, a + keep, 0, Ghost(none));
        assert(none + s.subrange(a as int, a + keep) =~= layout.mantissa(s).take(keep as int));
        kept
    } else {
        let whole = accumulate_digits(bytes, Ghost(s), a, b, 0, Ghost(none));
        assert(none + s.subrange(a as int, b as int) =~= s.subrange(a as int, b as int));
        let more: usize = keep - (b - a);
        let kept = accumulate_digits(
            bytes,
            Ghost(s),
            b + 1,
            b + 1 + more,
            whole,
            Ghost(s.subrange(a as int, b as int)),
        );
        assert(s.subrange(a as int, b as int) + s.subrange(b + 1, b + 1 + more)
            =~= layout.mantissa(s).take(keep as int));
        kept
    }
}

/// A number that is not zero, moved up by thirty places or more, is at or
/// above the clamp bound; zero stays zero.
proof fn lemma_far_shift(value: nat, shift: nat)
    requires
        shift >= 30,
    ensures
        clamped(value * pow10(shift)) == if value == 0 {
            0
        } else {
            clamp_bound()
        },
{
    let p = pow10(shift);
    lemma_pow10_values();
    lemma_pow10_monotonic(30, shift);
    if value == 0 {
        assert(value * p == 0) by (nonlinear_arith)
            requires
                value == 0,
        ;
    } else {
        assert(value * p >= clamp_bound()) by (nonlinear_arith)
            requires
                value >= 1,
                p >= clamp_bound(),
        ;
    }
}

/// The magnitude of a literal in fixed-point units, clamped.
fn read_units(bytes: &[u8], Ghost(s): Ghost<Seq<char>>, layout: &Layout, Ghost(literal): Ghost<
    Literal,
>) -> (units: u128)
    requires
        is_ascii_image(bytes@, s),
        layout.describes(s, literal),
    ensures
        units == clamped(literal_units(literal)),
{
    let bound: u128 = CLAMP_BOUND;
    let ghost mantissa = layout.mantissa(s);
    let total: usize = if layout.pointed {
        layout.fraction_to - layout.whole_from - 1
    } else {
        layout.fraction_to - layout.whole_from
    };
    let frac_len: usize = total - (layout.whole_to - layout.whole_from);
    assert(mantissa.len() == total);
    assert(literal.fraction_len == frac_len);
    assert(all_digits(mantissa));
    let signed_exponent: i128 = if layout.exponent_down {
        -(layout.exponent_size as i128)
    } else {
        layout.exponent_size as i128
    };
    // The shift as far as the clamped exponent shows it. Where the exponent
    // was clamped, the true shift lies further out on the same side.
    let ghost shift: int = literal.exponent - frac_len + 7;
    let seen_shift: i128 = signed_exponent - (frac_len as i128) + 7;
    assert(layout.exponent_size < bound ==> seen_shift == shift);
    assert(layout.exponent_size == bound && layout.exponent_down ==> shift <= seen_shift);
    assert(layout.exponent_size == bound && !layout.exponent_down ==> shift >= seen_shift);
    if seen_shift >= 0 {
        let all = read_kept_digits(bytes, Ghost(s), layout, total);
        assert(mantissa.take(total as int) =~= mantissa);
        let ghost value = digits_value(mantissa);
        let units = scale_up(all, seen_shift as u128, Ghost(value));
        proof {
            if layout.exponent_size == bound {
                lemma_far_shift(value, seen_shift as nat);
                lemma_far_shift(value, shift as nat);
            }
        }
        units
    } else {
        let lost: i128 = -seen_shift;
        if lost >= total as i128 {
            proof {
                lemma_drop_digits_divides(mantissa, (-shift) as nat);
            }
            0
        } else {
            proof {
                lemma_drop_digits_divides(mantissa, lost as nat);
            }
            read_kept_digits(bytes, Ghost(s), layout, total - (lost as usize))
        }
    }
}

/// Reads a decimal literal as a fixed-point number with `FRACTION_DIGITS`
/// digits after the point, rounding toward zero.
pub fn parse_fixed(text: &str) -> (parsed: Option<i64>)
    ensures
        parsed == fixed_of_text(text@),
{
    if !text.is_ascii() {
        proof {
            if literal_of_text(text@) is Some {
                lemma_literal_is_ascii(text@);
            }
        }
        return None;
    }
    let bytes = text.as_bytes();
    proof {
        is_ascii_spec_bytes(text);
    }
    match lay_out(bytes, Ghost(text@)) {
        None => None,
        Some(layout) => {
            let units = read_units(
                bytes,
                Ghost(text@),
                &layout,
                Ghost(literal_of_text(text@).unwrap()),
            );
            if units > 9223372036854775807u128 {
                None
            } else if layout.negative {
                Some(-(units as i64))
            } else {
                Some(units as i64)
            }
        },
    }
}

/// The last `width` decimal digits of `n`, with zeros in front where `n` has
/// fewer.
pub open spec fn padded_digits(n: nat, width: nat) -> Seq<char>
    decreases width,
{
    if width == 0 {
        Seq::<char>::empty()
    } else {
        padded_digits(n / 10, (width - 1) as nat).push(digit_char(n % 10))
    }
}

/// The text of a fixed-point number: a `-` for a negative one, the digits of
/// the whole part, a point, and `FRACTION_DIGITS` digits of the fraction.
pub open spec fn fixed_text(v: int) -> Seq<char> {
    let magnitude = (if v < 0 {
        -v
    } else {
        v
    }) as nat;
    let sign = if v < 0 {
        seq!['-']
    } else {
        Seq::<char>::empty()
    };
    sign + decimal_digits(magnitude / 10_000_000) + seq!['.'] + padded_digits(
        magnitude % 10_000_000,
        FRACTION_DIGITS as nat,
    )
}

/// Appends the last `width` digits of `n` to `text`.
fn append_padded(text: &mut String, n: u64, width: usize)
    ensures
        final(text)@ == old(text)@ + padded_digits(n as nat, width as nat),
    decreases width,
{
    if width == 0 {
        assert(text@ =~= text@ + Seq::<char>::empty());
    } else {
        append_padded(text, n / 10, width - 1);
        let one = digit_text((n % 10) as u8);
        text.append(one);
        assert(text@ =~= old(text)@ + padded_digits(n as nat, width as nat));
    }
}

/// Writes a fixed-point number as a decimal literal.
pub fn format_fixed(v: i64) -> (text: String)
    ensures
        text@ == fixed_text(v as int),
{
    let magnitude: u64 = if v == i64::MIN {
        9223372036854775808u64
    } else if v < 0 {
        (-v) as u64
    } else {
        v as u64
    };
    let mut text = if v < 0 {
        String::from_str("-")
    } else {
        String::from_str("")
    };
    proof {
        reveal_strlit("-");
        reveal_strlit("");
        reveal_strlit(".");
    }
    let ghost sign = text@;
    let whole = format_u64(magnitude / 10_000_000);
    text.append(whole.as_str());
    text.append(".");
    append_padded(&mut text, magnitude % 10_000_000, FRACTION_DIGITS);
    assert(text@ =~= fixed_text(v as int));
    text
}

/// A run of digits followed by another stands for the first number, moved
/// up by the length of the second run, plus the second number.
pub proof fn lemma_digits_value_concat(front: Seq<char>, back: Seq<char>)
    ensures
        digits_value(front + back) == digits_value(front) * pow10(back.len()) + digits_value(back),
    decreases back.len(),
{
    if back.len() == 0 {
        assert(front + back =~= front);
        assert(digits_value(front) * pow10(0) == digits_value(front)) by (nonlinear_arith)
            requires
                pow10(0) == 1,
        ;
    } else {
        let shorter = back.drop_last();
        lemma_digits_value_concat(front, shorter);
        assert((front + back).drop_last() =~= front + shorter);
        assert((front + back).last() == back.last());
        let a = digits_value(front) as int;
        let p = pow10(shorter.len()) as int;
        assert(pow10(back.len()) == 10 * p);
        assert((a * p + digits_value(shorter)) * 10 == a * (10 * p) + digits_value(shorter) * 10)
            by (nonlinear_arith);
    }
}

/// `padded_digits` writes `width` digits, and they stand for the number
/// written, less whatever does not fit in `width` digits.
pub proof fn lemma_padded_digits_value(n: nat, width: nat)
    ensures
        padded_digits(n, width).len() == width,
        all_digits(padded_digits(n, width)),
        digits_value(padded_digits(n, width)) == n % pow10(width),
    decreases width,
{
    if width == 0 {
        assert(pow10(0) == 1);
    } else {
        let w = (width - 1) as nat;
        lemma_padded_digits_value(n / 10, w);
        lemma_digit_round_trip(n % 10);
        lemma_pow10_positive(w);
        let s = padded_digits(n, width);
        assert(s.drop_last() =~= padded_digits(n / 10, w));
        assert(s.last() == digit_char(n % 10));
        assert forall|i: int| 0 <= i < s.len() implies is_digit(#[trigger] s[i]) by {
            if i < w {
                assert(s[i] == padded_digits(n / 10, w)[i]);
            }
        }
        let p = pow10(w) as int;
        assert(pow10(width) == 10 * p);
        assert(((n / 10) % (p as nat)) * 10 + n % 10 == n % ((10 * p) as nat)) by {
            vstd::arithmetic::div_mod::lemma_fundamental_div_mod(n as int, 10);
            vstd::arithmetic::div_mod::lemma_fundamental_div_mod((n / 10) as int, p);
            let q = (n / 10) as int / p;
            let r = (n / 10) as int % p;
            let d = (n % 10) as int;
            assert(n as int == 10 * (p * q + r) + d);
            assert(10 * (p * q + r) + d == q * (10 * p) + (r * 10 + d)) by (nonlinear_arith);
            assert(0 <= r * 10 + d);
            assert((r * 10 + d) < 10 * p);
            vstd::arithmetic::div_mod::lemma_fundamental_div_mod_converse_mod(
                n as int,
                10 * p,
                q,
                r * 10 + d,
            );
        }
    }
}

/// What `format_fixed` writes, `parse_fixed` reads back as the same number.
/// The smallest `i64` is left out: its magnitude is no `i64`, and reading
/// stops at magnitudes that are.
pub proof fn lemma_fixed_text_round_trip(v: i64)
    requires
        v != i64::MIN,
    ensures
        fixed_of_text(fixed_text(v as int)) == Some(v),
{
    let magnitude = (if v < 0 {
        -v
    } else {
        v as int
    }) as nat;
    let sign = if v < 0 {
        seq!['-']
    } else {
        Seq::<char>::empty()
    };
    let whole = decimal_digits(magnitude / 10_000_000);
    let fraction = padded_digits(magnitude % 10_000_000, 7);
    let s = fixed_text(v as int);
    lemma_decimal_digits_value(magnitude / 10_000_000);
    lemma_padded_digits_value(magnitude % 10_000_000, 7);
    lemma_pow10_values();
    let a = sign.len() as int;
    let b = a + whole.len();
    let c = b + 1 + 7;
    assert(s.len() == c);
    assert forall|k: int| a <= k < b implies is_digit(#[trigger] s[k]) by {
        assert(s[k] == whole[k - a]);
    }
    assert(s[b] == '.');
    assert forall|k: int| b + 1 <= k < c implies is_digit(#[trigger] s[k]) by {
        assert(s[k] == fraction[k - b - 1]);
    }
    if v < 0 {
        assert(s[0] == '-');
    } else {
        assert(is_digit(s[0]));
    }
    lemma_digit_run_ends_at(s, a, b);
    lemma_digit_run_ends_at(s, b + 1, c);
    assert(s.subrange(a, b) =~= whole);
    assert(s.subrange(b + 1, c) =~= fraction);
    let literal = literal_of_text(s).unwrap();
    assert(literal.mantissa == whole + fraction);
    assert(literal.exponent == 0);
    assert(literal.fraction_len == 7);
    lemma_digits_value_concat(whole, fraction);
    let units = literal_units(literal);
    assert(units == digits_value(whole + fraction) * pow10(0));
    assert(digits_value(whole + fraction) * pow10(0) == digits_value(whole + fraction))
        by (nonlinear_arith)
        requires
            pow10(0) == 1,
    ;
    assert((magnitude % 10_000_000) % 10_000_000 == magnitude % 10_000_000);
    assert(units == (magnitude / 10_000_000) * 10_000_000 + magnitude % 10_000_000);
    assert(units == magnitude);
}

} // verus!

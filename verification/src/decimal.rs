use vstd::prelude::*;
use vstd::string::*;

verus! {

/// Whether a character is one of the ten decimal digits.
pub open spec fn is_digit(c: char) -> bool {
    '0' <= c <= '9'
}

/// The number that a decimal digit stands for.
pub open spec fn digit_value(c: char) -> nat {
    (c as u32 - '0' as u32) as nat
}

/// The decimal digit that stands for `d`, for `d` below ten.
pub open spec fn digit_char(d: nat) -> char {
    (d + 48) as u8 as char
}

/// Whether a sequence holds decimal digits only.
pub open spec fn all_digits(s: Seq<char>) -> bool {
    forall|i: int| 0 <= i < s.len() ==> is_digit(#[trigger] s[i])
}

/// The number that a sequence of decimal digits stands for; the empty
/// sequence stands for zero.
pub open spec fn digits_value(s: Seq<char>) -> nat
    decreases s.len(),
{
    if s.len() == 0 {
        0
    } else {
        digits_value(s.drop_last()) * 10 + digit_value(s.last())
    }
}

/// The decimal digits of `n`, without leading zeros; zero is "0".
pub open spec fn decimal_digits(n: nat) -> Seq<char>
    decreases n,
{
    if n < 10 {
        seq![digit_char(n)]
    } else {
        decimal_digits(n / 10).push(digit_char(n % 10))
    }
}

/// The digit written for a number below ten stands for that number.
pub proof fn lemma_digit_round_trip(d: nat)
    requires
        d < 10,
    ensures
        is_digit(digit_char(d)),
        digit_value(digit_char(d)) == d,
{
}

/// `decimal_digits` writes digits only, and they stand for the number written.
pub proof fn lemma_decimal_digits_value(n: nat)
    ensures
        decimal_digits(n).len() >= 1,
        all_digits(decimal_digits(n)),
        digits_value(decimal_digits(n)) == n,
    decreases n,
{
    if n < 10 {
        lemma_digit_round_trip(n);
        let s = decimal_digits(n);
        assert(s.drop_last() =~= Seq::<char>::empty());
        assert(digits_value(s.drop_last()) == 0);
    } else {
        lemma_decimal_digits_value(n / 10);
        lemma_digit_round_trip(n % 10);
        let s = decimal_digits(n);
        assert(s.drop_last() =~= decimal_digits(n / 10));
        assert(s.last() == digit_char(n % 10));
    }
}

/// The one-character text of a digit.
pub(crate) fn digit_text(d: u8) -> (text: &'static str)
    requires
        d < 10,
    ensures
        text@ == seq![digit_char(d as nat)],
{
    proof {
        reveal_strlit("0");
        reveal_strlit("1");
        reveal_strlit("2");
        reveal_strlit("3");
        reveal_strlit("4");
        reveal_strlit("5");
        reveal_strlit("6");
        reveal_strlit("7");
        reveal_strlit("8");
        reveal_strlit("9");
    }
    let text = match d {
        0 => "0",
        1 => "1",
        2 => "2",
        3 => "3",
        4 => "4",
        5 => "5",
        6 => "6",
        7 => "7",
        8 => "8",
        _ => "9",
    };
    assert(text@ =~= seq![digit_char(d as nat)]);
    text
}

/// Writes `n` in decimal.
pub fn format_u64(n: u64) -> (text: String)
    ensures
        text@ == decimal_digits(n as nat),
    decreases n,
{
    if n < 10 {
        String::from_str(digit_text(n as u8))
    } else {
        let mut text = format_u64(n / 10);
        text.append(digit_text((n % 10) as u8));
        assert(text@ =~= decimal_digits(n as nat));
        text
    }
}

/// Where the run of digits that starts at `from` ends: the first position at
/// or after `from` that holds no digit, or the length of `s`.
pub open spec fn digit_run_end(s: Seq<char>, from: int) -> int
    decreases s.len() - from,
{
    if 0 <= from < s.len() && is_digit(s[from]) {
        digit_run_end(s, from + 1)
    } else {
        from
    }
}

/// `bytes` holds the characters of `s`, one byte each, all of them ASCII.
pub open spec fn is_ascii_image(bytes: Seq<u8>, s: Seq<char>) -> bool {
    &&& bytes.len() == s.len()
    &&& forall|k: int|
        0 <= k < s.len() ==> '\0' <= #[trigger] s[k] <= '\u{7f}' && bytes[k] == s[k] as u8
}

/// The bound at which `accumulate_digits` stops counting: ten to the power
/// thirty.
pub const CLAMP_BOUND: u128 = 1_000_000_000_000_000_000_000_000_000_000;

/// The clamp bound as a number of the contracts.
pub open spec fn clamp_bound() -> nat {
    CLAMP_BOUND as nat
}

/// `v`, or `clamp_bound()` where `v` is larger.
pub open spec fn clamped(v: nat) -> nat {
    if v <= clamp_bound() {
        v
    } else {
        clamp_bound()
    }
}

/// One more digit at the end: ten times the number so far, plus the digit.
pub proof fn lemma_digits_value_push(s: Seq<char>, c: char)
    ensures
        digits_value(s.push(c)) == digits_value(s) * 10 + digit_value(c),
{
    assert(s.push(c).drop_last() =~= s);
}

/// The position at which the run of digits from `from` ends.
pub(crate) fn scan_digits(bytes: &[u8], Ghost(s): Ghost<Seq<char>>, from: usize) -> (end: usize)
    requires
        is_ascii_image(bytes@, s),
        from <= bytes.len(),
    ensures
        end == digit_run_end(s, from as int),
        from <= end <= bytes.len(),
        forall|k: int| from <= k < end ==> is_digit(#[trigger] s[k]),
        end < bytes.len() ==> !is_digit(s[end as int]),
{
    let mut i: usize = from;
    while i < bytes.len()
        invariant
            from <= i <= bytes.len(),
            is_ascii_image(bytes@, s),
            digit_run_end(s, from as int) == digit_run_end(s, i as int),
            forall|k: int| from <= k < i ==> is_digit(#[trigger] s[k]),
        decreases bytes.len() - i,
    {
        let b = bytes[i];
        let ghost c = s[i as int];
        assert(b == c as u8);
        if b < 48u8 || b > 57u8 {
            assert(!is_digit(c));
            return i;
        }
        assert(is_digit(c));
        i += 1;
    }
    i
}

/// Goes on reading digits: from the clamped value of `prefix` to the clamped
/// value of `prefix` followed by the digits at `from..to`.
pub(crate) fn accumulate_digits(
    bytes: &[u8],
    Ghost(s): Ghost<Seq<char>>,
    from: usize,
    to: usize,
    start: u128,
    Ghost(prefix): Ghost<Seq<char>>,
) -> (acc: u128)
    requires
        is_ascii_image(bytes@, s),
        from <= to <= bytes.len(),
        forall|k: int| from <= k < to ==> is_digit(#[trigger] s[k]),
        start == clamped(digits_value(prefix)),
    ensures
        acc == clamped(digits_value(prefix + s.subrange(from as int, to as int))),
{
    let mut acc: u128 = start;
    let mut i: usize = from;
    assert(prefix + s.subrange(from as int, from as int) =~= prefix);
    while i < to
        invariant
            from <= i <= to <= bytes.len(),
            is_ascii_image(bytes@, s),
            forall|k: int| from <= k < to ==> is_digit(#[trigger] s[k]),
            acc == clamped(digits_value(prefix + s.subrange(from as int, i as int))),
        decreases to - i,
    {
        let b = bytes[i];
        let ghost c = s[i as int];
        assert(is_digit(c));
        assert(b == c as u8);
        let d: u128 = (b - 48u8) as u128;
        proof {
            let before = prefix + s.subrange(from as int, i as int);
            assert(prefix + s.subrange(from as int, i + 1) =~= before.push(c));
            lemma_digits_value_push(before, c);
        }
        let next: u128 = acc * 10 + d;
        acc = if next > CLAMP_BOUND {
            CLAMP_BOUND
        } else {
            next
        };
        i += 1;
    }
    acc
}

/// What lies between `from` and the end of its run is digits, and what
/// follows the run is none.
pub proof fn lemma_digit_run(s: Seq<char>, from: int)
    requires
        0 <= from <= s.len(),
    ensures
        from <= digit_run_end(s, from) <= s.len(),
        forall|k: int| from <= k < digit_run_end(s, from) ==> is_digit(#[trigger] s[k]),
        digit_run_end(s, from) < s.len() ==> !is_digit(s[digit_run_end(s, from)]),
    decreases s.len() - from,
{
    if from < s.len() && is_digit(s[from]) {
        lemma_digit_run(s, from + 1);
    }
}

/// A run of digits that starts at `from` ends at `to` where everything
/// between the two is a digit and what stands at `to` is none.
pub proof fn lemma_digit_run_ends_at(s: Seq<char>, from: int, to: int)
    requires
        0 <= from <= to <= s.len(),
        forall|k: int| from <= k < to ==> is_digit(#[trigger] s[k]),
        to < s.len() ==> !is_digit(s[to]),
    ensures
        digit_run_end(s, from) == to,
    decreases to - from,
{
    if from < to {
        assert(is_digit(s[from]));
        lemma_digit_run_ends_at(s, from + 1, to);
    }
}

/// The digits from `from` on are all digits exactly when their run ends at
/// the end of the text.
pub proof fn lemma_run_to_the_end(s: Seq<char>, from: int)
    requires
        0 <= from <= s.len(),
    ensures
        all_digits(s.skip(from)) <==> digit_run_end(s, from) == s.len(),
        from <= digit_run_end(s, from) <= s.len(),
    decreases s.len() - from,
{
    let rest = s.skip(from);
    if from < s.len() {
        lemma_run_to_the_end(s, from + 1);
        let tail = s.skip(from + 1);
        assert(rest[0] == s[from]);
        if is_digit(s[from]) {
            if all_digits(tail) {
                assert forall|i: int| 0 <= i < rest.len() implies is_digit(#[trigger] rest[i]) by {
                    if i > 0 {
                        assert(rest[i] == tail[i - 1]);
                    }
                }
            }
            if all_digits(rest) {
                assert forall|i: int| 0 <= i < tail.len() implies is_digit(#[trigger] tail[i]) by {
                    assert(tail[i] == rest[i + 1]);
                }
            }
        }
    }
}

/// The integer that a text stands for: an optional sign, `+` or `-`, and then
/// one or more decimal digits and nothing else.
pub open spec fn int_of_text(s: Seq<char>) -> Option<int> {
    let signed = s.len() > 0 && (s[0] == '-' || s[0] == '+');
    let body = if signed {
        s.skip(1)
    } else {
        s
    };
    if body.len() == 0 || !all_digits(body) {
        None
    } else if s[0] == '-' {
        Some(-(digits_value(body) as int))
    } else {
        Some(digits_value(body) as int)
    }
}

/// The `i64` that a text stands for; `None` where it stands for no integer or
/// for one out of range.
pub open spec fn i64_of_text(s: Seq<char>) -> Option<i64> {
    match int_of_text(s) {
        Some(v) => if i64::MIN <= v <= i64::MAX {
            Some(v as i64)
        } else {
            None
        },
        None => None,
    }
}

/// The text of a signed integer: a `-` for a negative one, then the digits of
/// its magnitude.
pub open spec fn int_text(v: int) -> Seq<char> {
    if v < 0 {
        seq!['-'] + decimal_digits((-v) as nat)
    } else {
        decimal_digits(v as nat)
    }
}

/// A text that holds a character outside ASCII stands for no integer.
pub proof fn lemma_integer_text_is_ascii(s: Seq<char>)
    requires
        int_of_text(s) is Some,
    ensures
        vstd::utf8::is_ascii_chars(s),
{
    let signed = s.len() > 0 && (s[0] == '-' || s[0] == '+');
    let body = if signed {
        s.skip(1)
    } else {
        s
    };
    assert forall|i: int| 0 <= i < s.len() implies '\0' <= #[trigger] s[i] <= '\u{7f}' by {
        if signed {
            if i > 0 {
                assert(is_digit(body[i - 1]));
            }
        } else {
            assert(is_digit(body[i]));
        }
    }
}

/// Reads a signed decimal integer: an optional `+` or `-`, then digits
/// only; no blanks, and no value out of range. This is the grammar of
/// `str::parse::<i64>`.
pub fn parse_i64(text: &str) -> (parsed: Option<i64>)
    ensures
        parsed == i64_of_text(text@),
{
    if !text.is_ascii() {
        proof {
            if int_of_text(text@) is Some {
                lemma_integer_text_is_ascii(text@);
            }
        }
        return None;
    }
    let bytes = text.as_bytes();
    proof {
        is_ascii_spec_bytes(text);
    }
    match scan_integer(bytes, Ghost(text@), 0) {
        None => {
            assert(text@.skip(0) =~= text@);
            None
        },
        Some((negative, magnitude)) => {
            assert(text@.skip(0) =~= text@);
            if negative {
                if magnitude > 9223372036854775808u128 {
                    None
                } else if magnitude == 9223372036854775808u128 {
                    Some(i64::MIN)
                } else {
                    Some(-(magnitude as i64))
                }
            } else if magnitude > 9223372036854775807u128 {
                None
            } else {
                Some(magnitude as i64)
            }
        },
    }
}

/// Reads the signed integer that fills the text from `from` to its end: its
/// sign, and its magnitude clamped at `clamp_bound()`.
pub(crate) fn scan_integer(bytes: &[u8], Ghost(s): Ghost<Seq<char>>, from: usize) -> (parsed: Option<
    (bool, u128),
>)
    requires
        is_ascii_image(bytes@, s),
        from <= bytes.len(),
    ensures
        match int_of_text(s.skip(from as int)) {
            None => parsed is None,
            Some(v) => parsed == Some(
                (
                    v < 0 || (v == 0 && s[from as int] == '-'),
                    clamped(
                        (if v < 0 {
                            -v
                        } else {
                            v
                        }) as nat,
                    ) as u128,
                ),
            ),
        },
{
    let n = bytes.len();
    let ghost rest = s.skip(from as int);
    if from == n {
        return None;
    }
    assert(rest[0] == s[from as int]);
    assert(bytes[from as int] == s[from as int] as u8);
    let negative = bytes[from] == 45u8;
    let signed = negative || bytes[from] == 43u8;
    let start: usize = if signed {
        from + 1
    } else {
        from
    };
    let ghost body = if signed {
        rest.skip(1)
    } else {
        rest
    };
    assert(body =~= s.skip(start as int));
    let end = scan_digits(bytes, Ghost(s), start);
    proof {
        lemma_run_to_the_end(s, start as int);
    }
    if end == start || end != n {
        return None;
    }
    let magnitude = accumulate_digits(bytes, Ghost(s), start, n, 0, Ghost(Seq::<char>::empty()));
    proof {
        assert(Seq::<char>::empty() + s.subrange(start as int, n as int) =~= body);
    }
    Some((negative, magnitude))
}

/// Writes a signed integer in decimal.
pub fn format_i64(v: i64) -> (text: String)
    ensures
        text@ == int_text(v as int),
{
    if v < 0 {
        let magnitude: u64 = if v == i64::MIN {
            9223372036854775808u64
        } else {
            (-v) as u64
        };
        let mut text = String::from_str("-");
        let digits = format_u64(magnitude);
        text.append(digits.as_str());
        proof {
            reveal_strlit("-");
            assert(text@ =~= int_text(v as int));
        }
        text
    } else {
        format_u64(v as u64)
    }
}

/// Reading the text that was written for an integer gives the integer back.
pub proof fn lemma_int_text_round_trip(v: int)
    ensures
        int_of_text(int_text(v)) == Some(v),
{
    let s = int_text(v);
    if v < 0 {
        let digits = decimal_digits((-v) as nat);
        lemma_decimal_digits_value((-v) as nat);
        assert(s.skip(1) =~= digits);
        assert(s[0] == '-');
    } else {
        lemma_decimal_digits_value(v as nat);
        let first = s[0];
        assert(is_digit(first));
    }
}

/// What `format_i64` writes, `parse_i64` reads back as the same number.
pub proof fn lemma_i64_text_round_trip(v: i64)
    ensures
        i64_of_text(int_text(v as int)) == Some(v),
{
    lemma_int_text_round_trip(v as int);
}

} // verus!

//! Amounts of time in hours, held exactly as whole millionths of an hour.

use crate::text::{
    all_digits, decimal_digits, digit_char, digit_to_char, digit_value, digits_value, is_digit,
    push_decimal,
};
use vstd::prelude::*;
use vstd::string::*;

verus! {

/// Millionths in one hour.
pub const MICROS_PER_HOUR: u64 = 1_000_000;

const ASCII_DOT: u8 = 46;

const ASCII_ZERO: u8 = 48;

const ASCII_NINE: u8 = 57;

/// A non-negative amount of hours with six decimal places.
///
/// Sums and products saturate at `u64::MAX` millionths, the largest amount.
#[derive(Clone, Copy, Debug, PartialEq, Eq, Structural)]
pub struct Hours {
    pub micros: u64,
}

impl View for Hours {
    type V = int;

    open spec fn view(&self) -> int {
        self.micros as int
    }
}

/// A non-negative total, cut off at the largest amount that `Hours` holds.
pub open spec fn saturated(total: int) -> int {
    if total > u64::MAX {
        u64::MAX as int
    } else {
        total
    }
}

/// The amount rounded to tenths of an hour, halves upwards.
pub open spec fn rounded_tenths(micros: int) -> int {
    (micros + 50_000) / 100_000
}

/// The amount as text with one decimal place, such as `5.0` or `0.3`.
pub open spec fn one_decimal_text(micros: int) -> Seq<char> {
    decimal_digits((rounded_tenths(micros) / 10) as nat).push('.').push(
        digit_char(rounded_tenths(micros) % 10),
    )
}

impl Hours {
    /// The amount of `micros` millionths of an hour.
    pub fn from_micros(micros: u64) -> (r: Hours)
        ensures
            r.micros == micros,
    {
        Hours { micros }
    }

    /// The amount of `hours` whole hours.
    pub fn from_whole(hours: u32) -> (r: Hours)
        ensures
            r@ == hours * 1_000_000,
    {
        Hours { micros: hours as u64 * MICROS_PER_HOUR }
    }

    /// No time at all.
    pub fn zero() -> (r: Hours)
        ensures
            r@ == 0,
    {
        Hours { micros: 0 }
    }

    /// The amount in millionths of an hour.
    pub fn as_micros(&self) -> (r: u64)
        ensures
            r == self.micros,
    {
        self.micros
    }

    /// The sum of two amounts, cut off at the largest amount.
    pub fn saturating_add(self, other: Hours) -> (r: Hours)
        ensures
            r@ == saturated(self@ + other@),
    {
        Hours { micros: self.micros.saturating_add(other.micros) }
    }

    /// The amount taken `count` times, cut off at the largest amount.
    pub fn saturating_times(self, count: u32) -> (r: Hours)
        ensures
            r@ == saturated(self@ * count),
    {
        match self.micros.checked_mul(count as u64) {
            Some(product) => Hours { micros: product },
            None => Hours { micros: u64::MAX },
        }
    }

    /// Appends the amount to `out`, rounded to one decimal place.
    pub fn push_one_decimal(&self, out: &mut String)
        ensures
            final(out)@ == old(out)@ + one_decimal_text(self@),
    {
        let whole: u64 = self.micros / 100_000;
        let rest: u64 = self.micros % 100_000;
        let tenths: u64 = if rest >= 50_000 {
            whole + 1
        } else {
            whole
        };
        assert(tenths == rounded_tenths(self@));
        push_decimal(out, tenths / 10);
        out.push('.');
        out.push(digit_to_char((tenths % 10) as u8));
        assert(out@ =~= old(out)@ + one_decimal_text(self@));
    }
}

/// Why a text is not an amount of hours.
#[derive(Clone, Copy, Debug, PartialEq, Eq, Structural)]
pub enum HoursParseError {
    /// The text is not of the form digits, or digits `.` digits, with at least one digit.
    Malformed,
    /// The amount is more than `Hours` can hold.
    TooLarge,
}

/// Where the first `.` of `s` stands; the length of `s` if it has none.
pub open spec fn dot_position(s: Seq<char>) -> int
    decreases s.len(),
{
    if s.len() == 0 || s.first() == '.' {
        0
    } else {
        1 + dot_position(s.drop_first())
    }
}

/// The characters before the first `.`.
pub open spec fn whole_digits(s: Seq<char>) -> Seq<char> {
    s.take(dot_position(s))
}

/// The characters after the first `.`.
pub open spec fn fraction_digits(s: Seq<char>) -> Seq<char> {
    if dot_position(s) < s.len() {
        s.skip(dot_position(s) + 1)
    } else {
        Seq::empty()
    }
}

/// Whether `s` is written as an amount of hours: decimal digits, with at most one `.`
/// among them, and at least one digit (`2`, `2.5`, `.5`, `2.`).
pub open spec fn is_hours_text(s: Seq<char>) -> bool {
    &&& all_digits(whole_digits(s))
    &&& all_digits(fraction_digits(s))
    &&& whole_digits(s).len() + fraction_digits(s).len() > 0
}

/// The first six fractional digits; places that are not written read as `0`.
pub open spec fn six_places(fraction: Seq<char>) -> Seq<char> {
    Seq::new(
        6,
        |i: int|
            if i < fraction.len() {
                fraction[i]
            } else {
                '0'
            },
    )
}

/// The millionths of an hour that an hours text stands for. Digits after the sixth
/// decimal place are dropped.
pub open spec fn text_micros(s: Seq<char>) -> nat {
    digits_value(whole_digits(s)) * 1_000_000 + digits_value(six_places(fraction_digits(s)))
}

/// What `parse_hours` makes of a text.
pub open spec fn parsed_hours(s: Seq<char>) -> Result<Hours, HoursParseError> {
    if !is_hours_text(s) {
        Err(HoursParseError::Malformed)
    } else if text_micros(s) > u64::MAX {
        Err(HoursParseError::TooLarge)
    } else {
        Ok(Hours { micros: text_micros(s) as u64 })
    }
}

proof fn lemma_dot_position_is(s: Seq<char>, p: int)
    requires
        0 <= p <= s.len(),
        forall|j: int| 0 <= j < p ==> s[j] != '.',
        p < s.len() ==> s[p] == '.',
    ensures
        dot_position(s) == p,
    decreases p,
{
    if p > 0 {
        let rest = s.drop_first();
        assert forall|j: int| 0 <= j < p - 1 implies rest[j] != '.' by {
            assert(rest[j] == s[j + 1]);
        }
        lemma_dot_position_is(rest, p - 1);
    }
}

proof fn lemma_dot_position(s: Seq<char>)
    ensures
        0 <= dot_position(s) <= s.len(),
        forall|j: int| 0 <= j < dot_position(s) ==> s[j] != '.',
        dot_position(s) < s.len() ==> s[dot_position(s)] == '.',
    decreases s.len(),
{
    if !(s.len() == 0 || s.first() == '.') {
        let rest = s.drop_first();
        lemma_dot_position(rest);
        assert forall|j: int| 0 <= j < dot_position(s) implies s[j] != '.' by {
            if j > 0 {
                assert(rest[j - 1] == s[j]);
            }
        }
    }
}

proof fn lemma_digits_value_of_prefix(s: Seq<char>, k: int)
    requires
        all_digits(s),
        0 <= k <= s.len(),
    ensures
        digits_value(s.take(k)) <= digits_value(s),
    decreases s.len() - k,
{
    if k == s.len() {
        assert(s.take(k) =~= s);
    } else {
        let init = s.drop_last();
        assert(init.take(k) =~= s.take(k));
        assert forall|i: int| 0 <= i < init.len() implies is_digit(#[trigger] init[i]) by {
            assert(init[i] == s[i]);
        }
        assert(is_digit(s[s.len() - 1]));
        lemma_digits_value_of_prefix(init, k);
    }
}

proof fn lemma_digits_value_step(s: Seq<char>, k: int)
    requires
        0 <= k < s.len(),
        is_digit(s[k]),
    ensures
        digits_value(s.take(k + 1)) == digits_value(s.take(k)) * 10 + digit_value(s[k]),
{
    assert(s.take(k + 1).drop_last() =~= s.take(k));
    assert(s.take(k + 1).last() == s[k]);
}

proof fn lemma_bad_character_is_malformed(s: Seq<char>, k: int)
    requires
        0 <= k < s.len(),
        !is_digit(s[k]),
        k != dot_position(s),
    ensures
        !is_hours_text(s),
{
    lemma_dot_position(s);
    let p = dot_position(s);
    if k < p {
        assert(whole_digits(s)[k] == s[k]);
    } else {
        assert(fraction_digits(s)[k - p - 1] == s[k]);
    }
}

/// Reads an amount of hours from text such as `2`, `2.5` or `.25`.
///
/// The text is decimal digits with at most one `.`, and at least one digit; no sign, no
/// exponent, no blanks. Digits after the sixth decimal place are dropped.
pub fn parse_hours(text: &str) -> (r: Result<Hours, HoursParseError>)
    ensures
        r == parsed_hours(text@),
{
    let ghost s = text@;
    if !text.is_ascii() {
        proof {
            let k = choose|k: int| 0 <= k < s.len() && !('\0' <= #[trigger] s[k] <= '\u{7f}');
            lemma_dot_position(s);
            lemma_bad_character_is_malformed(s, k);
        }
        return Err(HoursParseError::Malformed);
    }
    let n: usize = text.unicode_len();
    let mut dot: usize = 0;
    while dot < n && text.get_ascii(dot) != ASCII_DOT
        invariant
            dot <= n,
            n == s.len(),
            text@ == s,
            is_ascii(text),
            forall|j: int| 0 <= j < dot ==> s[j] != '.',
        decreases n - dot,
    {
        dot = dot + 1;
    }
    proof {
        lemma_dot_position_is(s, dot as int);
    }
    let mut i: usize = 0;
    while i < n
        invariant
            i <= n,
            n == s.len(),
            text@ == s,
            is_ascii(text),
            dot == dot_position(s),
            forall|j: int| 0 <= j < i && j != dot ==> is_digit(#[trigger] s[j]),
        decreases n - i,
    {
        if i != dot {
            let b: u8 = text.get_ascii(i);
            if b < ASCII_ZERO || b > ASCII_NINE {
                proof {
                    lemma_bad_character_is_malformed(s, i as int);
                }
                return Err(HoursParseError::Malformed);
            }
        }
        i = i + 1;
    }
    let ghost whole_part = whole_digits(s);
    let ghost fraction = fraction_digits(s);
    let ghost places = six_places(fraction);
    proof {
        assert forall|j: int| 0 <= j < whole_part.len() implies is_digit(#[trigger] whole_part[j]) by {
            assert(whole_part[j] == s[j]);
        }
        assert forall|j: int| 0 <= j < fraction.len() implies is_digit(#[trigger] fraction[j]) by {
            assert(fraction[j] == s[j + dot + 1]);
        }
    }
    if n == 0 || (dot < n && n == 1) {
        return Err(HoursParseError::Malformed);
    }
    assert(is_hours_text(s));
    let mut whole: u64 = 0;
    let mut k: usize = 0;
    while k < dot
        invariant
            k <= dot <= n,
            n == s.len(),
            text@ == s,
            is_ascii(text),
            dot == dot_position(s),
            whole_part == whole_digits(s),
            all_digits(whole_part),
            is_hours_text(s),
            whole == digits_value(whole_part.take(k as int)),
        decreases dot - k,
    {
        let b: u8 = text.get_ascii(k);
        proof {
            assert(whole_part[k as int] == s[k as int]);
            assert(is_digit(whole_part[k as int]));
            lemma_digits_value_step(whole_part, k as int);
            lemma_digits_value_of_prefix(whole_part, k + 1);
        }
        let digit: u64 = (b - ASCII_ZERO) as u64;
        let next: Option<u64> = match whole.checked_mul(10) {
            Some(tens) => tens.checked_add(digit),
            None => None,
        };
        match next {
            Some(value) => {
                whole = value;
            },
            None => {
                return Err(HoursParseError::TooLarge);
            },
        }
        k = k + 1;
    }
    assert(whole_part.take(dot as int) =~= whole_part);
    let mut part: u64 = 0;
    let mut m: usize = 0;
    while m < 6
        invariant
            m <= 6,
            dot <= n,
            n == s.len(),
            text@ == s,
            is_ascii(text),
            dot == dot_position(s),
            fraction == fraction_digits(s),
            all_digits(fraction),
            places == six_places(fraction),
            part == digits_value(places.take(m as int)),
            (m == 0 && part == 0) || (m == 1 && part < 10) || (m == 2 && part < 100) || (m == 3
                && part < 1_000) || (m == 4 && part < 10_000) || (m == 5 && part < 100_000) || (m
                == 6 && part < 1_000_000),
        decreases 6 - m,
    {
        let digit: u64 = if dot < n && m < n - dot - 1 {
            let b: u8 = text.get_ascii(dot + 1 + m);
            proof {
                assert(fraction[m as int] == s[dot + 1 + m]);
                assert(is_digit(fraction[m as int]));
            }
            (b - ASCII_ZERO) as u64
        } else {
            0
        };
        proof {
            assert(digit == digit_value(places[m as int]));
            lemma_digits_value_step(places, m as int);
        }
        part = part * 10 + digit;
        m = m + 1;
    }
    assert(places.take(6) =~= places);
    let total: Option<u64> = match whole.checked_mul(MICROS_PER_HOUR) {
        Some(scaled) => scaled.checked_add(part),
        None => None,
    };
    match total {
        Some(micros) => Ok(Hours { micros }),
        None => Err(HoursParseError::TooLarge),
    }
}

} // verus!

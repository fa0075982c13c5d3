use vstd::prelude::*;
use std::str::FromStr;
use bigdecimal::BigDecimal;
use bigdecimal::ToPrimitive;
use crate::text::push_char;

verus! {

/// Ten to the power `k`.
pub open spec fn pow10(k: nat) -> int
    decreases k,
{
    if k == 0 {
        1
    } else {
        10 * pow10((k - 1) as nat)
    }
}

/// Number of decimals that a `Decimal` keeps.
pub const DECIMALS: u32 = 4;

/// The largest magnitude, in units, that a `Decimal` holds.
pub const MAX_UNITS: i64 = 10_000_000_000_000_000;

/// A decimal number kept exactly as a count of ten-thousandths.
#[derive(Debug, Clone, Copy, PartialEq, Eq, Structural)]
pub struct Decimal {
    pub units: i64,
}

impl Decimal {
    /// The number is within the range this type keeps.
    pub open spec fn wf(self) -> bool {
        -MAX_UNITS <= self.units <= MAX_UNITS
    }

    /// The decimal written in a text, rounded to four decimals (halves away
    /// from zero), when the text is a number and the result fits the range.
    pub fn parse(s: &str) -> (r: Option<Decimal>)
        ensures
            r == decimal_of_text(s@),
            r matches Some(d) ==> d.wf(),
    {
        match big_decimal_parts(s) {
            None => None,
            Some((digits, scale)) => {
                match units_from_parts(digits, scale) {
                    Some(u) => Some(Decimal { units: u }),
                    None => None,
                }
            },
        }
    }
}

/// `a / b` rounded to the nearest whole number, halves away from zero.
pub open spec fn round_div(a: int, b: int) -> int {
    if a >= 0 {
        (a + b / 2) / b
    } else {
        -((-a + b / 2) / b)
    }
}

/// `d` times ten to the power `k`, rounded to the nearest whole number,
/// halves away from zero.
pub open spec fn scaled(d: int, k: int) -> int {
    if k >= 0 {
        d * pow10(k as nat)
    } else {
        round_div(d, pow10((-k) as nat))
    }
}

/// A whole number, when it is within the range of units.
pub open spec fn bounded(u: int) -> Option<i64> {
    if -MAX_UNITS <= u <= MAX_UNITS {
        Some(u as i64)
    } else {
        None
    }
}

/// The units of the number `digits / 10^scale`, rounded to four decimals, when
/// they fit the range.
pub open spec fn units_of_parts(digits: int, scale: int) -> Option<i64> {
    bounded(scaled(digits, DECIMALS - scale))
}

/// Whether a character is an ASCII digit.
pub open spec fn ascii_digit(c: char) -> bool {
    '0' <= c <= '9'
}

/// Whether a text is made of ASCII digits only.
pub open spec fn all_digits(s: Seq<char>) -> bool {
    forall|i: int| 0 <= i < s.len() ==> ascii_digit(#[trigger] s[i])
}

/// The number that a run of ASCII digits writes.
pub open spec fn digits_value(s: Seq<char>) -> int
    decreases s.len(),
{
    if s.len() == 0 {
        0
    } else {
        digits_value(s.drop_last()) * 10 + (s.last() as int - '0' as int)
    }
}

/// The digits and scale of an unsigned plain decimal: digits, optionally
/// followed by a point and more digits.
pub open spec fn unsigned_parts(b: Seq<char>) -> Option<(int, int)> {
    match crate::text::find_from(b, seq!['.'], 0) {
        None => if b.len() > 0 && all_digits(b) {
            Some((digits_value(b), 0))
        } else {
            None
        },
        Some(i) => {
            let whole = b.take(i);
            let frac = b.skip(i + 1);
            if whole.len() > 0 && frac.len() > 0 && all_digits(whole) && all_digits(frac) {
                Some((digits_value(whole + frac), frac.len() as int))
            } else {
                None
            }
        },
    }
}

/// The digits and scale of a plain decimal such as `750`, `-12.5` or `0.75`:
/// an optional minus sign, digits, and optionally a point and more digits.
pub open spec fn plain_decimal(s: Seq<char>) -> Option<(int, int)> {
    if s.len() > 0 && s[0] == '-' {
        match unsigned_parts(s.drop_first()) {
            Some((d, e)) => Some((-d, e)),
            None => None,
        }
    } else {
        unsigned_parts(s)
    }
}

/// What `BigDecimal` reads from a text: its digits and its scale, the value
/// being `digits / 10^scale`.
pub uninterp spec fn big_decimal_text(s: Seq<char>) -> Option<(int, int)>;

/// The digits and scale that a text gives: those of a plain decimal, and
/// otherwise whatever `BigDecimal` reads (exponents and other forms).
pub open spec fn decimal_parts_of(s: Seq<char>) -> Option<(int, int)> {
    if plain_decimal(s) is Some {
        plain_decimal(s)
    } else {
        big_decimal_text(s)
    }
}

/// Digits and scale that both fit an `i64`.
pub open spec fn fitting(parts: Option<(int, int)>) -> Option<(i64, i64)> {
    match parts {
        Some((d, e)) => if i64::MIN <= d <= i64::MAX && i64::MIN <= e <= i64::MAX {
            Some((d as i64, e as i64))
        } else {
            None
        },
        None => None,
    }
}

/// The digits and scale that a text gives, when they fit an `i64`.
pub open spec fn parts_of_text(s: Seq<char>) -> Option<(i64, i64)> {
    fitting(decimal_parts_of(s))
}

/// The decimal that a text stands for, rounded to four decimals.
pub open spec fn decimal_of_text(s: Seq<char>) -> Option<Decimal> {
    match parts_of_text(s) {
        Some((digits, scale)) => match units_of_parts(digits as int, scale as int) {
            Some(u) => Some(Decimal { units: u }),
            None => None,
        },
        None => None,
    }
}

/// Relies on BigDecimal::from_str, with BigDecimal::as_bigint_and_exponent and
/// BigInt::to_i64 to read the result: the digits and the scale of the number a
/// text stands for, when the digits fit an `i64`. For a plain decimal the
/// digits are all those written, sign included, and the scale is the number of
/// digits after the point.
#[verifier::external_body]
fn big_decimal_parts(s: &str) -> (r: Option<(i64, i64)>)
    ensures
        plain_decimal(s@) is Some ==> r == fitting(plain_decimal(s@)),
        plain_decimal(s@) is None ==> r == fitting(big_decimal_text(s@)),
{
    match BigDecimal::from_str(s) {
        Ok(v) => {
            let (digits, scale) = v.as_bigint_and_exponent();
            digits.to_i64().map(|d| (d, scale))
        },
        Err(_) => None,
    }
}

/// The digits and scale that a text gives, when the digits fit an `i64`.
pub fn text_parts(s: &str) -> (r: Option<(i64, i64)>)
    ensures
        r == parts_of_text(s@),
{
    big_decimal_parts(s)
}

proof fn lemma_pow10_pos(k: nat)
    ensures
        pow10(k) >= 1,
    decreases k,
{
    if k > 0 {
        lemma_pow10_pos((k - 1) as nat);
    }
}

proof fn lemma_pow10_mono(a: nat, b: nat)
    requires
        a <= b,
    ensures
        pow10(a) <= pow10(b),
    decreases b,
{
    lemma_pow10_pos(b);
    if a < b {
        lemma_pow10_mono(a, (b - 1) as nat);
        lemma_pow10_pos((b - 1) as nat);
    }
}

/// Ten to the power `k`, for `k` up to 19.
fn pow10_exec(k: u32) -> (r: i128)
    requires
        k <= 19,
    ensures
        r == pow10(k as nat),
        1 <= r <= 10_000_000_000_000_000_000,
{
    proof {
        reveal_with_fuel(pow10, 20);
        assert(pow10(19) == 10_000_000_000_000_000_000);
    }
    let mut p: i128 = 1;
    let mut i: u32 = 0;
    while i < k
        invariant
            i <= k <= 19,
            p == pow10(i as nat),
            pow10(19) == 10_000_000_000_000_000_000,
        decreases k - i,
    {
        proof {
            lemma_pow10_mono((i + 1) as nat, 19);
            lemma_pow10_pos(i as nat);
            assert(pow10((i + 1) as nat) == 10 * pow10(i as nat));
        }
        p = p * 10;
        i = i + 1;
    }
    proof {
        lemma_pow10_pos(k as nat);
        lemma_pow10_mono(k as nat, 19);
    }
    p
}

/// `digits` times ten to the power `places - scale`, rounded to the nearest
/// whole number (halves away from zero), when that fits the range of units.
pub fn rounded_at(digits: i64, scale: i64, places: i64) -> (r: Option<i64>)
    requires
        0 <= places <= 4,
    ensures
        r == bounded(scaled(digits as int, places - scale)),
{
    let k: i128 = places as i128 - scale as i128;
    let d: i128 = digits as i128;
    if digits == 0 {
        proof {
            if k < 0 {
                lemma_pow10_pos((-k) as nat);
                let b = pow10((-k) as nat);
                assert((0 + b / 2) / b == 0) by (nonlinear_arith)
                    requires
                        b >= 1,
                ;
            }
        }
        return Some(0);
    }
    if k >= 0 {
        if k > 19 {
            proof {
                lemma_pow10_mono(20, k as nat);
                reveal_with_fuel(pow10, 21);
                let p = pow10(k as nat);
                assert(d * p > MAX_UNITS || d * p < -MAX_UNITS) by (nonlinear_arith)
                    requires
                        p >= 100_000_000_000_000_000_000,
                        d != 0,
                ;
            }
            return None;
        }
        let p = pow10_exec(k as u32);
        assert(-100_000_000_000_000_000_000_000_000_000_000_000_000 <= d * p
            <= 100_000_000_000_000_000_000_000_000_000_000_000_000) by (nonlinear_arith)
            requires
                -0x8000_0000_0000_0000 <= d <= 0x7fff_ffff_ffff_ffff,
                1 <= p <= 10_000_000_000_000_000_000,
        ;
        let u = d * p;
        if u > MAX_UNITS as i128 || u < -(MAX_UNITS as i128) {
            return None;
        }
        Some(u as i64)
    } else {
        let j: i128 = -k;
        let a: i128 = if d < 0 { -d } else { d };
        if j > 19 {
            proof {
                lemma_pow10_mono(20, j as nat);
                reveal_with_fuel(pow10, 21);
                let b = pow10(j as nat);
                assert((a + b / 2) / b == 0) by (nonlinear_arith)
                    requires
                        b >= 100_000_000_000_000_000_000,
                        0 <= a <= 0x8000_0000_0000_0000,
                ;
            }
            return Some(0);
        }
        let b = pow10_exec(j as u32);
        assert(0 <= a + b / 2 <= a + b);
        let q: i128 = (a + b / 2) / b;
        assert(0 <= (a as int + b as int / 2) / (b as int) <= a) by (nonlinear_arith)
            requires
                1 <= b,
                0 <= a,
                b / 2 < b,
        ;
        let u: i128 = if d < 0 { -q } else { q };
        if u > MAX_UNITS as i128 || u < -(MAX_UNITS as i128) {
            return None;
        }
        Some(u as i64)
    }
}

/// The units of `digits / 10^scale`, rounded to four decimals, when they fit
/// the range.
pub fn units_from_parts(digits: i64, scale: i64) -> (r: Option<i64>)
    ensures
        r == units_of_parts(digits as int, scale as int),
{
    rounded_at(digits, scale, 4)
}

/// The character of a decimal digit.
pub open spec fn digit_char(d: int) -> char {
    if d == 0 { '0' }
    else if d == 1 { '1' }
    else if d == 2 { '2' }
    else if d == 3 { '3' }
    else if d == 4 { '4' }
    else if d == 5 { '5' }
    else if d == 6 { '6' }
    else if d == 7 { '7' }
    else if d == 8 { '8' }
    else { '9' }
}

/// The decimal digits of a whole number, without leading zeros.
pub open spec fn digits_of(n: nat) -> Seq<char>
    decreases n,
{
    if n < 10 {
        seq![digit_char(n as int)]
    } else {
        digits_of(n / 10).push(digit_char((n % 10) as int))
    }
}

/// The text without its trailing zeros, keeping at least `min` characters.
pub open spec fn drop_trailing_zeros(s: Seq<char>, min: nat) -> Seq<char>
    decreases s.len(),
{
    if s.len() > min && s.last() == '0' {
        drop_trailing_zeros(s.drop_last(), min)
    } else {
        s
    }
}

/// The four decimals of a fraction of ten-thousandths, trailing zeros dropped
/// down to `min` decimals.
pub open spec fn fraction_digits(f: nat, min: nat) -> Seq<char> {
    drop_trailing_zeros(
        seq![
            digit_char((f / 1000) as int),
            digit_char((f / 100 % 10) as int),
            digit_char((f / 10 % 10) as int),
            digit_char((f % 10) as int),
        ],
        min,
    )
}

/// How a decimal is written with at least `min` decimals: a minus sign when
/// negative, the whole part, and the decimals without trailing zeros beyond
/// `min` after a point when any remain.
pub open spec fn decimal_text(d: Decimal, min: nat) -> Seq<char> {
    let m: nat = (if d.units < 0 { -(d.units as int) } else { d.units as int }) as nat;
    let sign = if d.units < 0 { seq!['-'] } else { Seq::empty() };
    let whole = sign + digits_of(m / 10000);
    let frac = fraction_digits(m % 10000, min);
    if frac.len() == 0 {
        whole
    } else {
        whole + seq!['.'] + frac
    }
}

fn digit_of(d: u64) -> (c: char)
    requires
        d < 10,
    ensures
        c == digit_char(d as int),
{
    if d == 0 { '0' }
    else if d == 1 { '1' }
    else if d == 2 { '2' }
    else if d == 3 { '3' }
    else if d == 4 { '4' }
    else if d == 5 { '5' }
    else if d == 6 { '6' }
    else if d == 7 { '7' }
    else if d == 8 { '8' }
    else { '9' }
}

fn push_digits(s: &mut String, n: u64)
    ensures
        final(s)@ == old(s)@ + digits_of(n as nat),
    decreases n,
{
    if n < 10 {
        push_char(s, digit_of(n));
    } else {
        push_digits(s, n / 10);
        push_char(s, digit_of(n % 10));
        assert(final(s)@ =~= old(s)@ + digits_of(n as nat));
    }
}

impl Decimal {
    /// Writes the number as `decimal_text` states, with at least
    /// `min_decimals` decimals: `12.99`, `750`, `-0.5`, or `8.50` with two.
    pub fn to_text(&self, min_decimals: usize) -> (r: String)
        requires
            min_decimals <= 4,
        ensures
            r@ == decimal_text(*self, min_decimals as nat),
    {
        let m: u64 = if self.units < 0 {
            (-(self.units as i128)) as u64
        } else {
            self.units as u64
        };
        let mut s = String::new();
        if self.units < 0 {
            push_char(&mut s, '-');
        }
        push_digits(&mut s, m / 10000);
        let f = m % 10000;
        let ds = [f / 1000, f / 100 % 10, f / 10 % 10, f % 10];
        let ghost full = seq![
            digit_char((f / 1000) as int),
            digit_char((f / 100 % 10) as int),
            digit_char((f / 10 % 10) as int),
            digit_char((f % 10) as int),
        ];
        assert(full.take(4) =~= full);
        assert(forall|j: int| 0 <= j < 4 ==> ds@[j] < 10 && #[trigger] full[j] == digit_char(
            ds@[j] as int,
        ));
        let mut last: usize = 4;
        while last > min_decimals && ds[last - 1] == 0
            invariant
                min_decimals <= last <= 4,
                forall|j: int| 0 <= j < 4 ==> ds@[j] < 10 && #[trigger] full[j] == digit_char(
                    ds@[j] as int,
                ),
                full.len() == 4,
                drop_trailing_zeros(full, min_decimals as nat) == drop_trailing_zeros(
                    full.take(last as int),
                    min_decimals as nat,
                ),
            decreases last,
        {
            assert(full.take(last as int).drop_last() =~= full.take(last - 1));
            last = last - 1;
        }
        assert(last > min_decimals ==> full.take(last as int).last() != '0');
        assert(fraction_digits(f as nat, min_decimals as nat) == full.take(last as int));
        if last > 0 {
            push_char(&mut s, '.');
            let ghost before = s@;
            let mut k: usize = 0;
            while k < last
                invariant
                    k <= last <= 4,
                    full.len() == 4,
                    forall|j: int| 0 <= j < 4 ==> ds@[j] < 10 && #[trigger] full[j] == digit_char(
                        ds@[j] as int,
                    ),
                    s@ == before + full.take(k as int),
                decreases last - k,
            {
                assert(full[k as int] == digit_char(ds@[k as int] as int));
                push_char(&mut s, digit_of(ds[k]));
                k = k + 1;
                assert(s@ =~= before + full.take(k as int));
            }
        }
        s
    }
}

} // verus!

//! Amounts of money, in millionths of a US dollar.

use vstd::prelude::*;

use crate::text;
use crate::text::{chars_of, decimal, digit_of, find_of};

verus! {

/// An amount in millionths of a US dollar.
#[derive(Debug, Clone, Copy, PartialEq, Eq, PartialOrd, Ord, Hash, Structural)]
pub struct Usd {
    pub micros: u64,
}

/// Exponents past this one are read as this one.
pub const MAX_EXPONENT: u64 = 999_999;

/// The exponent that `s` states after the exponent mark: an optional sign and at
/// least one digit.
pub open spec fn exponent_of(s: Seq<char>) -> Option<int> {
    let negative = s.len() > 0 && s[0] == '-';
    let body = if s.len() > 0 && (s[0] == '-' || s[0] == '+') {
        s.drop_first()
    } else {
        s
    };
    if body.len() == 0 {
        None
    } else {
        match text::digits_value(body) {
            Some(n) => {
                let capped = if n <= MAX_EXPONENT {
                    n as int
                } else {
                    MAX_EXPONENT as int
                };
                Some(
                    if negative {
                        -capped
                    } else {
                        capped
                    },
                )
            },
            None => None,
        }
    }
}

/// The number that the first `places` digits of `digits` stand for, where
/// `digits` goes on with zeros.
pub open spec fn leading_value(digits: Seq<char>, places: int) -> nat
    decreases places,
{
    if places <= 0 {
        0
    } else {
        let d: nat = if places <= digits.len() {
            text::digit_value(digits[places - 1])->0
        } else {
            0
        };
        leading_value(digits, places - 1) * 10 + d
    }
}

/// The digits of an unsigned decimal number and how many stand before its point,
/// once its exponent has moved the point; `None` where `s` is no such number.
pub open spec fn scaled_digits(s: Seq<char>) -> Option<(Seq<char>, int)> {
    let mark = text::first_of(s, 'e', 'E');
    let mantissa = s.take(mark);
    let exponent = if mark < s.len() {
        exponent_of(s.skip(mark + 1))
    } else {
        Some(0int)
    };
    let point = text::first_of(mantissa, '.', '.');
    let digits = if point < mantissa.len() {
        mantissa.take(point) + mantissa.skip(point + 1)
    } else {
        mantissa
    };
    if digits.len() > 0 && text::digits_value(digits) is Some && exponent is Some {
        Some((digits, point + exponent->0))
    } else {
        None
    }
}

/// A run of digits that does not stand for zero.
pub open spec fn some_nonzero(digits: Seq<char>) -> bool {
    exists|i: int| 0 <= i < digits.len() && #[trigger] digits[i] != '0'
}

/// What `s` says in millionths of a dollar, rounded down and held at the largest
/// amount; a positive amount comes to one millionth at least, so that none reads as
/// nothing. A text that states no positive number says nothing.
pub open spec fn amount_micros(s: Seq<char>) -> nat {
    let body = if s.len() > 0 && s[0] == '+' {
        s.drop_first()
    } else {
        s
    };
    match scaled_digits(body) {
        Some((digits, places)) => {
            let v = leading_value(digits, places + 6);
            if v == 0 && some_nonzero(digits) {
                1
            } else if v <= u64::MAX {
                v
            } else {
                u64::MAX as nat
            }
        },
        None => 0,
    }
}

fn has_nonzero(digits: &Vec<char>) -> (r: bool)
    ensures
        r == some_nonzero(digits@),
{
    let mut i: usize = 0;
    while i < digits.len()
        invariant
            i <= digits.len(),
            forall|j: int| 0 <= j < i ==> #[trigger] digits@[j] == '0',
        decreases digits.len() - i,
    {
        if digits[i] != '0' {
            assert(digits@[i as int] != '0');
            return true;
        }
        i += 1;
    }
    false
}

fn slice(s: &Vec<char>, from: usize, to: usize) -> (r: Vec<char>)
    requires
        from <= to <= s.len(),
    ensures
        r@ == s@.subrange(from as int, to as int),
{
    let mut out: Vec<char> = Vec::new();
    let mut i: usize = from;
    while i < to
        invariant
            from <= i <= to <= s.len(),
            out@ == s@.subrange(from as int, i as int),
        decreases to - i,
    {
        out.push(s[i]);
        i += 1;
    }
    out
}

proof fn digits_value_each(s: Seq<char>)
    ensures
        text::digits_value(s) is Some <==> forall|i: int| 0 <= i < s.len() ==> text::digit_value(#[trigger] s[i]) is Some,
    decreases s.len(),
{
    if s.len() > 0 {
        digits_value_each(s.drop_last());
        assert forall|i: int| 0 <= i < s.len() - 1 implies s.drop_last()[i] == s[i] by {}
        if text::digits_value(s) is Some {
            assert forall|i: int| 0 <= i < s.len() implies text::digit_value(#[trigger] s[i]) is Some by {
                if i < s.len() - 1 {
                    assert(text::digit_value(s.drop_last()[i]) is Some);
                }
            }
        }
        if forall|i: int| 0 <= i < s.len() ==> text::digit_value(#[trigger] s[i]) is Some {
            assert forall|i: int| 0 <= i < s.drop_last().len() implies text::digit_value(
                #[trigger] s.drop_last()[i],
            ) is Some by {
                assert(text::digit_value(s[i]) is Some);
            }
            assert(text::digit_value(s[s.len() - 1]) is Some);
        }
    }
}

fn all_digits(s: &Vec<char>) -> (r: bool)
    ensures
        r == (text::digits_value(s@) is Some),
{
    proof {
        digits_value_each(s@);
    }
    let mut i: usize = 0;
    while i < s.len()
        invariant
            i <= s.len(),
            forall|j: int| 0 <= j < i ==> text::digit_value(#[trigger] s@[j]) is Some,
        decreases s.len() - i,
    {
        if !('0' <= s[i] && s[i] <= '9') {
            proof {
                digits_value_each(s@);
                assert(text::digit_value(s@[i as int]) is None);
            }
            return false;
        }
        i += 1;
    }
    true
}

/// The capped value of a run of digits.
fn capped_value(s: &Vec<char>) -> (r: u64)
    requires
        text::digits_value(s@) is Some,
    ensures
        r == (if text::digits_value(s@)->0 <= MAX_EXPONENT {
            text::digits_value(s@)->0
        } else {
            MAX_EXPONENT as nat
        }),
{
    proof {
        digits_value_each(s@);
        assert(s@.take(0).len() == 0);
    }
    let mut n: u64 = 0;
    let mut i: usize = 0;
    while i < s.len()
        invariant
            i <= s.len(),
            n <= MAX_EXPONENT,
            forall|j: int| 0 <= j < s.len() ==> text::digit_value(#[trigger] s@[j]) is Some,
            text::digits_value(s@.take(i as int)) is Some,
            n == (if text::digits_value(s@.take(i as int))->0 <= MAX_EXPONENT {
                text::digits_value(s@.take(i as int))->0
            } else {
                MAX_EXPONENT as nat
            }),
        decreases s.len() - i,
    {
        assert(s@.take(i + 1).drop_last() =~= s@.take(i as int));
        assert(s@.take(i + 1).last() == s@[i as int]);
        assert(text::digit_value(s@[i as int]) is Some);
        let d: u64 = s[i] as u64 - '0' as u64;
        n = n * 10 + d;
        if n > MAX_EXPONENT {
            n = MAX_EXPONENT;
        }
        i += 1;
    }
    assert(s@.take(i as int) =~= s@);
    n
}

fn read_exponent(s: &Vec<char>) -> (r: Option<i64>)
    ensures
        match r {
            Some(n) => exponent_of(s@) == Some(n as int) && -(MAX_EXPONENT as int) <= n <= MAX_EXPONENT,
            None => exponent_of(s@) is None,
        },
{
    let signed = s.len() > 0 && (s[0] == '-' || s[0] == '+');
    let negative = s.len() > 0 && s[0] == '-';
    let body = if signed {
        slice(s, 1, s.len())
    } else {
        slice(s, 0, s.len())
    };
    proof {
        if signed {
            assert(body@ =~= s@.drop_first());
        } else {
            assert(body@ =~= s@);
        }
    }
    if body.len() == 0 || !all_digits(&body) {
        return None;
    }
    let n: u64 = capped_value(&body);
    let m: i64 = n as i64;
    Some(
        if negative {
            -m
        } else {
            m
        },
    )
}

proof fn leading_value_grows(digits: Seq<char>, p: int, q: int)
    requires
        p <= q,
    ensures
        leading_value(digits, p) <= leading_value(digits, q),
    decreases q - p,
{
    if p < q {
        leading_value_grows(digits, p, q - 1);
    }
}

proof fn leading_value_zeros(digits: Seq<char>, p: int, q: int)
    requires
        digits.len() <= p <= q,
        leading_value(digits, p) == 0,
    ensures
        leading_value(digits, q) == 0,
    decreases q - p,
{
    if p < q {
        leading_value_zeros(digits, p, q - 1);
    }
}

/// The leading digits as a number, held at the largest `u64`.
fn leading(digits: &Vec<char>, places: i128) -> (r: u64)
    requires
        text::digits_value(digits@) is Some,
    ensures
        r == (if leading_value(digits@, places as int) <= u64::MAX {
            leading_value(digits@, places as int)
        } else {
            u64::MAX as nat
        }),
{
    proof {
        digits_value_each(digits@);
    }
    let mut acc: u64 = 0;
    let mut i: i128 = 0;
    while i < places
        invariant
            0 <= i,
            i <= places || (places < 0 && i == 0),
            forall|j: int| 0 <= j < digits.len() ==> text::digit_value(#[trigger] digits@[j]) is Some,
            acc == leading_value(digits@, i as int),
        decreases places - i,
    {
        let past = i >= digits.len() as i128;
        if past && acc == 0 {
            proof {
                leading_value_zeros(digits@, i as int, places as int);
            }
            return 0;
        }
        let d: u64 = if past {
            0
        } else {
            assert(text::digit_value(digits@[i as int]) is Some);
            digits[i as usize] as u64 - '0' as u64
        };
        assert(leading_value(digits@, i + 1) == acc * 10 + d);
        if acc > (u64::MAX - d) / 10 {
            proof {
                leading_value_grows(digits@, i + 1, places as int);
            }
            return u64::MAX;
        }
        acc = acc * 10 + d;
        i += 1;
    }
    acc
}

/// `n` in exactly `width` decimal digits.
pub open spec fn fixed_digits(n: nat, width: nat) -> Seq<char>
    decreases width,
{
    if width == 0 {
        Seq::empty()
    } else {
        fixed_digits(n / 10, (width - 1) as nat).push(text::digit(n % 10))
    }
}

/// A decimal fraction of `width` digits without its trailing zeros.
pub open spec fn fraction_digits(n: nat, width: nat) -> Seq<char>
    decreases width,
{
    if width > 0 && n % 10 == 0 {
        fraction_digits(n / 10, (width - 1) as nat)
    } else {
        fixed_digits(n, width)
    }
}

/// An amount of millionths in dollars, with as many decimal places as it needs.
pub open spec fn dollars_text(micros: nat) -> Seq<char> {
    let whole = text::numeral(micros / 1_000_000);
    if micros % 1_000_000 == 0 {
        whole
    } else {
        whole + seq!['.'] + fraction_digits(micros % 1_000_000, 6)
    }
}

/// An amount of millionths to the nearest cent, the even one of two.
pub open spec fn nearest_cent(micros: nat) -> nat {
    let cents = micros / 10_000;
    let rest = micros % 10_000;
    if rest > 5_000 || (rest == 5_000 && cents % 2 == 1) {
        cents + 1
    } else {
        cents
    }
}

/// An amount of millionths in dollars, with two decimal places.
pub open spec fn cents_text(micros: nat) -> Seq<char> {
    let cents = nearest_cent(micros);
    text::numeral(cents / 100) + seq!['.'] + fixed_digits(cents % 100, 2)
}

fn write_fixed(n: u64, width: u64) -> (r: String)
    ensures
        r@ == fixed_digits(n as nat, width as nat),
    decreases width,
{
    if width == 0 {
        String::new()
    } else {
        let mut out = write_fixed(n / 10, width - 1);
        out.push(digit_of(n % 10));
        out
    }
}

fn write_fraction(n: u64, width: u64) -> (r: String)
    ensures
        r@ == fraction_digits(n as nat, width as nat),
    decreases width,
{
    if width > 0 && n % 10 == 0 {
        write_fraction(n / 10, width - 1)
    } else {
        write_fixed(n, width)
    }
}

impl Usd {
    /// The amount in dollars, with as many decimal places as it needs.
    pub fn dollars_text(self) -> (r: String)
        ensures
            r@ == dollars_text(self.micros as nat),
    {
        let mut out = decimal(self.micros / 1_000_000);
        let rest: u64 = self.micros % 1_000_000;
        if rest != 0 {
            out.push('.');
            out.append(write_fraction(rest, 6).as_str());
            assert(out@ =~= dollars_text(self.micros as nat));
        }
        out
    }

    /// The amount in dollars, with two decimal places.
    pub fn cents_text(self) -> (r: String)
        ensures
            r@ == cents_text(self.micros as nat),
    {
        let cents: u64 = self.micros / 10_000;
        let rest: u64 = self.micros % 10_000;
        let nearest: u64 = if rest > 5_000 || (rest == 5_000 && cents % 2 == 1) {
            cents + 1
        } else {
            cents
        };
        let mut out = decimal(nearest / 100);
        out.push('.');
        out.append(write_fixed(nearest % 100, 2).as_str());
        assert(out@ =~= cents_text(self.micros as nat));
        out
    }

    /// No money.
    pub fn zero() -> (r: Usd)
        ensures
            r.micros == 0,
    {
        Usd { micros: 0 }
    }

    /// `n` whole dollars.
    pub fn dollars(n: u32) -> (r: Usd)
        ensures
            r.micros == n * 1_000_000,
    {
        Usd { micros: n as u64 * 1_000_000 }
    }

    /// The sum, held at the largest amount.
    pub open spec fn plus(self, other: Usd) -> Usd {
        Usd {
            micros: if self.micros + other.micros <= u64::MAX {
                (self.micros + other.micros) as u64
            } else {
                u64::MAX
            },
        }
    }

    /// Adds `other`, stopping at the largest amount.
    pub fn saturating_add(self, other: Usd) -> (r: Usd)
        ensures
            r == self.plus(other),
    {
        Usd { micros: self.micros.saturating_add(other.micros) }
    }

    /// Reads an amount in dollars as decimal notation has it, with an optional
    /// exponent. What states no positive amount reads as nothing.
    pub fn parse(s: &str) -> (r: Usd)
        ensures
            r.micros == amount_micros(s@),
    {
        let chars = chars_of(s);
        let body = if chars.len() > 0 && chars[0] == '+' {
            slice(&chars, 1, chars.len())
        } else {
            slice(&chars, 0, chars.len())
        };
        proof {
            if s@.len() > 0 && s@[0] == '+' {
                assert(body@ =~= s@.drop_first());
            } else {
                assert(body@ =~= s@);
            }
        }
        let mark: usize = find_of(&body, 'e', 'E');
        let mantissa = slice(&body, 0, mark);
        assert(mantissa@ =~= body@.take(mark as int));
        let exponent: i64 = if mark < body.len() {
            let tail = slice(&body, mark + 1, body.len());
            assert(tail@ =~= body@.skip(mark + 1));
            match read_exponent(&tail) {
                Some(n) => n,
                None => {
                    return Usd::zero();
                },
            }
        } else {
            0
        };
        let point: usize = find_of(&mantissa, '.', '.');
        let mut digits = slice(&mantissa, 0, point);
        if point < mantissa.len() {
            let mut fraction = slice(&mantissa, point + 1, mantissa.len());
            digits.append(&mut fraction);
            assert(digits@ =~= mantissa@.take(point as int) + mantissa@.skip(point + 1));
        } else {
            assert(digits@ =~= mantissa@);
        }
        if digits.len() == 0 || !all_digits(&digits) {
            return Usd::zero();
        }
        let micros: u64 = leading(&digits, point as i128 + exponent as i128 + 6);
        if micros == 0 && has_nonzero(&digits) {
            return Usd { micros: 1 };
        }
        Usd { micros }
    }
}

// ── Laws ────────────────────────────────────────────────────────────

spec fn tens(width: nat) -> nat
    decreases width,
{
    if width == 0 {
        1
    } else {
        tens((width - 1) as nat) * 10
    }
}

proof fn leading_value_is_the_prefix(digits: Seq<char>, p: int)
    requires
        0 <= p <= digits.len(),
        text::digits_value(digits) is Some,
    ensures
        text::digits_value(digits.take(p)) == Some(leading_value(digits, p)),
    decreases p,
{
    if p > 0 {
        leading_value_is_the_prefix(digits, p - 1);
        assert(digits.take(p).drop_last() =~= digits.take(p - 1));
        digits_value_each(digits);
        assert(digits.take(p).last() == digits[p - 1]);
        assert(text::digit_value(digits[p - 1]) is Some);
    } else {
        assert(digits.take(0) =~= Seq::<char>::empty());
    }
}

proof fn leading_values_agree(a: Seq<char>, b: Seq<char>, p: int)
    requires
        0 <= p <= a.len(),
        p <= b.len(),
        a.take(p) == b.take(p),
    ensures
        leading_value(a, p) == leading_value(b, p),
    decreases p,
{
    if p > 0 {
        assert(a.take(p)[p - 1] == a[p - 1] && b.take(p)[p - 1] == b[p - 1]);
        assert(a.take(p - 1) =~= a.take(p).drop_last());
        assert(b.take(p - 1) =~= b.take(p).drop_last());
        leading_values_agree(a, b, p - 1);
    }
}

proof fn digits_are_digits(d: nat)
    requires
        d < 10,
    ensures
        text::digit_value(text::digit(d)) == Some(d),
        '0' <= text::digit(d) <= '9',
{
}

proof fn all_places(s: Seq<char>)
    requires
        forall|i: int| 0 <= i < s.len() ==> '0' <= #[trigger] s[i] <= '9',
    ensures
        text::digits_value(s) is Some,
    decreases s.len(),
{
    if s.len() > 0 {
        assert forall|i: int| 0 <= i < s.drop_last().len() implies '0'
            <= #[trigger] s.drop_last()[i] <= '9' by {
            assert(s[i] == s.drop_last()[i]);
        }
        all_places(s.drop_last());
        assert('0' <= s[s.len() - 1] <= '9');
    }
}

proof fn fixed_digits_follow(whole: Seq<char>, n: nat, width: nat)
    requires
        n < tens(width),
        text::digits_value(whole) is Some,
    ensures
        ({
            let s = whole + fixed_digits(n, width);
            &&& fixed_digits(n, width).len() == width
            &&& leading_value(s, (whole.len() + width) as int) == text::digits_value(whole)->0
                * tens(width) + n
            &&& forall|i: int|
                0 <= i < width ==> '0' <= #[trigger] fixed_digits(n, width)[i] <= '9'
        }),
    decreases width,
{
    let s = whole + fixed_digits(n, width);
    if width == 0 {
        assert(s =~= whole);
        leading_value_is_the_prefix(whole, whole.len() as int);
        assert(whole.take(whole.len() as int) =~= whole);
    } else {
        let w = (width - 1) as nat;
        let shorter = whole + fixed_digits(n / 10, w);
        fixed_digits_follow(whole, n / 10, w);
        digits_are_digits(n % 10);
        let p = (whole.len() + w) as int;
        assert(s.take(p) =~= shorter.take(p));
        leading_values_agree(s, shorter, p);
        assert(s[p] == text::digit(n % 10));
        let v = text::digits_value(whole)->0;
        let t = tens(w);
        assert((v * t + n / 10) * 10 + n % 10 == v * (t * 10) + n) by (nonlinear_arith)
            requires
                n == (n / 10) * 10 + n % 10,
        ;
    }
}

proof fn fraction_digits_follow(whole: Seq<char>, n: nat, width: nat)
    requires
        n < tens(width),
        text::digits_value(whole) is Some,
    ensures
        ({
            let s = whole + fraction_digits(n, width);
            &&& fraction_digits(n, width).len() <= width
            &&& leading_value(s, (whole.len() + width) as int) == text::digits_value(whole)->0
                * tens(width) + n
            &&& forall|i: int|
                0 <= i < fraction_digits(n, width).len() ==> '0' <= #[trigger] fraction_digits(
                    n,
                    width,
                )[i] <= '9'
        }),
    decreases width,
{
    if width > 0 && n % 10 == 0 {
        let w = (width - 1) as nat;
        fraction_digits_follow(whole, n / 10, w);
        let v = text::digits_value(whole)->0;
        let t = tens(w);
        assert((v * t + n / 10) * 10 == v * (t * 10) + n) by (nonlinear_arith)
            requires
                n == (n / 10) * 10,
        ;
    } else {
        fixed_digits_follow(whole, n, width);
    }
}

proof fn point_found(whole: Seq<char>, fraction: Seq<char>)
    requires
        whole.len() > 0,
        forall|i: int| 0 <= i < whole.len() ==> '0' <= #[trigger] whole[i] <= '9',
        forall|i: int| 0 <= i < fraction.len() ==> '0' <= #[trigger] fraction[i] <= '9',
    ensures
        scaled_digits(whole + seq!['.'] + fraction) == Some(
            (whole + fraction, whole.len() as int),
        ),
        scaled_digits(whole) == Some((whole, whole.len() as int)),
{
    let s = whole + seq!['.'] + fraction;
    let digits = whole + fraction;
    assert forall|i: int| 0 <= i < s.len() implies s[i] != 'e' && s[i] != 'E' by {
        if i < whole.len() {
            assert(s[i] == whole[i]);
        } else if i > whole.len() {
            assert(s[i] == fraction[i - whole.len() - 1]);
        }
    }
    text::first_of_at(s, 'e', 'E', s.len() as int);
    assert(s.take(s.len() as int) =~= s);
    assert forall|i: int| 0 <= i < whole.len() implies s[i] != '.' && whole[i] != '.' by {
        assert('0' <= whole[i] <= '9');
        assert(s[i] == whole[i]);
    }
    text::first_of_at(s, '.', '.', whole.len() as int);
    assert(s.take(whole.len() as int) + s.skip(whole.len() as int + 1) =~= digits);
    assert forall|i: int| 0 <= i < digits.len() implies '0' <= #[trigger] digits[i] <= '9' by {
        if i < whole.len() {
            assert(digits[i] == whole[i]);
        } else {
            assert(digits[i] == fraction[i - whole.len()]);
        }
    }
    all_places(digits);
    assert forall|i: int| 0 <= i < whole.len() implies whole[i] != 'e' && whole[i] != 'E' by {
        assert('0' <= whole[i] <= '9');
    }
    text::first_of_at(whole, 'e', 'E', whole.len() as int);
    assert(whole.take(whole.len() as int) =~= whole);
    text::first_of_at(whole, '.', '.', whole.len() as int);
    all_places(whole);
}

/// What is written in dollars reads back as the same amount, to the millionth.
pub proof fn dollars_read_back(micros: nat)
    requires
        micros <= u64::MAX,
    ensures
        amount_micros(dollars_text(micros)) == micros,
{
    let whole = text::numeral(micros / 1_000_000);
    let rest = micros % 1_000_000;
    text::numerals_are_digits(micros / 1_000_000);
    text::numerals_read_back(micros / 1_000_000, 0);
    reveal_with_fuel(tens, 7);
    fraction_digits_follow(whole, rest, 6);
    let fraction = fraction_digits(rest, 6);
    point_found(whole, fraction);
    assert(micros == (micros / 1_000_000) * 1_000_000 + rest);
    let s = dollars_text(micros);
    assert(s[0] == whole[0]);
    if rest == 0 {
        nothing_after_the_point(whole);
        if micros == 0 {
            no_nonzero_in_nought(whole, whole.len() as int + 6);
        }
    }
}

proof fn nothing_after_the_point(whole: Seq<char>)
    requires
        text::digits_value(whole) is Some,
    ensures
        leading_value(whole, whole.len() as int + 6) == text::digits_value(whole)->0 * 1_000_000,
{
    reveal_with_fuel(leading_value, 7);
    leading_value_is_the_prefix(whole, whole.len() as int);
    assert(whole.take(whole.len() as int) =~= whole);
}

proof fn no_nonzero_in_nought(digits: Seq<char>, p: int)
    requires
        text::digits_value(digits) is Some,
        p >= digits.len(),
        leading_value(digits, p) == 0,
    ensures
        !some_nonzero(digits),
    decreases p,
{
    if p > digits.len() {
        no_nonzero_in_nought(digits, p - 1);
    } else {
        leading_nought(digits, p);
    }
}

proof fn leading_nought(digits: Seq<char>, p: int)
    requires
        text::digits_value(digits) is Some,
        0 <= p <= digits.len(),
        leading_value(digits, p) == 0,
    ensures
        forall|i: int| 0 <= i < p ==> #[trigger] digits[i] == '0',
    decreases p,
{
    if p > 0 {
        leading_nought(digits, p - 1);
        digits_value_each(digits);
        assert(text::digit_value(digits[p - 1]) is Some);
    }
}

proof fn four_more_places(digits: Seq<char>, p: int)
    requires
        p >= digits.len(),
        p >= 0,
    ensures
        leading_value(digits, p + 4) == leading_value(digits, p) * 10_000,
{
    assert(leading_value(digits, p + 1) == leading_value(digits, p) * 10);
    assert(leading_value(digits, p + 2) == leading_value(digits, p + 1) * 10);
    assert(leading_value(digits, p + 3) == leading_value(digits, p + 2) * 10);
    assert(leading_value(digits, p + 4) == leading_value(digits, p + 3) * 10);
}

proof fn whole_and_hundredths(cents: nat)
    requires
        cents * 10_000 <= u64::MAX,
    ensures
        amount_micros(text::numeral(cents / 100) + seq!['.'] + fixed_digits(cents % 100, 2))
            == cents * 10_000,
{
    let whole = text::numeral(cents / 100);
    let rest = cents % 100;
    text::numerals_are_digits(cents / 100);
    text::numerals_read_back(cents / 100, 0);
    reveal_with_fuel(tens, 3);
    assert(tens(2) == 100);
    fixed_digits_follow(whole, rest, 2);
    let fraction = fixed_digits(rest, 2);
    point_found(whole, fraction);
    let digits = whole + fraction;
    let p = (whole.len() + 2) as int;
    assert(leading_value(digits, p) == (cents / 100) * 100 + rest);
    assert(leading_value(digits, p) == cents);
    four_more_places(digits, p);
    let s = whole + seq!['.'] + fraction;
    assert(s[0] == whole[0]);
    assert('0' <= whole[0] <= '9');
    if cents == 0 {
        no_nonzero_in_nought(digits, p);
    }
    assert(scaled_digits(s) == Some((digits, whole.len() as int)));
    assert(whole.len() as int + 6 == p + 4);
}

/// An amount to the nearest cent is off by half a cent at most, and what is written in
/// cents reads back as those cents.
pub proof fn cents_are_the_nearest(micros: nat)
    requires
        micros <= u64::MAX - 10_000,
    ensures
        nearest_cent(micros) * 10_000 <= micros + 5_000,
        micros <= nearest_cent(micros) * 10_000 + 5_000,
        micros % 10_000 == 5_000 ==> nearest_cent(micros) % 2 == 0,
        micros % 10_000 == 0 ==> nearest_cent(micros) * 10_000 == micros,
        amount_micros(cents_text(micros)) == nearest_cent(micros) * 10_000,
{
    whole_and_hundredths(nearest_cent(micros));
}

/// An exponent moves the point: to the right by as many places as it says, or to the left
/// where it is negative.
pub proof fn an_exponent_moves_the_point(number: Seq<char>, by: nat)
    requires
        scaled_digits(number) is Some,
        by <= 999_999,
        forall|i: int| 0 <= i < number.len() ==> #[trigger] number[i] != 'e' && number[i] != 'E',
    ensures
        ({
            let (digits, places) = scaled_digits(number)->0;
            &&& scaled_digits(number + seq!['e'] + text::numeral(by)) == Some(
                (digits, places + by),
            )
            &&& scaled_digits(number + seq!['e', '-'] + text::numeral(by)) == Some(
                (digits, places - by),
            )
        }),
{
    let n = number.len() as int;
    text::first_of_at(number, 'e', 'E', n);
    assert(number.take(n) =~= number);
    text::numerals_are_digits(by);
    text::numerals_read_back(by, 0);
    let up = number + seq!['e'] + text::numeral(by);
    let down = number + seq!['e', '-'] + text::numeral(by);
    assert forall|i: int| 0 <= i < n implies up[i] != 'e' && up[i] != 'E' && down[i] != 'e'
        && down[i] != 'E' by {
        assert(up[i] == number[i] && down[i] == number[i]);
    }
    assert(up[n] == 'e' && down[n] == 'e');
    text::first_of_at(up, 'e', 'E', n);
    text::first_of_at(down, 'e', 'E', n);
    assert(up.take(n) =~= number && down.take(n) =~= number);
    assert(up.skip(n + 1) =~= text::numeral(by));
    let signed = seq!['-'] + text::numeral(by);
    assert(down.skip(n + 1) =~= signed);
    assert(signed.drop_first() =~= text::numeral(by));
    assert('0' <= text::numeral(by)[0] <= '9');
}

/// What states no positive number says nothing: nothing at all, a negative amount, and
/// whatever holds a character that no number has. A positive amount always says something.
pub proof fn only_positive_numbers_say_something(s: Seq<char>)
    ensures
        s.len() == 0 ==> amount_micros(s) == 0,
        s.len() > 0 && s[0] == '-' ==> amount_micros(s) == 0,
        s.len() > 0 && s[0] == '+' && (s.len() == 1 || s[1] != '+') ==> amount_micros(s)
            == amount_micros(s.drop_first()),
        (s.len() == 0 || s[0] != '+') && scaled_digits(s) is Some ==> (amount_micros(s) == 0
            <==> !some_nonzero((scaled_digits(s)->0).0)),
        (s.len() == 0 || s[0] != '+') && scaled_digits(s) is None ==> amount_micros(s) == 0,
{
    let mark = text::first_of(s, 'e', 'E');
    let mantissa = s.take(mark);
    let point = text::first_of(mantissa, '.', '.');
    text::nothing_stands_before_the_first(s, 'e', 'E');
    text::nothing_stands_before_the_first(mantissa, '.', '.');
    if s.len() > 0 && s[0] == '-' {
        let digits = if point < mantissa.len() {
            mantissa.take(point) + mantissa.skip(point + 1)
        } else {
            mantissa
        };
        assert(mantissa[0] == '-');
        assert(digits[0] == '-');
        if text::digits_value(digits) is Some {
            digits_value_each(digits);
            assert(text::digit_value(digits[0]) is Some);
        }
    }
    if scaled_digits(s) is Some {
        let (digits, places) = scaled_digits(s)->0;
        if leading_value(digits, places + 6) > 0 {
            some_place_counts(digits, places + 6);
        }
    }
}

proof fn some_place_counts(digits: Seq<char>, p: int)
    requires
        text::digits_value(digits) is Some,
        leading_value(digits, p) > 0,
    ensures
        some_nonzero(digits),
    decreases p,
{
    if leading_value(digits, p - 1) > 0 {
        some_place_counts(digits, p - 1);
    } else {
        digits_value_each(digits);
        assert(digits[p - 1] != '0');
    }
}

} // verus!

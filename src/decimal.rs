//! Exact fixed-point decimal amounts with eighteen fractional digits.

use vstd::prelude::*;

use crate::text::{decimal_of, decimal_text, digit_chars, digit_text};

verus! {

/// Number of fractional digits kept by a `Decimal`.
pub const FRACTION_DIGITS: u32 = 18;

/// Units in one whole: `10^FRACTION_DIGITS`.
pub const ONE: i128 = 1_000_000_000_000_000_000;

/// Units in one hundredth of a whole.
pub const CENT: i128 = 10_000_000_000_000_000;

/// Exclusive bound on the whole part of a decimal read from text.
pub const WHOLE_LIMIT: i128 = 1_000_000_000_000_000_000;

/// Bound on the magnitude of a decimal read from text, in units.
pub const PARSED_LIMIT: i128 = 1_000_000_000_000_000_000_000_000_000_000_000_000;

/// A signed quantity counted in units of `10^-18`.
#[derive(Clone, Copy, Debug, PartialEq, Eq, Structural)]
pub struct Decimal {
    pub units: i128,
}

pub open spec fn pow10(n: nat) -> int
    decreases n,
{
    if n == 0 {
        1
    } else {
        10 * pow10((n - 1) as nat)
    }
}

pub open spec fn is_digit(c: char) -> bool {
    '0' <= c && c <= '9'
}

pub open spec fn digit_value(c: char) -> int {
    c as int - '0' as int
}

pub open spec fn all_digits(s: Seq<char>) -> bool {
    forall|i: int| 0 <= i < s.len() ==> is_digit(#[trigger] s[i])
}

/// The value of a string of decimal digits, most significant first.
pub open spec fn digits_value(s: Seq<char>) -> int
    decreases s.len(),
{
    if s.len() == 0 {
        0
    } else {
        digits_value(s.drop_last()) * 10 + digit_value(s.last())
    }
}

/// Index of the first '.' in `s`, or its length when there is none.
pub open spec fn first_dot(s: Seq<char>) -> int
    decreases s.len(),
{
    if s.len() == 0 {
        0
    } else if s[0] == '.' {
        0
    } else {
        1 + first_dot(s.drop_first())
    }
}

/// `s` without a leading sign character.
pub open spec fn unsigned_text(s: Seq<char>) -> Seq<char> {
    if s.len() > 0 && (s[0] == '-' || s[0] == '+') {
        s.drop_first()
    } else {
        s
    }
}

pub open spec fn is_negative_text(s: Seq<char>) -> bool {
    s.len() > 0 && s[0] == '-'
}

pub open spec fn whole_digits(s: Seq<char>) -> Seq<char> {
    unsigned_text(s).take(first_dot(unsigned_text(s)))
}

pub open spec fn fraction_digits(s: Seq<char>) -> Seq<char> {
    let u = unsigned_text(s);
    if first_dot(u) < u.len() {
        u.skip(first_dot(u) + 1)
    } else {
        Seq::empty()
    }
}

/// `s` is a decimal numeral: an optional sign, digits, and optionally a point
/// followed by at most eighteen digits, with at least one digit in all.
pub open spec fn is_decimal_text(s: Seq<char>) -> bool {
    &&& all_digits(whole_digits(s))
    &&& all_digits(fraction_digits(s))
    &&& whole_digits(s).len() + fraction_digits(s).len() >= 1
    &&& fraction_digits(s).len() <= FRACTION_DIGITS
}

/// The magnitude of the numeral `s` in units.
pub open spec fn magnitude_units(s: Seq<char>) -> int {
    digits_value(whole_digits(s)) * ONE + digits_value(fraction_digits(s)) * pow10(
        (FRACTION_DIGITS - fraction_digits(s).len()) as nat,
    )
}

/// The signed value of the numeral `s` in units.
pub open spec fn text_units(s: Seq<char>) -> int {
    if is_negative_text(s) {
        -magnitude_units(s)
    } else {
        magnitude_units(s)
    }
}

/// `s` denotes a decimal that this library can hold.
pub open spec fn decimal_text_in_range(s: Seq<char>) -> bool {
    is_decimal_text(s) && digits_value(whole_digits(s)) < WHOLE_LIMIT
}

impl Decimal {
    pub fn zero() -> (r: Decimal)
        ensures
            r.units == 0,
    {
        Decimal { units: 0 }
    }

    pub fn from_units(units: i128) -> (r: Decimal)
        ensures
            r.units == units,
    {
        Decimal { units }
    }

    /// A whole number of units, as an integer amount.
    pub fn from_whole(n: i64) -> (r: Decimal)
        ensures
            r.units == n * ONE,
    {
        proof {
            assert(-9_223_372_036_854_775_808 <= n <= 9_223_372_036_854_775_807);
            assert(n * ONE <= 9_223_372_036_854_775_807 * ONE) by (nonlinear_arith)
                requires
                    n <= 9_223_372_036_854_775_807,
            ;
            assert(n * ONE >= -9_223_372_036_854_775_808 * ONE) by (nonlinear_arith)
                requires
                    n >= -9_223_372_036_854_775_808,
            ;
        }
        Decimal { units: (n as i128) * ONE }
    }

    pub fn is_zero(&self) -> (r: bool)
        ensures
            r == (self.units == 0),
    {
        self.units == 0
    }

    pub fn is_negative(&self) -> (r: bool)
        ensures
            r == (self.units < 0),
    {
        self.units < 0
    }
}


proof fn lemma_first_dot_at(u: Seq<char>, p: int)
    requires
        0 <= p <= u.len(),
        forall|j: int| 0 <= j < p ==> u[j] != '.',
        p == u.len() || u[p] == '.',
    ensures
        first_dot(u) == p,
    decreases p,
{
    if p > 0 {
        assert(u[0] != '.');
        let t = u.drop_first();
        assert forall|j: int| 0 <= j < p - 1 implies t[j] != '.' by {
            assert(t[j] == u[j + 1]);
        }
        if p < u.len() {
            assert(t[p - 1] == u[p]);
        }
        lemma_first_dot_at(t, p - 1);
    }
}

proof fn lemma_digits_value_nonneg(s: Seq<char>)
    requires
        all_digits(s),
    ensures
        digits_value(s) >= 0,
    decreases s.len(),
{
    if s.len() > 0 {
        assert(all_digits(s.drop_last())) by {
            assert forall|i: int| 0 <= i < s.drop_last().len() implies is_digit(
                #[trigger] s.drop_last()[i],
            ) by {
                assert(s.drop_last()[i] == s[i]);
            }
        }
        lemma_digits_value_nonneg(s.drop_last());
        assert(is_digit(s[s.len() - 1]));
    }
}

/// Extending a string of digits never lowers its value.
proof fn lemma_digits_value_grows(s: Seq<char>, i: int)
    requires
        all_digits(s),
        0 <= i <= s.len(),
    ensures
        digits_value(s.take(i)) <= digits_value(s),
    decreases s.len() - i,
{
    if i < s.len() {
        let t = s.take(i + 1);
        assert(t.drop_last() =~= s.take(i));
        assert(all_digits(t)) by {
            assert forall|j: int| 0 <= j < t.len() implies is_digit(#[trigger] t[j]) by {
                assert(t[j] == s[j]);
            }
        }
        assert(all_digits(s.take(i))) by {
            assert forall|j: int| 0 <= j < s.take(i).len() implies is_digit(
                #[trigger] s.take(i)[j],
            ) by {
                assert(s.take(i)[j] == s[j]);
            }
        }
        lemma_digits_value_nonneg(s.take(i));
        assert(is_digit(s[i]));
        assert(t.last() == s[i]);
        lemma_digits_value_grows(s, i + 1);
    } else {
        assert(s.take(i) =~= s);
    }
}

proof fn lemma_pow10_step(n: nat)
    requires
        n >= 1,
    ensures
        pow10(n) == 10 * pow10((n - 1) as nat),
{
}

proof fn lemma_pow10_positive(n: nat)
    ensures
        pow10(n) >= 1,
    decreases n,
{
    if n > 0 {
        lemma_pow10_positive((n - 1) as nat);
    }
}

/// Reads a decimal numeral such as `-12.5`, `3000.0` or `.25`.
///
/// Returns `None` unless the text is a numeral of at most eighteen fractional
/// digits whose whole part is below `10^18`.
pub fn parse_decimal(s: &str) -> (r: Option<Decimal>)
    ensures
        r.is_some() == decimal_text_in_range(s@),
        r.is_some() ==> r.unwrap().units == text_units(s@),
        r.is_some() ==> -PARSED_LIMIT <= r.unwrap().units <= PARSED_LIMIT,
{
    let n = s.unicode_len();
    let mut start: usize = 0;
    let mut negative = false;
    if n > 0 {
        let c0 = s.get_char(0);
        if c0 == '-' {
            negative = true;
            start = 1;
        } else if c0 == '+' {
            start = 1;
        }
    }
    let ghost u = unsigned_text(s@);
    assert(u =~= s@.skip(start as int));
    assert(negative == is_negative_text(s@));

    let mut dot: usize = start;
    while dot < n && s.get_char(dot) != '.'
        invariant
            start <= dot <= n,
            n == s@.len(),
            forall|j: int| start <= j < dot ==> s@[j] != '.',
        decreases n - dot,
    {
        dot = dot + 1;
    }
    proof {
        assert forall|j: int| 0 <= j < dot - start implies u[j] != '.' by {
            assert(u[j] == s@[j + start]);
        }
        if dot < n {
            assert(u[dot - start] == s@[dot as int]);
        }
        lemma_first_dot_at(u, dot - start);
    }
    let ghost w = s@.subrange(start as int, dot as int);
    let ghost f = if dot < n {
        s@.subrange(dot + 1, n as int)
    } else {
        Seq::empty()
    };
    assert(w =~= whole_digits(s@));
    assert(f =~= fraction_digits(s@));

    let mut whole: i128 = 0;
    let mut k: usize = start;
    while k < dot
        invariant
            start <= k <= dot <= n,
            n == s@.len(),
            w == s@.subrange(start as int, dot as int),
            w == whole_digits(s@),
            0 <= whole < WHOLE_LIMIT,
            whole == digits_value(w.take(k - start)),
            all_digits(w.take(k - start)),
        decreases dot - k,
    {
        let c = s.get_char(k);
        if !('0' <= c && c <= '9') {
            assert(!is_digit(w[k - start]));
            return None;
        }
        let d = (c as u32 - '0' as u32) as i128;
        let next = whole * 10 + d;
        proof {
            let t = w.take(k - start + 1);
            assert(t.drop_last() =~= w.take(k - start));
            assert(t.last() == c);
            assert(all_digits(t)) by {
                assert forall|j: int| 0 <= j < t.len() implies is_digit(#[trigger] t[j]) by {
                    if j < t.len() - 1 {
                        assert(t[j] == w.take(k - start)[j]);
                    }
                }
            }
        }
        if next >= WHOLE_LIMIT {
            proof {
                if all_digits(w) {
                    lemma_digits_value_grows(w, k - start + 1);
                }
            }
            return None;
        }
        whole = next;
        k = k + 1;
    }
    assert(w.take(k - start) =~= w);

    let mut frac: i128 = 0;
    let mut scale: i128 = ONE;
    assert(pow10(18) == ONE) by {
        reveal_with_fuel(pow10, 19);
    }
    if dot < n {
        if n - dot - 1 > 18 {
            return None;
        }
        let mut m: usize = dot + 1;
        while m < n
            invariant
                dot < m <= n,
                n - dot - 1 <= 18,
                n == s@.len(),
                f == s@.subrange(dot + 1, n as int),
                f == fraction_digits(s@),
                0 <= whole < WHOLE_LIMIT,
                scale == pow10((18 - (m - dot - 1)) as nat),
                frac == digits_value(f.take(m - dot - 1)) * scale,
                0 <= frac,
                frac + scale <= ONE,
                all_digits(f.take(m - dot - 1)),
            decreases n - m,
        {
            let c = s.get_char(m);
            if !('0' <= c && c <= '9') {
                assert(!is_digit(f[m - dot - 1]));
                return None;
            }
            let d = (c as u32 - '0' as u32) as i128;
            let ghost i = m - dot - 1;
            proof {
                lemma_pow10_step((18 - i) as nat);
                lemma_pow10_positive((17 - i) as nat);
                let t = f.take(i + 1);
                assert(t.drop_last() =~= f.take(i));
                assert(t.last() == c);
                assert(all_digits(t)) by {
                    assert forall|j: int| 0 <= j < t.len() implies is_digit(#[trigger] t[j]) by {
                        if j < t.len() - 1 {
                            assert(t[j] == f.take(i)[j]);
                        }
                    }
                }
                let p = pow10((17 - i) as nat);
                let v = digits_value(f.take(i));
                assert(frac == v * (10 * p)) by (nonlinear_arith)
                    requires
                        frac == v * scale,
                        scale == 10 * p,
                ;
                assert(digits_value(t) * p == frac + d * p) by (nonlinear_arith)
                    requires
                        digits_value(t) == v * 10 + d,
                        frac == v * (10 * p),
                ;
                assert(frac + d * p + p <= frac + 10 * p) by (nonlinear_arith)
                    requires
                        0 <= d <= 9,
                        p >= 1,
                ;
            }
            scale = scale / 10;
            frac = frac + d * scale;
            m = m + 1;
        }
        assert(f.take(m - dot - 1) =~= f);
        proof {
            lemma_pow10_positive((18 - (m - dot - 1)) as nat);
        }
    } else {
        assert(f.take(0) =~= f);
    }
    proof {
        if whole_digits(s@).len() + fraction_digits(s@).len() == 0 {
            assert(w.len() == 0);
        }
    }
    if dot == start && n - dot <= 1 {
        return None;
    }
    assert(whole * ONE <= (WHOLE_LIMIT - 1) * ONE) by (nonlinear_arith)
        requires
            0 <= whole < WHOLE_LIMIT,
    ;
    let magnitude = whole * ONE + frac;
    if negative {
        Some(Decimal { units: -magnitude })
    } else {
        Some(Decimal { units: magnitude })
    }
}


/// The `width` low decimal digits of `f`, zeros in front.
pub open spec fn padded_digits(f: nat, width: nat) -> Seq<char>
    decreases width,
{
    if width == 0 {
        Seq::empty()
    } else {
        padded_digits(f / 10, (width - 1) as nat) + seq![digit_chars()[(f % 10) as int]]
    }
}

/// `f` as a fraction of `width` digits, with its trailing zeros dropped:
/// the digits left and their count.
pub open spec fn trimmed(f: nat, width: nat) -> (nat, nat)
    decreases width,
{
    if width > 0 && f % 10 == 0 {
        trimmed(f / 10, (width - 1) as nat)
    } else {
        (f, width)
    }
}

/// The shortest numeral of a value in units: a minus sign when negative,
/// the whole part, and the fraction without trailing zeros, if any.
pub open spec fn units_text(u: int) -> Seq<char> {
    let m: nat = if u < 0 {
        (-u) as nat
    } else {
        u as nat
    };
    let (f, w) = trimmed(m % (ONE as nat), FRACTION_DIGITS as nat);
    (if u < 0 {
        "-"@
    } else {
        Seq::empty()
    }) + decimal_of(m / (ONE as nat)) + (if w == 0 {
        Seq::empty()
    } else {
        "."@ + padded_digits(f, w)
    })
}

fn padded_text(f: u128, width: u32) -> (r: String)
    ensures
        r@ == padded_digits(f as nat, width as nat),
    decreases width,
{
    if width == 0 {
        String::new()
    } else {
        let head = padded_text(f / 10, width - 1);
        head.concat(digit_text((f % 10) as u8))
    }
}

impl Decimal {
    /// The shortest numeral of the value, such as `2997`, `-0.5` or `0.01`.
    pub fn to_text(&self) -> (r: String)
        ensures
            r@ == units_text(self.units as int),
    {
        let m: u128 = if self.units < 0 {
            (-(self.units + 1)) as u128 + 1
        } else {
            self.units as u128
        };
        let mut f: u128 = m % (ONE as u128);
        let mut w: u32 = FRACTION_DIGITS;
        while w > 0 && f % 10 == 0
            invariant
                w <= FRACTION_DIGITS,
                trimmed(f as nat, w as nat) == trimmed((m % (ONE as u128)) as nat, FRACTION_DIGITS as nat),
            decreases w,
        {
            f = f / 10;
            w = w - 1;
        }
        let sign = if self.units < 0 {
            "-".to_owned()
        } else {
            String::new()
        };
        let whole = sign.concat(decimal_text(m / (ONE as u128)).as_str());
        if w == 0 {
            whole
        } else {
            whole.concat(".").concat(padded_text(f, w).as_str())
        }
    }
}


proof fn lemma_digit_chars()
    ensures
        digit_chars().len() == 16,
        forall|k: int| 0 <= k < 10 ==> is_digit(#[trigger] digit_chars()[k]) && digit_value(
            digit_chars()[k],
        ) == k,
        forall|k: int| 0 <= k < 10 ==> #[trigger] digit_chars()[k] != '.',
{
    reveal_strlit("0123456789abcdef");
    assert forall|k: int| 0 <= k < 10 implies is_digit(#[trigger] digit_chars()[k]) && digit_value(
        digit_chars()[k],
    ) == k && digit_chars()[k] != '.' by {
        assert(k == 0 || k == 1 || k == 2 || k == 3 || k == 4 || k == 5 || k == 6 || k == 7 || k
            == 8 || k == 9);
    }
}

proof fn lemma_decimal_of_value(n: nat)
    ensures
        decimal_of(n).len() >= 1,
        all_digits(decimal_of(n)),
        digits_value(decimal_of(n)) == n,
    decreases n,
{
    lemma_digit_chars();
    if n >= 10 {
        lemma_decimal_of_value(n / 10);
        let s = decimal_of(n);
        assert(s.drop_last() =~= decimal_of(n / 10));
        assert(s.last() == digit_chars()[(n % 10) as int]);
        assert(digit_value(s.last()) == n % 10);
        assert((n / 10) * 10 + n % 10 == n) by {
            vstd::arithmetic::div_mod::lemma_fundamental_div_mod(n as int, 10);
        }
        assert(digits_value(s) == digits_value(s.drop_last()) * 10 + digit_value(s.last()));
        assert(all_digits(s)) by {
            assert forall|i: int| 0 <= i < s.len() implies is_digit(#[trigger] s[i]) by {
                if i < s.len() - 1 {
                    assert(s[i] == decimal_of(n / 10)[i]);
                }
            }
        }
    } else {
        let s = decimal_of(n);
        assert(s.drop_last() =~= Seq::<char>::empty());
        assert(s.last() == digit_chars()[n as int]);
        assert(digit_value(s.last()) == n);
        assert(digits_value(s) == digits_value(s.drop_last()) * 10 + digit_value(s.last()));
    }
}

proof fn lemma_padded_digits_value(f: nat, width: nat)
    ensures
        padded_digits(f, width).len() == width,
        all_digits(padded_digits(f, width)),
        digits_value(padded_digits(f, width)) == f % (pow10(width) as nat),
    decreases width,
{
    lemma_digit_chars();
    lemma_pow10_positive(width);
    if width > 0 {
        let w1 = (width - 1) as nat;
        lemma_padded_digits_value(f / 10, w1);
        lemma_pow10_positive(w1);
        let s = padded_digits(f, width);
        assert(s.drop_last() =~= padded_digits(f / 10, w1));
        assert(all_digits(s)) by {
            assert forall|i: int| 0 <= i < s.len() implies is_digit(#[trigger] s[i]) by {
                if i < s.len() - 1 {
                    assert(s[i] == padded_digits(f / 10, w1)[i]);
                }
            }
        }
        let p = pow10(w1);
        assert(((f / 10) % (p as nat)) * 10 + f % 10 == f % ((10 * p) as nat)) by {
            vstd::arithmetic::div_mod::lemma_breakdown(f as int, 10, p);
        }
    }
}

proof fn lemma_trimmed(f: nat, width: nat, frac: nat)
    requires
        width <= FRACTION_DIGITS,
        f < pow10(width),
        f * pow10((FRACTION_DIGITS - width) as nat) == frac,
    ensures
        trimmed(f, width).1 <= FRACTION_DIGITS,
        trimmed(f, width).0 < pow10(trimmed(f, width).1),
        trimmed(f, width).0 * pow10((FRACTION_DIGITS - trimmed(f, width).1) as nat) == frac,
    decreases width,
{
    if width > 0 && f % 10 == 0 {
        let w1 = (width - 1) as nat;
        let g = f / 10;
        lemma_pow10_step(width);
        lemma_pow10_step((FRACTION_DIGITS - w1) as nat);
        assert(g < pow10(w1)) by (nonlinear_arith)
            requires
                f < 10 * pow10(w1),
                g == f / 10,
                f % 10 == 0,
        ;
        let q = pow10((FRACTION_DIGITS - width) as nat);
        assert(g * (10 * q) == frac) by (nonlinear_arith)
            requires
                f * q == frac,
                f == 10 * g + f % 10,
                f % 10 == 0,
        ;
        lemma_trimmed(g, w1, frac);
    }
}

/// A decimal's text reads back as the same decimal: for every value whose
/// whole part parsing accepts, the numeral that `to_text` writes is a valid
/// numeral of exactly that value.
#[verifier::rlimit(60)]
pub proof fn lemma_text_round_trip(u: int)
    requires
        -(PARSED_LIMIT as int) < u < PARSED_LIMIT as int,
    ensures
        decimal_text_in_range(units_text(u)),
        text_units(units_text(u)) == u,
{
    let m: nat = if u < 0 {
        (-u) as nat
    } else {
        u as nat
    };
    let whole = m / (ONE as nat);
    let frac = m % (ONE as nat);
    assert(pow10(18) == ONE) by {
        reveal_with_fuel(pow10, 19);
    }
    assert(pow10(0) == 1);
    lemma_trimmed(frac, FRACTION_DIGITS as nat, frac);
    let (f, w) = trimmed(frac, FRACTION_DIGITS as nat);
    let wd = decimal_of(whole);
    lemma_decimal_of_value(whole);
    let tail = if w == 0 {
        Seq::<char>::empty()
    } else {
        "."@ + padded_digits(f, w)
    };
    let body = wd + tail;
    let text = units_text(u);
    reveal_strlit(".");
    reveal_strlit("-");
    lemma_digit_chars();
    assert(text == (if u < 0 {
        "-"@
    } else {
        Seq::empty()
    }) + body);
    assert(is_digit(wd[0]));
    if u < 0 {
        assert(text[0] == '-');
        assert(unsigned_text(text) =~= body);
    } else {
        assert(text =~= body);
        assert(text[0] == wd[0]);
        assert(unsigned_text(text) =~= body);
    }
    assert forall|j: int| 0 <= j < wd.len() implies body[j] != '.' by {
        assert(body[j] == wd[j]);
        assert(is_digit(wd[j]));
    }
    if w > 0 {
        assert(body[wd.len() as int] == '.');
    }
    lemma_first_dot_at(body, wd.len() as int);
    assert(whole_digits(text) =~= wd);
    lemma_padded_digits_value(f, w);
    if w > 0 {
        assert(fraction_digits(text) =~= padded_digits(f, w));
        assert(f % (pow10(w) as nat) == f) by {
            vstd::arithmetic::div_mod::lemma_small_mod(f, pow10(w) as nat);
        }
    } else {
        assert(fraction_digits(text) =~= Seq::<char>::empty());
        assert(f == 0);
    }
    assert(whole < WHOLE_LIMIT) by (nonlinear_arith)
        requires
            m < PARSED_LIMIT,
            whole == m / (ONE as nat),
    ;
    assert(m == whole * ONE + frac) by {
        vstd::arithmetic::div_mod::lemma_fundamental_div_mod(m as int, ONE as int);
    }
}

} // verus!

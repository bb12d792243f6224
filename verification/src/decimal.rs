//! Exact decimal numbers for priorities, ratings and prices.
//!
//! A `Decimal` is a sign, a number of units and a scale: its value is
//! `units / 10^scale`, negated where `negative` is set. Its text is the
//! plain decimal notation: no exponent, no decimal point for whole numbers,
//! and a digit before the point (`0.8`, `1`, `4.5`, `-0.25`).
//!
//! A number is read from plain notation or from notation with an exponent
//! (`1e-1`, `2.5E3`). What has no exact decimal of this size is not read:
//! `NaN`, `inf` and `infinity`; a number with more significant digits than
//! a `u64` holds or with more than 255 decimal places; an exponent beyond
//! 999 in either direction.

use vstd::prelude::*;
use crate::text::{decimal_text, digit_char};

verus! {

/// Ten to the power `n`.
pub open spec fn pow10(n: nat) -> nat
    decreases n,
{
    if n == 0 {
        1
    } else {
        10 * pow10((n - 1) as nat)
    }
}

pub open spec fn is_digit(c: char) -> bool {
    '0' <= c && c <= '9'
}

pub open spec fn all_digits(s: Seq<char>) -> bool {
    forall|i: int| 0 <= i < s.len() ==> is_digit(#[trigger] s[i])
}

/// The number that a sequence of decimal digits denotes; leading zeros are
/// allowed, and the empty sequence denotes zero.
pub open spec fn digits_value(s: Seq<char>) -> nat
    decreases s.len(),
{
    if s.len() == 0 {
        0
    } else {
        10 * digits_value(s.drop_last()) + ((s.last() as u32 - 48) as nat)
    }
}

/// Where `c` first occurs in `s`; the length of `s` if it does not occur.
pub open spec fn position_of(s: Seq<char>, c: char) -> nat
    decreases s.len(),
{
    if s.len() == 0 || s[0] == c {
        0
    } else {
        1 + position_of(s.drop_first(), c)
    }
}

/// The length of `s` without its trailing zeros.
pub open spec fn trimmed_len(s: Seq<char>) -> nat
    decreases s.len(),
{
    if s.len() > 0 && s.last() == '0' {
        trimmed_len(s.drop_last())
    } else {
        s.len()
    }
}

/// `k` zeros.
pub open spec fn zeros(k: nat) -> Seq<char> {
    Seq::new(k, |i: int| '0')
}

/// The length of the sign that a number's text starts with: 0 or 1.
pub open spec fn sign_len(s: Seq<char>) -> nat {
    if s.len() > 0 && (s[0] == '-' || s[0] == '+') {
        1
    } else {
        0
    }
}

/// The digits before the decimal point.
pub open spec fn whole_part(s: Seq<char>) -> Seq<char> {
    let body = s.skip(sign_len(s) as int);
    body.take(position_of(body, '.') as int)
}

/// The digits after the decimal point; empty where there is no point.
pub open spec fn fraction_part(s: Seq<char>) -> Seq<char> {
    let body = s.skip(sign_len(s) as int);
    let dot = position_of(body, '.');
    if dot < body.len() {
        body.skip(dot as int + 1)
    } else {
        Seq::empty()
    }
}

/// The digits that count: those before the point, and those after it up to
/// the last that is not zero.
pub open spec fn significant_digits(s: Seq<char>) -> Seq<char> {
    whole_part(s) + fraction_part(s).take(trimmed_len(fraction_part(s)) as int)
}

/// Whether a character marks the exponent of a number.
pub open spec fn is_mark(c: char) -> bool {
    c == 'e' || c == 'E'
}

/// Where the exponent mark first occurs in `s`; the length of `s` if there
/// is none.
pub open spec fn mark_position(s: Seq<char>) -> nat
    decreases s.len(),
{
    if s.len() == 0 || is_mark(s[0]) {
        0
    } else {
        1 + mark_position(s.drop_first())
    }
}

/// The exponent that a text denotes: an optional sign and at least one
/// digit, of a value up to 999.
pub open spec fn exponent_of(t: Seq<char>) -> Option<int> {
    let digits = t.skip(sign_len(t) as int);
    if digits.len() > 0 && all_digits(digits) && digits_value(digits) <= 999 {
        Some(
            if t[0] == '-' {
                -(digits_value(digits) as int)
            } else {
                digits_value(digits) as int
            },
        )
    } else {
        None
    }
}

/// Units and scale of the same value without trailing zeros after the
/// decimal point.
pub open spec fn trimmed_units(units: nat, scale: nat) -> (nat, nat)
    decreases scale,
{
    if scale > 0 && units % 10 == 0 {
        trimmed_units(units / 10, (scale - 1) as nat)
    } else {
        (units, scale)
    }
}

#[derive(Clone, Copy, Debug, PartialEq, Eq, Structural)]
pub struct Decimal {
    pub negative: bool,
    pub units: u64,
    pub scale: u8,
}

impl Decimal {
    /// No trailing zero after the decimal point: each value has one
    /// canonical `Decimal` per sign.
    pub open spec fn is_canonical(self) -> bool {
        self.scale == 0 || self.units % 10 != 0
    }

    /// The value is at least zero. Negative zero counts as zero.
    pub open spec fn is_non_negative(self) -> bool {
        !self.negative || self.units == 0
    }

    /// The value is at most `bound`.
    pub open spec fn is_at_most(self, bound: nat) -> bool {
        self.negative || self.units <= bound * pow10(self.scale as nat)
    }

    /// The value lies between zero and `bound`, both included.
    pub open spec fn is_between_zero_and(self, bound: nat) -> bool {
        self.is_non_negative() && self.is_at_most(bound)
    }

    /// The decimal notation of the value.
    pub open spec fn text(self) -> Seq<char> {
        let digits = decimal_text(self.units as nat);
        let sign = if self.negative {
            seq!['-']
        } else {
            Seq::empty()
        };
        let scale = self.scale as nat;
        if scale == 0 {
            sign + digits
        } else if digits.len() > scale {
            sign + digits.take(digits.len() - scale) + seq!['.'] + digits.skip(digits.len() - scale)
        } else {
            sign + seq!['0', '.'] + zeros((scale - digits.len()) as nat) + digits
        }
    }

    /// The number that a text in plain notation denotes: an optional sign,
    /// digits, and optionally a point and more digits, with at least one
    /// digit in all. The result is canonical. A number with more
    /// significant digits than a `u64` holds, or more than 255 decimal
    /// places, is not read.
    pub open spec fn parsed_plain(s: Seq<char>) -> Option<Decimal> {
        let whole = whole_part(s);
        let fraction = fraction_part(s);
        let places = trimmed_len(fraction);
        let units = digits_value(significant_digits(s));
        if all_digits(whole) && all_digits(fraction) && whole.len() + fraction.len() > 0 && units
            <= u64::MAX && places <= 255 {
            Some(
                Decimal {
                    negative: s.len() > 0 && s[0] == '-',
                    units: units as u64,
                    scale: places as u8,
                },
            )
        } else {
            None
        }
    }

    /// The value times ten to the power `exponent`, in canonical form, if
    /// it fits: at most 255 decimal places, and units that a `u64` holds.
    pub open spec fn shifted(self, exponent: int) -> Option<Decimal> {
        if exponent > self.scale {
            let units = self.units * pow10((exponent - self.scale) as nat);
            if units <= u64::MAX {
                Some(Decimal { negative: self.negative, units: units as u64, scale: 0 })
            } else {
                None
            }
        } else {
            let trimmed = trimmed_units(self.units as nat, (self.scale - exponent) as nat);
            if trimmed.1 <= 255 {
                Some(
                    Decimal {
                        negative: self.negative,
                        units: trimmed.0 as u64,
                        scale: trimmed.1 as u8,
                    },
                )
            } else {
                None
            }
        }
    }

    /// The number that a text denotes: a number in plain notation, or one
    /// followed by `e` or `E` and an exponent, which shifts the decimal
    /// point. What is not read: a text that is no such number (`NaN` and
    /// `inf` among them), a number with more significant digits than a
    /// `u64` holds or more than 255 decimal places, and an exponent beyond
    /// 999.
    pub open spec fn parsed(s: Seq<char>) -> Option<Decimal> {
        let mark = mark_position(s);
        if mark >= s.len() {
            Decimal::parsed_plain(s)
        } else {
            match (Decimal::parsed_plain(s.take(mark as int)), exponent_of(s.skip(mark as int + 1))) {
                (Some(mantissa), Some(exponent)) => mantissa.shifted(exponent),
                _ => None,
            }
        }
    }

    pub fn new(negative: bool, units: u64, scale: u8) -> (d: Decimal)
        ensures
            d == (Decimal { negative, units, scale }),
    {
        Decimal { negative, units, scale }
    }

    /// The same value in canonical form: without trailing zeros after the
    /// decimal point.
    pub fn normalized(self) -> (d: Decimal)
        ensures
            d.is_canonical(),
            d.negative == self.negative,
            d.scale <= self.scale,
            d.units * pow10((self.scale - d.scale) as nat) == self.units,
    {
        let mut units = self.units;
        let mut scale = self.scale;
        assert(units * pow10(0) == units) by {
            assert(pow10(0) == 1);
        }
        while scale > 0 && units % 10 == 0
            invariant
                scale <= self.scale,
                units * pow10((self.scale - scale) as nat) == self.units,
            decreases scale,
        {
            proof {
                let k = (self.scale - scale) as nat;
                assert(pow10(k + 1) == 10 * pow10(k));
                assert((units / 10) * (10 * pow10(k)) == units * pow10(k)) by (nonlinear_arith)
                    requires
                        units % 10 == 0,
                ;
            }
            units = units / 10;
            scale = scale - 1;
        }
        Decimal { negative: self.negative, units, scale }
    }

    /// Whether the value lies between zero and `bound`, both included.
    pub fn in_range(&self, bound: u64) -> (inside: bool)
        ensures
            inside == self.is_between_zero_and(bound as nat),
    {
        if self.units == 0 {
            return true;
        }
        if self.negative {
            return false;
        }
        if bound == 0 {
            assert(0 * pow10(self.scale as nat) == 0);
            return false;
        }
        let mut limit: u128 = bound as u128;
        let mut done: u8 = 0;
        assert(pow10(0) == 1);
        while done < self.scale && limit <= u64::MAX as u128
            invariant
                done <= self.scale,
                bound >= 1,
                limit == bound * pow10(done as nat),
                limit <= 10 * u64::MAX,
            decreases self.scale - done,
        {
            assert(pow10((done + 1) as nat) == 10 * pow10(done as nat));
            assert(bound * (10 * pow10(done as nat)) == 10 * (bound * pow10(done as nat)))
                by (nonlinear_arith);
            limit = limit * 10;
            done = done + 1;
        }
        proof {
            if done < self.scale {
                lemma_pow10_grows(done as nat, self.scale as nat);
                assert(bound * pow10(done as nat) <= bound * pow10(self.scale as nat))
                    by (nonlinear_arith)
                    requires
                        pow10(done as nat) <= pow10(self.scale as nat),
                        bound >= 1,
                ;
            }
        }
        self.units as u128 <= limit
    }

    /// The decimal notation of the value.
    pub fn to_text(&self) -> (out: String)
        ensures
            out@ == self.text(),
    {
        let mut digits: Vec<char> = Vec::new();
        push_digits(&mut digits, self.units);
        assert(digits@ == decimal_text(self.units as nat)) by {
            assert(Seq::<char>::empty() + decimal_text(self.units as nat) == decimal_text(
                self.units as nat,
            ));
        }
        let mut out = String::new();
        if self.negative {
            out.push('-');
        }
        let ghost sign = out@;
        assert(sign == if self.negative {
            seq!['-']
        } else {
            Seq::<char>::empty()
        });
        let n = digits.len();
        let places = self.scale as usize;
        if places == 0 {
            push_range(&mut out, &digits, 0, n);
            assert(digits@.subrange(0, n as int) == digits@);
        } else if n > places {
            push_range(&mut out, &digits, 0, n - places);
            out.push('.');
            push_range(&mut out, &digits, n - places, n);
            assert(digits@.subrange(0, n - places) == digits@.take(n - places));
            assert(digits@.subrange(n - places, n as int) == digits@.skip(n - places));
            assert(sign + digits@.take(n - places) + seq!['.'] == (sign + digits@.take(n - places)).push(
                '.',
            ));
        } else {
            out.push('0');
            out.push('.');
            assert(out@ == sign + seq!['0', '.']);
            let mut i: usize = 0;
            while i < places - n
                invariant
                    n <= places,
                    i <= places - n,
                    out@ == sign + seq!['0', '.'] + zeros(i as nat),
                decreases places - n - i,
            {
                out.push('0');
                assert(zeros((i + 1) as nat) == zeros(i as nat).push('0'));
                i += 1;
            }
            push_range(&mut out, &digits, 0, n);
            assert(digits@.subrange(0, n as int) == digits@);
        }
        out
    }

    /// Reads a decimal number, in plain notation or with an exponent.
    pub fn parse(text: &str) -> (r: Option<Decimal>)
        ensures
            r == Decimal::parsed(text@),
    {
        let mut chars: Vec<char> = Vec::new();
        for c in it: text.chars()
            invariant
                it.seq() == text@,
                chars@ == text@.take(it.index() as int),
        {
            chars.push(c);
            assert(text@.take(it.index() + 1) == text@.take(it.index() as int).push(c));
        }
        assert(text@.take(text@.len() as int) == text@);
        let n = chars.len();
        let mark = mark_of(&chars);
        if mark >= n {
            return parse_plain(&chars);
        }
        let mut front: Vec<char> = Vec::new();
        copy_range(&mut front, &chars, 0, mark);
        let mut back: Vec<char> = Vec::new();
        copy_range(&mut back, &chars, mark + 1, n);
        proof {
            assert(front@ =~= text@.take(mark as int));
            assert(back@ =~= text@.skip(mark + 1));
        }
        let mantissa = parse_plain(&front);
        let exponent = read_exponent(&back);
        match (mantissa, exponent) {
            (Some(mantissa), Some(exponent)) => shift(mantissa, exponent),
            _ => None,
        }
    }
}

/// Where the exponent mark first stands.
fn mark_of(chars: &Vec<char>) -> (mark: usize)
    ensures
        mark == mark_position(chars@),
        mark <= chars.len(),
{
    let mut mark: usize = 0;
    while mark < chars.len() && !(chars[mark] == 'e' || chars[mark] == 'E')
        invariant
            mark <= chars.len(),
            forall|j: int| 0 <= j < mark ==> !is_mark(chars@[j]),
        decreases chars.len() - mark,
    {
        mark += 1;
    }
    proof {
        lemma_mark_position(chars@, mark as nat);
    }
    mark
}

/// Reads a number in plain notation.
fn parse_plain(chars: &Vec<char>) -> (r: Option<Decimal>)
    ensures
        r == Decimal::parsed_plain(chars@),
{
    let n = chars.len();
    let negative = n > 0 && chars[0] == '-';
    let at = layout_of(chars);
    let mut digits: Vec<char> = Vec::new();
    copy_range(&mut digits, chars, at.start, at.dot);
    copy_range(&mut digits, chars, at.after, at.end);
    proof {
        let s = chars@;
        assert(Seq::<char>::empty() + s.subrange(at.start as int, at.dot as int) == s.subrange(
            at.start as int,
            at.dot as int,
        ));
        assert(fraction_part(s).take(trimmed_len(fraction_part(s)) as int) == s.subrange(
            at.after as int,
            at.end as int,
        ));
        assert(digits@ == significant_digits(s));
        lemma_significant_digits(s);
    }
    let units = value_of_digits(&digits);
    if (at.dot - at.start) + (n - at.after) == 0 || at.end - at.after > 255 {
        return None;
    }
    match units {
        Some(units) => Some(Decimal { negative, units, scale: (at.end - at.after) as u8 }),
        None => None,
    }
}

/// Reads an exponent: an optional sign and digits, up to 999.
fn read_exponent(chars: &Vec<char>) -> (r: Option<i32>)
    ensures
        match exponent_of(chars@) {
            Some(exponent) => r == Some(exponent as i32) && -999 <= exponent <= 999,
            None => r is None,
        },
{
    let n = chars.len();
    let start: usize = if n > 0 && (chars[0] == '-' || chars[0] == '+') {
        1
    } else {
        0
    };
    let negative = n > 0 && chars[0] == '-';
    let mut digits: Vec<char> = Vec::new();
    copy_range(&mut digits, chars, start, n);
    assert(digits@ =~= chars@.skip(sign_len(chars@) as int));
    if digits.len() == 0 {
        return None;
    }
    match value_of_digits(&digits) {
        Some(value) => {
            if value > 999 {
                None
            } else if negative {
                Some(-(value as i32))
            } else {
                Some(value as i32)
            }
        },
        None => None,
    }
}

/// Multiplies by ten to the power `exponent`, if the result fits.
fn shift(mantissa: Decimal, exponent: i32) -> (r: Option<Decimal>)
    requires
        -999 <= exponent <= 999,
    ensures
        r == mantissa.shifted(exponent as int),
{
    let scale = mantissa.scale as i32;
    if exponent > scale {
        let steps: u32 = (exponent - scale) as u32;
        let mut units = mantissa.units;
        let mut done: u32 = 0;
        assert(units * pow10(0) == units) by {
            assert(pow10(0) == 1);
        }
        while done < steps
            invariant
                done <= steps,
                exponent > mantissa.scale,
                steps == exponent - mantissa.scale,
                units == mantissa.units * pow10(done as nat),
            decreases steps - done,
        {
            proof {
                assert(pow10((done + 1) as nat) == 10 * pow10(done as nat));
                assert(mantissa.units * (10 * pow10(done as nat)) == 10 * (mantissa.units * pow10(
                    done as nat,
                ))) by (nonlinear_arith);
            }
            match units.checked_mul(10) {
                Some(more) => {
                    units = more;
                },
                None => {
                    proof {
                        assert(mantissa.units * pow10((done + 1) as nat) == units * 10);
                        assert(units * 10 > u64::MAX);
                        assert(steps as nat == (exponent - mantissa.scale) as nat);
                        lemma_pow10_grows((done + 1) as nat, steps as nat);
                        assert(mantissa.units * pow10((done + 1) as nat) <= mantissa.units * pow10(
                            steps as nat,
                        )) by (nonlinear_arith)
                            requires
                                pow10((done + 1) as nat) <= pow10(steps as nat),
                        ;
                    }
                    return None;
                },
            }
            done = done + 1;
        }
        Some(Decimal { negative: mantissa.negative, units, scale: 0 })
    } else {
        let mut units = mantissa.units;
        let mut places: u32 = (scale - exponent) as u32;
        while places > 0 && units % 10 == 0
            invariant
                trimmed_units(units as nat, places as nat) == trimmed_units(
                    mantissa.units as nat,
                    (mantissa.scale - exponent) as nat,
                ),
            decreases places,
        {
            units = units / 10;
            places = places - 1;
        }
        if places > 255 {
            return None;
        }
        Some(Decimal { negative: mantissa.negative, units, scale: places as u8 })
    }
}

/// Where the parts of a number's text lie: its digits before the point at
/// `start..dot`, those after it at `after..`, of which `after..end` are left
/// once the trailing zeros are cut off.
struct NumberLayout {
    start: usize,
    dot: usize,
    after: usize,
    end: usize,
}

fn layout_of(chars: &Vec<char>) -> (at: NumberLayout)
    ensures
        at.start <= at.dot <= at.after <= at.end <= chars.len(),
        whole_part(chars@) == chars@.subrange(at.start as int, at.dot as int),
        fraction_part(chars@) == chars@.subrange(at.after as int, chars.len() as int),
        trimmed_len(fraction_part(chars@)) == at.end - at.after,
{
    let n = chars.len();
    let start: usize = if n > 0 && (chars[0] == '-' || chars[0] == '+') {
        1
    } else {
        0
    };
    let ghost s = chars@;
    let ghost body = s.skip(start as int);
    let mut dot = start;
    while dot < n && chars[dot] != '.'
        invariant
            start <= dot <= n,
            chars@ == s,
            n == s.len(),
            body == s.skip(start as int),
            forall|j: int| 0 <= j < dot - start ==> body[j] != '.',
        decreases n - dot,
    {
        dot += 1;
    }
    proof {
        lemma_position_of(body, '.', (dot - start) as nat);
    }
    let after: usize = if dot < n {
        dot + 1
    } else {
        n
    };
    let ghost fraction = fraction_part(s);
    assert(whole_part(s) == s.subrange(start as int, dot as int));
    assert(fraction == s.subrange(after as int, n as int));
    let mut end = n;
    while end > after && chars[end - 1] == '0'
        invariant
            after <= end <= n,
            chars@ == s,
            n == s.len(),
            fraction == s.subrange(after as int, n as int),
            trimmed_len(fraction) == trimmed_len(s.subrange(after as int, end as int)),
        decreases end,
    {
        assert(s.subrange(after as int, end as int).drop_last() == s.subrange(
            after as int,
            end - 1,
        ));
        end -= 1;
    }
    NumberLayout { start, dot, after, end }
}

/// The number that the digits denote, if they are digits and it fits.
fn value_of_digits(digits: &Vec<char>) -> (r: Option<u64>)
    ensures
        r == (if all_digits(digits@) && digits_value(digits@) <= u64::MAX {
            Some(digits_value(digits@) as u64)
        } else {
            None
        }),
{
    let mut units: u64 = 0;
    let mut k: usize = 0;
    assert(digits@.take(0) == Seq::<char>::empty());
    while k < digits.len()
        invariant
            k <= digits.len(),
            all_digits(digits@.take(k as int)),
            units == digits_value(digits@.take(k as int)),
        decreases digits.len() - k,
    {
        let c = digits[k];
        let ghost seen = digits@.take(k as int);
        let ghost next = digits@.take(k + 1);
        proof {
            assert(next.drop_last() == seen);
            assert(next.last() == c);
        }
        if !(c >= '0' && c <= '9') {
            assert(!is_digit(digits@[k as int]));
            return None;
        }
        assert(all_digits(next)) by {
            assert forall|j: int| 0 <= j < next.len() implies is_digit(#[trigger] next[j]) by {
                if j < k {
                    assert(next[j] == seen[j]);
                }
            }
        }
        let d: u64 = (c as u32 - 48) as u64;
        let grown = match units.checked_mul(10) {
            Some(tens) => tens.checked_add(d),
            None => None,
        };
        match grown {
            Some(value) => {
                units = value;
            },
            None => {
                proof {
                    assert(digits_value(next) > u64::MAX);
                    if all_digits(digits@) {
                        lemma_value_grows(digits@, k + 1);
                    }
                }
                return None;
            },
        }
        k += 1;
    }
    assert(digits@.take(digits@.len() as int) == digits@);
    Some(units)
}

/// Appends the characters at `from..to`.
fn copy_range(out: &mut Vec<char>, chars: &Vec<char>, from: usize, to: usize)
    requires
        from <= to <= chars.len(),
    ensures
        final(out)@ == old(out)@ + chars@.subrange(from as int, to as int),
{
    let mut i = from;
    assert(old(out)@ + chars@.subrange(from as int, from as int) == old(out)@);
    while i < to
        invariant
            from <= i <= to <= chars.len(),
            out@ == old(out)@ + chars@.subrange(from as int, i as int),
        decreases to - i,
    {
        out.push(chars[i]);
        assert(old(out)@ + chars@.subrange(from as int, i + 1) == (old(out)@ + chars@.subrange(
            from as int,
            i as int,
        )).push(chars@[i as int]));
        i += 1;
    }
}

/// The digits of a number's text are digits exactly if those that count are:
/// what is cut off are zeros.
pub proof fn lemma_significant_digits(s: Seq<char>)
    ensures
        all_digits(significant_digits(s)) <==> all_digits(whole_part(s)) && all_digits(
            fraction_part(s),
        ),
{
    let whole = whole_part(s);
    let fraction = fraction_part(s);
    let kept = fraction.take(trimmed_len(fraction) as int);
    let digits = significant_digits(s);
    lemma_trimmed_len_bound(fraction);
    if all_digits(digits) {
        assert forall|j: int| 0 <= j < whole.len() implies is_digit(#[trigger] whole[j]) by {
            assert(whole[j] == digits[j]);
        }
        assert forall|j: int| 0 <= j < fraction.len() implies is_digit(#[trigger] fraction[j]) by {
            if j < kept.len() {
                assert(fraction[j] == digits[whole.len() + j]);
            } else {
                lemma_trimmed_tail(fraction, j);
            }
        }
    }
    if all_digits(whole) && all_digits(fraction) {
        assert forall|j: int| 0 <= j < digits.len() implies is_digit(#[trigger] digits[j]) by {
            if j < whole.len() {
                assert(digits[j] == whole[j]);
            } else {
                assert(digits[j] == fraction[j - whole.len()]);
            }
        }
    }
}

pub proof fn lemma_trimmed_len_bound(s: Seq<char>)
    ensures
        trimmed_len(s) <= s.len(),
    decreases s.len(),
{
    if s.len() > 0 && s.last() == '0' {
        lemma_trimmed_len_bound(s.drop_last());
    }
}

/// Appends the decimal digits of `n`.
fn push_digits(out: &mut Vec<char>, n: u64)
    ensures
        final(out)@ == old(out)@ + decimal_text(n as nat),
    decreases n,
{
    if n >= 10 {
        push_digits(out, n / 10);
    }
    let d: u8 = (n % 10) as u8;
    out.push((48u8 + d) as char);
    proof {
        if n >= 10 {
            assert(old(out)@ + decimal_text((n / 10) as nat).push(digit_char((n % 10) as nat))
                == (old(out)@ + decimal_text((n / 10) as nat)).push(digit_char((n % 10) as nat)));
        } else {
            assert(old(out)@ + seq![digit_char(n as nat)] == old(out)@.push(digit_char(n as nat)));
        }
    }
}

/// Appends the characters at `from..to`.
fn push_range(out: &mut String, chars: &Vec<char>, from: usize, to: usize)
    requires
        from <= to <= chars.len(),
    ensures
        final(out)@ == old(out)@ + chars@.subrange(from as int, to as int),
{
    let mut i = from;
    assert(old(out)@ + chars@.subrange(from as int, from as int) == old(out)@);
    while i < to
        invariant
            from <= i <= to <= chars.len(),
            out@ == old(out)@ + chars@.subrange(from as int, i as int),
        decreases to - i,
    {
        out.push(chars[i]);
        assert(old(out)@ + chars@.subrange(from as int, i + 1) == (old(out)@ + chars@.subrange(
            from as int,
            i as int,
        )).push(chars@[i as int]));
        i += 1;
    }
}

pub proof fn lemma_pow10_grows(a: nat, b: nat)
    requires
        a <= b,
    ensures
        1 <= pow10(a) <= pow10(b),
    decreases b,
{
    if b == 0 {
    } else if a == b {
        lemma_pow10_grows((a - 1) as nat, (a - 1) as nat);
    } else {
        lemma_pow10_grows(a, (b - 1) as nat);
    }
}

/// `mark_position` is the first index at which an exponent mark stands.
pub proof fn lemma_mark_position(s: Seq<char>, i: nat)
    requires
        i <= s.len(),
        forall|j: int| 0 <= j < i ==> !is_mark(s[j]),
        i == s.len() || is_mark(s[i as int]),
    ensures
        mark_position(s) == i,
    decreases s.len(),
{
    if s.len() == 0 || is_mark(s[0]) {
    } else {
        lemma_mark_position(s.drop_first(), (i - 1) as nat);
    }
}

/// `position_of` is the first index at which the character stands.
pub proof fn lemma_position_of(s: Seq<char>, c: char, i: nat)
    requires
        i <= s.len(),
        forall|j: int| 0 <= j < i ==> s[j] != c,
        i == s.len() || s[i as int] == c,
    ensures
        position_of(s, c) == i,
    decreases s.len(),
{
    if s.len() == 0 || s[0] == c {
    } else {
        lemma_position_of(s.drop_first(), c, (i - 1) as nat);
    }
}

/// What `trimmed_len` cuts off are zeros.
pub proof fn lemma_trimmed_tail(s: Seq<char>, j: int)
    requires
        trimmed_len(s) <= j < s.len(),
    ensures
        s[j] == '0',
    decreases s.len(),
{
    if s.len() > 0 && s.last() == '0' {
        if j < s.len() - 1 {
            lemma_trimmed_tail(s.drop_last(), j);
        }
    }
}

/// A prefix of a digit sequence denotes no more than the whole sequence.
pub proof fn lemma_value_grows(s: Seq<char>, k: int)
    requires
        all_digits(s),
        0 <= k <= s.len(),
    ensures
        digits_value(s.take(k)) <= digits_value(s),
    decreases s.len() - k,
{
    if k == s.len() {
        assert(s.take(k) == s);
    } else {
        lemma_value_grows(s, k + 1);
        assert(s.take(k + 1).drop_last() == s.take(k));
        assert(is_digit(s[k]));
        assert(s.take(k + 1).last() == s[k]);
    }
}

/// The decimal notation of a number: digits that denote it, the last of
/// them its remainder by ten.
pub proof fn lemma_decimal_text(n: nat)
    ensures
        decimal_text(n).len() >= 1,
        all_digits(decimal_text(n)),
        digits_value(decimal_text(n)) == n,
        decimal_text(n).last() == digit_char(n % 10),
        (decimal_text(n).last() == '0') == (n % 10 == 0),
    decreases n,
{
    let text = decimal_text(n);
    lemma_digit_char(n % 10);
    if n < 10 {
        assert(text.drop_last() =~= Seq::<char>::empty());
        assert(digits_value(text.drop_last()) == 0);
    } else {
        lemma_decimal_text(n / 10);
        let front = decimal_text(n / 10);
        assert(text.drop_last() =~= front);
        assert forall|i: int| 0 <= i < text.len() implies is_digit(#[trigger] text[i]) by {
            if i < front.len() {
                assert(text[i] == front[i]);
            }
        }
    }
}

/// The character of a digit is a digit, and stands for it.
pub proof fn lemma_digit_char(d: nat)
    requires
        d < 10,
    ensures
        is_digit(digit_char(d)),
        (digit_char(d) as u32 - 48) as nat == d,
        (digit_char(d) == '0') == (d == 0),
{
    let c = digit_char(d);
    assert(c as u32 == 48 + d);
}

/// A sequence of zeros denotes zero.
pub proof fn lemma_zeros_value(z: Seq<char>)
    requires
        forall|i: int| 0 <= i < z.len() ==> z[i] == '0',
    ensures
        digits_value(z) == 0,
    decreases z.len(),
{
    if z.len() > 0 {
        lemma_zeros_value(z.drop_last());
    }
}

/// Zeros in front do not change what digits denote.
pub proof fn lemma_leading_zeros(z: Seq<char>, digits: Seq<char>)
    requires
        forall|i: int| 0 <= i < z.len() ==> z[i] == '0',
    ensures
        digits_value(z + digits) == digits_value(digits),
    decreases digits.len(),
{
    if digits.len() == 0 {
        assert(z + digits =~= z);
        lemma_zeros_value(z);
    } else {
        lemma_leading_zeros(z, digits.drop_last());
        assert((z + digits).drop_last() =~= z + digits.drop_last());
        assert((z + digits).last() == digits.last());
    }
}

/// A text that does not end in a zero is not trimmed.
proof fn lemma_untrimmed(s: Seq<char>)
    requires
        s.len() == 0 || s.last() != '0',
    ensures
        trimmed_len(s) == s.len(),
{
}

/// Where digits, a point and more text follow one another, the point is
/// found behind the digits.
proof fn lemma_split_at_point(front: Seq<char>, back: Seq<char>)
    requires
        all_digits(front),
    ensures
        ({
            let body = front + seq!['.'] + back;
            &&& position_of(body, '.') == front.len()
            &&& body.take(front.len() as int) == front
            &&& body.skip(front.len() as int + 1) == back
        }),
{
    let body = front + seq!['.'] + back;
    assert forall|j: int| 0 <= j < front.len() implies body[j] != '.' by {
        assert(body[j] == front[j]);
        assert(is_digit(front[j]));
    }
    lemma_position_of(body, '.', front.len());
    assert(body.take(front.len() as int) =~= front);
    assert(body.skip(front.len() as int + 1) =~= back);
}

/// Digits hold no point.
proof fn lemma_no_point(digits: Seq<char>)
    requires
        all_digits(digits),
    ensures
        position_of(digits, '.') == digits.len(),
{
    assert forall|j: int| 0 <= j < digits.len() implies digits[j] != '.' by {
        assert(is_digit(digits[j]));
    }
    lemma_position_of(digits, '.', digits.len());
}

/// The parts of a number's text with a sign in front are those of the text
/// without it.
proof fn lemma_signed_parts(negative: bool, body: Seq<char>)
    requires
        body.len() > 0,
        is_digit(body[0]),
    ensures
        ({
            let text = if negative {
                seq!['-'] + body
            } else {
                body
            };
            let dot = position_of(body, '.');
            &&& text.len() > 0
            &&& (text[0] == '-') == negative
            &&& whole_part(text) == body.take(dot as int)
            &&& fraction_part(text) == if dot < body.len() {
                body.skip(dot as int + 1)
            } else {
                Seq::empty()
            }
        }),
{
    let text = if negative {
        seq!['-'] + body
    } else {
        body
    };
    if negative {
        assert(text.skip(1) =~= body);
    } else {
        assert(text.skip(0) =~= body);
    }
}

/// What is read of a text whose parts are known.
proof fn lemma_parsed_parts(text: Seq<char>, whole: Seq<char>, fraction: Seq<char>, d: Decimal)
    requires
        text.len() > 0,
        (text[0] == '-') == d.negative,
        whole_part(text) == whole,
        fraction_part(text) == fraction,
        all_digits(whole),
        all_digits(fraction),
        whole.len() + fraction.len() > 0,
        fraction.len() == d.scale,
        fraction.len() == 0 || fraction.last() != '0',
        digits_value(whole + fraction) == d.units,
    ensures
        Decimal::parsed_plain(text) == Some(d),
{
    lemma_untrimmed(fraction);
    assert(fraction.take(fraction.len() as int) =~= fraction);
}

/// The notation of a number holds no exponent mark.
proof fn lemma_text_without_mark(d: Decimal)
    ensures
        mark_position(d.text()) == d.text().len(),
{
    let digits = decimal_text(d.units as nat);
    lemma_decimal_text(d.units as nat);
    let n = digits.len();
    let scale = d.scale as nat;
    let sign: Seq<char> = if d.negative {
        seq!['-']
    } else {
        Seq::empty()
    };
    let text = d.text();
    let lead = sign.len() as int;
    assert forall|i: int| 0 <= i < text.len() implies !is_mark(#[trigger] text[i]) by {
        if i < lead {
            assert(text[i] == '-');
        } else if scale == 0 {
            assert(text[i] == digits[i - lead]);
            assert(is_digit(digits[i - lead]));
        } else if n > scale {
            if i < lead + n - scale {
                assert(text[i] == digits[i - lead]);
                assert(is_digit(digits[i - lead]));
            } else if i == lead + n - scale {
                assert(text[i] == '.');
            } else {
                assert(text[i] == digits[i - lead - 1]);
                assert(is_digit(digits[i - lead - 1]));
            }
        } else {
            if i == lead {
                assert(text[i] == '0');
            } else if i == lead + 1 {
                assert(text[i] == '.');
            } else if i < lead + 2 + (scale - n) {
                assert(text[i] == '0');
            } else {
                assert(text[i] == digits[i - lead - 2 - (scale - n)]);
                assert(is_digit(digits[i - lead - 2 - (scale - n)]));
            }
        }
    }
    lemma_mark_position(text, text.len());
}

/// Reading the notation of a canonical number gives the number back.
pub proof fn lemma_parse_text(d: Decimal)
    requires
        d.is_canonical(),
    ensures
        Decimal::parsed(d.text()) == Some(d),
{
    lemma_text_without_mark(d);
    lemma_plain_text(d);
}

/// Reading the plain notation of a canonical number gives the number
/// back.
proof fn lemma_plain_text(d: Decimal)
    requires
        d.is_canonical(),
    ensures
        Decimal::parsed_plain(d.text()) == Some(d),
{
    let digits = decimal_text(d.units as nat);
    if d.scale == 0 {
        lemma_plain_whole(d);
    } else if digits.len() > d.scale {
        lemma_plain_mixed(d);
    } else {
        lemma_plain_small(d);
    }
}

/// The case of a whole number.
proof fn lemma_plain_whole(d: Decimal)
    requires
        d.scale == 0,
    ensures
        Decimal::parsed_plain(d.text()) == Some(d),
{
    let digits = decimal_text(d.units as nat);
    lemma_decimal_text(d.units as nat);
    let n = digits.len();
    assert(is_digit(digits[0]));
    lemma_signed_parts(d.negative, digits);
    lemma_no_point(digits);
    assert(d.text() =~= if d.negative {
        seq!['-'] + digits
    } else {
        digits
    });
    assert(digits.take(n as int) =~= digits);
    assert(digits + Seq::<char>::empty() =~= digits);
    lemma_parsed_parts(d.text(), digits, Seq::empty(), d);
}

/// The case of a number with digits on both sides of the point.
proof fn lemma_plain_mixed(d: Decimal)
    requires
        d.is_canonical(),
        d.scale > 0,
        decimal_text(d.units as nat).len() > d.scale,
    ensures
        Decimal::parsed_plain(d.text()) == Some(d),
{
    let digits = decimal_text(d.units as nat);
    lemma_decimal_text(d.units as nat);
    let n = digits.len();
    let scale = d.scale as nat;
    assert(is_digit(digits[0]));
    let front = digits.take(n - scale);
    let back = digits.skip(n - scale);
    let body = front + seq!['.'] + back;
    assert(is_digit(body[0])) by {
        assert(body[0] == digits[0]);
    }
    lemma_signed_parts(d.negative, body);
    lemma_split_at_point(front, back);
    assert(d.text() =~= if d.negative {
        seq!['-'] + body
    } else {
        body
    });
    assert(back.last() == digits.last());
    assert(front + back =~= digits);
    lemma_parsed_parts(d.text(), front, back, d);
}

/// The case of a number below one.
proof fn lemma_plain_small(d: Decimal)
    requires
        d.is_canonical(),
        d.scale > 0,
        decimal_text(d.units as nat).len() <= d.scale,
    ensures
        Decimal::parsed_plain(d.text()) == Some(d),
{
    let digits = decimal_text(d.units as nat);
    lemma_decimal_text(d.units as nat);
    let n = digits.len();
    let scale = d.scale as nat;
    assert(is_digit(digits[0]));
    let pad = zeros((scale - n) as nat);
    let back = pad + digits;
    let body = seq!['0'] + seq!['.'] + back;
    assert(body[0] == '0');
    lemma_signed_parts(d.negative, body);
    lemma_split_at_point(seq!['0'], back);
    assert(d.text() =~= if d.negative {
        seq!['-'] + body
    } else {
        body
    });
    assert(back.last() == digits.last());
    assert forall|j: int| 0 <= j < back.len() implies is_digit(#[trigger] back[j]) by {
        if j >= pad.len() {
            assert(back[j] == digits[j - pad.len()]);
        }
    }
    let lead = seq!['0'] + pad;
    assert(seq!['0'] + back =~= lead + digits);
    lemma_leading_zeros(lead, digits);
    lemma_parsed_parts(d.text(), seq!['0'], back, d);
}

} // verus!

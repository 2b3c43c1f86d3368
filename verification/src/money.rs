//! Money: prices as whole numbers of minor units, percentages as basis points.
//!
//! A price text such as `1,234.50` is read as the minor units that its digits
//! spell (here 123450); a share of an amount is rounded toward zero.

use vstd::prelude::*;
use crate::text::{chars_of, trim_bounds, trimmed};
use crate::views::{lemma_filter_empty, lemma_filter_step};

verus! {

/// The basis points that make up the whole: one hundred percent.
pub const FULL_SHARE: u32 = 10_000;

/// Whether `c` is one of the separators that a price text may hold: a comma, a
/// full stop or a space.
pub open spec fn is_price_separator(c: char) -> bool {
    c == ',' || c == '.' || c == ' '
}

/// The test that keeps the characters of a price text which are no separators.
pub open spec fn no_separator() -> spec_fn(char) -> bool {
    |c: char| !is_price_separator(c)
}

pub open spec fn is_digit(c: char) -> bool {
    0x30 <= c as u32 <= 0x39
}

/// The value of a decimal digit, and 0 for any other character.
pub open spec fn digit_value(c: char) -> nat {
    if is_digit(c) {
        (c as u32 - 0x30) as nat
    } else {
        0
    }
}

pub open spec fn all_digits(digits: Seq<char>) -> bool {
    forall|i: int| 0 <= i < digits.len() ==> is_digit(#[trigger] digits[i])
}

/// The number that `digits` spell in base ten.
pub open spec fn decimal_value(digits: Seq<char>) -> nat
    decreases digits.len(),
{
    if digits.len() == 0 {
        0
    } else {
        decimal_value(digits.drop_last()) * 10 + digit_value(digits.last())
    }
}

/// What is left of a price text once its separators are dropped and the
/// whitespace around the rest is trimmed.
pub open spec fn price_digits(text: Seq<char>) -> Seq<char> {
    trimmed(text.filter(no_separator()))
}

/// The price that `text` gives in minor units: its digits read as one number.
/// A text gives a price where at least one character is left, each of them is
/// a decimal digit, and the number fits in 64 bits.
pub open spec fn price_of(text: Seq<char>) -> Option<u64> {
    let digits = price_digits(text);
    if digits.len() > 0 && all_digits(digits) && decimal_value(digits) <= u64::MAX {
        Some(decimal_value(digits) as u64)
    } else {
        None
    }
}

/// The share `basis_points` of `amount`, rounded toward zero.
pub open spec fn percent_of(amount: int, basis_points: int) -> int {
    if amount >= 0 {
        amount * basis_points / 10_000
    } else {
        -((-amount) * basis_points / 10_000)
    }
}

/// `amount`, or 0 where it is negative.
pub open spec fn non_negative(amount: int) -> int {
    if amount < 0 {
        0
    } else {
        amount
    }
}

/// A prefix of a digit text spells no more than the whole text.
pub proof fn lemma_decimal_value_prefix(digits: Seq<char>, k: int)
    requires
        0 <= k <= digits.len(),
    ensures
        decimal_value(digits.take(k)) <= decimal_value(digits),
    decreases digits.len(),
{
    if k == digits.len() {
        assert(digits.take(k) =~= digits);
    } else {
        assert(digits.drop_last().take(k) =~= digits.take(k));
        lemma_decimal_value_prefix(digits.drop_last(), k);
    }
}

fn without_separators(chars: &Vec<char>) -> (kept: Vec<char>)
    ensures
        kept@ == chars@.filter(no_separator()),
{
    let mut kept: Vec<char> = Vec::new();
    let mut i: usize = 0;
    proof {
        assert(chars@.take(0) =~= Seq::<char>::empty());
        lemma_filter_empty(no_separator());
    }
    while i < chars.len()
        invariant
            i <= chars.len(),
            kept@ == chars@.take(i as int).filter(no_separator()),
        decreases chars.len() - i,
    {
        let c = chars[i];
        proof {
            lemma_filter_step(chars@, no_separator(), i as int);
        }
        if !(c == ',' || c == '.' || c == ' ') {
            kept.push(c);
        }
        i = i + 1;
    }
    assert(chars@.take(chars.len() as int) =~= chars@);
    kept
}

/// The price that `text` gives, in minor units.
pub fn parse_price(text: &str) -> (price: Option<u64>)
    ensures
        price == price_of(text@),
{
    let chars = chars_of(text);
    let kept = without_separators(&chars);
    let (start, end) = trim_bounds(&kept);
    let ghost digits = kept@.subrange(start as int, end as int);
    if start == end {
        return None;
    }
    let mut value: u64 = 0;
    let mut i: usize = start;
    assert(digits.take(0) =~= Seq::<char>::empty());
    while i < end
        invariant
            start <= i <= end <= kept.len(),
            digits == kept@.subrange(start as int, end as int),
            digits == price_digits(text@),
            value == decimal_value(digits.take(i - start)),
            all_digits(digits.take(i - start)),
        decreases end - i,
    {
        let c = kept[i];
        let u: u32 = c as u32;
        proof {
            assert(digits[i - start] == c);
            assert(digits.take(i - start + 1).drop_last() =~= digits.take(i - start));
            assert(digits.take(i - start + 1).last() == c);
            lemma_decimal_value_prefix(digits, i - start + 1);
        }
        if u < 0x30 || u > 0x39 {
            return None;
        }
        let d: u64 = (u - 0x30) as u64;
        if value > (u64::MAX - d) / 10 {
            return None;
        }
        value = value * 10 + d;
        i = i + 1;
    }
    assert(digits.take(end - start) =~= digits);
    Some(value)
}

/// The share `basis_points` of an amount that is not negative, rounded down.
pub fn share(amount: u64, basis_points: u32) -> (part: u128)
    ensures
        part == percent_of(amount as int, basis_points as int),
        part <= amount * basis_points,
{
    let a: u128 = amount as u128;
    let b: u128 = basis_points as u128;
    assert(0 <= a * b <= 0xFFFF_FFFF_FFFF_FFFF * 0xFFFF_FFFF) by (nonlinear_arith)
        requires
            0 <= a <= 0xFFFF_FFFF_FFFF_FFFF,
            0 <= b <= 0xFFFF_FFFF,
    ;
    a * b / 10_000
}

/// The share `basis_points` of `amount`, rounded toward zero.
pub fn percent(amount: i64, basis_points: u32) -> (part: i128)
    ensures
        part == percent_of(amount as int, basis_points as int),
{
    if amount >= 0 {
        let part = share(amount as u64, basis_points);
        assert(amount * basis_points <= 0x8000_0000_0000_0000 * 0xFFFF_FFFF) by (nonlinear_arith)
            requires
                0 <= amount <= 0x8000_0000_0000_0000,
                0 <= basis_points <= 0xFFFF_FFFF,
        ;
        part as i128
    } else {
        let magnitude: u64 = if amount == i64::MIN {
            0x8000_0000_0000_0000u64
        } else {
            (-amount) as u64
        };
        let part = share(magnitude, basis_points);
        assert(magnitude * basis_points <= 0x8000_0000_0000_0000 * 0xFFFF_FFFF) by (nonlinear_arith)
            requires
                0 <= magnitude <= 0x8000_0000_0000_0000,
                0 <= basis_points <= 0xFFFF_FFFF,
        ;
        -(part as i128)
    }
}

/// `total_price` after a discount of `basis_points`, never below 0, and the
/// amount of that discount.
pub fn apply_discount(total_price: i64, basis_points: u32) -> (r: (i128, i128))
    ensures
        r.1 == percent_of(total_price as int, basis_points as int),
        r.0 == non_negative(total_price - r.1),
{
    let discount = percent(total_price, basis_points);
    proof {
        lemma_percent_bounds(total_price as int, basis_points as int);
    }
    let reduced: i128 = total_price as i128 - discount;
    if reduced < 0 {
        (0, discount)
    } else {
        (reduced, discount)
    }
}

/// A share has the sign of its amount and is no larger than the amount times
/// the basis points.
pub proof fn lemma_percent_bounds(amount: int, basis_points: int)
    requires
        0 <= basis_points,
    ensures
        amount >= 0 ==> 0 <= percent_of(amount, basis_points) <= amount * basis_points,
        amount < 0 ==> amount * basis_points <= percent_of(amount, basis_points) <= 0,
        -0x8000_0000_0000_0000 <= amount <= 0x7FFF_FFFF_FFFF_FFFF && basis_points <= 0xFFFF_FFFF
            ==> -0x8000_0000_0000_0000 * 0xFFFF_FFFF <= percent_of(amount, basis_points)
            <= 0x7FFF_FFFF_FFFF_FFFF * 0xFFFF_FFFF,
{
    if amount >= 0 {
        assert(0 <= amount * basis_points) by (nonlinear_arith)
            requires
                0 <= amount,
                0 <= basis_points,
        ;
        if amount <= 0x7FFF_FFFF_FFFF_FFFF && basis_points <= 0xFFFF_FFFF {
            assert(amount * basis_points <= 0x7FFF_FFFF_FFFF_FFFF * 0xFFFF_FFFF)
                by (nonlinear_arith)
                requires
                    0 <= amount <= 0x7FFF_FFFF_FFFF_FFFF,
                    0 <= basis_points <= 0xFFFF_FFFF,
            ;
        }
    } else {
        let m = -amount;
        assert(0 <= m * basis_points && m * basis_points == -(amount * basis_points))
            by (nonlinear_arith)
            requires
                m == -amount,
                0 <= m,
                0 <= basis_points,
        ;
        if -0x8000_0000_0000_0000 <= amount && basis_points <= 0xFFFF_FFFF {
            assert(m * basis_points <= 0x8000_0000_0000_0000 * 0xFFFF_FFFF) by (nonlinear_arith)
                requires
                    0 <= m <= 0x8000_0000_0000_0000,
                    0 <= basis_points <= 0xFFFF_FFFF,
            ;
        }
    }
}

} // verus!

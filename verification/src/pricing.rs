//! What a selection of cart lines costs.
//!
//! Each line counts its product's price, less the product's own discount, times
//! its count. The sums are kept apart as the gross total and the total of the
//! discounts, both of which must fit the amount type.

use vstd::prelude::*;
use crate::error::ErrorKind;
use crate::money::{lemma_percent_bounds, parse_price, percent_of, price_of, share};
use crate::stores::cart_store::{LineView, ProductWithCount};
use crate::views::views_of;

verus! {

/// The largest gross total, and the largest total of discounts, of one order.
pub const MAX_AMOUNT: i64 = i64::MAX;

/// The price of the line's product in minor units, and 0 where its text gives none.
pub open spec fn unit_price(line: LineView) -> int {
    match price_of(line.product.price) {
        Some(price) => price as int,
        None => 0,
    }
}

/// What the product's own discount takes off one unit of the line.
pub open spec fn unit_discount(line: LineView) -> int {
    match line.product.discount {
        Some(basis_points) => percent_of(unit_price(line), basis_points as int),
        None => 0,
    }
}

pub open spec fn line_gross(line: LineView) -> int {
    unit_price(line) * line.count
}

pub open spec fn line_discount(line: LineView) -> int {
    unit_discount(line) * line.count
}

/// The sum of the undiscounted prices of `lines`.
pub open spec fn gross_total(lines: Seq<LineView>) -> int
    decreases lines.len(),
{
    if lines.len() == 0 {
        0
    } else {
        gross_total(lines.drop_last()) + line_gross(lines.last())
    }
}

/// The sum of what the products' own discounts take off `lines`.
pub open spec fn discount_total(lines: Seq<LineView>) -> int
    decreases lines.len(),
{
    if lines.len() == 0 {
        0
    } else {
        discount_total(lines.drop_last()) + line_discount(lines.last())
    }
}

/// Whether the price text of every line gives a price.
pub open spec fn all_priced(lines: Seq<LineView>) -> bool {
    forall|i: int| 0 <= i < lines.len() ==> price_of((#[trigger] lines[i]).product.price) is Some
}

/// The price of `lines` after the products' own discounts, which may be
/// negative where a discount exceeds the whole, and the total of those
/// discounts.
pub open spec fn priced(lines: Seq<LineView>) -> Result<(int, int), ErrorKind> {
    if !all_priced(lines) {
        Err(ErrorKind::InvalidPrice)
    } else if gross_total(lines) > MAX_AMOUNT || discount_total(lines) > MAX_AMOUNT {
        Err(ErrorKind::AmountOutOfRange)
    } else {
        Ok((gross_total(lines) - discount_total(lines), discount_total(lines)))
    }
}

/// A line's gross price and discount are not negative.
pub proof fn lemma_line_amounts(line: LineView)
    ensures
        0 <= unit_discount(line) <= unit_price(line) * 0xFFFF_FFFF,
        0 <= unit_price(line) <= u64::MAX,
        0 <= line_gross(line) <= 0xFFFF_FFFF_FFFF_FFFF * 0xFFFF_FFFF,
        0 <= line_discount(line) <= 0xFFFF_FFFF_FFFF_FFFF * 0xFFFF_FFFF * 0xFFFF_FFFF,
{
    let p = unit_price(line);
    let c = line.count as int;
    let u = unit_discount(line);
    match line.product.discount {
        Some(basis_points) => {
            lemma_percent_bounds(p, basis_points as int);
            assert(p * basis_points <= p * 0xFFFF_FFFF) by (nonlinear_arith)
                requires
                    0 <= p,
                    0 <= basis_points <= 0xFFFF_FFFF,
            ;
        },
        None => {
            assert(0 <= p * 0xFFFF_FFFF) by (nonlinear_arith)
                requires
                    0 <= p,
            ;
        },
    }
    assert(0 <= p * c <= 0xFFFF_FFFF_FFFF_FFFF * 0xFFFF_FFFF) by (nonlinear_arith)
        requires
            0 <= p <= 0xFFFF_FFFF_FFFF_FFFF,
            0 <= c <= 0xFFFF_FFFF,
    ;
    assert(0 <= u * c <= 0xFFFF_FFFF_FFFF_FFFF * 0xFFFF_FFFF * 0xFFFF_FFFF) by (nonlinear_arith)
        requires
            0 <= p <= 0xFFFF_FFFF_FFFF_FFFF,
            0 <= u <= p * 0xFFFF_FFFF,
            0 <= c <= 0xFFFF_FFFF,
    ;
}

/// The price of `items` after the products' own discounts, and the total of
/// those discounts.
pub fn price_lines(items: &Vec<ProductWithCount>) -> (r: Result<(i64, i64), ErrorKind>)
    ensures
        match r {
            Ok((total, discount)) => priced(views_of(items@)) == Ok::<(int, int), ErrorKind>(
                (total as int, discount as int),
            ),
            Err(e) => priced(views_of(items@)) == Err::<(int, int), ErrorKind>(e),
        },
{
    let ghost lines = views_of(items@);
    let mut gross: u128 = 0;
    let mut discount: u128 = 0;
    let mut out_of_range: bool = false;
    let mut i: usize = 0;
    assert(lines.take(0) =~= Seq::<LineView>::empty());
    while i < items.len()
        invariant
            i <= items.len(),
            lines == views_of(items@),
            all_priced(lines.take(i as int)),
            !out_of_range ==> gross == gross_total(lines.take(i as int)) && discount
                == discount_total(lines.take(i as int)) && gross <= MAX_AMOUNT && discount
                <= MAX_AMOUNT,
            out_of_range ==> gross_total(lines.take(i as int)) > MAX_AMOUNT || discount_total(
                lines.take(i as int),
            ) > MAX_AMOUNT,
        decreases items.len() - i,
    {
        let ghost line = lines[i as int];
        proof {
            assert(lines.take(i as int + 1).drop_last() =~= lines.take(i as int));
            assert(lines.take(i as int + 1).last() == line);
            lemma_line_amounts(line);
        }
        let price: u64 = match parse_price(items[i].product.price.as_str()) {
            Some(price) => price,
            None => {
                return Err(ErrorKind::InvalidPrice);
            },
        };
        let count: u128 = items[i].count as u128;
        let unit_off: u128 = match items[i].product.discount {
            Some(basis_points) => share(price, basis_points),
            None => 0,
        };
        assert(price == unit_price(line));
        assert(unit_off == unit_discount(line));
        if !out_of_range {
            let line_price: u128 = price as u128 * count;
            let line_off: u128 = unit_off * count;
            gross = gross + line_price;
            discount = discount + line_off;
            if gross > MAX_AMOUNT as u128 || discount > MAX_AMOUNT as u128 {
                out_of_range = true;
            }
        }
        assert(all_priced(lines.take(i as int + 1))) by {
            assert forall|k: int| 0 <= k < i + 1 implies price_of(
                (#[trigger] lines.take(i as int + 1)[k]).product.price,
            ) is Some by {
                if k < i {
                    assert(lines.take(i as int + 1)[k] == lines.take(i as int)[k]);
                }
            }
        }
        i = i + 1;
    }
    proof {
        assert(lines.take(items.len() as int) =~= lines);
    }
    if out_of_range {
        Err(ErrorKind::AmountOutOfRange)
    } else {
        Ok((gross as i64 - discount as i64, discount as i64))
    }
}

} // verus!

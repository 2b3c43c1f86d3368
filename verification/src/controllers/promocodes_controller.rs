//! Validation of a promo code.

use vstd::prelude::*;
use crate::clock::Timestamp;
use crate::error::ErrorKind;
use crate::stores::orders_store::opt_promos;
use crate::stores::promo_codes_store::{
    check_window,
    window_check,
    with_code,
    PromoCode,
    PromoCodeView,
};
use crate::views::{first_or_none, lemma_first_match_is, views_of};

verus! {

/// The discount, in basis points, that `code` gives at the instant `now`, or
/// why it gives none: the list of promo codes could not be read, it has no such
/// code, or the instant is outside the code's window.
pub open spec fn promo_validity(
    promo_codes: Option<Seq<PromoCodeView>>,
    code: Seq<char>,
    now: Timestamp,
) -> Result<u32, ErrorKind> {
    match promo_codes {
        None => Err(ErrorKind::PromoCodesUnavailable),
        Some(promo_codes) => match first_or_none(promo_codes, with_code(code)) {
            None => Err(ErrorKind::PromoCodeNotFound),
            Some(promo) => match window_check(promo, now) {
                Err(e) => Err(e),
                Ok(()) => Ok(promo.discount),
            },
        },
    }
}

/// The discount that `code` gives at the instant `now`.
pub fn validate_promo_code_at(promo_codes: &Option<Vec<PromoCode>>, code: &str, now: Timestamp) -> (r:
    Result<u32, ErrorKind>)
    ensures
        r == promo_validity(opt_promos(*promo_codes), code@, now),
{
    let list = match promo_codes {
        Some(list) => list,
        None => {
            return Err(ErrorKind::PromoCodesUnavailable);
        },
    };
    let wanted: String = code.to_owned();
    let ghost codes = views_of(list@);
    let mut i: usize = 0;
    while i < list.len()
        invariant
            i <= list.len(),
            wanted@ == code@,
            codes == views_of(list@),
            opt_promos(*promo_codes) == Some(codes),
            forall|j: int| 0 <= j < i ==> !with_code(code@)(#[trigger] codes[j]),
        decreases list.len() - i,
    {
        if list[i].code == wanted {
            proof {
                lemma_first_match_is(codes, with_code(code@), i as int);
            }
            return match check_window(&list[i], now) {
                Ok(()) => Ok(list[i].discount),
                Err(e) => Err(e),
            };
        }
        i = i + 1;
    }
    Err(ErrorKind::PromoCodeNotFound)
}

/// The discount that `code` gives now, by the system clock: the outcome is the
/// one that `validate_promo_code_at` gives for some instant.
pub fn validate_promo_code(promo_codes: &Option<Vec<PromoCode>>, code: &str) -> (r: Result<
    u32,
    ErrorKind,
>)
    ensures
        exists|now: Timestamp|
            now.is_outside_leap_second() && r == #[trigger] promo_validity(
                opt_promos(*promo_codes),
                code@,
                now,
            ),
{
    let now = Timestamp::now();
    validate_promo_code_at(promo_codes, code, now)
}

} // verus!

//! Promo codes: reference data that the application reads and never changes.

use vstd::prelude::*;
use crate::clock::{instant_of, Timestamp};
use crate::error::ErrorKind;
use crate::money::{apply_discount, non_negative, percent_of};
use crate::views::{first_match, has_match, lemma_first_match_is, views_of};

verus! {

#[derive(Debug)]
pub struct PromoCode {
    pub code: String,
    /// The discount in basis points (hundredths of a percent).
    pub discount: u32,
    /// The first instant at which the code is usable, as RFC 3339 text.
    pub available_at: String,
    /// The last instant at which the code is usable, as RFC 3339 text.
    pub expired_at: String,
}

pub struct PromoCodeView {
    pub code: Seq<char>,
    pub discount: u32,
    pub available_at: Seq<char>,
    pub expired_at: Seq<char>,
}

impl View for PromoCode {
    type V = PromoCodeView;

    open spec fn view(&self) -> PromoCodeView {
        PromoCodeView {
            code: self.code@,
            discount: self.discount,
            available_at: self.available_at@,
            expired_at: self.expired_at@,
        }
    }
}

impl Clone for PromoCode {
    fn clone(&self) -> (copy: Self)
        ensures
            copy@ == self@,
    {
        PromoCode {
            code: self.code.clone(),
            discount: self.discount,
            available_at: self.available_at.clone(),
            expired_at: self.expired_at.clone(),
        }
    }
}

/// Where the promo codes are kept. The store holds no codes: whoever calls it
/// reads the file anew each time and hands over what it read.
#[derive(Debug)]
pub struct PromoCodesStore {
    pub promocodes_file_path: String,
}

impl Clone for PromoCodesStore {
    fn clone(&self) -> (copy: Self)
        ensures
            copy.promocodes_file_path == self.promocodes_file_path,
    {
        PromoCodesStore { promocodes_file_path: self.promocodes_file_path.clone() }
    }
}

/// The test that holds of the promo codes with the code `code`.
pub open spec fn with_code(code: Seq<char>) -> spec_fn(PromoCodeView) -> bool {
    |promo: PromoCodeView| promo.code == code
}

/// Whether a window with the bounds `available_at` and `expired_at`, as far as
/// they could be read, is open at the instant `now`. A bound that could not be
/// read makes the window invalid, whatever `now` is. Both bounds belong to the
/// window: it is not yet open strictly before the first, and has expired
/// strictly after the last.
pub open spec fn window_verdict(
    available_at: Option<Timestamp>,
    expired_at: Option<Timestamp>,
    now: Timestamp,
) -> Result<(), ErrorKind> {
    match (available_at, expired_at) {
        (Some(available_at), Some(expired_at)) => {
            if now.is_before(available_at) {
                Err(ErrorKind::PromoCodeNotYetAvailable)
            } else if expired_at.is_before(now) {
                Err(ErrorKind::PromoCodeExpired)
            } else {
                Ok(())
            }
        },
        _ => Err(ErrorKind::PromoCodeWindowInvalid),
    }
}

/// Whether `promo` can be used at the instant `now`: its two bounds are read,
/// then `now` is held against them.
pub open spec fn window_check(promo: PromoCodeView, now: Timestamp) -> Result<(), ErrorKind> {
    window_verdict(instant_of(promo.available_at), instant_of(promo.expired_at), now)
}

/// The promo code that `code` names among `promo_codes`: the first with that
/// code. A code that none of them has is not found, in an empty list as in any
/// other.
pub open spec fn promo_lookup(promo_codes: Seq<PromoCodeView>, code: Seq<char>) -> Result<
    PromoCodeView,
    ErrorKind,
> {
    if has_match(promo_codes, with_code(code)) {
        Ok(promo_codes[first_match(promo_codes, with_code(code))])
    } else {
        Err(ErrorKind::PromoCodeNotFound)
    }
}

/// What applying `code` to `total_price` at the instant `now` gives: the new
/// total, never below 0, and the amount taken off.
pub open spec fn promo_applied(
    promo_codes: Seq<PromoCodeView>,
    code: Seq<char>,
    total_price: int,
    now: Timestamp,
) -> Result<(int, int), ErrorKind> {
    match promo_lookup(promo_codes, code) {
        Err(e) => Err(e),
        Ok(promo) => match window_check(promo, now) {
            Err(e) => Err(e),
            Ok(()) => {
                let discount = percent_of(total_price, promo.discount as int);
                Ok((non_negative(total_price - discount), discount))
            },
        },
    }
}

/// Whether a window with the bounds `available_at` and `expired_at`, as far as
/// they could be read, is open at the instant `now`.
pub fn decide_window(
    available_at: Option<Timestamp>,
    expired_at: Option<Timestamp>,
    now: Timestamp,
) -> (r: Result<(), ErrorKind>)
    ensures
        r == window_verdict(available_at, expired_at, now),
{
    match (available_at, expired_at) {
        (Some(available_at), Some(expired_at)) => {
            if now.before(&available_at) {
                Err(ErrorKind::PromoCodeNotYetAvailable)
            } else if expired_at.before(&now) {
                Err(ErrorKind::PromoCodeExpired)
            } else {
                Ok(())
            }
        },
        _ => Err(ErrorKind::PromoCodeWindowInvalid),
    }
}

/// Whether `promo` can be used at the instant `now`.
pub fn check_window(promo: &PromoCode, now: Timestamp) -> (r: Result<(), ErrorKind>)
    ensures
        r == window_check(promo@, now),
{
    let available_at = Timestamp::parse(promo.available_at.as_str());
    let expired_at = Timestamp::parse(promo.expired_at.as_str());
    decide_window(available_at, expired_at, now)
}

/// The view of the outcome of a lookup.
pub open spec fn promo_result_view(r: Result<PromoCode, ErrorKind>) -> Result<
    PromoCodeView,
    ErrorKind,
> {
    match r {
        Ok(promo) => Ok(promo@),
        Err(e) => Err(e),
    }
}

/// The outcome of applying a promo code, as mathematical integers.
pub open spec fn amounts_view(r: Result<(i128, i128), ErrorKind>) -> Result<(int, int), ErrorKind> {
    match r {
        Ok((total, discount)) => Ok((total as int, discount as int)),
        Err(e) => Err(e),
    }
}

impl PromoCodesStore {
    pub fn new(promocodes_file_path: String) -> (store: Self)
        ensures
            store.promocodes_file_path == promocodes_file_path,
    {
        PromoCodesStore { promocodes_file_path }
    }

    /// The promo codes as they were read, unless there are none.
    pub fn get_promo_codes(&self, promo_codes: Vec<PromoCode>) -> (r: Result<
        Vec<PromoCode>,
        ErrorKind,
    >)
        ensures
            match r {
                Ok(codes) => codes == promo_codes && promo_codes.len() > 0,
                Err(e) => e == ErrorKind::NoPromoCodesFound && promo_codes.len() == 0,
            },
    {
        if promo_codes.len() == 0 {
            Err(ErrorKind::NoPromoCodesFound)
        } else {
            Ok(promo_codes)
        }
    }

    /// A copy of the first of `promo_codes` with the code `code`.
    pub fn get_promo_code(&self, promo_codes: &Vec<PromoCode>, code: &str) -> (r: Result<
        PromoCode,
        ErrorKind,
    >)
        ensures
            promo_result_view(r) == promo_lookup(views_of(promo_codes@), code@),
    {
        let wanted: String = code.to_owned();
        let ghost codes = views_of(promo_codes@);
        let mut i: usize = 0;
        while i < promo_codes.len()
            invariant
                i <= promo_codes.len(),
                wanted@ == code@,
                codes == views_of(promo_codes@),
                forall|j: int| 0 <= j < i ==> !with_code(code@)(#[trigger] codes[j]),
            decreases promo_codes.len() - i,
        {
            if promo_codes[i].code == wanted {
                proof {
                    lemma_first_match_is(codes, with_code(code@), i as int);
                }
                return Ok(promo_codes[i].clone());
            }
            i = i + 1;
        }
        Err(ErrorKind::PromoCodeNotFound)
    }

    /// Applies `code` to `total_price` at the instant `now`.
    pub fn apply_promo_code_at(
        &self,
        promo_codes: &Vec<PromoCode>,
        code: &str,
        total_price: i64,
        now: Timestamp,
    ) -> (r: Result<(i128, i128), ErrorKind>)
        ensures
            amounts_view(r) == promo_applied(views_of(promo_codes@), code@, total_price as int, now),
    {
        let promo = match self.get_promo_code(promo_codes, code) {
            Ok(promo) => promo,
            Err(e) => {
                return Err(e);
            },
        };
        match check_window(&promo, now) {
            Ok(()) => Ok(apply_discount(total_price, promo.discount)),
            Err(e) => Err(e),
        }
    }

    /// Applies `code` to `total_price` now, by the system clock: whatever the
    /// clock says, the outcome is the one that `apply_promo_code_at` gives for
    /// some instant.
    pub fn apply_promo_code(&self, promo_codes: &Vec<PromoCode>, code: &str, total_price: i64) -> (r:
        Result<(i128, i128), ErrorKind>)
        ensures
            exists|now: Timestamp|
                now.is_outside_leap_second() && amounts_view(r) == #[trigger] promo_applied(
                    views_of(promo_codes@),
                    code@,
                    total_price as int,
                    now,
                ),
    {
        let now = Timestamp::now();
        self.apply_promo_code_at(promo_codes, code, total_price, now)
    }
}

} // verus!

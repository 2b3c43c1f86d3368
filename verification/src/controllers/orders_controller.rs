//! The orders of the session's user.

use vstd::prelude::*;
use crate::clock::Timestamp;
use crate::error::ErrorKind;
use crate::ident::is_random_uuid;
use crate::stores::cart_store::{carts_wf, CartStore};
use crate::stores::orders_store::{
    checkout_of,
    checkout_post,
    order_of,
    order_with,
    orders_wf,
    Order,
    OrdersStore,
};
use crate::stores::promo_codes_store::{PromoCode, PromoCodesStore};
use crate::stores::user_store::UserStore;
use crate::views::{first_match, has_match, views_of};

verus! {

/// What a user asks to buy: products of its cart, and perhaps a promo code.
#[derive(Debug)]
pub struct OrderRequest {
    pub product_ids: Vec<u128>,
    pub promo_code: Option<String>,
}

/// The orders of the session's user, oldest first.
pub fn get_orders(session_user: Option<u128>, orders: &OrdersStore) -> (r: Result<
    Vec<Order>,
    ErrorKind,
>)
    ensures
        match session_user {
            Some(user_id) => r matches Ok(found) && views_of(found@) == orders@.filter(
                order_of(user_id),
            ),
            None => r matches Err(e) && e == ErrorKind::Unauthorized,
        },
{
    match session_user {
        Some(user_id) => Ok(orders.get_orders(user_id)),
        None => Err(ErrorKind::Unauthorized),
    }
}

/// Checks out what `data` asks for, for the session's user. The outcome is the
/// one that `OrdersStore::add_order_at` gives for some order id, instant and
/// creation time.
pub fn create_order(
    session_user: Option<u128>,
    data: OrderRequest,
    users: &UserStore,
    carts: &mut CartStore,
    orders: &mut OrdersStore,
    promocodes_store: &PromoCodesStore,
    promo_codes: &Option<Vec<PromoCode>>,
) -> (r: Result<(), ErrorKind>)
    ensures
        match session_user {
            None => {
                &&& r == Err::<(), ErrorKind>(ErrorKind::Unauthorized)
                &&& final(orders)@ == old(orders)@
                &&& final(carts)@ == old(carts)@
            },
            Some(user_id) => exists|now: Timestamp, order_id: u128, created_at: Seq<char>|
                is_random_uuid(order_id) && now.is_outside_leap_second() && checkout_post(
                    users@,
                    old(orders)@,
                    final(orders)@,
                    old(carts)@,
                    final(carts)@,
                    #[trigger] checkout_of(
                        user_id,
                        data.product_ids,
                        data.promo_code,
                        *promo_codes,
                        now,
                        order_id,
                        created_at,
                    ),
                    r,
                ),
        },
        orders_wf(old(orders)@) ==> orders_wf(final(orders)@),
        carts_wf(old(carts)@) ==> carts_wf(final(carts)@),
{
    match session_user {
        Some(user_id) => orders.add_order(
            user_id,
            data.product_ids,
            data.promo_code,
            users,
            carts,
            promocodes_store,
            promo_codes,
        ),
        None => Err(ErrorKind::Unauthorized),
    }
}

/// Deletes the order `order_id` of the session's user.
pub fn delete_order(session_user: Option<u128>, order_id: u128, orders: &mut OrdersStore) -> (r:
    Result<(), ErrorKind>)
    ensures
        match session_user {
            None => r == Err::<(), ErrorKind>(ErrorKind::Unauthorized) && final(orders)@ == old(
                orders,
            )@,
            Some(user_id) => match r {
                Ok(()) => {
                    &&& has_match(old(orders)@, order_with(user_id, order_id))
                    &&& final(orders)@ == old(orders)@.remove(
                        first_match(old(orders)@, order_with(user_id, order_id)),
                    )
                },
                Err(e) => {
                    &&& e == ErrorKind::OrderNotFound
                    &&& !has_match(old(orders)@, order_with(user_id, order_id))
                    &&& final(orders)@ == old(orders)@
                },
            },
        },
        orders_wf(old(orders)@) ==> orders_wf(final(orders)@),
{
    match session_user {
        Some(user_id) => orders.remove_order(user_id, order_id),
        None => Err(ErrorKind::Unauthorized),
    }
}

} // verus!

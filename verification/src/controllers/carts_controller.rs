//! The cart of the session's user.

use vstd::prelude::*;
use crate::error::ErrorKind;
use crate::models::product::{opt_products, Product};
use crate::stores::cart_store::{
    cart_add_post,
    cart_items,
    carts_wf,
    has_cart,
    has_line,
    line_removed,
    with_items,
    CartStore,
    ProductWithCount,
};
use crate::views::views_of;

verus! {

/// The lines of the cart of the session's user.
pub fn get_cart(session_user: Option<u128>, carts: &CartStore) -> (r: Result<
    Vec<ProductWithCount>,
    ErrorKind,
>)
    ensures
        match session_user {
            Some(user_id) => r matches Ok(items) && views_of(items@) == cart_items(carts@, user_id),
            None => r matches Err(e) && e == ErrorKind::Unauthorized,
        },
{
    match session_user {
        Some(user_id) => Ok(carts.get_cart(user_id)),
        None => Err(ErrorKind::Unauthorized),
    }
}

/// Puts one more of the catalog's product `product_id` into the cart of the
/// session's user. The catalog is missing where it could not be read.
pub fn add_product_to_cart(
    session_user: Option<u128>,
    product_id: u128,
    carts: &mut CartStore,
    catalog: &Option<Vec<Product>>,
) -> (r: Result<(), ErrorKind>)
    ensures
        match session_user {
            None => r == Err::<(), ErrorKind>(ErrorKind::Unauthorized) && final(carts)@ == old(
                carts,
            )@,
            Some(user_id) => cart_add_post(
                old(carts)@,
                final(carts)@,
                user_id,
                product_id,
                opt_products(*catalog),
                r,
            ),
        },
        carts_wf(old(carts)@) ==> carts_wf(final(carts)@),
{
    match session_user {
        Some(user_id) => carts.add_product_to_cart(user_id, product_id, catalog),
        None => Err(ErrorKind::Unauthorized),
    }
}

/// Takes one of `product_id` out of the cart of the session's user.
pub fn remove_product_from_cart(session_user: Option<u128>, product_id: u128, carts: &mut CartStore) -> (r:
    Result<(), ErrorKind>)
    ensures
        match session_user {
            None => r == Err::<(), ErrorKind>(ErrorKind::Unauthorized) && final(carts)@ == old(
                carts,
            )@,
            Some(user_id) => match r {
                Ok(()) => {
                    &&& has_cart(old(carts)@, user_id)
                    &&& has_line(cart_items(old(carts)@, user_id), product_id)
                    &&& final(carts)@ == with_items(
                        old(carts)@,
                        user_id,
                        line_removed(cart_items(old(carts)@, user_id), product_id),
                    )
                },
                Err(e) => {
                    &&& final(carts)@ == old(carts)@
                    &&& if has_cart(old(carts)@, user_id) {
                        e == ErrorKind::ProductNotInCart && !has_line(
                            cart_items(old(carts)@, user_id),
                            product_id,
                        )
                    } else {
                        e == ErrorKind::UserCartNotFound
                    }
                },
            },
        },
        carts_wf(old(carts)@) ==> carts_wf(final(carts)@),
{
    match session_user {
        Some(user_id) => carts.remove_product_from_cart(user_id, product_id),
        None => Err(ErrorKind::Unauthorized),
    }
}

} // verus!

//! The favorites of the session's user.

use vstd::prelude::*;
use crate::error::ErrorKind;
use crate::models::product::{has_product, opt_products, Product};
use crate::stores::favorites_store::{
    favorite_add_post,
    favorite_items,
    favorites_wf,
    has_favorites,
    other_than,
    with_favorites,
    FavoritesStore,
};
use crate::views::views_of;

verus! {

/// The favorite products of the session's user.
pub fn get_favorites(session_user: Option<u128>, favorites: &FavoritesStore) -> (r: Result<
    Vec<Product>,
    ErrorKind,
>)
    ensures
        match session_user {
            Some(user_id) => r matches Ok(items) && views_of(items@) == favorite_items(
                favorites@,
                user_id,
            ),
            None => r matches Err(e) && e == ErrorKind::Unauthorized,
        },
{
    match session_user {
        Some(user_id) => Ok(favorites.get_favorites(user_id)),
        None => Err(ErrorKind::Unauthorized),
    }
}

/// Makes the catalog's product `product_id` a favorite of the session's user.
/// The catalog is missing where it could not be read.
pub fn add_product_to_favorites(
    session_user: Option<u128>,
    product_id: u128,
    favorites: &mut FavoritesStore,
    catalog: &Option<Vec<Product>>,
) -> (r: Result<(), ErrorKind>)
    ensures
        match session_user {
            None => r == Err::<(), ErrorKind>(ErrorKind::Unauthorized) && final(favorites)@
                == old(favorites)@,
            Some(user_id) => favorite_add_post(
                old(favorites)@,
                final(favorites)@,
                user_id,
                product_id,
                opt_products(*catalog),
                r,
            ),
        },
        favorites_wf(old(favorites)@) ==> favorites_wf(final(favorites)@),
{
    match session_user {
        Some(user_id) => favorites.add_product_to_favorites(user_id, product_id, catalog),
        None => Err(ErrorKind::Unauthorized),
    }
}

/// Takes the product `product_id` out of the favorites of the session's user.
pub fn remove_product_from_favorites(
    session_user: Option<u128>,
    product_id: u128,
    favorites: &mut FavoritesStore,
) -> (r: Result<(), ErrorKind>)
    ensures
        match session_user {
            None => r == Err::<(), ErrorKind>(ErrorKind::Unauthorized) && final(favorites)@
                == old(favorites)@,
            Some(user_id) => match r {
                Ok(()) => {
                    &&& has_favorites(old(favorites)@, user_id)
                    &&& has_product(favorite_items(old(favorites)@, user_id), product_id)
                    &&& final(favorites)@ == with_favorites(
                        old(favorites)@,
                        user_id,
                        favorite_items(old(favorites)@, user_id).filter(other_than(product_id)),
                    )
                },
                Err(e) => {
                    &&& final(favorites)@ == old(favorites)@
                    &&& if has_favorites(old(favorites)@, user_id) {
                        e == ErrorKind::ProductNotFoundInFavorites && !has_product(
                            favorite_items(old(favorites)@, user_id),
                            product_id,
                        )
                    } else {
                        e == ErrorKind::UserFavoritesNotFound
                    }
                },
            },
        },
        favorites_wf(old(favorites)@) ==> favorites_wf(final(favorites)@),
{
    match session_user {
        Some(user_id) => favorites.remove_product_from_favorites(user_id, product_id),
        None => Err(ErrorKind::Unauthorized),
    }
}

} // verus!

//! Favorites: one list of product snapshots per user, each product at most once.

use vstd::prelude::*;
use crate::error::ErrorKind;
use crate::laws::{law_add_keeps_favorites_wf, law_remove_keeps_favorites_wf};
use crate::models::product::{
    catalog_lookup,
    clone_products,
    load_product,
    opt_products,
    has_product,
    position_of_product,
    product_result_view,
    Product,
    ProductView,
};
use crate::views::{
    all_distinct,
    distinct_by,
    first_match,
    has_match,
    is_first,
    lemma_distinct_keys,
    lemma_filter_empty,
    lemma_filter_step,
    lemma_first_match_is,
    views_of,
};

verus! {

#[derive(Debug)]
pub struct Favorites {
    pub user_id: u128,
    pub items: Vec<Product>,
}

pub struct FavoritesView {
    pub user_id: u128,
    pub items: Seq<ProductView>,
}

impl View for Favorites {
    type V = FavoritesView;

    open spec fn view(&self) -> FavoritesView {
        FavoritesView { user_id: self.user_id, items: views_of(self.items@) }
    }
}

/// The favorites of all users.
#[derive(Debug)]
pub struct FavoritesStore {
    pub favorites: Vec<Favorites>,
}

impl View for FavoritesStore {
    type V = Seq<FavoritesView>;

    open spec fn view(&self) -> Seq<FavoritesView> {
        views_of(self.favorites@)
    }
}

/// The test that holds of the favorites of `user_id`.
pub open spec fn favorites_of(user_id: u128) -> spec_fn(FavoritesView) -> bool {
    |list: FavoritesView| list.user_id == user_id
}

/// The test that keeps every product but `product_id`.
pub open spec fn other_than(product_id: u128) -> spec_fn(ProductView) -> bool {
    |product: ProductView| product.uuid != product_id
}

pub open spec fn has_favorites(all: Seq<FavoritesView>, user_id: u128) -> bool {
    has_match(all, favorites_of(user_id))
}

/// The first position of `all` with favorites of `user_id`, where there is one.
pub open spec fn favorites_position(all: Seq<FavoritesView>, user_id: u128) -> int {
    first_match(all, favorites_of(user_id))
}

/// The key by which favorite products are told apart: the product's id.
pub open spec fn product_key() -> spec_fn(ProductView) -> u128 {
    |product: ProductView| product.uuid
}

/// The key by which lists of favorites are told apart: the user's id.
pub open spec fn list_key() -> spec_fn(FavoritesView) -> u128 {
    |list: FavoritesView| list.user_id
}

/// What the favorites keep: no list holds a product twice, and no user has
/// two lists.
pub open spec fn favorites_wf(all: Seq<FavoritesView>) -> bool {
    &&& forall|i: int|
        0 <= i < all.len() ==> distinct_by((#[trigger] all[i]).items, product_key())
    &&& distinct_by(all, list_key())
}

/// The favorite products of `user_id`: those of its first list, and none where
/// it has no list.
pub open spec fn favorite_items(all: Seq<FavoritesView>, user_id: u128) -> Seq<ProductView> {
    if has_favorites(all, user_id) {
        all[favorites_position(all, user_id)].items
    } else {
        Seq::empty()
    }
}

/// `all` with the favorite products of `user_id` replaced by `items`.
pub open spec fn with_favorites(all: Seq<FavoritesView>, user_id: u128, items: Seq<ProductView>) -> Seq<
    FavoritesView,
> {
    all.update(favorites_position(all, user_id), FavoritesView { user_id, items })
}

/// `all` with `product` as one more favorite of `user_id`, whose list is made
/// where the user has none.
pub open spec fn favorite_added(all: Seq<FavoritesView>, user_id: u128, product: ProductView) -> Seq<
    FavoritesView,
> {
    if has_favorites(all, user_id) {
        with_favorites(all, user_id, favorite_items(all, user_id).push(product))
    } else {
        all.push(FavoritesView { user_id, items: seq![product] })
    }
}

/// How making the catalog's product `product_id` a favorite of `user_id`
/// leaves the favorites, and what it answers: a product that the catalog does
/// not have is not found, a favorite is not added twice, and either way the
/// favorites stay as they were.
pub open spec fn favorite_add_post(
    before: Seq<FavoritesView>,
    after: Seq<FavoritesView>,
    user_id: u128,
    product_id: u128,
    catalog: Option<Seq<ProductView>>,
    r: Result<(), ErrorKind>,
) -> bool {
    match catalog_lookup(catalog, product_id) {
        Err(e) => r == Err::<(), ErrorKind>(e) && after == before,
        Ok(product) => if has_product(favorite_items(before, user_id), product_id) {
            r == Err::<(), ErrorKind>(ErrorKind::ProductAlreadyInFavorites) && after == before
        } else {
            r == Ok::<(), ErrorKind>(()) && after == favorite_added(before, user_id, product)
        },
    }
}

/// The first position of `all` with favorites of `user_id`.
pub fn position_of_favorites(all: &Vec<Favorites>, user_id: u128) -> (found: Option<usize>)
    ensures
        match found {
            Some(i) => is_first(views_of(all@), favorites_of(user_id), i as int),
            None => !has_favorites(views_of(all@), user_id),
        },
{
    let mut i: usize = 0;
    while i < all.len()
        invariant
            i <= all.len(),
            forall|j: int| 0 <= j < i ==> !favorites_of(user_id)(#[trigger] views_of(all@)[j]),
        decreases all.len() - i,
    {
        if all[i].user_id == user_id {
            return Some(i);
        }
        i = i + 1;
    }
    None
}

/// Copies of the products of `items` other than `product_id`.
fn products_without(items: &Vec<Product>, product_id: u128) -> (kept: Vec<Product>)
    ensures
        views_of(kept@) == views_of(items@).filter(other_than(product_id)),
{
    let mut kept: Vec<Product> = Vec::new();
    let mut i: usize = 0;
    let ghost products = views_of(items@);
    proof {
        assert(products.take(0) =~= Seq::<ProductView>::empty());
        lemma_filter_empty(other_than(product_id));
        assert(views_of(kept@) =~= Seq::<ProductView>::empty());
    }
    while i < items.len()
        invariant
            i <= items.len(),
            products == views_of(items@),
            views_of(kept@) == products.take(i as int).filter(other_than(product_id)),
        decreases items.len() - i,
    {
        proof {
            lemma_filter_step(products, other_than(product_id), i as int);
        }
        if items[i].uuid != product_id {
            let ghost before = kept@;
            kept.push(items[i].clone());
            assert(views_of(kept@) =~= views_of(before).push(products[i as int]));
        }
        i = i + 1;
    }
    assert(products.take(items.len() as int) =~= products);
    kept
}

/// Whether no two of `items` have the same id.
pub fn products_are_distinct(items: &Vec<Product>) -> (ok: bool)
    ensures
        ok == distinct_by(views_of(items@), product_key()),
{
    let ghost products = views_of(items@);
    let mut ids: Vec<u128> = Vec::new();
    let mut j: usize = 0;
    while j < items.len()
        invariant
            j <= items.len(),
            products == views_of(items@),
            ids.len() == j,
            forall|k: int| 0 <= k < j ==> ids[k] == product_key()(#[trigger] products[k]),
        decreases items.len() - j,
    {
        ids.push(items[j].uuid);
        j = j + 1;
    }
    proof {
        lemma_distinct_keys(products, product_key(), ids@);
    }
    all_distinct(&ids)
}

impl FavoritesStore {
    /// A store that holds `favorites`, as they were loaded.
    pub fn new(favorites: Vec<Favorites>) -> (store: Self)
        ensures
            store@ == views_of(favorites@),
    {
        FavoritesStore { favorites }
    }

    /// Whether the favorites are as they should be. Favorites that were
    /// loaded may not be; favorites that are stay so under every operation of
    /// the store.
    pub fn is_well_formed(&self) -> (ok: bool)
        ensures
            ok == favorites_wf(self@),
    {
        let mut users: Vec<u128> = Vec::new();
        let mut i: usize = 0;
        while i < self.favorites.len()
            invariant
                i <= self.favorites.len(),
                users.len() == i,
                forall|k: int| 0 <= k < i ==> users[k] == list_key()(#[trigger] self@[k]),
                forall|k: int|
                    0 <= k < i ==> distinct_by((#[trigger] self@[k]).items, product_key()),
            decreases self.favorites.len() - i,
        {
            if !products_are_distinct(&self.favorites[i].items) {
                assert(!distinct_by(self@[i as int].items, product_key()));
                return false;
            }
            users.push(self.favorites[i].user_id);
            i = i + 1;
        }
        proof {
            lemma_distinct_keys(self@, list_key(), users@);
        }
        all_distinct(&users)
    }

    /// A copy of the product that the catalog has under `product_id`. The
    /// catalog is handed over as it was read from its file just now, and is
    /// missing where it could not be read: then no product is found.
    pub fn load_product_by_id(catalog: &Option<Vec<Product>>, product_id: u128) -> (r: Result<
        Product,
        ErrorKind,
    >)
        ensures
            product_result_view(r) == catalog_lookup(opt_products(*catalog), product_id),
            r matches Ok(product) ==> product.uuid == product_id,
    {
        load_product(catalog, product_id)
    }

    /// Makes the catalog's product `product_id` a favorite of `user_id`.
    pub fn add_product_to_favorites(
        &mut self,
        user_id: u128,
        product_id: u128,
        catalog: &Option<Vec<Product>>,
    ) -> (r: Result<(), ErrorKind>)
        ensures
            favorite_add_post(
                old(self)@,
                final(self)@,
                user_id,
                product_id,
                opt_products(*catalog),
                r,
            ),
            favorites_wf(old(self)@) ==> favorites_wf(final(self)@),
    {
        let product = match Self::load_product_by_id(catalog, product_id) {
            Ok(product) => product,
            Err(e) => {
                return Err(e);
            },
        };
        let ghost before = self@;
        let ghost added = product@;
        match position_of_favorites(&self.favorites, user_id) {
            Some(i) => {
                proof {
                    lemma_first_match_is(before, favorites_of(user_id), i as int);
                }
                match position_of_product(&self.favorites[i].items, product_id) {
                    Some(_) => {
                        return Err(ErrorKind::ProductAlreadyInFavorites);
                    },
                    None => {
                        self.favorites[i].items.push(product);
                        proof {
                            assert(self@[i as int].items =~= before[i as int].items.push(product@));
                            assert(self@ =~= favorite_added(before, user_id, product@));
                        }
                    },
                }
            },
            None => {
                let mut items: Vec<Product> = Vec::new();
                items.push(product);
                let list = Favorites { user_id, items };
                proof {
                    assert(list@.items =~= seq![product@]);
                }
                self.favorites.push(list);
                proof {
                    assert(self@ =~= favorite_added(before, user_id, product@));
                }
            },
        }
        proof {
            if favorites_wf(before) {
                law_add_keeps_favorites_wf(before, user_id, added);
            }
        }
        Ok(())
    }

    /// Copies of the favorite products of `user_id`; none where it has no list.
    pub fn get_favorites(&self, user_id: u128) -> (items: Vec<Product>)
        ensures
            views_of(items@) == favorite_items(self@, user_id),
    {
        match position_of_favorites(&self.favorites, user_id) {
            Some(i) => {
                proof {
                    lemma_first_match_is(self@, favorites_of(user_id), i as int);
                }
                clone_products(&self.favorites[i].items)
            },
            None => {
                let items: Vec<Product> = Vec::new();
                assert(views_of(items@) =~= Seq::<ProductView>::empty());
                items
            },
        }
    }

    /// Takes the product `product_id` out of the favorites of `user_id`.
    pub fn remove_product_from_favorites(&mut self, user_id: u128, product_id: u128) -> (r: Result<
        (),
        ErrorKind,
    >)
        ensures
            match r {
                Ok(()) => {
                    &&& has_favorites(old(self)@, user_id)
                    &&& has_product(favorite_items(old(self)@, user_id), product_id)
                    &&& final(self)@ == with_favorites(
                        old(self)@,
                        user_id,
                        favorite_items(old(self)@, user_id).filter(other_than(product_id)),
                    )
                },
                Err(e) => {
                    &&& final(self)@ == old(self)@
                    &&& if has_favorites(old(self)@, user_id) {
                        e == ErrorKind::ProductNotFoundInFavorites && !has_product(
                            favorite_items(old(self)@, user_id),
                            product_id,
                        )
                    } else {
                        e == ErrorKind::UserFavoritesNotFound
                    }
                },
            },
            favorites_wf(old(self)@) ==> favorites_wf(final(self)@),
    {
        let ghost before = self@;
        let i = match position_of_favorites(&self.favorites, user_id) {
            Some(i) => i,
            None => {
                return Err(ErrorKind::UserFavoritesNotFound);
            },
        };
        proof {
            lemma_first_match_is(before, favorites_of(user_id), i as int);
        }
        match position_of_product(&self.favorites[i].items, product_id) {
            None => Err(ErrorKind::ProductNotFoundInFavorites),
            Some(_) => {
                let kept = products_without(&self.favorites[i].items, product_id);
                self.favorites[i].items = kept;
                proof {
                    assert(self@ =~= with_favorites(
                        before,
                        user_id,
                        before[i as int].items.filter(other_than(product_id)),
                    ));
                    if favorites_wf(before) {
                        law_remove_keeps_favorites_wf(before, user_id, product_id);
                    }
                }
                Ok(())
            },
        }
    }
}

} // verus!

//! Shopping carts: one per user, each an ordered list of product snapshots with
//! a count.

use vstd::prelude::*;
use crate::error::ErrorKind;
use crate::laws::{
    law_add_keeps_carts_wf,
    law_remove_keeps_lines_wf,
    law_replacement_keeps_carts_wf,
};
use crate::models::product::{
    catalog_lookup,
    load_product,
    opt_products,
    product_result_view,
    Product,
    ProductView,
};
use crate::views::{
    all_distinct,
    distinct_by,
    first_match,
    has_match,
    is_first,
    lemma_distinct_keys,
    lemma_filter_empty,
    lemma_filter_none,
    lemma_filter_step,
    lemma_first_match_is,
    views_of,
};

verus! {

/// A line of a cart: the product as it was when it was first added, and how
/// many of it.
#[derive(Debug)]
pub struct ProductWithCount {
    pub product: Product,
    pub count: u32,
}

pub struct LineView {
    pub product: ProductView,
    pub count: u32,
}

impl View for ProductWithCount {
    type V = LineView;

    open spec fn view(&self) -> LineView {
        LineView { product: self.product@, count: self.count }
    }
}

impl Clone for ProductWithCount {
    fn clone(&self) -> (copy: Self)
        ensures
            copy@ == self@,
    {
        ProductWithCount { product: self.product.clone(), count: self.count }
    }
}

#[derive(Debug)]
pub struct Cart {
    pub user_id: u128,
    pub items: Vec<ProductWithCount>,
}

pub struct CartView {
    pub user_id: u128,
    pub items: Seq<LineView>,
}

impl View for Cart {
    type V = CartView;

    open spec fn view(&self) -> CartView {
        CartView { user_id: self.user_id, items: views_of(self.items@) }
    }
}

/// The carts of all users.
#[derive(Debug)]
pub struct CartStore {
    pub carts: Vec<Cart>,
}

impl View for CartStore {
    type V = Seq<CartView>;

    open spec fn view(&self) -> Seq<CartView> {
        views_of(self.carts@)
    }
}

/// The test that holds of the carts of `user_id`.
pub open spec fn cart_of(user_id: u128) -> spec_fn(CartView) -> bool {
    |cart: CartView| cart.user_id == user_id
}

/// The test that holds of the lines of `product_id`.
pub open spec fn line_of(product_id: u128) -> spec_fn(LineView) -> bool {
    |line: LineView| line.product.uuid == product_id
}

pub open spec fn has_cart(carts: Seq<CartView>, user_id: u128) -> bool {
    has_match(carts, cart_of(user_id))
}

/// The first position of `carts` with a cart of `user_id`, where there is one.
pub open spec fn cart_position(carts: Seq<CartView>, user_id: u128) -> int {
    first_match(carts, cart_of(user_id))
}

pub open spec fn has_line(items: Seq<LineView>, product_id: u128) -> bool {
    has_match(items, line_of(product_id))
}

/// The first position of `items` with a line of `product_id`, where there is one.
pub open spec fn line_position(items: Seq<LineView>, product_id: u128) -> int {
    first_match(items, line_of(product_id))
}

/// The key by which the lines of a cart are told apart: the product's id.
pub open spec fn line_key() -> spec_fn(LineView) -> u128 {
    |line: LineView| line.product.uuid
}

/// The key by which carts are told apart: the user's id.
pub open spec fn cart_key() -> spec_fn(CartView) -> u128 {
    |cart: CartView| cart.user_id
}

/// What every cart keeps: each line counts at least one, and no two lines are
/// of the same product.
pub open spec fn lines_wf(items: Seq<LineView>) -> bool {
    &&& forall|j: int| 0 <= j < items.len() ==> (#[trigger] items[j]).count >= 1
    &&& distinct_by(items, line_key())
}

/// What the carts keep: each cart is as a cart should be, and no user has two.
pub open spec fn carts_wf(carts: Seq<CartView>) -> bool {
    &&& forall|i: int| 0 <= i < carts.len() ==> lines_wf((#[trigger] carts[i]).items)
    &&& distinct_by(carts, cart_key())
}

/// The lines of the cart of `user_id`: those of its first cart, and none where
/// it has no cart.
pub open spec fn cart_items(carts: Seq<CartView>, user_id: u128) -> Seq<LineView> {
    if has_cart(carts, user_id) {
        carts[cart_position(carts, user_id)].items
    } else {
        Seq::empty()
    }
}

/// How many of `product_id` the lines `items` hold: the count of its first
/// line, and 0 where it has none.
pub open spec fn count_of(items: Seq<LineView>, product_id: u128) -> nat {
    if has_line(items, product_id) {
        items[line_position(items, product_id)].count as nat
    } else {
        0
    }
}

/// `items` with one more of `product`: the count of its line raised by one, or
/// a new line of count 1 at the end.
pub open spec fn line_added(items: Seq<LineView>, product: ProductView) -> Seq<LineView> {
    if has_line(items, product.uuid) {
        let j = line_position(items, product.uuid);
        items.update(j, LineView { product: items[j].product, count: (items[j].count + 1) as u32 })
    } else {
        items.push(LineView { product, count: 1 })
    }
}

/// `carts` with one more of `product` in the cart of `user_id`, which is made
/// where the user has none.
pub open spec fn product_added(carts: Seq<CartView>, user_id: u128, product: ProductView) -> Seq<
    CartView,
> {
    if has_cart(carts, user_id) {
        let i = cart_position(carts, user_id);
        carts.update(i, CartView { user_id, items: line_added(carts[i].items, product) })
    } else {
        carts.push(CartView { user_id, items: seq![LineView { product, count: 1 }] })
    }
}

/// Whether the cart of `user_id` holds the largest count of `product_id`
/// already, so that not one more can be added.
pub open spec fn line_is_full(carts: Seq<CartView>, user_id: u128, product_id: u128) -> bool {
    count_of(cart_items(carts, user_id), product_id) == u32::MAX
}

/// How adding one of the catalog's product `product_id` to the cart of
/// `user_id` leaves the carts, and what it answers: a product that the catalog
/// does not have is not found, a full line takes no more, and either way the
/// carts stay as they were.
pub open spec fn cart_add_post(
    before: Seq<CartView>,
    after: Seq<CartView>,
    user_id: u128,
    product_id: u128,
    catalog: Option<Seq<ProductView>>,
    r: Result<(), ErrorKind>,
) -> bool {
    match catalog_lookup(catalog, product_id) {
        Err(e) => r == Err::<(), ErrorKind>(e) && after == before,
        Ok(product) => if line_is_full(before, user_id, product_id) {
            r == Err::<(), ErrorKind>(ErrorKind::CartCountLimit) && after == before
        } else {
            r == Ok::<(), ErrorKind>(()) && after == product_added(before, user_id, product)
        },
    }
}

/// The test that keeps the lines of every product but `product_id`.
pub open spec fn not_of_product(product_id: u128) -> spec_fn(LineView) -> bool {
    |line: LineView| line.product.uuid != product_id
}

/// The test that keeps the lines whose product is none of `product_ids`.
pub open spec fn not_among(product_ids: Seq<u128>) -> spec_fn(LineView) -> bool {
    |line: LineView| !product_ids.contains(line.product.uuid)
}

/// The test that keeps the lines whose product is one of `product_ids`.
pub open spec fn among(product_ids: Seq<u128>) -> spec_fn(LineView) -> bool {
    |line: LineView| product_ids.contains(line.product.uuid)
}

/// `items` with one less of `product_id`: the count of its first line lowered
/// by one, or, where that count is 1 or less, no line of the product at all.
pub open spec fn line_removed(items: Seq<LineView>, product_id: u128) -> Seq<LineView> {
    let j = line_position(items, product_id);
    if items[j].count > 1 {
        items.update(j, LineView { product: items[j].product, count: (items[j].count - 1) as u32 })
    } else {
        items.filter(not_of_product(product_id))
    }
}

/// `carts` with the lines of the cart of `user_id` replaced by `items`.
pub open spec fn with_items(carts: Seq<CartView>, user_id: u128, items: Seq<LineView>) -> Seq<
    CartView,
> {
    carts.update(cart_position(carts, user_id), CartView { user_id, items })
}

/// The first position of `carts` with a cart of `user_id`.
pub fn position_of_cart(carts: &Vec<Cart>, user_id: u128) -> (found: Option<usize>)
    ensures
        match found {
            Some(i) => is_first(views_of(carts@), cart_of(user_id), i as int),
            None => !has_cart(views_of(carts@), user_id),
        },
{
    let mut i: usize = 0;
    while i < carts.len()
        invariant
            i <= carts.len(),
            forall|j: int| 0 <= j < i ==> !cart_of(user_id)(#[trigger] views_of(carts@)[j]),
        decreases carts.len() - i,
    {
        if carts[i].user_id == user_id {
            return Some(i);
        }
        i = i + 1;
    }
    None
}

/// The first position of `items` with a line of `product_id`.
pub fn position_of_line(items: &Vec<ProductWithCount>, product_id: u128) -> (found: Option<usize>)
    ensures
        match found {
            Some(j) => is_first(views_of(items@), line_of(product_id), j as int),
            None => !has_line(views_of(items@), product_id),
        },
{
    let mut j: usize = 0;
    while j < items.len()
        invariant
            j <= items.len(),
            forall|k: int| 0 <= k < j ==> !line_of(product_id)(#[trigger] views_of(items@)[k]),
        decreases items.len() - j,
    {
        if items[j].product.uuid == product_id {
            return Some(j);
        }
        j = j + 1;
    }
    None
}

/// A copy of each line of `items`, in order.
pub fn clone_lines(items: &Vec<ProductWithCount>) -> (copy: Vec<ProductWithCount>)
    ensures
        views_of(copy@) == views_of(items@),
{
    let mut copy: Vec<ProductWithCount> = Vec::new();
    let mut i: usize = 0;
    while i < items.len()
        invariant
            i <= items.len(),
            copy.len() == i,
            forall|j: int| 0 <= j < i ==> copy[j]@ == items[j]@,
        decreases items.len() - i,
    {
        copy.push(items[i].clone());
        i = i + 1;
    }
    assert(views_of(copy@) =~= views_of(items@));
    copy
}

/// Whether `needle` is among `ids`.
pub fn contains_id(ids: &Vec<u128>, needle: u128) -> (found: bool)
    ensures
        found == ids@.contains(needle),
{
    let mut i: usize = 0;
    while i < ids.len()
        invariant
            i <= ids.len(),
            forall|j: int| 0 <= j < i ==> ids[j] != needle,
        decreases ids.len() - i,
    {
        if ids[i] == needle {
            return true;
        }
        i = i + 1;
    }
    false
}

/// Copies of the lines of `items` whose product is one of `product_ids`, where
/// `keep` is set, or none of them, where it is not.
pub fn select_lines(items: &Vec<ProductWithCount>, product_ids: &Vec<u128>, keep: bool) -> (kept:
    Vec<ProductWithCount>)
    ensures
        keep ==> views_of(kept@) == views_of(items@).filter(among(product_ids@)),
        !keep ==> views_of(kept@) == views_of(items@).filter(not_among(product_ids@)),
{
    let mut kept: Vec<ProductWithCount> = Vec::new();
    let mut i: usize = 0;
    let ghost lines = views_of(items@);
    proof {
        assert(lines.take(0) =~= Seq::<LineView>::empty());
        lemma_filter_empty(among(product_ids@));
        lemma_filter_empty(not_among(product_ids@));
        assert(views_of(kept@) =~= Seq::<LineView>::empty());
    }
    while i < items.len()
        invariant
            i <= items.len(),
            lines == views_of(items@),
            keep ==> views_of(kept@) == lines.take(i as int).filter(among(product_ids@)),
            !keep ==> views_of(kept@) == lines.take(i as int).filter(not_among(product_ids@)),
        decreases items.len() - i,
    {
        let listed = contains_id(product_ids, items[i].product.uuid);
        proof {
            lemma_filter_step(lines, among(product_ids@), i as int);
            lemma_filter_step(lines, not_among(product_ids@), i as int);
        }
        if listed == keep {
            let ghost before = kept@;
            kept.push(items[i].clone());
            assert(views_of(kept@) =~= views_of(before).push(lines[i as int]));
        }
        i = i + 1;
    }
    assert(lines.take(items.len() as int) =~= lines);
    kept
}

/// Copies of the lines of `items` of every product but `product_id`.
fn lines_without(items: &Vec<ProductWithCount>, product_id: u128) -> (kept: Vec<ProductWithCount>)
    ensures
        views_of(kept@) == views_of(items@).filter(not_of_product(product_id)),
{
    let mut kept: Vec<ProductWithCount> = Vec::new();
    let mut i: usize = 0;
    let ghost lines = views_of(items@);
    proof {
        assert(lines.take(0) =~= Seq::<LineView>::empty());
        lemma_filter_empty(not_of_product(product_id));
        assert(views_of(kept@) =~= Seq::<LineView>::empty());
    }
    while i < items.len()
        invariant
            i <= items.len(),
            lines == views_of(items@),
            views_of(kept@) == lines.take(i as int).filter(not_of_product(product_id)),
        decreases items.len() - i,
    {
        proof {
            lemma_filter_step(lines, not_of_product(product_id), i as int);
        }
        if items[i].product.uuid != product_id {
            let ghost before = kept@;
            kept.push(items[i].clone());
            assert(views_of(kept@) =~= views_of(before).push(lines[i as int]));
        }
        i = i + 1;
    }
    assert(lines.take(items.len() as int) =~= lines);
    kept
}

/// Whether `items` are as the lines of a cart should be.
pub fn lines_are_well_formed(items: &Vec<ProductWithCount>) -> (ok: bool)
    ensures
        ok == lines_wf(views_of(items@)),
{
    let ghost lines = views_of(items@);
    let mut ids: Vec<u128> = Vec::new();
    let mut j: usize = 0;
    while j < items.len()
        invariant
            j <= items.len(),
            lines == views_of(items@),
            ids.len() == j,
            forall|k: int| 0 <= k < j ==> ids[k] == line_key()(#[trigger] lines[k]),
            forall|k: int| 0 <= k < j ==> (#[trigger] lines[k]).count >= 1,
        decreases items.len() - j,
    {
        if items[j].count < 1 {
            assert(lines[j as int].count < 1);
            return false;
        }
        ids.push(items[j].product.uuid);
        j = j + 1;
    }
    proof {
        lemma_distinct_keys(lines, line_key(), ids@);
    }
    all_distinct(&ids)
}

impl CartStore {
    /// A store that holds `carts`, as they were loaded.
    pub fn new(carts: Vec<Cart>) -> (store: Self)
        ensures
            store@ == views_of(carts@),
    {
        CartStore { carts }
    }

    /// Whether the carts are as they should be. Carts that were loaded may
    /// not be; carts that are stay so under every operation of the store.
    pub fn is_well_formed(&self) -> (ok: bool)
        ensures
            ok == carts_wf(self@),
    {
        let mut users: Vec<u128> = Vec::new();
        let mut i: usize = 0;
        while i < self.carts.len()
            invariant
                i <= self.carts.len(),
                users.len() == i,
                forall|k: int| 0 <= k < i ==> users[k] == cart_key()(#[trigger] self@[k]),
                forall|k: int| 0 <= k < i ==> lines_wf((#[trigger] self@[k]).items),
            decreases self.carts.len() - i,
        {
            if !lines_are_well_formed(&self.carts[i].items) {
                assert(!lines_wf(self@[i as int].items));
                return false;
            }
            users.push(self.carts[i].user_id);
            i = i + 1;
        }
        proof {
            lemma_distinct_keys(self@, cart_key(), users@);
        }
        all_distinct(&users)
    }

    /// A copy of the product that the catalog has under `product_id`. The
    /// catalog is handed over as it was read from its file just now, and is
    /// missing where it could not be read: then no product is found.
    pub fn load_product_by_id(catalog: &Option<Vec<Product>>, product_id: u128) -> (r: Result<
        Product,
        ErrorKind,
    >)
        ensures
            product_result_view(r) == catalog_lookup(opt_products(*catalog), product_id),
            r matches Ok(product) ==> product.uuid == product_id,
    {
        load_product(catalog, product_id)
    }

    /// Puts one more of the catalog's product `product_id` into the cart of
    /// `user_id`. The cart keeps the product as the catalog has it at the first
    /// add; later adds only raise the count.
    pub fn add_product_to_cart(
        &mut self,
        user_id: u128,
        product_id: u128,
        catalog: &Option<Vec<Product>>,
    ) -> (r: Result<(), ErrorKind>)
        ensures
            cart_add_post(
                old(self)@,
                final(self)@,
                user_id,
                product_id,
                opt_products(*catalog),
                r,
            ),
            carts_wf(old(self)@) ==> carts_wf(final(self)@),
    {
        let product = match Self::load_product_by_id(catalog, product_id) {
            Ok(product) => product,
            Err(e) => {
                return Err(e);
            },
        };
        let ghost before = self@;
        let ghost added = product@;
        match position_of_cart(&self.carts, user_id) {
            Some(i) => {
                proof {
                    lemma_first_match_is(before, cart_of(user_id), i as int);
                }
                let ghost lines = before[i as int].items;
                match position_of_line(&self.carts[i].items, product_id) {
                    Some(j) => {
                        proof {
                            lemma_first_match_is(lines, line_of(product_id), j as int);
                        }
                        if self.carts[i].items[j].count == u32::MAX {
                            return Err(ErrorKind::CartCountLimit);
                        }
                        self.carts[i].items[j].count += 1;
                        proof {
                            assert(self@[i as int].items =~= line_added(lines, product@));
                            assert(self@ =~= product_added(before, user_id, product@));
                        }
                    },
                    None => {
                        self.carts[i].items.push(ProductWithCount { product, count: 1 });
                        proof {
                            assert(self@[i as int].items =~= line_added(lines, product@));
                            assert(self@ =~= product_added(before, user_id, product@));
                        }
                    },
                }
            },
            None => {
                let mut items: Vec<ProductWithCount> = Vec::new();
                items.push(ProductWithCount { product, count: 1 });
                let cart = Cart { user_id, items };
                proof {
                    assert(cart@.items =~= seq![LineView { product: product@, count: 1 }]);
                }
                self.carts.push(cart);
                proof {
                    assert(self@ =~= product_added(before, user_id, product@));
                    lemma_filter_none(Seq::<LineView>::empty(), line_of(product_id));
                }
            },
        }
        proof {
            if carts_wf(before) {
                law_add_keeps_carts_wf(before, user_id, added);
            }
        }
        Ok(())
    }

    /// Takes one of `product_id` out of the cart of `user_id`; the last one
    /// takes the product's lines with it.
    pub fn remove_product_from_cart(&mut self, user_id: u128, product_id: u128) -> (r: Result<
        (),
        ErrorKind,
    >)
        ensures
            match r {
                Ok(()) => {
                    &&& has_cart(old(self)@, user_id)
                    &&& has_line(cart_items(old(self)@, user_id), product_id)
                    &&& final(self)@ == with_items(
                        old(self)@,
                        user_id,
                        line_removed(cart_items(old(self)@, user_id), product_id),
                    )
                },
                Err(e) => {
                    &&& final(self)@ == old(self)@
                    &&& if has_cart(old(self)@, user_id) {
                        e == ErrorKind::ProductNotInCart && !has_line(
                            cart_items(old(self)@, user_id),
                            product_id,
                        )
                    } else {
                        e == ErrorKind::UserCartNotFound
                    }
                },
            },
            carts_wf(old(self)@) ==> carts_wf(final(self)@),
    {
        let ghost before = self@;
        let i = match position_of_cart(&self.carts, user_id) {
            Some(i) => i,
            None => {
                return Err(ErrorKind::UserCartNotFound);
            },
        };
        proof {
            lemma_first_match_is(before, cart_of(user_id), i as int);
        }
        let ghost lines = before[i as int].items;
        let j = match position_of_line(&self.carts[i].items, product_id) {
            Some(j) => j,
            None => {
                return Err(ErrorKind::ProductNotInCart);
            },
        };
        proof {
            lemma_first_match_is(lines, line_of(product_id), j as int);
        }
        if self.carts[i].items[j].count > 1 {
            self.carts[i].items[j].count -= 1;
            proof {
                assert(self@[i as int].items =~= line_removed(lines, product_id));
            }
        } else {
            let kept = lines_without(&self.carts[i].items, product_id);
            self.carts[i].items = kept;
        }
        proof {
            assert(self@ =~= with_items(before, user_id, line_removed(lines, product_id)));
            if carts_wf(before) {
                law_remove_keeps_lines_wf(lines, product_id, Seq::empty());
                law_replacement_keeps_carts_wf(before, user_id, line_removed(lines, product_id));
            }
        }
        Ok(())
    }

    /// Drops from the cart of `user_id` every line whose product is one of
    /// `product_ids`.
    pub fn remove_products_from_cart(&mut self, user_id: u128, product_ids: &Vec<u128>) -> (r:
        Result<(), ErrorKind>)
        ensures
            match r {
                Ok(()) => {
                    &&& has_cart(old(self)@, user_id)
                    &&& final(self)@ == with_items(
                        old(self)@,
                        user_id,
                        cart_items(old(self)@, user_id).filter(not_among(product_ids@)),
                    )
                },
                Err(e) => {
                    &&& final(self)@ == old(self)@
                    &&& e == ErrorKind::UserCartNotFound
                    &&& !has_cart(old(self)@, user_id)
                },
            },
            carts_wf(old(self)@) ==> carts_wf(final(self)@),
    {
        let ghost before = self@;
        let i = match position_of_cart(&self.carts, user_id) {
            Some(i) => i,
            None => {
                return Err(ErrorKind::UserCartNotFound);
            },
        };
        proof {
            lemma_first_match_is(before, cart_of(user_id), i as int);
        }
        let kept = select_lines(&self.carts[i].items, product_ids, false);
        self.carts[i].items = kept;
        proof {
            assert(self@ =~= with_items(
                before,
                user_id,
                before[i as int].items.filter(not_among(product_ids@)),
            ));
            if carts_wf(before) {
                law_remove_keeps_lines_wf(before[i as int].items, 0, product_ids@);
                law_replacement_keeps_carts_wf(
                    before,
                    user_id,
                    before[i as int].items.filter(not_among(product_ids@)),
                );
            }
        }
        Ok(())
    }

    /// A copy of the lines of the cart of `user_id`; no lines where it has no cart.
    pub fn get_cart(&self, user_id: u128) -> (items: Vec<ProductWithCount>)
        ensures
            views_of(items@) == cart_items(self@, user_id),
    {
        match position_of_cart(&self.carts, user_id) {
            Some(i) => {
                proof {
                    lemma_first_match_is(self@, cart_of(user_id), i as int);
                }
                clone_lines(&self.carts[i].items)
            },
            None => {
                let items: Vec<ProductWithCount> = Vec::new();
                assert(views_of(items@) =~= Seq::<LineView>::empty());
                items
            },
        }
    }
}

} // verus!

//! Orders, and the checkout that turns a selection of cart lines into one.

use vstd::prelude::*;
use vstd::string::StringExecFns;
use crate::clock::{utc_now_rfc3339, Timestamp};
use crate::error::ErrorKind;
use crate::ident::{is_random_uuid, new_id};
use crate::models::product::{clone_products, Product, ProductView};
use crate::models::user::{primary, User, UserView};
use crate::money::{lemma_percent_bounds, non_negative};
use crate::pricing::{price_lines, priced};
use crate::stores::cart_store::{
    among,
    cart_items,
    carts_wf,
    has_cart,
    not_among,
    select_lines,
    with_items,
    CartStore,
    CartView,
    LineView,
    ProductWithCount,
};
use crate::stores::promo_codes_store::{
    amounts_view,
    promo_applied,
    promo_lookup,
    PromoCode,
    PromoCodeView,
    PromoCodesStore,
};
use crate::stores::user_store::{with_id, UserStore};
use crate::views::{
    first_match,
    first_or_none,
    has_match,
    lemma_filter_empty,
    lemma_filter_step,
    lemma_first_match_is,
    opt_text,
    views_of,
};

verus! {

#[derive(Clone, Copy, Debug, PartialEq, Eq, Structural)]
pub enum OrderStatus {
    Received,
    Canceled,
    InTransit,
    Returned,
    AtCustoms,
    DisputeOpen,
    DisputeClosed,
    PreparingForShipment,
}

#[derive(Debug)]
pub struct Order {
    pub order_id: u128,
    pub user_id: u128,
    /// The products bought, as the cart had them.
    pub items: Vec<Product>,
    /// What is to be paid, in minor units; never negative.
    pub total_price: i128,
    pub created_at: String,
    /// All that was taken off, by the products' own discounts and the promo code.
    pub discount: Option<i128>,
    pub promo_code: Option<String>,
    pub delivery_address: String,
    pub payment_card_number: String,
    pub order_status: OrderStatus,
}

pub struct OrderView {
    pub order_id: u128,
    pub user_id: u128,
    pub items: Seq<ProductView>,
    pub total_price: int,
    pub created_at: Seq<char>,
    pub discount: Option<int>,
    pub promo_code: Option<Seq<char>>,
    pub delivery_address: Seq<char>,
    pub payment_card_number: Seq<char>,
    pub order_status: OrderStatus,
}

impl View for Order {
    type V = OrderView;

    open spec fn view(&self) -> OrderView {
        OrderView {
            order_id: self.order_id,
            user_id: self.user_id,
            items: views_of(self.items@),
            total_price: self.total_price as int,
            created_at: self.created_at@,
            discount: match self.discount {
                Some(discount) => Some(discount as int),
                None => None,
            },
            promo_code: opt_text(self.promo_code),
            delivery_address: self.delivery_address@,
            payment_card_number: self.payment_card_number@,
            order_status: self.order_status,
        }
    }
}

impl Clone for Order {
    fn clone(&self) -> (copy: Self)
        ensures
            copy@ == self@,
    {
        Order {
            order_id: self.order_id,
            user_id: self.user_id,
            items: clone_products(&self.items),
            total_price: self.total_price,
            created_at: self.created_at.clone(),
            discount: self.discount,
            promo_code: match &self.promo_code {
                Some(code) => Some(code.clone()),
                None => None,
            },
            delivery_address: self.delivery_address.clone(),
            payment_card_number: self.payment_card_number.clone(),
            order_status: self.order_status,
        }
    }
}

/// The orders of all users, oldest first.
#[derive(Debug)]
pub struct OrdersStore {
    pub orders: Vec<Order>,
}

impl View for OrdersStore {
    type V = Seq<OrderView>;

    open spec fn view(&self) -> Seq<OrderView> {
        views_of(self.orders@)
    }
}

/// What the orders keep: what is to be paid is never negative.
pub open spec fn orders_wf(orders: Seq<OrderView>) -> bool {
    forall|i: int| 0 <= i < orders.len() ==> (#[trigger] orders[i]).total_price >= 0
}

/// The test that holds of the orders of `user_id`.
pub open spec fn order_of(user_id: u128) -> spec_fn(OrderView) -> bool {
    |order: OrderView| order.user_id == user_id
}

/// The test that holds of the order `order_id` where it is one of `user_id`.
pub open spec fn order_with(user_id: u128, order_id: u128) -> spec_fn(OrderView) -> bool {
    |order: OrderView| order.user_id == user_id && order.order_id == order_id
}

/// The number of the card that pays for the orders of `user`: that of its
/// first primary card.
pub open spec fn payment_card(user: UserView) -> Result<Seq<char>, ErrorKind> {
    match user.credit_cards {
        None => Err(ErrorKind::NoCreditCards),
        Some(cards) => if has_match(cards, primary()) {
            Ok(cards[first_match(cards, primary())].card_number)
        } else {
            Err(ErrorKind::PrimaryCardNotFound)
        },
    }
}

/// The text of an optional field, which is empty where the field is missing.
pub open spec fn text_or_empty(o: Option<Seq<char>>) -> Seq<char> {
    match o {
        Some(text) => text,
        None => Seq::empty(),
    }
}

/// Where the orders of `user` go: the address and the city, written together,
/// then the region, the country, the zip code, the phone number and the
/// username, each after a comma and a space.
pub open spec fn delivery_address_of(user: UserView) -> Seq<char> {
    text_or_empty(user.address) + text_or_empty(user.city) + ", "@ + text_or_empty(user.region)
        + ", "@ + text_or_empty(user.country) + ", "@ + text_or_empty(user.zip_code) + ", "@
        + text_or_empty(user.phone_number) + ", "@ + user.username
}

/// The products of `lines`, in order.
pub open spec fn products_of(lines: Seq<LineView>) -> Seq<ProductView> {
    Seq::new(lines.len(), |i: int| lines[i].product)
}

/// The view of an optional list of promo codes.
pub open spec fn opt_promos(o: Option<Vec<PromoCode>>) -> Option<Seq<PromoCodeView>> {
    match o {
        Some(promo_codes) => Some(views_of(promo_codes@)),
        None => None,
    }
}

/// What is to be paid for `lines` and what was taken off: the products' own
/// discounts first, then the promo code, where one is given, on what is left.
/// A promo code needs the list of promo codes, which is missing where it could
/// not be read.
pub open spec fn totals(
    lines: Seq<LineView>,
    promo_code: Option<Seq<char>>,
    promo_codes: Option<Seq<PromoCodeView>>,
    now: Timestamp,
) -> Result<(int, int), ErrorKind> {
    match priced(lines) {
        Err(e) => Err(e),
        Ok((total, discount)) => match promo_code {
            None => Ok((non_negative(total), discount)),
            Some(code) => match promo_codes {
                None => Err(ErrorKind::PromoCodesUnavailable),
                Some(promo_codes) => match promo_applied(promo_codes, code, total, now) {
                    Err(e) => Err(e),
                    Ok((reduced, promo_discount)) => Ok((reduced, discount + promo_discount)),
                },
            },
        },
    }
}

/// What a checkout is asked to do, and the three things that it takes from
/// outside: the instant, the new order's id and the text of its creation time.
pub struct Checkout {
    pub user_id: u128,
    pub selection: Seq<u128>,
    pub promo_code: Option<Seq<char>>,
    pub promo_codes: Option<Seq<PromoCodeView>>,
    pub now: Timestamp,
    pub order_id: u128,
    pub created_at: Seq<char>,
}

/// The order that the checkout `c` makes from `users` and `carts`, or the
/// reason for which it makes none. The reasons are tried in this order: the
/// user, its primary card, the selection, the prices, the promo code.
pub open spec fn order_for(users: Seq<UserView>, carts: Seq<CartView>, c: Checkout) -> Result<
    OrderView,
    ErrorKind,
> {
    match first_or_none(users, with_id(c.user_id)) {
        None => Err(ErrorKind::UserNotFound),
        Some(user) => match payment_card(user) {
            Err(e) => Err(e),
            Ok(card_number) => {
                let lines = cart_items(carts, c.user_id).filter(among(c.selection));
                if lines.len() == 0 {
                    Err(ErrorKind::SelectedProductsNotFound)
                } else {
                    match totals(lines, c.promo_code, c.promo_codes, c.now) {
                        Err(e) => Err(e),
                        Ok((total, discount)) => Ok(
                            OrderView {
                                order_id: c.order_id,
                                user_id: c.user_id,
                                items: products_of(lines),
                                total_price: total,
                                created_at: c.created_at,
                                discount: Some(discount),
                                promo_code: c.promo_code,
                                delivery_address: delivery_address_of(user),
                                payment_card_number: card_number,
                                order_status: OrderStatus::Received,
                            },
                        ),
                    }
                }
            },
        },
    }
}

/// How a checkout leaves the orders and the carts: with the new order behind
/// all others and the bought lines gone from the user's cart, or, where no
/// order is made, both as they were.
pub open spec fn checkout_post(
    users: Seq<UserView>,
    orders_before: Seq<OrderView>,
    orders_after: Seq<OrderView>,
    carts_before: Seq<CartView>,
    carts_after: Seq<CartView>,
    c: Checkout,
    r: Result<(), ErrorKind>,
) -> bool {
    match order_for(users, carts_before, c) {
        Err(e) => {
            &&& r == Err::<(), ErrorKind>(e)
            &&& orders_after == orders_before
            &&& carts_after == carts_before
        },
        Ok(order) => {
            &&& r == Ok::<(), ErrorKind>(())
            &&& orders_after == orders_before.push(order)
            &&& carts_after == with_items(
                carts_before,
                c.user_id,
                cart_items(carts_before, c.user_id).filter(not_among(c.selection)),
            )
        },
    }
}

/// The view of the outcome of building an order.
pub open spec fn order_result_view(r: Result<Order, ErrorKind>) -> Result<OrderView, ErrorKind> {
    match r {
        Ok(order) => Ok(order@),
        Err(e) => Err(e),
    }
}

/// The number of the first primary card of `user`.
pub fn primary_card_number(user: &User) -> (r: Result<String, ErrorKind>)
    ensures
        match r {
            Ok(number) => payment_card(user@) == Ok::<Seq<char>, ErrorKind>(number@),
            Err(e) => payment_card(user@) == Err::<Seq<char>, ErrorKind>(e),
        },
{
    match &user.credit_cards {
        None => Err(ErrorKind::NoCreditCards),
        Some(cards) => {
            let ghost card_views = views_of(cards@);
            assert(user@.credit_cards == Some(card_views));
            let mut i: usize = 0;
            while i < cards.len()
                invariant
                    i <= cards.len(),
                    card_views == views_of(cards@),
                    user@.credit_cards == Some(card_views),
                    forall|j: int| 0 <= j < i ==> !primary()(#[trigger] card_views[j]),
                decreases cards.len() - i,
            {
                if cards[i].is_primary {
                    proof {
                        lemma_first_match_is(card_views, primary(), i as int);
                    }
                    return Ok(cards[i].card_number.clone());
                }
                i = i + 1;
            }
            Err(ErrorKind::PrimaryCardNotFound)
        },
    }
}

/// A copy of the text of an optional field, empty where the field is missing.
pub fn text_of(o: &Option<String>) -> (text: String)
    ensures
        text@ == text_or_empty(opt_text(*o)),
{
    match o {
        Some(text) => text.clone(),
        None => String::new(),
    }
}

/// Where the orders of `user` go.
pub fn delivery_address(user: &User) -> (text: String)
    ensures
        text@ == delivery_address_of(user@),
{
    let mut text = text_of(&user.address);
    text.append(text_of(&user.city).as_str());
    text.append(", ");
    text.append(text_of(&user.region).as_str());
    text.append(", ");
    text.append(text_of(&user.country).as_str());
    text.append(", ");
    text.append(text_of(&user.zip_code).as_str());
    text.append(", ");
    text.append(text_of(&user.phone_number).as_str());
    text.append(", ");
    text.append(user.username.as_str());
    text
}

/// Copies of the products of `lines`, in order.
fn products_of_lines(lines: &Vec<ProductWithCount>) -> (products: Vec<Product>)
    ensures
        views_of(products@) == products_of(views_of(lines@)),
{
    let mut products: Vec<Product> = Vec::new();
    let mut i: usize = 0;
    while i < lines.len()
        invariant
            i <= lines.len(),
            products.len() == i,
            forall|j: int| 0 <= j < i ==> products[j]@ == lines[j]@.product,
        decreases lines.len() - i,
    {
        products.push(lines[i].product.clone());
        i = i + 1;
    }
    assert(views_of(products@) =~= products_of(views_of(lines@)));
    products
}

/// What is to be paid for `lines` and what was taken off.
pub fn compute_totals(
    lines: &Vec<ProductWithCount>,
    promo_code: &Option<String>,
    promocodes_store: &PromoCodesStore,
    promo_codes: &Option<Vec<PromoCode>>,
    now: Timestamp,
) -> (r: Result<(i128, i128), ErrorKind>)
    ensures
        amounts_view(r) == totals(
            views_of(lines@),
            opt_text(*promo_code),
            opt_promos(*promo_codes),
            now,
        ),
{
    let (total, discount) = match price_lines(lines) {
        Ok(amounts) => amounts,
        Err(e) => {
            return Err(e);
        },
    };
    match promo_code {
        None => {
            if total < 0 {
                Ok((0, discount as i128))
            } else {
                Ok((total as i128, discount as i128))
            }
        },
        Some(code) => match promo_codes {
            None => Err(ErrorKind::PromoCodesUnavailable),
            Some(promo_codes) => {
                match promocodes_store.apply_promo_code_at(promo_codes, code.as_str(), total, now) {
                    Err(e) => Err(e),
                    Ok((reduced, promo_discount)) => {
                        proof {
                            if let Ok(promo) = promo_lookup(views_of(promo_codes@), code@) {
                                lemma_percent_bounds(total as int, promo.discount as int);
                            }
                        }
                        Ok((reduced, discount as i128 + promo_discount))
                    },
                }
            },
        },
    }
}

/// What a checkout is asked to do, as `order_for` reads it.
pub open spec fn checkout_of(
    user_id: u128,
    selected_product_ids: Vec<u128>,
    promo_code: Option<String>,
    promo_codes: Option<Vec<PromoCode>>,
    now: Timestamp,
    order_id: u128,
    created_at: Seq<char>,
) -> Checkout {
    Checkout {
        user_id,
        selection: selected_product_ids@,
        promo_code: opt_text(promo_code),
        promo_codes: opt_promos(promo_codes),
        now,
        order_id,
        created_at,
    }
}

/// The order that a checkout makes, not yet recorded.
pub fn build_order(
    users: &UserStore,
    carts: &CartStore,
    user_id: u128,
    selected_product_ids: &Vec<u128>,
    promo_code: Option<String>,
    promocodes_store: &PromoCodesStore,
    promo_codes: &Option<Vec<PromoCode>>,
    now: Timestamp,
    order_id: u128,
    created_at: String,
) -> (r: Result<Order, ErrorKind>)
    ensures
        order_result_view(r) == order_for(
            users@,
            carts@,
            checkout_of(
                user_id,
                *selected_product_ids,
                promo_code,
                *promo_codes,
                now,
                order_id,
                created_at@,
            ),
        ),
        r matches Ok(order) ==> order.total_price >= 0,
{
    let user = match users.find_user_by_id(user_id) {
        Some(user) => user,
        None => {
            return Err(ErrorKind::UserNotFound);
        },
    };
    let payment_card_number = match primary_card_number(&user) {
        Ok(number) => number,
        Err(e) => {
            return Err(e);
        },
    };
    let delivery_address = delivery_address(&user);
    let cart_lines = carts.get_cart(user_id);
    let selected = select_lines(&cart_lines, selected_product_ids, true);
    if selected.len() == 0 {
        return Err(ErrorKind::SelectedProductsNotFound);
    }
    let (total_price, discount) = match compute_totals(
        &selected,
        &promo_code,
        promocodes_store,
        promo_codes,
        now,
    ) {
        Ok(amounts) => amounts,
        Err(e) => {
            return Err(e);
        },
    };
    let items = products_of_lines(&selected);
    Ok(
        Order {
            order_id,
            user_id,
            items,
            total_price,
            created_at,
            discount: Some(discount),
            promo_code,
            delivery_address,
            payment_card_number,
            order_status: OrderStatus::Received,
        },
    )
}

/// A cart with a selected line is a cart.
proof fn lemma_selection_has_cart(carts: Seq<CartView>, user_id: u128, selection: Seq<u128>)
    requires
        cart_items(carts, user_id).filter(among(selection)).len() > 0,
    ensures
        has_cart(carts, user_id),
{
    if !has_cart(carts, user_id) {
        lemma_filter_empty(among(selection));
    }
}

impl OrdersStore {
    /// A store that holds `orders`, as they were loaded.
    pub fn new(orders: Vec<Order>) -> (store: Self)
        ensures
            store@ == views_of(orders@),
    {
        OrdersStore { orders }
    }

    /// Whether the orders are as they should be. Orders that were loaded may
    /// not be; orders that are stay so under every operation of the store.
    pub fn is_well_formed(&self) -> (ok: bool)
        ensures
            ok == orders_wf(self@),
    {
        let mut i: usize = 0;
        while i < self.orders.len()
            invariant
                i <= self.orders.len(),
                forall|k: int| 0 <= k < i ==> (#[trigger] self@[k]).total_price >= 0,
            decreases self.orders.len() - i,
        {
            if self.orders[i].total_price < 0 {
                assert(self@[i as int].total_price < 0);
                return false;
            }
            i = i + 1;
        }
        true
    }

    /// Checks out the selected lines of the cart of `user_id` at the instant
    /// `now`: records the order under `order_id` and takes the bought lines out
    /// of the cart. Where no order is made, nothing changes.
    pub fn add_order_at(
        &mut self,
        user_id: u128,
        selected_product_ids: Vec<u128>,
        promo_code: Option<String>,
        users: &UserStore,
        carts: &mut CartStore,
        promocodes_store: &PromoCodesStore,
        promo_codes: &Option<Vec<PromoCode>>,
        now: Timestamp,
        order_id: u128,
        created_at: String,
    ) -> (r: Result<(), ErrorKind>)
        ensures
            checkout_post(
                users@,
                old(self)@,
                final(self)@,
                old(carts)@,
                final(carts)@,
                checkout_of(
                    user_id,
                    selected_product_ids,
                    promo_code,
                    *promo_codes,
                    now,
                    order_id,
                    created_at@,
                ),
                r,
            ),
            orders_wf(old(self)@) ==> orders_wf(final(self)@),
            carts_wf(old(carts)@) ==> carts_wf(final(carts)@),
    {
        let order = match build_order(
            users,
            carts,
            user_id,
            &selected_product_ids,
            promo_code,
            promocodes_store,
            promo_codes,
            now,
            order_id,
            created_at,
        ) {
            Ok(order) => order,
            Err(e) => {
                return Err(e);
            },
        };
        let ghost orders_before = self.orders@;
        self.orders.push(order);
        proof {
            assert(self@ =~= views_of(orders_before).push(order@));
            lemma_selection_has_cart(carts@, user_id, selected_product_ids@);
        }
        match carts.remove_products_from_cart(user_id, &selected_product_ids) {
            Ok(()) => Ok(()),
            Err(e) => Err(e),
        }
    }

    /// Checks out the selected lines of the cart of `user_id` now. The order's
    /// id is drawn at random and its times are read from the system clock, so
    /// the outcome is the one that `add_order_at` gives for some id, instant
    /// and creation time.
    pub fn add_order(
        &mut self,
        user_id: u128,
        selected_product_ids: Vec<u128>,
        promo_code: Option<String>,
        users: &UserStore,
        carts: &mut CartStore,
        promocodes_store: &PromoCodesStore,
        promo_codes: &Option<Vec<PromoCode>>,
    ) -> (r: Result<(), ErrorKind>)
        ensures
            exists|now: Timestamp, order_id: u128, created_at: Seq<char>|
                is_random_uuid(order_id) && now.is_outside_leap_second() && checkout_post(
                    users@,
                    old(self)@,
                    final(self)@,
                    old(carts)@,
                    final(carts)@,
                    #[trigger] checkout_of(
                        user_id,
                        selected_product_ids,
                        promo_code,
                        *promo_codes,
                        now,
                        order_id,
                        created_at,
                    ),
                    r,
                ),
            orders_wf(old(self)@) ==> orders_wf(final(self)@),
            carts_wf(old(carts)@) ==> carts_wf(final(carts)@),
    {
        let order_id = new_id();
        let now = Timestamp::now();
        let created_at = utc_now_rfc3339();
        self.add_order_at(
            user_id,
            selected_product_ids,
            promo_code,
            users,
            carts,
            promocodes_store,
            promo_codes,
            now,
            order_id,
            created_at,
        )
    }

    /// Copies of the orders of `user_id`, oldest first.
    pub fn get_orders(&self, user_id: u128) -> (orders: Vec<Order>)
        ensures
            views_of(orders@) == self@.filter(order_of(user_id)),
    {
        let mut orders: Vec<Order> = Vec::new();
        let mut i: usize = 0;
        proof {
            assert(self@.take(0) =~= Seq::<OrderView>::empty());
            lemma_filter_empty(order_of(user_id));
            assert(views_of(orders@) =~= Seq::<OrderView>::empty());
        }
        while i < self.orders.len()
            invariant
                i <= self.orders.len(),
                views_of(orders@) == self@.take(i as int).filter(order_of(user_id)),
            decreases self.orders.len() - i,
        {
            proof {
                lemma_filter_step(self@, order_of(user_id), i as int);
            }
            if self.orders[i].user_id == user_id {
                let ghost before = orders@;
                orders.push(self.orders[i].clone());
                assert(views_of(orders@) =~= views_of(before).push(self@[i as int]));
            }
            i = i + 1;
        }
        assert(self@.take(self.orders.len() as int) =~= self@);
        orders
    }

    /// Deletes the order `order_id` of `user_id`: the first such order.
    pub fn remove_order(&mut self, user_id: u128, order_id: u128) -> (r: Result<(), ErrorKind>)
        ensures
            match r {
                Ok(()) => {
                    &&& has_match(old(self)@, order_with(user_id, order_id))
                    &&& final(self)@ == old(self)@.remove(
                        first_match(old(self)@, order_with(user_id, order_id)),
                    )
                },
                Err(e) => {
                    &&& e == ErrorKind::OrderNotFound
                    &&& !has_match(old(self)@, order_with(user_id, order_id))
                    &&& final(self)@ == old(self)@
                },
            },
            orders_wf(old(self)@) ==> orders_wf(final(self)@),
    {
        let ghost before = self.orders@;
        let mut i: usize = 0;
        while i < self.orders.len()
            invariant
                i <= self.orders.len(),
                self.orders@ == before,
                views_of(before) == old(self)@,
                forall|j: int|
                    0 <= j < i ==> !order_with(user_id, order_id)(#[trigger] views_of(before)[j]),
            decreases self.orders.len() - i,
        {
            if self.orders[i].user_id == user_id && self.orders[i].order_id == order_id {
                proof {
                    lemma_first_match_is(
                        views_of(before),
                        order_with(user_id, order_id),
                        i as int,
                    );
                }
                self.orders.remove(i);
                assert(self@ =~= views_of(before).remove(i as int));
                return Ok(());
            }
            i = i + 1;
        }
        Err(ErrorKind::OrderNotFound)
    }
}

} // verus!

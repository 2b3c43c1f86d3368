//! What holds of the stores whatever they hold: the laws that relate one
//! operation to another.

use vstd::prelude::*;
use crate::clock::{instant_of, Timestamp};
use crate::controllers::users_controller::{
    card_of,
    cards_with,
    without_primary,
    CreditCardInputView,
};
use crate::error::ErrorKind;
use crate::models::product::{with_uuid, ProductView};
use crate::models::user::{
    at_most_one_primary,
    primary,
    user_wf,
    users_wf,
    CreditCardView,
    UserView,
};

use crate::pricing::priced;
use crate::stores::cart_store::{
    among,
    cart_items,
    cart_of,
    count_of,
    has_cart,
    carts_wf,
    cart_key,
    has_line,
    line_added,
    line_is_full,
    line_key,
    line_of,
    lines_wf,
    line_position,
    line_removed,
    not_among,
    not_of_product,
    product_added,
    with_items,
    cart_position,
    CartView,
    LineView,
};
use crate::stores::favorites_store::{
    favorite_added,
    favorite_items,
    favorites_of,
    favorites_position,
    favorites_wf,
    has_favorites,
    list_key,
    product_key,
    other_than,
    with_favorites,
    FavoritesView,
};
use crate::stores::orders_store::{
    checkout_post,
    order_for,
    order_of,
    payment_card,
    totals,
    Checkout,
    OrderView,
};
use crate::stores::promo_codes_store::{promo_applied, promo_lookup, PromoCodeView};
use crate::stores::user_store::with_id;
use crate::views::{
    distinct_by,
    first_or_none,
    has_match,
    lemma_filter_distinct,
    lemma_filter_empty,
    lemma_filter_keeps,
    lemma_filter_none,
    lemma_first_match_exists,
    lemma_distinct_update,
    lemma_first_match_is,
    lemma_occurrences_filter,
    lemma_occurrences_push,
    lemma_occurrences_update,
    occurrences,
};

verus! {

/// After an add, the cart of the user is its cart before with one more of the
/// product; the carts of the other users are as they were.
pub proof fn law_cart_after_add(
    carts: Seq<CartView>,
    user_id: u128,
    product: ProductView,
    other: u128,
)
    ensures
        cart_items(product_added(carts, user_id, product), user_id) == line_added(
            cart_items(carts, user_id),
            product,
        ),
        other != user_id ==> cart_items(product_added(carts, user_id, product), other)
            == cart_items(carts, other),
{
    let after = product_added(carts, user_id, product);
    if has_cart(carts, user_id) {
        lemma_first_match_exists(carts, cart_of(user_id));
        let i = cart_position(carts, user_id);
        assert(cart_of(user_id)(after[i]));
        assert forall|j: int| 0 <= j < i implies !cart_of(user_id)(#[trigger] after[j]) by {
            assert(after[j] == carts[j]);
        }
        lemma_first_match_is(after, cart_of(user_id), i);
    } else {
        let n = carts.len() as int;
        assert(cart_of(user_id)(after[n]));
        assert forall|j: int| 0 <= j < n implies !cart_of(user_id)(#[trigger] after[j]) by {
            assert(after[j] == carts[j]);
        }
        lemma_first_match_is(after, cart_of(user_id), n);
        lemma_filter_none(Seq::<LineView>::empty(), line_of(product.uuid));
        assert(!has_line(Seq::<LineView>::empty(), product.uuid));
        assert(Seq::<LineView>::empty().push(LineView { product, count: 1 }) =~= seq![
            LineView { product, count: 1 },
        ]);
    }
    if other != user_id {
        lemma_other_cart_kept(carts, after, other);
    }
}

/// Where two lists of carts differ at most in carts of other users, and in
/// those only by more carts at the end, the cart of `user_id` is the same in
/// both.
proof fn lemma_other_cart_kept(before: Seq<CartView>, after: Seq<CartView>, user_id: u128)
    requires
        before.len() <= after.len(),
        forall|j: int|
            0 <= j < before.len() ==> (#[trigger] after[j] == before[j] || (after[j].user_id
                != user_id && before[j].user_id != user_id)),
        forall|j: int| before.len() <= j < after.len() ==> (#[trigger] after[j]).user_id != user_id,
    ensures
        cart_items(after, user_id) == cart_items(before, user_id),
{
    if has_cart(before, user_id) {
        lemma_first_match_exists(before, cart_of(user_id));
        let i = cart_position(before, user_id);
        assert(after[i] == before[i]);
        assert forall|j: int| 0 <= j < i implies !cart_of(user_id)(#[trigger] after[j]) by {
            assert(!cart_of(user_id)(before[j]));
        }
        lemma_first_match_is(after, cart_of(user_id), i);
    } else {
        if has_cart(after, user_id) {
            let k = choose|k: int| 0 <= k < after.len() && cart_of(user_id)(#[trigger] after[k]);
            if k < before.len() {
                assert(!cart_of(user_id)(before[k]));
            }
        }
    }
}

/// After an add the cart holds one more of the product than before, unless
/// the line was full.
pub proof fn law_add_raises_count(carts: Seq<CartView>, user_id: u128, product: ProductView)
    requires
        count_of(cart_items(carts, user_id), product.uuid) < u32::MAX,
    ensures
        has_line(cart_items(product_added(carts, user_id, product), user_id), product.uuid),
        count_of(cart_items(product_added(carts, user_id, product), user_id), product.uuid)
            == count_of(cart_items(carts, user_id), product.uuid) + 1,
{
    law_cart_after_add(carts, user_id, product, user_id);
    lemma_line_added_count(cart_items(carts, user_id), product);
}

proof fn lemma_line_added_count(items: Seq<LineView>, product: ProductView)
    requires
        count_of(items, product.uuid) < u32::MAX,
    ensures
        has_line(line_added(items, product), product.uuid),
        count_of(line_added(items, product), product.uuid) == count_of(items, product.uuid) + 1,
{
    let after = line_added(items, product);
    let test = line_of(product.uuid);
    if has_line(items, product.uuid) {
        lemma_first_match_exists(items, test);
        let j = line_position(items, product.uuid);
        assert(test(after[j]));
        assert forall|k: int| 0 <= k < j implies !test(#[trigger] after[k]) by {
            assert(after[k] == items[k]);
        }
        lemma_first_match_is(after, test, j);
    } else {
        let n = items.len() as int;
        assert(test(after[n]));
        assert forall|k: int| 0 <= k < n implies !test(#[trigger] after[k]) by {
            assert(after[k] == items[k]);
        }
        lemma_first_match_is(after, test, n);
    }
}

/// Add, then read: the cart holds the product, in exactly one line where it
/// held it in at most one line before.
pub proof fn law_added_product_is_in_cart_once(
    carts: Seq<CartView>,
    user_id: u128,
    product: ProductView,
)
    requires
        occurrences(cart_items(carts, user_id), line_of(product.uuid)) <= 1,
    ensures
        occurrences(
            cart_items(product_added(carts, user_id, product), user_id),
            line_of(product.uuid),
        ) == 1,
{
    law_cart_after_add(carts, user_id, product, user_id);
    let items = cart_items(carts, user_id);
    let test = line_of(product.uuid);
    if has_line(items, product.uuid) {
        lemma_first_match_exists(items, test);
        let j = line_position(items, product.uuid);
        let line = LineView { product: items[j].product, count: (items[j].count + 1) as u32 };
        lemma_occurrences_update(items, test, j, line);
        items.lemma_filter_contains(test, j);
    } else {
        lemma_filter_none(items, test);
        lemma_occurrences_push(items, test, LineView { product, count: 1 });
    }
}

/// `carts` after `n` adds of `product` to the cart of `user_id`.
pub open spec fn added_times(carts: Seq<CartView>, user_id: u128, product: ProductView, n: nat) -> Seq<
    CartView,
>
    decreases n,
{
    if n == 0 {
        carts
    } else {
        product_added(added_times(carts, user_id, product, (n - 1) as nat), user_id, product)
    }
}

/// No add is lost: `n` adds of a product that the cart did not hold leave one
/// line of it with the count `n`, and none of these adds finds the line full.
pub proof fn law_repeated_adds_count(
    carts: Seq<CartView>,
    user_id: u128,
    product: ProductView,
    n: nat,
)
    requires
        !has_line(cart_items(carts, user_id), product.uuid),
        1 <= n <= u32::MAX,
    ensures
        count_of(cart_items(added_times(carts, user_id, product, n), user_id), product.uuid) == n,
        occurrences(
            cart_items(added_times(carts, user_id, product, n), user_id),
            line_of(product.uuid),
        ) == 1,
        forall|k: nat|
            k < n ==> count_of(
                cart_items(#[trigger] added_times(carts, user_id, product, k), user_id),
                product.uuid,
            ) < u32::MAX,
    decreases n,
{
    let previous = added_times(carts, user_id, product, (n - 1) as nat);
    if n == 1 {
        assert(previous == carts);
        lemma_filter_none(cart_items(carts, user_id), line_of(product.uuid));
        assert forall|k: nat| k < n implies count_of(
            cart_items(#[trigger] added_times(carts, user_id, product, k), user_id),
            product.uuid,
        ) < u32::MAX by {
            assert(k == 0);
        }
    } else {
        law_repeated_adds_count(carts, user_id, product, (n - 1) as nat);
        assert forall|k: nat| k < n implies count_of(
            cart_items(#[trigger] added_times(carts, user_id, product, k), user_id),
            product.uuid,
        ) < u32::MAX by {
            if k == n - 1 {
                assert(added_times(carts, user_id, product, k) == previous);
            }
        }
    }
    law_add_raises_count(previous, user_id, product);
    law_added_product_is_in_cart_once(previous, user_id, product);
}

/// An add keeps what every cart keeps.
pub proof fn law_add_keeps_lines_wf(items: Seq<LineView>, product: ProductView)
    requires
        lines_wf(items),
        count_of(items, product.uuid) < u32::MAX,
    ensures
        lines_wf(line_added(items, product)),
{
    let after = line_added(items, product);
    let test = line_of(product.uuid);
    if has_line(items, product.uuid) {
        lemma_first_match_exists(items, test);
        let j = line_position(items, product.uuid);
        assert forall|a: int, b: int|
            0 <= a < after.len() && 0 <= b < after.len() && a != b implies line_key()(
            #[trigger] after[a],
        ) != line_key()(#[trigger] after[b]) by {
            assert(line_key()(after[a]) == line_key()(items[a]));
            assert(line_key()(after[b]) == line_key()(items[b]));
        }
    } else {
        assert forall|a: int, b: int|
            0 <= a < after.len() && 0 <= b < after.len() && a != b implies line_key()(
            #[trigger] after[a],
        ) != line_key()(#[trigger] after[b]) by {
            if a < items.len() && b < items.len() {
                assert(after[a] == items[a] && after[b] == items[b]);
            } else if a < items.len() {
                assert(!test(items[a]));
            } else {
                assert(!test(items[b]));
            }
        }
    }
}

/// A removal keeps what every cart keeps, and so does dropping lines.
pub proof fn law_remove_keeps_lines_wf(items: Seq<LineView>, product_id: u128, dropped: Seq<u128>)
    requires
        lines_wf(items),
    ensures
        has_line(items, product_id) ==> lines_wf(line_removed(items, product_id)),
        lines_wf(items.filter(not_among(dropped))),
{
    lemma_filter_keeps_lines_wf(items, not_among(dropped));
    if has_line(items, product_id) {
        lemma_first_match_exists(items, line_of(product_id));
        let j = line_position(items, product_id);
        let after = line_removed(items, product_id);
        if items[j].count > 1 {
            assert forall|a: int, b: int|
                0 <= a < after.len() && 0 <= b < after.len() && a != b implies line_key()(
                #[trigger] after[a],
            ) != line_key()(#[trigger] after[b]) by {
                assert(line_key()(after[a]) == line_key()(items[a]));
                assert(line_key()(after[b]) == line_key()(items[b]));
            }
        } else {
            lemma_filter_keeps_lines_wf(items, not_of_product(product_id));
        }
    }
}

proof fn lemma_filter_keeps_lines_wf(items: Seq<LineView>, p: spec_fn(LineView) -> bool)
    requires
        lines_wf(items),
    ensures
        lines_wf(items.filter(p)),
{
    lemma_filter_distinct(items, line_key(), p);
    let kept = items.filter(p);
    assert forall|k: int| 0 <= k < kept.len() implies (#[trigger] kept[k]).count >= 1 by {
        let i = lemma_filter_keeps(items, p, k);
    }
}

/// Taking out the last one of a product leaves no line of it: not a line that
/// counts 0.
pub proof fn law_last_one_takes_the_line(items: Seq<LineView>, product_id: u128)
    requires
        has_line(items, product_id),
        count_of(items, product_id) <= 1,
    ensures
        !has_line(line_removed(items, product_id), product_id),
{
    let kept = items.filter(not_of_product(product_id));
    if has_line(kept, product_id) {
        let k = choose|k: int| 0 <= k < kept.len() && line_of(product_id)(#[trigger] kept[k]);
        let i = lemma_filter_keeps(items, not_of_product(product_id), k);
    }
}

/// After the lines of a cart are replaced, reading the cart gives the new
/// lines.
pub proof fn law_cart_after_replacement(carts: Seq<CartView>, user_id: u128, items: Seq<LineView>)
    requires
        has_cart(carts, user_id),
    ensures
        cart_items(with_items(carts, user_id, items), user_id) == items,
{
    lemma_first_match_exists(carts, cart_of(user_id));
    let i = cart_position(carts, user_id);
    let after = with_items(carts, user_id, items);
    assert(cart_of(user_id)(after[i]));
    assert forall|j: int| 0 <= j < i implies !cart_of(user_id)(#[trigger] after[j]) by {
        assert(after[j] == carts[j]);
    }
    lemma_first_match_is(after, cart_of(user_id), i);
}

/// Add, then read: the product is among the favorites of the user exactly
/// once, and the favorites of the other users are as they were.
pub proof fn law_added_favorite_is_there_once(
    all: Seq<FavoritesView>,
    user_id: u128,
    product: ProductView,
)
    requires
        !has_match(favorite_items(all, user_id), with_uuid(product.uuid)),
    ensures
        favorite_items(favorite_added(all, user_id, product), user_id) == favorite_items(
            all,
            user_id,
        ).push(product),
        occurrences(
            favorite_items(favorite_added(all, user_id, product), user_id),
            with_uuid(product.uuid),
        ) == 1,
{
    let after = favorite_added(all, user_id, product);
    let test = favorites_of(user_id);
    let items = favorite_items(all, user_id);
    if has_favorites(all, user_id) {
        lemma_first_match_exists(all, test);
        let i = favorites_position(all, user_id);
        assert(test(after[i]));
        assert forall|j: int| 0 <= j < i implies !test(#[trigger] after[j]) by {
            assert(after[j] == all[j]);
        }
        lemma_first_match_is(after, test, i);
    } else {
        let n = all.len() as int;
        assert(test(after[n]));
        assert forall|j: int| 0 <= j < n implies !test(#[trigger] after[j]) by {
            assert(after[j] == all[j]);
        }
        lemma_first_match_is(after, test, n);
        assert(Seq::<ProductView>::empty().push(product) =~= seq![product]);
    }
    lemma_filter_none(items, with_uuid(product.uuid));
    lemma_occurrences_push(items, with_uuid(product.uuid), product);
}

/// What every list of favorites keeps: no two of its products have the same
/// id. An add keeps it, and so does a removal.
pub proof fn law_favorites_stay_distinct(items: Seq<ProductView>, product: ProductView)
    requires
        distinct_by(items, product_key()),
    ensures
        !has_match(items, with_uuid(product.uuid)) ==> distinct_by(
            items.push(product),
            product_key(),
        ),
        distinct_by(items.filter(other_than(product.uuid)), product_key()),
        !has_match(items.filter(other_than(product.uuid)), with_uuid(product.uuid)),
{
    lemma_filter_distinct(items, product_key(), other_than(product.uuid));
    let kept = items.filter(other_than(product.uuid));
    if has_match(kept, with_uuid(product.uuid)) {
        let k = choose|k: int| 0 <= k < kept.len() && with_uuid(product.uuid)(#[trigger] kept[k]);
        let i = lemma_filter_keeps(items, other_than(product.uuid), k);
    }
    if !has_match(items, with_uuid(product.uuid)) {
        let after = items.push(product);
        assert forall|a: int, b: int|
            0 <= a < after.len() && 0 <= b < after.len() && a != b implies product_key()(
            #[trigger] after[a],
        ) != product_key()(#[trigger] after[b]) by {
            if a < items.len() && b < items.len() {
                assert(after[a] == items[a] && after[b] == items[b]);
            } else if a < items.len() {
                assert(!with_uuid(product.uuid)(items[a]));
            } else {
                assert(!with_uuid(product.uuid)(items[b]));
            }
        }
    }
}

/// Add, then read: a user put behind users of other ids is found by its id,
/// and is the only user with that id.
pub proof fn law_added_user_is_found_once(users: Seq<UserView>, user: UserView)
    requires
        !has_match(users, with_id(user.id)),
    ensures
        first_or_none(users.push(user), with_id(user.id)) == Some(user),
        occurrences(users.push(user), with_id(user.id)) == 1,
{
    let after = users.push(user);
    let n = users.len() as int;
    assert(with_id(user.id)(after[n]));
    assert forall|j: int| 0 <= j < n implies !with_id(user.id)(#[trigger] after[j]) by {
        assert(after[j] == users[j]);
    }
    lemma_first_match_is(after, with_id(user.id), n);
    lemma_filter_none(users, with_id(user.id));
    lemma_occurrences_push(users, with_id(user.id), user);
}

/// The test that holds of the order with the id `order_id`.
pub open spec fn order_numbered(order_id: u128) -> spec_fn(OrderView) -> bool {
    |order: OrderView| order.order_id == order_id
}

/// Add, then read: an order put behind orders of other ids is the only order
/// with its id.
pub proof fn law_added_order_is_there_once(orders: Seq<OrderView>, order: OrderView)
    requires
        !has_match(orders, order_numbered(order.order_id)),
    ensures
        occurrences(orders.push(order), order_numbered(order.order_id)) == 1,
{
    lemma_filter_none(orders, order_numbered(order.order_id));
    lemma_occurrences_push(orders, order_numbered(order.order_id), order);
}

/// Add, then read: a new order is the last of the orders of its user, behind
/// those that the user had.
pub proof fn law_added_order_is_read_back(orders: Seq<OrderView>, order: OrderView)
    ensures
        orders.push(order).filter(order_of(order.user_id)) == orders.filter(
            order_of(order.user_id),
        ).push(order),
        forall|other: u128|
            other != order.user_id ==> orders.push(order).filter(#[trigger] order_of(other))
                == orders.filter(order_of(other)),
{
    orders.lemma_filter_push(order, order_of(order.user_id));
    assert forall|other: u128| other != order.user_id implies orders.push(order).filter(
        #[trigger] order_of(other),
    ) == orders.filter(order_of(other)) by {
        orders.lemma_filter_push(order, order_of(other));
    }
}

/// Outside its window a promo code gives nothing: before the window opens it
/// is refused as not yet available, after the window has closed as expired,
/// whatever the total.
pub proof fn law_promo_outside_window(
    promo_codes: Seq<PromoCodeView>,
    code: Seq<char>,
    total_price: int,
    now: Timestamp,
)
    requires
        promo_lookup(promo_codes, code) is Ok,
        instant_of(promo_lookup(promo_codes, code)->Ok_0.available_at) is Some,
        instant_of(promo_lookup(promo_codes, code)->Ok_0.expired_at) is Some,
    ensures
        ({
            let promo = promo_lookup(promo_codes, code)->Ok_0;
            let available_at = instant_of(promo.available_at)->0;
            let expired_at = instant_of(promo.expired_at)->0;
            &&& now.is_before(available_at) ==> promo_applied(promo_codes, code, total_price, now)
                == Err::<(int, int), ErrorKind>(ErrorKind::PromoCodeNotYetAvailable)
            &&& !now.is_before(available_at) && expired_at.is_before(now) ==> promo_applied(
                promo_codes,
                code,
                total_price,
                now,
            ) == Err::<(int, int), ErrorKind>(ErrorKind::PromoCodeExpired)
            &&& !now.is_before(available_at) && !expired_at.is_before(now) ==> promo_applied(
                promo_codes,
                code,
                total_price,
                now,
            ) is Ok
        }),
{
}

/// A checkout that is refused, for whatever reason, records no order and
/// leaves every cart as it was.
pub proof fn law_refused_checkout_changes_nothing(
    users: Seq<UserView>,
    orders_before: Seq<OrderView>,
    orders_after: Seq<OrderView>,
    carts_before: Seq<CartView>,
    carts_after: Seq<CartView>,
    c: Checkout,
    r: Result<(), ErrorKind>,
)
    requires
        checkout_post(users, orders_before, orders_after, carts_before, carts_after, c, r),
    ensures
        r is Err <==> order_for(users, carts_before, c) is Err,
        r is Err ==> orders_after == orders_before && carts_after == carts_before,
{
}

/// A promo code that is outside its window stops the checkout: no order is
/// made of a selection that a promo code refuses.
pub proof fn law_refused_promo_stops_checkout(
    users: Seq<UserView>,
    carts: Seq<CartView>,
    c: Checkout,
)
    requires
        c.promo_code is Some,
        c.promo_codes is Some,
        priced(cart_items(carts, c.user_id).filter(among(c.selection))) matches Ok(amounts)
            && promo_applied(c.promo_codes->0, c.promo_code->0, amounts.0, c.now) is Err,
    ensures
        order_for(users, carts, c) is Err,
{
}

/// What is to be paid is never negative, however large the discounts.
pub proof fn law_total_is_not_negative(users: Seq<UserView>, carts: Seq<CartView>, c: Checkout)
    ensures
        order_for(users, carts, c) matches Ok(order) ==> order.total_price >= 0,
        forall|lines: Seq<LineView>|
            (#[trigger] totals(lines, c.promo_code, c.promo_codes, c.now)) matches Ok(amounts)
                ==> amounts.0 >= 0,
{
}

/// A selection that shares no product with the cart makes no order: for a
/// user with a primary card it is refused as not found in the cart.
pub proof fn law_disjoint_selection_is_refused(
    users: Seq<UserView>,
    carts: Seq<CartView>,
    c: Checkout,
)
    requires
        first_or_none(users, with_id(c.user_id)) matches Some(user) && payment_card(user) is Ok,
        forall|j: int|
            0 <= j < cart_items(carts, c.user_id).len() ==> !c.selection.contains(
                (#[trigger] cart_items(carts, c.user_id)[j]).product.uuid,
            ),
    ensures
        order_for(users, carts, c) == Err::<OrderView, ErrorKind>(
            ErrorKind::SelectedProductsNotFound,
        ),
{
    let items = cart_items(carts, c.user_id);
    assert(!has_match(items, among(c.selection))) by {
        if has_match(items, among(c.selection)) {
            let j = choose|j: int| 0 <= j < items.len() && among(c.selection)(#[trigger] items[j]);
            assert(!c.selection.contains(items[j].product.uuid));
        }
    }
    lemma_filter_none(items, among(c.selection));
}

/// After a checkout the cart holds none of the products that were selected.
pub proof fn law_bought_lines_leave_the_cart(
    users: Seq<UserView>,
    orders_before: Seq<OrderView>,
    orders_after: Seq<OrderView>,
    carts_before: Seq<CartView>,
    carts_after: Seq<CartView>,
    c: Checkout,
    product_id: u128,
)
    requires
        checkout_post(
            users,
            orders_before,
            orders_after,
            carts_before,
            carts_after,
            c,
            Ok::<(), ErrorKind>(()),
        ),
        c.selection.contains(product_id),
    ensures
        !has_line(cart_items(carts_after, c.user_id), product_id),
{
    let items = cart_items(carts_before, c.user_id);
    if !has_cart(carts_before, c.user_id) {
        lemma_filter_empty(among(c.selection));
    }
    law_cart_after_replacement(carts_before, c.user_id, items.filter(not_among(c.selection)));
    let kept = items.filter(not_among(c.selection));
    if has_line(kept, product_id) {
        let k = choose|k: int| 0 <= k < kept.len() && line_of(product_id)(#[trigger] kept[k]);
        let i = lemma_filter_keeps(items, not_among(c.selection), k);
    }
}

/// A new primary card is the only primary card: whatever the cards were,
/// exactly one is primary afterwards, and it is the new one.
pub proof fn law_new_primary_card_is_the_only_one(
    cards: Seq<CreditCardView>,
    data: CreditCardInputView,
    card_id: u128,
)
    requires
        data.is_primary,
    ensures
        occurrences(cards_with(cards, data, card_id), primary()) == 1,
        first_or_none(cards_with(cards, data, card_id), primary()) == Some(card_of(data, card_id)),
{
    let cleared = without_primary(cards);
    let card = card_of(data, card_id);
    let after = cards_with(cards, data, card_id);
    assert(!has_match(cleared, primary())) by {
        if has_match(cleared, primary()) {
            let i = choose|i: int| 0 <= i < cleared.len() && primary()(#[trigger] cleared[i]);
            assert(!cleared[i].is_primary);
        }
    }
    lemma_filter_none(cleared, primary());
    lemma_occurrences_push(cleared, primary(), card);
    let n = cleared.len() as int;
    assert(primary()(after[n]));
    assert forall|j: int| 0 <= j < n implies !primary()(#[trigger] after[j]) by {
        assert(after[j] == cleared[j]);
    }
    lemma_first_match_is(after, primary(), n);
}

/// Adding a card keeps at most one card primary.
pub proof fn law_at_most_one_primary_is_kept(
    cards: Seq<CreditCardView>,
    data: CreditCardInputView,
    card_id: u128,
)
    requires
        at_most_one_primary(cards),
    ensures
        at_most_one_primary(cards_with(cards, data, card_id)),
{
    if data.is_primary {
        law_new_primary_card_is_the_only_one(cards, data, card_id);
    } else {
        lemma_occurrences_push(cards, primary(), card_of(data, card_id));
    }
}

/// An add keeps what the carts keep.
pub proof fn law_add_keeps_carts_wf(carts: Seq<CartView>, user_id: u128, product: ProductView)
    requires
        carts_wf(carts),
        !line_is_full(carts, user_id, product.uuid),
    ensures
        carts_wf(product_added(carts, user_id, product)),
{
    let after = product_added(carts, user_id, product);
    if has_cart(carts, user_id) {
        lemma_first_match_exists(carts, cart_of(user_id));
        let i = cart_position(carts, user_id);
        law_add_keeps_lines_wf(carts[i].items, product);
        lemma_distinct_update(carts, cart_key(), i, after[i]);
        assert forall|k: int| 0 <= k < after.len() implies lines_wf((#[trigger] after[k]).items) by {
            if k != i {
                assert(after[k] == carts[k]);
            }
        }
    } else {
        let line = LineView { product, count: 1 };
        assert(lines_wf(seq![line]));
        assert forall|k: int| 0 <= k < after.len() implies lines_wf((#[trigger] after[k]).items) by {
            if k < carts.len() {
                assert(after[k] == carts[k]);
            }
        }
        assert forall|a: int, b: int|
            0 <= a < after.len() && 0 <= b < after.len() && a != b implies cart_key()(
            #[trigger] after[a],
        ) != cart_key()(#[trigger] after[b]) by {
            if a < carts.len() && b < carts.len() {
                assert(after[a] == carts[a] && after[b] == carts[b]);
            } else if a < carts.len() {
                assert(!cart_of(user_id)(carts[a]));
            } else {
                assert(!cart_of(user_id)(carts[b]));
            }
        }
    }
}

/// Replacing the lines of a cart by lines that are as they should be keeps
/// what the carts keep. So a removal keeps it, and so does a checkout.
pub proof fn law_replacement_keeps_carts_wf(
    carts: Seq<CartView>,
    user_id: u128,
    items: Seq<LineView>,
)
    requires
        carts_wf(carts),
        has_cart(carts, user_id),
        lines_wf(items),
    ensures
        carts_wf(with_items(carts, user_id, items)),
{
    lemma_first_match_exists(carts, cart_of(user_id));
    let i = cart_position(carts, user_id);
    let after = with_items(carts, user_id, items);
    lemma_distinct_update(carts, cart_key(), i, after[i]);
    assert forall|k: int| 0 <= k < after.len() implies lines_wf((#[trigger] after[k]).items) by {
        if k != i {
            assert(after[k] == carts[k]);
        }
    }
}

/// The lines of every cart are as they should be, where the carts are.
pub proof fn law_cart_lines_wf(carts: Seq<CartView>, user_id: u128)
    requires
        carts_wf(carts),
    ensures
        lines_wf(cart_items(carts, user_id)),
{
    if has_cart(carts, user_id) {
        lemma_first_match_exists(carts, cart_of(user_id));
    }
}

/// A new favorite keeps what the favorites keep.
pub proof fn law_add_keeps_favorites_wf(
    all: Seq<FavoritesView>,
    user_id: u128,
    product: ProductView,
)
    requires
        favorites_wf(all),
        !has_match(favorite_items(all, user_id), with_uuid(product.uuid)),
    ensures
        favorites_wf(favorite_added(all, user_id, product)),
{
    let after = favorite_added(all, user_id, product);
    if has_favorites(all, user_id) {
        lemma_first_match_exists(all, favorites_of(user_id));
        let i = favorites_position(all, user_id);
        law_favorites_stay_distinct(all[i].items, product);
        lemma_distinct_update(all, list_key(), i, after[i]);
        assert forall|k: int| 0 <= k < after.len() implies distinct_by(
            (#[trigger] after[k]).items,
            product_key(),
        ) by {
            if k != i {
                assert(after[k] == all[k]);
            }
        }
    } else {
        assert(distinct_by(seq![product], product_key()));
        assert forall|k: int| 0 <= k < after.len() implies distinct_by(
            (#[trigger] after[k]).items,
            product_key(),
        ) by {
            if k < all.len() {
                assert(after[k] == all[k]);
            }
        }
        assert forall|a: int, b: int|
            0 <= a < after.len() && 0 <= b < after.len() && a != b implies list_key()(
            #[trigger] after[a],
        ) != list_key()(#[trigger] after[b]) by {
            if a < all.len() && b < all.len() {
                assert(after[a] == all[a] && after[b] == all[b]);
            } else if a < all.len() {
                assert(!favorites_of(user_id)(all[a]));
            } else {
                assert(!favorites_of(user_id)(all[b]));
            }
        }
    }
}

/// Taking a favorite out keeps what the favorites keep.
pub proof fn law_remove_keeps_favorites_wf(all: Seq<FavoritesView>, user_id: u128, product_id: u128)
    requires
        favorites_wf(all),
        has_favorites(all, user_id),
    ensures
        favorites_wf(
            with_favorites(
                all,
                user_id,
                favorite_items(all, user_id).filter(other_than(product_id)),
            ),
        ),
{
    lemma_first_match_exists(all, favorites_of(user_id));
    let i = favorites_position(all, user_id);
    let kept = all[i].items.filter(other_than(product_id));
    let after = with_favorites(all, user_id, kept);
    lemma_filter_distinct(all[i].items, product_key(), other_than(product_id));
    lemma_distinct_update(all, list_key(), i, after[i]);
    assert forall|k: int| 0 <= k < after.len() implies distinct_by(
        (#[trigger] after[k]).items,
        product_key(),
    ) by {
        if k != i {
            assert(after[k] == all[k]);
        }
    }
}

/// Deleting cards keeps at most one card primary.
pub proof fn law_delete_keeps_at_most_one_primary(
    cards: Seq<CreditCardView>,
    keep: spec_fn(CreditCardView) -> bool,
)
    requires
        at_most_one_primary(cards),
    ensures
        at_most_one_primary(cards.filter(keep)),
{
    lemma_occurrences_filter(cards, keep, primary());
}

/// Replacing a user by one that is as a user should be keeps what the users
/// keep, and so does a new user that is.
pub proof fn law_users_stay_wf(users: Seq<UserView>, i: int, user: UserView)
    requires
        users_wf(users),
        user_wf(user),
    ensures
        0 <= i < users.len() ==> users_wf(users.update(i, user)),
        users_wf(users.push(user)),
{
    if 0 <= i < users.len() {
        let after = users.update(i, user);
        assert forall|k: int| 0 <= k < after.len() implies user_wf(#[trigger] after[k]) by {
            if k != i {
                assert(after[k] == users[k]);
            }
        }
    }
    let more = users.push(user);
    assert forall|k: int| 0 <= k < more.len() implies user_wf(#[trigger] more[k]) by {
        if k < users.len() {
            assert(more[k] == users[k]);
        }
    }
}

} // verus!

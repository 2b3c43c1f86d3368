use shop_backend::clock::Timestamp;
use shop_backend::controllers::users_controller::{add_credit_card_with, CreditCardInput};
use shop_backend::models::product::Product;
use shop_backend::models::user::{cards_are_well_formed, CreditCard, User};
use shop_backend::stores::cart_store::{lines_are_well_formed, Cart, CartStore, ProductWithCount};
use shop_backend::stores::favorites_store::{products_are_distinct, Favorites, FavoritesStore};
use shop_backend::stores::orders_store::{Order, OrderStatus, OrdersStore};
use shop_backend::stores::user_store::UserStore;
use shop_backend::views::all_distinct;

fn product(uuid: u128) -> Product {
    Product {
        uuid,
        pathurl: String::new(),
        article: String::new(),
        price: String::from("1"),
        rating: 0,
        reviews: 0,
        currency: String::new(),
        discount: None,
        is_new: false,
        image: String::new(),
        name: String::new(),
        brand: String::new(),
        tags: Vec::new(),
        description: None,
    }
}

fn line(uuid: u128, count: u32) -> ProductWithCount {
    ProductWithCount { product: product(uuid), count }
}

fn card(id: u128, is_primary: bool) -> CreditCard {
    CreditCard {
        id,
        cardholder_name: String::new(),
        card_number: format!("{}", id),
        expiration_date: String::new(),
        is_primary,
    }
}

fn user(id: u128, cards: Option<Vec<CreditCard>>) -> User {
    User {
        id,
        username: format!("u{}", id),
        login: format!("l{}", id),
        email: format!("e{}", id),
        password_hash: String::new(),
        phone_number: None,
        date_of_birth: None,
        avatar_url: None,
        registration_date: Timestamp { secs: 0, nanos: 0 },
        last_login_date: None,
        country: None,
        region: None,
        city: None,
        address: None,
        zip_code: None,
        credit_cards: cards,
    }
}

fn order(total_price: i128) -> Order {
    Order {
        order_id: 1,
        user_id: 1,
        items: Vec::new(),
        total_price,
        created_at: String::new(),
        discount: None,
        promo_code: None,
        delivery_address: String::new(),
        payment_card_number: String::new(),
        order_status: OrderStatus::Received,
    }
}

#[test]
fn distinct_keys_are_told() {
    assert!(all_distinct(&Vec::new()));
    assert!(all_distinct(&vec![5]));
    assert!(all_distinct(&vec![1, 2, 3, 0]));
    assert!(!all_distinct(&vec![1, 2, 1]));
    assert!(!all_distinct(&vec![3, 4, 4]));
    assert!(!all_distinct(&vec![7, 7]));
}

#[test]
fn carts_are_checked() {
    assert!(lines_are_well_formed(&Vec::new()));
    assert!(lines_are_well_formed(&vec![line(1, 1), line(2, 9)]));
    assert!(!lines_are_well_formed(&vec![line(1, 1), line(2, 0)]));
    assert!(!lines_are_well_formed(&vec![line(1, 1), line(2, 1), line(1, 3)]));
    assert!(CartStore::new(Vec::new()).is_well_formed());
    let good = CartStore::new(vec![
        Cart { user_id: 1, items: vec![line(1, 1)] },
        Cart { user_id: 2, items: vec![line(1, 2), line(3, 1)] },
    ]);
    assert!(good.is_well_formed());
    let twice = CartStore::new(vec![
        Cart { user_id: 1, items: vec![line(1, 1)] },
        Cart { user_id: 1, items: Vec::new() },
    ]);
    assert!(!twice.is_well_formed());
    let empty_line = CartStore::new(vec![Cart { user_id: 1, items: vec![line(1, 0)] }]);
    assert!(!empty_line.is_well_formed());
}

#[test]
fn carts_stay_as_they_should_be() {
    let catalog = Some(vec![product(1), product(2), product(3)]);
    let mut store = CartStore::new(Vec::new());
    for (user, id) in [(1u128, 1u128), (1, 2), (2, 1), (1, 1), (3, 3), (1, 3)] {
        store.add_product_to_cart(user, id, &catalog).unwrap();
        assert!(store.is_well_formed());
    }
    store.remove_product_from_cart(1, 1).unwrap();
    assert!(store.is_well_formed());
    store.remove_product_from_cart(1, 1).unwrap();
    assert!(store.is_well_formed());
    store.remove_products_from_cart(1, &vec![2, 3]).unwrap();
    assert!(store.is_well_formed());
    assert_eq!(store.get_cart(1).len(), 0);
}

#[test]
fn favorites_are_checked() {
    assert!(products_are_distinct(&vec![product(1), product(2)]));
    assert!(!products_are_distinct(&vec![product(1), product(1)]));
    let catalog = Some(vec![product(1), product(2)]);
    let mut store = FavoritesStore::new(Vec::new());
    assert!(store.is_well_formed());
    store.add_product_to_favorites(1, 1, &catalog).unwrap();
    store.add_product_to_favorites(1, 2, &catalog).unwrap();
    store.add_product_to_favorites(2, 2, &catalog).unwrap();
    assert!(store.is_well_formed());
    store.remove_product_from_favorites(1, 1).unwrap();
    assert!(store.is_well_formed());
    let twice = FavoritesStore::new(vec![Favorites { user_id: 1, items: vec![product(1), product(1)] }]);
    assert!(!twice.is_well_formed());
    let two_lists = FavoritesStore::new(vec![
        Favorites { user_id: 1, items: Vec::new() },
        Favorites { user_id: 1, items: Vec::new() },
    ]);
    assert!(!two_lists.is_well_formed());
}

#[test]
fn orders_are_checked() {
    assert!(OrdersStore::new(Vec::new()).is_well_formed());
    assert!(OrdersStore::new(vec![order(0), order(5)]).is_well_formed());
    assert!(!OrdersStore::new(vec![order(0), order(-1)]).is_well_formed());
}

#[test]
fn cards_are_checked() {
    assert!(cards_are_well_formed(&Vec::new()));
    assert!(cards_are_well_formed(&vec![card(1, false), card(2, true), card(3, false)]));
    assert!(!cards_are_well_formed(&vec![card(1, true), card(2, false), card(3, true)]));
    assert!(user(1, None).is_well_formed());
    assert!(!user(1, Some(vec![card(1, true), card(2, true)])).is_well_formed());
    let mut store = UserStore::new(vec![user(1, None), user(2, Some(vec![card(1, true)]))]);
    assert!(store.is_well_formed());
    let input = CreditCardInput {
        cardholder_name: String::new(),
        card_number: String::from("9"),
        expiration_date: String::new(),
        is_primary: true,
    };
    add_credit_card_with(Some(2), &mut store, &input, 2).unwrap();
    assert!(store.is_well_formed());
    store.add_user(user(3, Some(vec![card(1, true), card(2, true)])));
    assert!(!store.is_well_formed());
    // a new primary card mends the list
    let input = CreditCardInput { card_number: String::from("10"), ..input };
    add_credit_card_with(Some(3), &mut store, &input, 3).unwrap();
    assert!(store.is_well_formed());
}

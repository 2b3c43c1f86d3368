use shop_backend::config::Config;
use shop_backend::controllers::favorites_controller::{
    add_product_to_favorites, get_favorites, remove_product_from_favorites,
};
use shop_backend::controllers::orders_controller::{
    create_order, delete_order, get_orders, OrderRequest,
};
use shop_backend::error::ErrorKind;
use shop_backend::ident::new_id;
use shop_backend::models::product::Product;
use shop_backend::stores::cart_store::CartStore;
use shop_backend::stores::favorites_store::{Favorites, FavoritesStore};
use shop_backend::stores::orders_store::{Order, OrderStatus, OrdersStore};
use shop_backend::stores::promo_codes_store::PromoCodesStore;
use shop_backend::stores::user_store::UserStore;

fn product(uuid: u128) -> Product {
    Product {
        uuid,
        pathurl: String::new(),
        article: String::new(),
        price: String::from("10.00"),
        rating: 3.0f64.to_bits(),
        reviews: 1.0f64.to_bits(),
        currency: String::from("EUR"),
        discount: Some(500),
        is_new: false,
        image: String::new(),
        name: format!("p{}", uuid),
        brand: String::new(),
        tags: vec![String::from("x")],
        description: None,
    }
}

fn catalog() -> Option<Vec<Product>> {
    Some(vec![product(1), product(2), product(3)])
}

fn order(order_id: u128, user_id: u128) -> Order {
    Order {
        order_id,
        user_id,
        items: vec![product(1)],
        total_price: 950,
        created_at: String::from("2024-06-01T00:00:00+00:00"),
        discount: Some(50),
        promo_code: None,
        delivery_address: String::from("somewhere"),
        payment_card_number: String::from("4000"),
        order_status: OrderStatus::InTransit,
    }
}

#[test]
fn a_favorite_is_added_once() {
    let mut store = FavoritesStore::new(Vec::new());
    assert_eq!(store.add_product_to_favorites(7, 2, &catalog()), Ok(()));
    assert_eq!(store.add_product_to_favorites(7, 1, &catalog()), Ok(()));
    let items = store.get_favorites(7);
    assert_eq!(items.len(), 2);
    assert_eq!(items[0].uuid, 2);
    assert_eq!(items[0].rating, 3.0f64.to_bits());
    assert_eq!(items[1].uuid, 1);
    assert_eq!(
        store.add_product_to_favorites(7, 2, &catalog()),
        Err(ErrorKind::ProductAlreadyInFavorites)
    );
    assert_eq!(store.get_favorites(7).len(), 2);
    assert_eq!(store.add_product_to_favorites(7, 9, &catalog()), Err(ErrorKind::ProductNotFound));
    assert_eq!(store.add_product_to_favorites(8, 2, &catalog()), Ok(()));
    assert_eq!(store.get_favorites(8).len(), 1);
    assert_eq!(store.get_favorites(9).len(), 0);
    assert_eq!(FavoritesStore::load_product_by_id(&catalog(), 3).unwrap().uuid, 3);
    assert_eq!(
        FavoritesStore::load_product_by_id(&None, 3).err(),
        Some(ErrorKind::ProductNotFound)
    );
    assert_eq!(store.add_product_to_favorites(9, 3, &None), Err(ErrorKind::ProductNotFound));
    assert_eq!(store.add_product_to_favorites(7, 2, &None), Err(ErrorKind::ProductNotFound));
    assert_eq!(store.get_favorites(9).len(), 0);
    assert_eq!(store.get_favorites(7).len(), 2);
}

#[test]
fn a_favorite_is_removed() {
    let mut store = FavoritesStore::new(vec![Favorites {
        user_id: 7,
        items: vec![product(1), product(2), product(1)],
    }]);
    assert_eq!(store.remove_product_from_favorites(7, 1), Ok(()));
    let items = store.get_favorites(7);
    assert_eq!(items.len(), 1);
    assert_eq!(items[0].uuid, 2);
    assert_eq!(
        store.remove_product_from_favorites(7, 1),
        Err(ErrorKind::ProductNotFoundInFavorites)
    );
    assert_eq!(store.remove_product_from_favorites(8, 2), Err(ErrorKind::UserFavoritesNotFound));
    assert_eq!(store.get_favorites(7).len(), 1);
    assert_eq!(store.remove_product_from_favorites(7, 2), Ok(()));
    assert_eq!(store.get_favorites(7).len(), 0);
    assert_eq!(store.favorites.len(), 1);
}

#[test]
fn favorites_need_a_user() {
    let mut store = FavoritesStore::new(Vec::new());
    assert_eq!(
        add_product_to_favorites(None, 1, &mut store, &catalog()),
        Err(ErrorKind::Unauthorized)
    );
    assert_eq!(remove_product_from_favorites(None, 1, &mut store), Err(ErrorKind::Unauthorized));
    assert_eq!(get_favorites(None, &store).err(), Some(ErrorKind::Unauthorized));
    assert_eq!(add_product_to_favorites(Some(7), 1, &mut store, &catalog()), Ok(()));
    assert_eq!(get_favorites(Some(7), &store).unwrap().len(), 1);
    assert_eq!(remove_product_from_favorites(Some(7), 1, &mut store), Ok(()));
}

#[test]
fn orders_are_read_by_user() {
    let store = OrdersStore::new(vec![order(1, 7), order(2, 8), order(3, 7)]);
    let mine = store.get_orders(7);
    assert_eq!(mine.len(), 2);
    assert_eq!(mine[0].order_id, 1);
    assert_eq!(mine[1].order_id, 3);
    assert_eq!(mine[1].items[0].uuid, 1);
    assert_eq!(mine[1].total_price, 950);
    assert_eq!(mine[1].order_status, OrderStatus::InTransit);
    assert_eq!(store.get_orders(9).len(), 0);
    assert_eq!(get_orders(Some(8), &store).unwrap().len(), 1);
    assert_eq!(get_orders(None, &store).err(), Some(ErrorKind::Unauthorized));
}

#[test]
fn an_order_is_deleted_by_its_owner_only() {
    let mut store = OrdersStore::new(vec![order(1, 7), order(2, 8), order(1, 8), order(1, 7)]);
    assert_eq!(store.remove_order(8, 1), Ok(()));
    assert_eq!(store.orders.len(), 3);
    assert_eq!(store.orders[1].order_id, 2);
    assert_eq!(store.remove_order(8, 1), Err(ErrorKind::OrderNotFound));
    assert_eq!(store.remove_order(9, 2), Err(ErrorKind::OrderNotFound));
    assert_eq!(store.orders.len(), 3);
    // of two orders with one id, the first goes
    assert_eq!(store.remove_order(7, 1), Ok(()));
    assert_eq!(store.orders.len(), 2);
    assert_eq!(store.orders[0].order_id, 2);
    assert_eq!(store.orders[1].order_id, 1);
    assert_eq!(delete_order(None, 1, &mut store), Err(ErrorKind::Unauthorized));
    assert_eq!(delete_order(Some(7), 1, &mut store), Ok(()));
    assert_eq!(store.orders.len(), 1);
}

#[test]
fn an_order_needs_a_user() {
    let users = UserStore::new(Vec::new());
    let mut carts = CartStore::new(Vec::new());
    let mut orders = OrdersStore::new(Vec::new());
    let promos = PromoCodesStore::new(String::new());
    let request = OrderRequest { product_ids: vec![1], promo_code: None };
    assert_eq!(
        create_order(None, request, &users, &mut carts, &mut orders, &promos, &None),
        Err(ErrorKind::Unauthorized)
    );
    let request = OrderRequest { product_ids: vec![1], promo_code: None };
    assert_eq!(
        create_order(Some(7), request, &users, &mut carts, &mut orders, &promos, &None),
        Err(ErrorKind::UserNotFound)
    );
    assert_eq!(orders.orders.len(), 0);
}

#[test]
fn new_ids_are_random_uuids() {
    let a = new_id();
    let b = new_id();
    assert_ne!(a, b);
    for id in [a, b] {
        assert_eq!((id >> 76) & 0xF, 4);
        assert_eq!((id >> 62) & 0x3, 2);
    }
}

#[test]
fn settings_fall_back_to_their_defaults() {
    let c = Config::from_env(None, None, None, None, None, None, None);
    assert_eq!(c.server_address, "127.0.0.1:8080");
    assert_eq!(c.products_file_path, "data/db/products.json");
    assert_eq!(c.users_file_path, "data/db/users.json");
    assert_eq!(c.carts_file_path, "data/db/carts.json");
    assert_eq!(c.favorites_file_path, "data/db/favorites.json");
    assert_eq!(c.orders_file_path, "data/db/orders.json");
    assert_eq!(c.promocodes_file_path, "data/db/promocodes.json");
    let c = Config::from_env(
        Some(String::from("0.0.0.0:80")),
        None,
        Some(String::from("/var/users.json")),
        None,
        None,
        None,
        Some(String::new()),
    );
    assert_eq!(c.server_address, "0.0.0.0:80");
    assert_eq!(c.users_file_path, "/var/users.json");
    assert_eq!(c.carts_file_path, "data/db/carts.json");
    assert_eq!(c.promocodes_file_path, "");
}

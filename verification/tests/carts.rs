use shop_backend::controllers::carts_controller::{
    add_product_to_cart, get_cart, remove_product_from_cart,
};
use shop_backend::error::ErrorKind;
use shop_backend::models::product::{find_product, Product};
use shop_backend::stores::cart_store::{Cart, CartStore, ProductWithCount};

const U1: u128 = 1;
const U2: u128 = 2;

fn product(uuid: u128, price: &str) -> Product {
    Product {
        uuid,
        pathurl: String::new(),
        article: String::new(),
        price: String::from(price),
        rating: 0,
        reviews: 0,
        currency: String::from("USD"),
        discount: None,
        is_new: true,
        image: String::new(),
        name: format!("p{}", uuid),
        brand: String::new(),
        tags: Vec::new(),
        description: Some(String::from("d")),
    }
}

fn products() -> Vec<Product> {
    vec![product(10, "1.00"), product(20, "2.00"), product(10, "9.99"), product(30, "3.00")]
}

fn catalog() -> Option<Vec<Product>> {
    Some(products())
}

#[test]
fn add_then_read_contains_the_product_once() {
    let mut store = CartStore::new(Vec::new());
    assert_eq!(store.add_product_to_cart(U1, 20, &catalog()), Ok(()));
    let cart = store.get_cart(U1);
    assert_eq!(cart.len(), 1);
    assert_eq!(cart[0].product.uuid, 20);
    assert_eq!(cart[0].product.price, "2.00");
    assert_eq!(cart[0].count, 1);
    assert_eq!(store.carts.len(), 1);
    assert_eq!(store.carts[0].user_id, U1);
}

#[test]
fn repeated_adds_accumulate() {
    let mut store = CartStore::new(Vec::new());
    for _ in 0..25 {
        assert_eq!(store.add_product_to_cart(U1, 10, &catalog()), Ok(()));
    }
    assert_eq!(store.add_product_to_cart(U1, 30, &catalog()), Ok(()));
    let cart = store.get_cart(U1);
    assert_eq!(cart.len(), 2);
    assert_eq!(cart[0].product.uuid, 10);
    assert_eq!(cart[0].count, 25);
    assert_eq!(cart[1].count, 1);
}

#[test]
fn the_first_catalog_entry_of_an_id_is_taken() {
    let found = find_product(&products(), 10).unwrap();
    assert_eq!(found.price, "1.00");
    assert_eq!(find_product(&products(), 11).err(), Some(ErrorKind::ProductNotFound));
    assert_eq!(find_product(&Vec::new(), 10).err(), Some(ErrorKind::ProductNotFound));
    assert_eq!(CartStore::load_product_by_id(&catalog(), 30).unwrap().name, "p30");
}

#[test]
fn the_snapshot_is_not_refreshed() {
    let mut store = CartStore::new(Vec::new());
    store.add_product_to_cart(U1, 20, &catalog()).unwrap();
    let dearer = Some(vec![product(20, "200.00")]);
    store.add_product_to_cart(U1, 20, &dearer).unwrap();
    let cart = store.get_cart(U1);
    assert_eq!(cart[0].count, 2);
    assert_eq!(cart[0].product.price, "2.00");
}

#[test]
fn unknown_product_is_refused() {
    let mut store = CartStore::new(Vec::new());
    assert_eq!(store.add_product_to_cart(U1, 99, &catalog()), Err(ErrorKind::ProductNotFound));
    assert_eq!(store.carts.len(), 0);
}

#[test]
fn an_unreadable_catalog_has_no_product() {
    let mut store = CartStore::new(Vec::new());
    assert_eq!(CartStore::load_product_by_id(&None, 10).err(), Some(ErrorKind::ProductNotFound));
    assert_eq!(store.add_product_to_cart(U1, 10, &None), Err(ErrorKind::ProductNotFound));
    assert_eq!(store.carts.len(), 0);
    store.add_product_to_cart(U1, 10, &catalog()).unwrap();
    assert_eq!(store.add_product_to_cart(U1, 10, &None), Err(ErrorKind::ProductNotFound));
    assert_eq!(store.get_cart(U1)[0].count, 1);
    assert_eq!(add_product_to_cart(Some(U1), 10, &mut store, &None), Err(ErrorKind::ProductNotFound));
    assert_eq!(add_product_to_cart(None, 10, &mut store, &None), Err(ErrorKind::Unauthorized));
}

#[test]
fn a_full_line_takes_no_more() {
    let mut store = CartStore::new(vec![Cart {
        user_id: U1,
        items: vec![ProductWithCount { product: product(10, "1.00"), count: u32::MAX }],
    }]);
    assert_eq!(store.add_product_to_cart(U1, 10, &catalog()), Err(ErrorKind::CartCountLimit));
    assert_eq!(store.get_cart(U1)[0].count, u32::MAX);
}

#[test]
fn carts_are_kept_apart() {
    let mut store = CartStore::new(Vec::new());
    store.add_product_to_cart(U1, 10, &catalog()).unwrap();
    store.add_product_to_cart(U2, 20, &catalog()).unwrap();
    store.add_product_to_cart(U2, 20, &catalog()).unwrap();
    assert_eq!(store.get_cart(U1).len(), 1);
    assert_eq!(store.get_cart(U1)[0].product.uuid, 10);
    assert_eq!(store.get_cart(U2)[0].count, 2);
    assert_eq!(store.get_cart(3).len(), 0);
}

#[test]
fn removing_the_only_item_leaves_an_empty_cart() {
    let mut store = CartStore::new(Vec::new());
    store.add_product_to_cart(U1, 10, &catalog()).unwrap();
    assert_eq!(store.remove_product_from_cart(U1, 10), Ok(()));
    assert_eq!(store.get_cart(U1).len(), 0);
    // the cart itself stays, empty
    assert_eq!(store.carts.len(), 1);
    assert_eq!(store.carts[0].items.len(), 0);
    // and the next add starts at one again
    store.add_product_to_cart(U1, 10, &catalog()).unwrap();
    assert_eq!(store.get_cart(U1)[0].count, 1);
}

#[test]
fn removing_one_of_several_lowers_the_count() {
    let mut store = CartStore::new(Vec::new());
    for _ in 0..3 {
        store.add_product_to_cart(U1, 10, &catalog()).unwrap();
    }
    store.add_product_to_cart(U1, 20, &catalog()).unwrap();
    assert_eq!(store.remove_product_from_cart(U1, 10), Ok(()));
    let cart = store.get_cart(U1);
    assert_eq!(cart.len(), 2);
    assert_eq!(cart[0].count, 2);
    assert_eq!(cart[1].count, 1);
}

#[test]
fn removing_what_is_absent_changes_nothing() {
    let mut store = CartStore::new(Vec::new());
    assert_eq!(store.remove_product_from_cart(U1, 10), Err(ErrorKind::UserCartNotFound));
    store.add_product_to_cart(U1, 10, &catalog()).unwrap();
    assert_eq!(store.remove_product_from_cart(U1, 20), Err(ErrorKind::ProductNotInCart));
    assert_eq!(store.remove_product_from_cart(U2, 10), Err(ErrorKind::UserCartNotFound));
    let cart = store.get_cart(U1);
    assert_eq!(cart.len(), 1);
    assert_eq!(cart[0].count, 1);
}

#[test]
fn bulk_removal_drops_whole_lines() {
    let mut store = CartStore::new(Vec::new());
    for id in [10u128, 10, 20, 30] {
        store.add_product_to_cart(U1, id, &catalog()).unwrap();
    }
    assert_eq!(store.remove_products_from_cart(U1, &vec![10, 30, 77]), Ok(()));
    let cart = store.get_cart(U1);
    assert_eq!(cart.len(), 1);
    assert_eq!(cart[0].product.uuid, 20);
    assert_eq!(store.remove_products_from_cart(U2, &vec![10]), Err(ErrorKind::UserCartNotFound));
    assert_eq!(store.remove_products_from_cart(U1, &Vec::new()), Ok(()));
    assert_eq!(store.get_cart(U1).len(), 1);
}

#[test]
fn only_the_first_cart_of_a_user_counts() {
    let mut store = CartStore::new(vec![
        Cart { user_id: U1, items: vec![ProductWithCount { product: product(10, "1"), count: 1 }] },
        Cart { user_id: U1, items: vec![ProductWithCount { product: product(20, "2"), count: 7 }] },
    ]);
    assert_eq!(store.get_cart(U1)[0].product.uuid, 10);
    store.add_product_to_cart(U1, 20, &catalog()).unwrap();
    assert_eq!(store.carts[0].items.len(), 2);
    assert_eq!(store.carts[1].items[0].count, 7);
}

#[test]
fn requests_without_a_user_are_refused() {
    let mut store = CartStore::new(Vec::new());
    assert_eq!(
        add_product_to_cart(None, 10, &mut store, &catalog()),
        Err(ErrorKind::Unauthorized)
    );
    assert_eq!(remove_product_from_cart(None, 10, &mut store), Err(ErrorKind::Unauthorized));
    assert_eq!(get_cart(None, &store).err(), Some(ErrorKind::Unauthorized));
    assert_eq!(add_product_to_cart(Some(U1), 10, &mut store, &catalog()), Ok(()));
    assert_eq!(get_cart(Some(U1), &store).unwrap().len(), 1);
    assert_eq!(remove_product_from_cart(Some(U1), 10, &mut store), Ok(()));
    assert_eq!(get_cart(Some(U1), &store).unwrap().len(), 0);
}

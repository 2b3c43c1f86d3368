//! Where the server listens and where the collections are kept.

use vstd::prelude::*;
use vstd::string::StringExecFns;

verus! {

#[derive(Debug)]
pub struct Config {
    pub server_address: String,
    pub products_file_path: String,
    pub users_file_path: String,
    pub carts_file_path: String,
    pub favorites_file_path: String,
    pub orders_file_path: String,
    pub promocodes_file_path: String,
}

/// The setting that was given, or `default` where none was.
pub open spec fn setting(given: Option<String>, default: &str) -> Seq<char> {
    match given {
        Some(text) => text@,
        None => default@,
    }
}

fn setting_or(given: Option<String>, default: &str) -> (text: String)
    ensures
        text@ == setting(given, default),
{
    match given {
        Some(text) => text,
        None => String::from_str(default),
    }
}

impl Config {
    /// The configuration that the environment gives: each setting as it was
    /// read there, and its fixed default where the environment has none.
    pub fn from_env(
        server_address: Option<String>,
        products_file_path: Option<String>,
        users_file_path: Option<String>,
        carts_file_path: Option<String>,
        favorites_file_path: Option<String>,
        orders_file_path: Option<String>,
        promocodes_file_path: Option<String>,
    ) -> (config: Self)
        ensures
            config.server_address@ == setting(server_address, "127.0.0.1:8080"),
            config.products_file_path@ == setting(products_file_path, "data/db/products.json"),
            config.users_file_path@ == setting(users_file_path, "data/db/users.json"),
            config.carts_file_path@ == setting(carts_file_path, "data/db/carts.json"),
            config.favorites_file_path@ == setting(favorites_file_path, "data/db/favorites.json"),
            config.orders_file_path@ == setting(orders_file_path, "data/db/orders.json"),
            config.promocodes_file_path@ == setting(
                promocodes_file_path,
                "data/db/promocodes.json",
            ),
    {
        Config {
            server_address: setting_or(server_address, "127.0.0.1:8080"),
            products_file_path: setting_or(products_file_path, "data/db/products.json"),
            users_file_path: setting_or(users_file_path, "data/db/users.json"),
            carts_file_path: setting_or(carts_file_path, "data/db/carts.json"),
            favorites_file_path: setting_or(favorites_file_path, "data/db/favorites.json"),
            orders_file_path: setting_or(orders_file_path, "data/db/orders.json"),
            promocodes_file_path: setting_or(promocodes_file_path, "data/db/promocodes.json"),
        }
    }
}

} // verus!

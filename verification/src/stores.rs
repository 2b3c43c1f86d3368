//! The five collections and the operations on them.

pub mod cart_store;
pub mod promo_codes_store;
pub mod user_store;
pub mod orders_store;
pub mod favorites_store;

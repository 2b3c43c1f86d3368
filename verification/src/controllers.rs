//! What each request decides, from the session's user and the request's data
//! to the outcome, with the stores it reads and changes.

pub mod users_controller;
pub mod auth_controller;
pub mod promocodes_controller;
pub mod carts_controller;
pub mod favorites_controller;
pub mod orders_controller;

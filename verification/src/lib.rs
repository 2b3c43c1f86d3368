//! Persistence-side and checkout logic of a small shop backend.
//!
//! The crate keeps five collections (users, carts, favorites, orders and promo
//! codes) as plain in-memory values and states, for every operation on them, how
//! the collection after the call relates to the collection before it. Reading
//! and writing the backing files, locking and request handling are left to the
//! program that embeds the library.
//!
//! Money is counted in integer minor units and percentages in basis points, so
//! every price computed here is exact.

pub mod error;
pub mod text;

pub mod views;
pub mod clock;
pub mod ident;
pub mod password;
pub mod models;
pub mod money;
pub mod stores;
pub mod pricing;
pub mod func;
pub mod controllers;
pub mod config;
pub mod laws;

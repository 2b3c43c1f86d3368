//! The records that the stores keep.

pub mod product;
pub mod user;

//! The WIT export model and its serialization to WIT text.

pub mod into_wit;
pub mod model;


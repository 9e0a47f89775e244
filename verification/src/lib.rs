//! Verified core of a catalog service managing brands and the product models
//! that belong to them.
//!
//! The library models the persistent store as an explicit [`store::Store`]
//! value holding the two tables, and implements every repository operation
//! over it with a full functional contract: which inputs succeed, which
//! error each failing input produces, and exactly how the store changes.

pub mod brand;
pub mod brand_model;
pub mod error_handler;
pub mod ident;
pub mod laws;
pub mod response;
pub mod store;

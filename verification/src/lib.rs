//! A small point-of-sale back end: a product catalog, write-once sale
//! records whose commit decrements stock all-or-nothing, and an independent
//! report log. The sale transaction engine validates every line item against
//! current stock before any write, and either applies the whole commit
//! (header, line items, stock decrements) or leaves the store untouched.

mod clock;
pub mod laws;
pub mod models;
pub mod services;
pub mod store;

//! A transactional inventory ledger for a single retail store.
//!
//! The catalog is an ordered collection of products found by name; purchases
//! restock it and sales draw it down. Every amount of money is a whole number
//! of cents, so totals and profits are exact.

pub mod error;
pub mod validate;
pub mod clock;
pub mod inventory;
pub mod purchase;
pub mod sales;
pub mod text;
pub mod auth;
pub mod report;

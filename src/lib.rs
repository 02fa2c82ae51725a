//! Tag patterns, their resolution and compilation to store predicates, and the
//! reconciliation of an item's tag set, with the records that carry them.

pub mod errors;
pub mod files;
pub mod jwt;
pub mod models;
pub mod pattern;
pub mod reconcile;
pub mod requests;

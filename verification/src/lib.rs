//! Product listings for a marketplace: drafts, submission, automated
//! verification and vendor notifications, with category and tag links that
//! stay consistent with the products they belong to.
//!
//! * [`model`] holds the records and the errors.
//! * [`evaluator`] decides whether a submitted product is verified.
//! * [`statement`] names the statements that a store carries out, and
//!   [`db`] says what each of them does to the tables.
//! * [`machine`] turns each lifecycle operation into a sequence of
//!   statements, so that it can run against any store.
//! * [`store`] is a store in memory, and [`lifecycle`] runs the operations
//!   against it.
//! * [`laws`] holds what is proved of the lifecycle as a whole.
//! * [`reference`] seeds the categories and tags.
//! * [`upload`] prepares product images for storage.

pub mod db;
pub mod evaluator;
pub mod laws;
pub mod lifecycle;
mod links;
pub mod machine;
pub mod model;
pub mod reference;
pub mod statement;
pub mod store;
pub mod table;
pub mod upload;

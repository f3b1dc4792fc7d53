//! Budget Master 9000: the rules of a private, offline monthly budget.
//!
//! The crate holds the decisions of the budget app that do not depend on
//! floating-point amounts: which plan lines count as fixed bills, how
//! categories are created and removed, when a month may still be edited,
//! how release versions compare, and how an update check is reported.
pub mod text;
pub mod version;
pub mod models;
pub mod classify;
pub mod rules;
pub mod update;
pub mod checkin;
pub mod shell;

//! A marketplace ledger for domain names.
//!
//! Sellers publish a domain with a price, buyers purchase it by attaching
//! payment, and a fixed share of every sale goes to a vault account. The
//! ledger is a plain value: every call takes what the host knows about it as
//! a [`payment::CallContext`] and answers with the rows it changed, the
//! transfers to carry out and the event to log.
//!
//! - [`contract`] holds the marketplace and its calls;
//! - [`model`] says what each call does, on the ledger as a mathematical
//!   value;
//! - [`lifecycle`] and [`accounting`] prove what holds of every call: an id
//!   stands in one table at most, a sale neither makes nor loses money, a
//!   premium listing costs the deposit, and a caller gets the rest back;
//! - [`records`], [`payment`] and [`event`] hold the rows, the amounts and
//!   the log entries;
//! - [`queries`], [`order`] and [`tables`] pick, rank and look up rows;
//! - [`text`] writes numbers in decimal;
//! - [`host`] states what is taken from the host's software kit.

pub mod accounting;
pub mod contract;
pub mod event;
pub mod host;
pub mod lifecycle;
pub mod model;
pub mod order;
pub mod payment;
pub mod queries;
pub mod records;
pub mod tables;
pub mod text;

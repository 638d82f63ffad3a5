//! A ledger engine for client accounts.
//!
//! The engine takes deposits, withdrawals, disputes, resolutions and
//! chargebacks in the order in which they occurred and derives the balances of
//! every client. Each executable function is verified against a mathematical
//! model of the books: sequences of accounts and of logged events whose amounts
//! are unbounded integers.
//!
//! - [`amount`], [`account`], [`transaction`] and [`error`] hold the data and
//!   its model.
//! - [`rules`] says, over the model, which events are applied and what they do.
//! - [`handlers`] holds one function for each kind of event, and [`ledger`]
//!   the driver that logs and dispatches a sequence of records.
//! - [`laws`] proves what holds of every state and every event.
//!
//! Amounts are added, subtracted, compared and made from whole numbers by the
//! `fixed` crate. Those four calls, in [`amount`], are the only items of this
//! crate that are trusted, not proved.

pub mod account;
pub mod amount;
pub mod error;
pub mod handlers;
pub mod laws;
pub mod ledger;
pub mod rules;
pub mod transaction;

pub use account::{Account, AccountView};
pub use amount::Amount;
pub use error::LedgerError;
pub use handlers::{chargeback, deposit, dispute, resolve, withdraw};
pub use ledger::{run, Ledger, Report};
pub use rules::Books;
pub use transaction::{Transaction, TransactionType, TransactionView};

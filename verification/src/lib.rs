//! A verified multi-bank ledger: every bank is an actor that owns its
//! accounts and is driven by messages.
//!
//! [`ledger`] holds the balance table of one bank, [`message`] the
//! requests and replies, [`actor`] what a bank does with a request,
//! [`registry`] the directory of banks, [`client`] the caller's side, and
//! [`laws`] what is proved of all of them together.

pub mod message;
pub mod ledger;
pub mod registry;
pub mod actor;
pub mod client;
pub mod laws;

pub use actor::bank_thread;
pub use client::{
    request_balance, request_deposit, request_transfer, request_withdraw, RequestError,
};
pub use ledger::{Bank, BankView};
pub use message::{Fault, Forward, Outcome, Reply, Transaction};
pub use registry::Registry;

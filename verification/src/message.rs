//! The messages that banks and their callers exchange.

use vstd::prelude::*;

verus! {

/// A request delivered to exactly one bank.
#[derive(Clone, Copy, Debug, PartialEq, Eq, Structural)]
pub enum Transaction {
    /// Add `amount` to an account of the receiving bank.
    Deposit { account_id: u8, amount: i64 },
    /// Take `amount` from an account of the receiving bank, if it holds that much.
    Withdraw { account_id: u8, amount: i64 },
    /// Take `amount` from `from_account` of the receiving bank and have it
    /// deposited on `to_account` of the bank `to_bank_id`.
    Transfer { to_bank_id: u8, from_account: u8, to_account: u8, amount: i64 },
    /// Ask for the balance of an account of the receiving bank.
    GetBalance { account_id: u8 },
}

/// The answer of a bank to one request it has finished.
#[derive(Clone, Copy, Debug, PartialEq, Eq, Structural)]
pub enum Reply {
    /// The deposit was applied.
    Ack,
    /// Whether the withdrawal was admitted.
    Withdrawn(bool),
    /// Whether the transfer was admitted at the source bank.
    Transferred(bool),
    /// The balance that was asked for.
    Balance(i64),
}

impl Reply {
    /// Whether a reply of this kind is the answer to a request of the kind
    /// of `message`.
    pub open spec fn answers(self, message: Transaction) -> bool {
        match message {
            Transaction::Deposit { account_id, amount } => self is Ack,
            Transaction::Withdraw { account_id, amount } => self is Withdrawn,
            Transaction::Transfer { to_bank_id, from_account, to_account, amount } => self
                is Transferred,
            Transaction::GetBalance { account_id } => self is Balance,
        }
    }
}

/// A message that a bank hands over for delivery to another bank's queue.
/// Nobody waits for an answer to it.
#[derive(Clone, Copy, Debug, PartialEq, Eq, Structural)]
pub struct Forward {
    pub to_bank_id: u8,
    pub message: Transaction,
}

/// What a bank owes the outside world after one request: the reply to
/// the caller and, after an admitted transfer, the deposit to pass on.
#[derive(Clone, Copy, Debug, PartialEq, Eq, Structural)]
pub struct Outcome {
    pub reply: Reply,
    pub forward: Option<Forward>,
}

/// Why a bank refused to process a request. A refused request changes nothing.
#[derive(Clone, Copy, Debug, PartialEq, Eq, Structural)]
pub enum Fault {
    /// The request carries a negative amount.
    NegativeAmount,
    /// The deposit would push the bank's aggregate balance past `i64::MAX`.
    Overflow,
    /// The destination bank of the transfer is not in the registry.
    UnknownBank,
}

} // verus!

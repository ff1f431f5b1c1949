//! The caller's side of the protocol: a request goes out as a message to
//! one bank, and at most one reply comes back.
//!
//! Every function here takes the way to the bank as `send`: it delivers
//! the message to the bank's queue and waits for the reply, and returns
//! `None` when no reply will come. It is called once.

use crate::message::{Reply, Transaction};
use vstd::prelude::*;

verus! {

/// Why a request did not yield the answer that was asked for.
#[derive(Clone, Copy, Debug, PartialEq, Eq, Structural)]
pub enum RequestError {
    /// No reply came back: the bank is gone or dropped the request.
    NoReply,
    /// A reply came back that does not answer this kind of request.
    UnexpectedReply,
}

/// What `reply` says to a caller that made a deposit.
pub open spec fn deposit_answer(reply: Option<Reply>) -> Result<(), RequestError> {
    match reply {
        Some(Reply::Ack) => Ok(()),
        Some(_) => Err(RequestError::UnexpectedReply),
        None => Err(RequestError::NoReply),
    }
}

/// What `reply` says to a caller that asked for a withdrawal: whether it
/// was admitted.
pub open spec fn withdraw_answer(reply: Option<Reply>) -> Result<bool, RequestError> {
    match reply {
        Some(Reply::Withdrawn(admitted)) => Ok(admitted),
        Some(_) => Err(RequestError::UnexpectedReply),
        None => Err(RequestError::NoReply),
    }
}

/// What `reply` says to a caller that asked for a transfer: whether the
/// source bank admitted it.
pub open spec fn transfer_answer(reply: Option<Reply>) -> Result<bool, RequestError> {
    match reply {
        Some(Reply::Transferred(admitted)) => Ok(admitted),
        Some(_) => Err(RequestError::UnexpectedReply),
        None => Err(RequestError::NoReply),
    }
}

/// What `reply` says to a caller that asked for a balance.
pub open spec fn balance_answer(reply: Option<Reply>) -> Result<i64, RequestError> {
    match reply {
        Some(Reply::Balance(held)) => Ok(held),
        Some(_) => Err(RequestError::UnexpectedReply),
        None => Err(RequestError::NoReply),
    }
}

/// Deposits `amount` on `account_id` of the bank that `send` leads to.
pub fn request_deposit<F>(send: F, account_id: u8, amount: i64) -> (done: Result<
    (),
    RequestError,
>) where F: FnOnce(Transaction) -> Option<Reply>
    requires
        call_requires(send, (Transaction::Deposit { account_id, amount },)),
    ensures
        (exists|reply: Option<Reply>| #[trigger]
            call_ensures(send, (Transaction::Deposit { account_id, amount },), reply) && done
                == deposit_answer(reply)),
{
    match send(Transaction::Deposit { account_id, amount }) {
        Some(Reply::Ack) => Ok(()),
        Some(_) => Err(RequestError::UnexpectedReply),
        None => Err(RequestError::NoReply),
    }
}

/// Asks the bank that `send` leads to for a withdrawal of `amount` from
/// `account_id`, and says whether the bank admitted it.
pub fn request_withdraw<F>(send: F, account_id: u8, amount: i64) -> (admitted: Result<
    bool,
    RequestError,
>) where F: FnOnce(Transaction) -> Option<Reply>
    requires
        call_requires(send, (Transaction::Withdraw { account_id, amount },)),
    ensures
        (exists|reply: Option<Reply>| #[trigger]
            call_ensures(send, (Transaction::Withdraw { account_id, amount },), reply)
                && admitted == withdraw_answer(reply)),
{
    match send(Transaction::Withdraw { account_id, amount }) {
        Some(Reply::Withdrawn(admitted)) => Ok(admitted),
        Some(_) => Err(RequestError::UnexpectedReply),
        None => Err(RequestError::NoReply),
    }
}

/// Asks the bank that `send` leads to for a transfer of `amount` from its
/// account `from_account` to `to_account` of the bank `to_bank_id`, and
/// says whether the source bank admitted it. An admitted transfer has
/// left the source account; the destination may not have it yet.
pub fn request_transfer<F>(
    send: F,
    from_account: u8,
    to_bank_id: u8,
    to_account: u8,
    amount: i64,
) -> (admitted: Result<bool, RequestError>) where F: FnOnce(Transaction) -> Option<Reply>
    requires
        call_requires(
            send,
            (Transaction::Transfer { to_bank_id, from_account, to_account, amount },),
        ),
    ensures
        (exists|reply: Option<Reply>| #[trigger]
            call_ensures(
                send,
                (Transaction::Transfer { to_bank_id, from_account, to_account, amount },),
                reply,
            ) && admitted == transfer_answer(reply)),
{
    match send(Transaction::Transfer { to_bank_id, from_account, to_account, amount }) {
        Some(Reply::Transferred(admitted)) => Ok(admitted),
        Some(_) => Err(RequestError::UnexpectedReply),
        None => Err(RequestError::NoReply),
    }
}

/// Asks the bank that `send` leads to for the balance of `account_id`.
pub fn request_balance<F>(send: F, account_id: u8) -> (held: Result<i64, RequestError>) where
    F: FnOnce(Transaction) -> Option<Reply>,

    requires
        call_requires(send, (Transaction::GetBalance { account_id },)),
    ensures
        (exists|reply: Option<Reply>| #[trigger]
            call_ensures(send, (Transaction::GetBalance { account_id },), reply) && held
                == balance_answer(reply)),
{
    match send(Transaction::GetBalance { account_id }) {
        Some(Reply::Balance(held)) => Ok(held),
        Some(_) => Err(RequestError::UnexpectedReply),
        None => Err(RequestError::NoReply),
    }
}

} // verus!

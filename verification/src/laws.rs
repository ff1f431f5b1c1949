//! What holds of every bank and every request, stated over the model of
//! the bank and proved from it.

use crate::client::{
    balance_answer, deposit_answer, transfer_answer, withdraw_answer, RequestError,
};
use crate::ledger::{
    lemma_balance_within_aggregate, lemma_credit_keeps_wf, lemma_debit_keeps_wf, total, BankView,
};
use crate::message::{Fault, Forward, Outcome, Reply, Transaction};
use vstd::prelude::*;

verus! {

/// Whatever request arrives, admitted or refused, the bank it leaves keeps
/// the invariant: the aggregate balance is the sum of the account balances.
pub proof fn lemma_step_keeps_wf(bank: BankView, message: Transaction, known: Set<u8>)
    requires
        bank.wf(),
    ensures
        bank.step(message, known).wf(),
        bank.step(message, known).balance == total(bank.step(message, known).accounts),
        bank.step(message, known).id == bank.id,
{
    if bank.fault(message, known) is None {
        match message {
            Transaction::Deposit { account_id, amount } => {
                lemma_credit_keeps_wf(bank, account_id, amount as int);
            },
            Transaction::Withdraw { account_id, amount } => {
                if bank.can_debit(account_id, amount as int) {
                    lemma_debit_keeps_wf(bank, account_id, amount as int);
                }
            },
            Transaction::Transfer { to_bank_id, from_account, to_account, amount } => {
                if bank.can_debit(from_account, amount as int) {
                    lemma_debit_keeps_wf(bank, from_account, amount as int);
                }
            },
            Transaction::GetBalance { account_id } => {},
        }
    }
}

/// After any sequence of requests, once the last one is processed, the
/// aggregate balance is the sum of the account balances.
pub proof fn lemma_run_keeps_wf(bank: BankView, inbox: Seq<Transaction>, known: Set<u8>)
    requires
        bank.wf(),
    ensures
        bank.run(inbox, known).wf(),
        bank.run(inbox, known).balance == total(bank.run(inbox, known).accounts),
        bank.run(inbox, known).id == bank.id,
    decreases inbox.len(),
{
    if inbox.len() > 0 {
        lemma_run_keeps_wf(bank, inbox.drop_last(), known);
        lemma_step_keeps_wf(bank.run(inbox.drop_last(), known), inbox.last(), known);
    }
}

/// A balance query is answered with the balance and changes nothing, so
/// asking again with no other request in between gives the same answer.
pub proof fn lemma_balance_query_repeats(bank: BankView, account: u8, known: Set<u8>)
    requires
        bank.wf(),
    ensures
        ({
            let query = Transaction::GetBalance { account_id: account };
            &&& bank.respond(query, known) matches Ok(outcome)
            &&& outcome.reply matches Reply::Balance(held)
            &&& held == bank.balance_of(account)
            &&& outcome.forward is None
            &&& bank.step(query, known) == bank
            &&& bank.step(query, known).respond(query, known) == bank.respond(query, known)
        }),
{
    lemma_balance_within_aggregate(bank, account);
}

/// Withdrawing exactly what an account holds is admitted and leaves the
/// account empty; withdrawing one more is refused and changes nothing.
pub proof fn lemma_withdraw_boundary(bank: BankView, account: u8, known: Set<u8>)
    requires
        bank.wf(),
    ensures
        ({
            let held = bank.balance_of(account);
            let all = Transaction::Withdraw { account_id: account, amount: held as i64 };
            let more = Transaction::Withdraw { account_id: account, amount: (held + 1) as i64 };
            &&& bank.respond(all, known) == Ok::<Outcome, Fault>(
                Outcome { reply: Reply::Withdrawn(true), forward: None },
            )
            &&& bank.step(all, known).balance_of(account) == 0
            &&& bank.step(all, known).balance == bank.balance - held
            &&& held < i64::MAX ==> {
                &&& bank.respond(more, known) == Ok::<Outcome, Fault>(
                    Outcome { reply: Reply::Withdrawn(false), forward: None },
                )
                &&& bank.step(more, known) == bank
            }
        }),
{
    lemma_balance_within_aggregate(bank, account);
}

/// A deposit that is admitted is acknowledged, raises the balance of its
/// account by its amount and leaves every other account as it was.
pub proof fn lemma_deposit_then_balance(
    bank: BankView,
    account: u8,
    amount: i64,
    known: Set<u8>,
)
    requires
        bank.wf(),
        amount >= 0,
        bank.balance + amount <= i64::MAX,
    ensures
        ({
            let deposit = Transaction::Deposit { account_id: account, amount };
            let after = bank.step(deposit, known);
            &&& bank.respond(deposit, known) == Ok::<Outcome, Fault>(
                Outcome { reply: Reply::Ack, forward: None },
            )
            &&& after.balance_of(account) == bank.balance_of(account) + amount
            &&& after.balance == bank.balance + amount
            &&& forall|other: u8|
                other != account ==> #[trigger] after.balance_of(other) == bank.balance_of(other)
        }),
{
}

/// A transfer that the source account covers is admitted on the strength
/// of the local debit alone and hands over a deposit of the same amount
/// for the destination. Until that deposit is processed the amount is in
/// neither bank; once it is processed the destination account holds it
/// and the two aggregates together are what they were before.
pub proof fn lemma_transfer_admitted(
    source: BankView,
    destination: BankView,
    from_account: u8,
    to_account: u8,
    amount: i64,
    known: Set<u8>,
)
    requires
        source.wf(),
        destination.wf(),
        known.contains(destination.id),
        amount >= 0,
        source.can_debit(from_account, amount as int),
        destination.balance + amount <= i64::MAX,
    ensures
        ({
            let transfer = Transaction::Transfer {
                to_bank_id: destination.id,
                from_account,
                to_account,
                amount,
            };
            let deposit = Transaction::Deposit { account_id: to_account, amount };
            let debited = source.step(transfer, known);
            let credited = destination.step(deposit, known);
            &&& source.respond(transfer, known) == Ok::<Outcome, Fault>(
                Outcome {
                    reply: Reply::Transferred(true),
                    forward: Some(Forward { to_bank_id: destination.id, message: deposit }),
                },
            )
            &&& debited.balance_of(from_account) == source.balance_of(from_account) - amount
            &&& debited.balance + destination.balance == source.balance + destination.balance
                - amount
            &&& destination.respond(deposit, known) == Ok::<Outcome, Fault>(
                Outcome { reply: Reply::Ack, forward: None },
            )
            &&& credited.balance_of(to_account) == destination.balance_of(to_account) + amount
            &&& debited.balance + credited.balance == source.balance + destination.balance
            &&& debited.wf()
            &&& credited.wf()
        }),
{
    lemma_debit_keeps_wf(source, from_account, amount as int);
    lemma_credit_keeps_wf(destination, to_account, amount as int);
}

/// A transfer that the source account does not cover is refused: the
/// caller is told so, the source bank stays as it was, and nothing is
/// handed over, so that no other bank hears of it.
pub proof fn lemma_transfer_refused(
    source: BankView,
    to_bank_id: u8,
    from_account: u8,
    to_account: u8,
    amount: i64,
    known: Set<u8>,
)
    requires
        known.contains(to_bank_id),
        amount >= 0,
        !source.can_debit(from_account, amount as int),
    ensures
        ({
            let transfer = Transaction::Transfer { to_bank_id, from_account, to_account, amount };
            &&& source.respond(transfer, known) == Ok::<Outcome, Fault>(
                Outcome { reply: Reply::Transferred(false), forward: None },
            )
            &&& source.step(transfer, known) == source
        }),
{
}

/// A refused request leaves the bank as it was, whatever the fault.
pub proof fn lemma_fault_changes_nothing(bank: BankView, message: Transaction, known: Set<u8>)
    requires
        bank.respond(message, known) is Err,
    ensures
        bank.step(message, known) == bank,
{
}

/// A bank answers every request it processes with the reply of that
/// request's kind, and a caller reads from it what the bank did: the
/// balance that was held, or whether the account covered the amount.
pub proof fn lemma_reply_answers_request(bank: BankView, message: Transaction, known: Set<u8>)
    requires
        bank.wf(),
        bank.respond(message, known) is Ok,
    ensures
        ({
            let reply = bank.respond(message, known)->Ok_0.reply;
            &&& reply.answers(message)
            &&& match message {
                Transaction::Deposit { account_id, amount } => deposit_answer(Some(reply)) is Ok,
                Transaction::Withdraw { account_id, amount } => withdraw_answer(Some(reply))
                    == Ok::<bool, RequestError>(bank.can_debit(account_id, amount as int)),
                Transaction::Transfer {
                    to_bank_id,
                    from_account,
                    to_account,
                    amount,
                } => transfer_answer(Some(reply)) == Ok::<bool, RequestError>(
                    bank.can_debit(from_account, amount as int),
                ),
                Transaction::GetBalance { account_id } => balance_answer(Some(reply)) matches Ok(
                    held,
                ) && held == bank.balance_of(account_id),
            }
        }),
{
    if let Transaction::GetBalance { account_id } = message {
        lemma_balance_within_aggregate(bank, account_id);
    }
}

/// Two deposits reach the same bank in either order.
pub proof fn lemma_deposits_commute(
    bank: BankView,
    first_account: u8,
    first_amount: int,
    second_account: u8,
    second_amount: int,
)
    ensures
        bank.credit(first_account, first_amount).credit(second_account, second_amount)
            == bank.credit(second_account, second_amount).credit(first_account, first_amount),
{
}

/// Every message of `inbox` is a deposit of an amount that is not negative.
pub open spec fn only_deposits(inbox: Seq<Transaction>) -> bool {
    forall|i: int|
        0 <= i < inbox.len() ==> {
            &&& #[trigger] inbox[i] matches Transaction::Deposit { account_id, amount }
            &&& amount >= 0
        }
}

/// What `message` deposits on `account`.
pub open spec fn deposit_to(message: Transaction, account: u8) -> int {
    match message {
        Transaction::Deposit { account_id, amount } => if account_id == account {
            amount as int
        } else {
            0
        },
        _ => 0,
    }
}

/// What `message` deposits, on whatever account.
pub open spec fn deposit_of(message: Transaction) -> int {
    match message {
        Transaction::Deposit { account_id, amount } => amount as int,
        _ => 0,
    }
}

/// Sum of `weight` over the messages of `inbox`.
pub open spec fn sum_over(inbox: Seq<Transaction>, weight: spec_fn(Transaction) -> int) -> int
    decreases inbox.len(),
{
    if inbox.len() == 0 {
        0
    } else {
        sum_over(inbox.drop_last(), weight) + weight(inbox.last())
    }
}

/// What the deposits of `inbox` add up to for `account`.
pub open spec fn deposited_to(inbox: Seq<Transaction>, account: u8) -> int {
    sum_over(inbox, |message: Transaction| deposit_to(message, account))
}

/// What the deposits of `inbox` add up to.
pub open spec fn deposited(inbox: Seq<Transaction>) -> int {
    sum_over(inbox, |message: Transaction| deposit_of(message))
}

/// Whether some message of `inbox` is a deposit on `account`.
pub open spec fn deposits_on(inbox: Seq<Transaction>, account: u8) -> bool {
    exists|i: int|
        0 <= i < inbox.len() && (#[trigger] inbox[i] matches Transaction::Deposit {
            account_id,
            amount,
        } && account_id == account)
}

/// No deposit is lost: when deposits arrive at one bank, and the aggregate
/// balance can hold them all, each is acknowledged, each account ends with
/// what it held plus what was deposited on it, and the aggregate balance
/// ends with what it was plus all that was deposited. The accounts that
/// are materialized afterwards are those that were before and those that
/// a deposit named.
pub proof fn lemma_deposits_add_up(bank: BankView, inbox: Seq<Transaction>, known: Set<u8>)
    requires
        bank.wf(),
        only_deposits(inbox),
        bank.balance + deposited(inbox) <= i64::MAX,
    ensures
        deposited(inbox) >= 0,
        bank.run(inbox, known).balance == bank.balance + deposited(inbox),
        forall|account: u8| #[trigger]
            bank.run(inbox, known).balance_of(account) == bank.balance_of(account) + deposited_to(
                inbox,
                account,
            ),
        forall|account: u8| #[trigger]
            bank.run(inbox, known).accounts.contains_key(account) <==> bank.accounts.contains_key(
                account,
            ) || deposits_on(inbox, account),
        forall|i: int|
            0 <= i < inbox.len() ==> #[trigger] bank.trace(inbox, known)[i] == Ok::<Outcome, Fault>(
                Outcome { reply: Reply::Ack, forward: None },
            ),
    decreases inbox.len(),
{
    if inbox.len() > 0 {
        let earlier = inbox.drop_last();
        lemma_deposits_add_up(bank, earlier, known);
        let before = bank.run(earlier, known);
        assert forall|account: u8| #[trigger]
            bank.run(inbox, known).balance_of(account) == bank.balance_of(account) + deposited_to(
                inbox,
                account,
            ) by {
            assert(before.balance_of(account) == bank.balance_of(account) + deposited_to(
                earlier,
                account,
            ));
        }
        assert forall|account: u8| #[trigger]
            bank.run(inbox, known).accounts.contains_key(account) <==> bank.accounts.contains_key(
                account,
            ) || deposits_on(inbox, account) by {
            if deposits_on(inbox, account) {
                let i = choose|i: int|
                    0 <= i < inbox.len() && (#[trigger] inbox[i] matches Transaction::Deposit {
                        account_id,
                        amount,
                    } && account_id == account);
                if i < earlier.len() {
                    assert(earlier[i] == inbox[i]);
                }
            }
        }
        assert forall|i: int| 0 <= i < inbox.len() implies #[trigger] bank.trace(inbox, known)[i]
            == Ok::<Outcome, Fault>(Outcome { reply: Reply::Ack, forward: None }) by {
            if i < earlier.len() {
                assert(earlier.take(i) == inbox.take(i));
                assert(bank.trace(earlier, known)[i] == bank.trace(inbox, known)[i]);
            }
        }
    }
}

/// Leaving one message out of `inbox` takes its weight from the sum.
proof fn lemma_sum_over_remove(
    inbox: Seq<Transaction>,
    at: int,
    weight: spec_fn(Transaction) -> int,
)
    requires
        0 <= at < inbox.len(),
    ensures
        sum_over(inbox, weight) == sum_over(inbox.remove(at), weight) + weight(inbox[at]),
    decreases inbox.len(),
{
    if at < inbox.len() - 1 {
        lemma_sum_over_remove(inbox.drop_last(), at, weight);
        assert(inbox.drop_last().remove(at) == inbox.remove(at).drop_last());
    }
}

/// Of two inboxes that hold the same messages, each as often as the other,
/// one holds every message that the other holds.
proof fn lemma_same_messages(
    first: Seq<Transaction>,
    second: Seq<Transaction>,
    message: Transaction,
)
    requires
        first.to_multiset() == second.to_multiset(),
        first.contains(message),
    ensures
        second.contains(message),
{
    first.to_multiset_ensures();
    second.to_multiset_ensures();
    assert(first.to_multiset().count(message) > 0);
}

/// The sum over an inbox does not depend on the order of its messages.
proof fn lemma_sum_over_rearranged(
    first: Seq<Transaction>,
    second: Seq<Transaction>,
    weight: spec_fn(Transaction) -> int,
)
    requires
        first.to_multiset() == second.to_multiset(),
    ensures
        sum_over(first, weight) == sum_over(second, weight),
    decreases first.len(),
{
    first.to_multiset_ensures();
    second.to_multiset_ensures();
    if first.len() > 0 {
        let last = first.last();
        lemma_same_messages(first, second, last);
        let at = choose|at: int| 0 <= at < second.len() && second[at] == last;
        assert(first.drop_last() == first.remove(first.len() - 1));
        lemma_sum_over_rearranged(first.drop_last(), second.remove(at), weight);
        lemma_sum_over_remove(second, at, weight);
    }
}

/// Deposits that arrive at one bank leave it in the same state in whatever
/// order they arrive: none of them is lost to another.
pub proof fn lemma_deposit_order_is_irrelevant(
    bank: BankView,
    first: Seq<Transaction>,
    second: Seq<Transaction>,
    known: Set<u8>,
)
    requires
        bank.wf(),
        only_deposits(first),
        first.to_multiset() == second.to_multiset(),
        bank.balance + deposited(first) <= i64::MAX,
    ensures
        bank.run(first, known) == bank.run(second, known),
{
    assert forall|i: int| 0 <= i < second.len() implies {
        &&& #[trigger] second[i] matches Transaction::Deposit { account_id, amount }
        &&& amount >= 0
    } by {
        lemma_same_messages(second, first, second[i]);
    }
    lemma_sum_over_rearranged(first, second, |message: Transaction| deposit_of(message));
    lemma_deposits_add_up(bank, first, known);
    lemma_deposits_add_up(bank, second, known);
    let one = bank.run(first, known);
    let other = bank.run(second, known);
    assert forall|account: u8| #[trigger]
        one.balance_of(account) == other.balance_of(account) by {
        lemma_sum_over_rearranged(
            first,
            second,
            |message: Transaction| deposit_to(message, account),
        );
    }
    assert forall|account: u8| deposits_on(first, account) == deposits_on(second, account) by {
        if deposits_on(first, account) {
            let i = choose|i: int|
                0 <= i < first.len() && (#[trigger] first[i] matches Transaction::Deposit {
                    account_id,
                    amount,
                } && account_id == account);
            lemma_same_messages(first, second, first[i]);
        }
        if deposits_on(second, account) {
            let i = choose|i: int|
                0 <= i < second.len() && (#[trigger] second[i] matches Transaction::Deposit {
                    account_id,
                    amount,
                } && account_id == account);
            lemma_same_messages(second, first, second[i]);
        }
    }
    lemma_run_keeps_wf(bank, first, known);
    lemma_run_keeps_wf(bank, second, known);
    assert forall|account: u8| one.accounts.contains_key(account) implies one.accounts[account]
        == other.accounts[account] by {
        assert(one.balance_of(account) == other.balance_of(account));
    }
}

} // verus!

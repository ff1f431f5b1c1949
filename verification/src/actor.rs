//! The bank as an actor: what one request does to the bank that receives
//! it, what is owed to the caller, and what is passed on to another bank.

use crate::ledger::{lemma_balance_bounded, Bank, BankView};
use crate::message::{Fault, Forward, Outcome, Reply, Transaction};
use crate::registry::Registry;
use vstd::prelude::*;

verus! {

impl BankView {
    /// Why the bank refuses `message`, if it does. `known` holds the
    /// identifiers of the registered banks.
    pub open spec fn fault(self, message: Transaction, known: Set<u8>) -> Option<Fault> {
        match message {
            Transaction::Deposit { account_id, amount } => {
                if amount < 0 {
                    Some(Fault::NegativeAmount)
                } else if self.balance + amount > i64::MAX {
                    Some(Fault::Overflow)
                } else {
                    None
                }
            },
            Transaction::Withdraw { account_id, amount } => {
                if amount < 0 {
                    Some(Fault::NegativeAmount)
                } else {
                    None
                }
            },
            Transaction::Transfer { to_bank_id, from_account, to_account, amount } => {
                if amount < 0 {
                    Some(Fault::NegativeAmount)
                } else if !known.contains(to_bank_id) {
                    Some(Fault::UnknownBank)
                } else {
                    None
                }
            },
            Transaction::GetBalance { account_id } => None,
        }
    }

    /// The bank after it has processed `message`.
    pub open spec fn apply(self, message: Transaction) -> BankView {
        match message {
            Transaction::Deposit { account_id, amount } => self.credit(account_id, amount as int),
            Transaction::Withdraw { account_id, amount } => {
                if self.can_debit(account_id, amount as int) {
                    self.debit(account_id, amount as int)
                } else {
                    self
                }
            },
            Transaction::Transfer { to_bank_id, from_account, to_account, amount } => {
                if self.can_debit(from_account, amount as int) {
                    self.debit(from_account, amount as int)
                } else {
                    self
                }
            },
            Transaction::GetBalance { account_id } => self,
        }
    }

    /// What the bank owes after it has processed `message`: the reply, and
    /// after an admitted transfer the deposit for the destination bank.
    pub open spec fn outcome(self, message: Transaction) -> Outcome {
        match message {
            Transaction::Deposit { account_id, amount } => Outcome {
                reply: Reply::Ack,
                forward: None,
            },
            Transaction::Withdraw { account_id, amount } => Outcome {
                reply: Reply::Withdrawn(self.can_debit(account_id, amount as int)),
                forward: None,
            },
            Transaction::Transfer { to_bank_id, from_account, to_account, amount } => Outcome {
                reply: Reply::Transferred(self.can_debit(from_account, amount as int)),
                forward: if self.can_debit(from_account, amount as int) {
                    Some(
                        Forward {
                            to_bank_id,
                            message: Transaction::Deposit { account_id: to_account, amount },
                        },
                    )
                } else {
                    None
                },
            },
            Transaction::GetBalance { account_id } => Outcome {
                reply: Reply::Balance(self.balance_of(account_id) as i64),
                forward: None,
            },
        }
    }

    /// What comes back for `message`: the outcome, or the fault for which
    /// the bank refused it.
    pub open spec fn respond(self, message: Transaction, known: Set<u8>) -> Result<Outcome, Fault> {
        match self.fault(message, known) {
            Some(fault) => Err(fault),
            None => Ok(self.outcome(message)),
        }
    }

    /// The bank after `message` arrived: a refused message changes nothing.
    pub open spec fn step(self, message: Transaction, known: Set<u8>) -> BankView {
        if self.fault(message, known) is None {
            self.apply(message)
        } else {
            self
        }
    }

    /// The bank after the messages of `inbox` arrived one by one, the
    /// first one first.
    pub open spec fn run(self, inbox: Seq<Transaction>, known: Set<u8>) -> BankView
        decreases inbox.len(),
    {
        if inbox.len() == 0 {
            self
        } else {
            self.run(inbox.drop_last(), known).step(inbox.last(), known)
        }
    }

    /// What comes back for each message of `inbox`, in the order of
    /// arrival: each one meets the bank that the earlier ones left.
    pub open spec fn trace(self, inbox: Seq<Transaction>, known: Set<u8>) -> Seq<
        Result<Outcome, Fault>,
    > {
        Seq::new(
            inbox.len(),
            |i: int| self.run(inbox.take(i), known).respond(inbox[i], known),
        )
    }
}

impl Bank {
    /// Processes one request. A deposit is credited; a withdrawal or a
    /// transfer is debited if the account holds the amount and refused
    /// otherwise; a balance query reads the account. The outcome holds the
    /// reply for the caller and, after an admitted transfer, the deposit
    /// to enqueue at the destination bank, for which nobody waits.
    ///
    /// A request with a negative amount, a deposit that the aggregate
    /// balance cannot hold, and a transfer to a bank that `banks` does not
    /// know are refused with a fault, and the bank stays as it was.
    pub fn handle<H>(&mut self, message: Transaction, banks: &Registry<H>) -> (result: Result<
        Outcome,
        Fault,
    >)
        requires
            old(self).wf(),
        ensures
            final(self).wf(),
            result == old(self)@.respond(message, banks@.dom()),
            final(self)@ == old(self)@.step(message, banks@.dom()),
            result is Err ==> *final(self) == *old(self),
    {
        match message {
            Transaction::Deposit { account_id, amount } => {
                if amount < 0 {
                    return Err(Fault::NegativeAmount);
                }
                proof {
                    lemma_balance_bounded(self@.accounts, account_id, 256);
                }
                if amount > i64::MAX - self.balance {
                    return Err(Fault::Overflow);
                }
                self.deposit(account_id, amount);
                Ok(Outcome { reply: Reply::Ack, forward: None })
            },
            Transaction::Withdraw { account_id, amount } => {
                if amount < 0 {
                    return Err(Fault::NegativeAmount);
                }
                let admitted = self.withdraw(account_id, amount);
                Ok(Outcome { reply: Reply::Withdrawn(admitted), forward: None })
            },
            Transaction::Transfer { to_bank_id, from_account, to_account, amount } => {
                if amount < 0 {
                    return Err(Fault::NegativeAmount);
                }
                if !banks.contains(to_bank_id) {
                    return Err(Fault::UnknownBank);
                }
                match self.transfer(from_account, to_account, amount) {
                    Some(deposit) => Ok(
                        Outcome {
                            reply: Reply::Transferred(true),
                            forward: Some(Forward { to_bank_id, message: deposit }),
                        },
                    ),
                    None => Ok(Outcome { reply: Reply::Transferred(false), forward: None }),
                }
            },
            Transaction::GetBalance { account_id } => {
                let held = self.get_balance(account_id);
                Ok(Outcome { reply: Reply::Balance(held), forward: None })
            },
        }
    }
}

/// Runs `bank` over the requests that have arrived for it: each one is
/// processed as [`Bank::handle`] does, one at a time and in the order of
/// arrival. Returns what came back for each request, in that order.
pub fn bank_thread<H>(bank: &mut Bank, inbox: &Vec<Transaction>, banks: &Registry<H>) -> (log: Vec<
    Result<Outcome, Fault>,
>)
    requires
        old(bank).wf(),
    ensures
        final(bank).wf(),
        final(bank)@ == old(bank)@.run(inbox@, banks@.dom()),
        log@ == old(bank)@.trace(inbox@, banks@.dom()),
{
    let ghost start = bank@;
    let ghost known = banks@.dom();
    let mut log: Vec<Result<Outcome, Fault>> = Vec::new();
    let mut done: usize = 0;
    while done < inbox.len()
        invariant
            done <= inbox.len(),
            bank.wf(),
            known == banks@.dom(),
            bank@ == start.run(inbox@.take(done as int), known),
            log@ == start.trace(inbox@.take(done as int), known),
        decreases inbox.len() - done,
    {
        let ghost before = inbox@.take(done as int);
        let ghost after = inbox@.take(done + 1);
        let answer = bank.handle(inbox[done], banks);
        log.push(answer);
        proof {
            assert(after.drop_last() == before);
            assert forall|i: int| 0 <= i < after.len() implies after.take(i) == before.take(i) by {}
        }
        done = done + 1;
    }
    proof {
        assert(inbox@.take(done as int) == inbox@);
    }
    log
}

} // verus!

//! The balance table of one bank and its mathematical model.

use crate::message::Transaction;
use std::collections::HashMap;
use vstd::prelude::*;

verus! {

/// Balance of `account` in a table of materialized accounts: an account
/// that was never touched holds nothing.
pub open spec fn balance_in(accounts: Map<u8, int>, account: u8) -> int {
    if accounts.contains_key(account) {
        accounts[account]
    } else {
        0
    }
}

/// Sum of the balances of the accounts `0 .. bound`.
pub open spec fn sum_below(accounts: Map<u8, int>, bound: nat) -> int
    decreases bound,
{
    if bound == 0 {
        0
    } else {
        sum_below(accounts, (bound - 1) as nat) + balance_in(accounts, (bound - 1) as u8)
    }
}

/// Sum of all account balances of a table.
pub open spec fn total(accounts: Map<u8, int>) -> int {
    sum_below(accounts, 256)
}

/// No account of the table is overdrawn.
pub open spec fn no_overdraft(accounts: Map<u8, int>) -> bool {
    forall|account: u8| accounts.contains_key(account) ==> #[trigger] accounts[account] >= 0
}

/// Writing `value` to one account moves the sum by the difference to what
/// the account held before.
pub proof fn lemma_sum_below_insert(accounts: Map<u8, int>, account: u8, value: int, bound: nat)
    requires
        bound <= 256,
    ensures
        account < bound ==> sum_below(accounts.insert(account, value), bound) == sum_below(
            accounts,
            bound,
        ) + value - balance_in(accounts, account),
        account >= bound ==> sum_below(accounts.insert(account, value), bound) == sum_below(
            accounts,
            bound,
        ),
    decreases bound,
{
    if bound > 0 {
        lemma_sum_below_insert(accounts, account, value, (bound - 1) as nat);
    }
}

/// Without overdrafts no partial sum is negative, and no account holds
/// more than a partial sum that covers it.
pub proof fn lemma_balance_bounded(accounts: Map<u8, int>, account: u8, bound: nat)
    requires
        no_overdraft(accounts),
        bound <= 256,
    ensures
        sum_below(accounts, bound) >= 0,
        account < bound ==> balance_in(accounts, account) <= sum_below(accounts, bound),
    decreases bound,
{
    if bound > 0 {
        lemma_balance_bounded(accounts, account, (bound - 1) as nat);
    }
}

/// A table without materialized accounts sums to nothing.
pub proof fn lemma_sum_below_empty(bound: nat)
    ensures
        sum_below(Map::<u8, int>::empty(), bound) == 0,
    decreases bound,
{
    if bound > 0 {
        lemma_sum_below_empty((bound - 1) as nat);
    }
}

/// The state of one bank as a mathematical value.
#[verifier::ext_equal]
pub struct BankView {
    /// The bank's identifier.
    pub id: u8,
    /// The aggregate balance that the bank keeps beside its accounts.
    pub balance: int,
    /// The accounts that have been materialized, each with its balance.
    pub accounts: Map<u8, int>,
}

impl BankView {
    /// The bank `id` before its first request.
    pub open spec fn fresh(id: u8) -> BankView {
        BankView { id, balance: 0, accounts: Map::empty() }
    }

    /// Balance of `account`; an account never touched holds nothing.
    pub open spec fn balance_of(self, account: u8) -> int {
        balance_in(self.accounts, account)
    }

    /// The aggregate balance equals the sum of all account balances, no
    /// account is overdrawn, and the aggregate fits the machine integer
    /// that holds it.
    pub open spec fn wf(self) -> bool {
        &&& self.balance == total(self.accounts)
        &&& no_overdraft(self.accounts)
        &&& self.balance <= i64::MAX
    }

    /// The bank after `amount` was added to `account`. The account is
    /// materialized by it.
    pub open spec fn credit(self, account: u8, amount: int) -> BankView {
        BankView {
            id: self.id,
            balance: self.balance + amount,
            accounts: self.accounts.insert(account, self.balance_of(account) + amount),
        }
    }

    /// Whether `account` holds at least `amount`.
    pub open spec fn can_debit(self, account: u8, amount: int) -> bool {
        self.balance_of(account) >= amount
    }

    /// The bank after `amount` was taken from `account`. An account that
    /// was never touched stays unmaterialized.
    pub open spec fn debit(self, account: u8, amount: int) -> BankView {
        BankView {
            id: self.id,
            balance: self.balance - amount,
            accounts: if self.accounts.contains_key(account) {
                self.accounts.insert(account, self.accounts[account] - amount)
            } else {
                self.accounts
            },
        }
    }
}

/// A deposit that the aggregate balance can hold keeps the invariant.
pub proof fn lemma_credit_keeps_wf(bank: BankView, account: u8, amount: int)
    requires
        bank.wf(),
        amount >= 0,
        bank.balance + amount <= i64::MAX,
    ensures
        bank.credit(account, amount).wf(),
{
    lemma_sum_below_insert(bank.accounts, account, bank.balance_of(account) + amount, 256);
}

/// A withdrawal that the account covers keeps the invariant.
pub proof fn lemma_debit_keeps_wf(bank: BankView, account: u8, amount: int)
    requires
        bank.wf(),
        amount >= 0,
        bank.can_debit(account, amount),
    ensures
        bank.debit(account, amount).wf(),
{
    if bank.accounts.contains_key(account) {
        lemma_sum_below_insert(bank.accounts, account, bank.accounts[account] - amount, 256);
    }
}

/// In a bank that keeps the invariant every balance lies between nothing
/// and the aggregate balance.
pub proof fn lemma_balance_within_aggregate(bank: BankView, account: u8)
    requires
        bank.wf(),
    ensures
        0 <= bank.balance_of(account) <= bank.balance <= i64::MAX,
{
    lemma_balance_bounded(bank.accounts, account, 256);
}

/// One bank: its identifier, its accounts, and the aggregate balance it
/// keeps beside them. Exactly one actor owns it.
#[derive(Debug)]
pub struct Bank {
    pub id: u8,
    pub balance: i64,
    pub accounts: HashMap<u8, i64>,
}

impl View for Bank {
    type V = BankView;

    open spec fn view(&self) -> BankView {
        BankView {
            id: self.id,
            balance: self.balance as int,
            accounts: self.accounts@.map_values(|held: i64| held as int),
        }
    }
}

impl Bank {
    /// The invariant of a bank: see [`BankView::wf`].
    pub open spec fn wf(&self) -> bool {
        self@.wf()
    }

    /// A bank without accounts and without money.
    pub fn new(id: u8) -> (bank: Bank)
        ensures
            bank.wf(),
            bank@ == BankView::fresh(id),
    {
        let bank = Bank { id, balance: 0, accounts: HashMap::new() };
        proof {
            lemma_sum_below_empty(256);
        }
        bank
    }

    /// Checks the invariant on the bank as it stands: every account is
    /// read once and added up.
    pub fn is_consistent(&self) -> (consistent: bool)
        ensures
            consistent == self.wf(),
    {
        let mut sum: i128 = 0;
        let mut next: u16 = 0;
        while next < 256
            invariant
                next <= 256,
                sum == sum_below(self@.accounts, next as nat),
                0 <= sum <= next * i64::MAX,
                forall|account: u8|
                    account < next && self@.accounts.contains_key(account)
                        ==> #[trigger] self@.accounts[account] >= 0,
            decreases 256 - next,
        {
            let held = self.get_balance(next as u8);
            if held < 0 {
                return false;
            }
            sum = sum + held as i128;
            next = next + 1;
        }
        sum == self.balance as i128
    }

    /// Balance of `account_id`: 0 if the account was never touched.
    pub fn get_balance(&self, account_id: u8) -> (held: i64)
        ensures
            held == self@.balance_of(account_id),
    {
        match self.accounts.get(&account_id) {
            Some(held) => *held,
            None => 0,
        }
    }

    /// Adds `amount` to `account_id` and to the aggregate balance.
    pub fn deposit(&mut self, account_id: u8, amount: i64)
        requires
            old(self).wf(),
            amount >= 0,
            old(self).balance + amount <= i64::MAX,
        ensures
            final(self).wf(),
            final(self)@ == old(self)@.credit(account_id, amount as int),
    {
        let held = self.get_balance(account_id);
        proof {
            lemma_balance_bounded(self@.accounts, account_id, 256);
        }
        self.accounts.insert(account_id, held + amount);
        self.balance = self.balance + amount;
        proof {
            assert(self@.accounts =~= old(self)@.accounts.insert(account_id, held + amount));
            lemma_sum_below_insert(old(self)@.accounts, account_id, held + amount, 256);
        }
    }

    /// Takes `amount` from `account_id` and from the aggregate balance if
    /// the account holds that much, and says whether it did. A refused
    /// withdrawal changes nothing.
    pub fn withdraw(&mut self, account_id: u8, amount: i64) -> (admitted: bool)
        requires
            old(self).wf(),
            amount >= 0,
        ensures
            final(self).wf(),
            admitted == old(self)@.can_debit(account_id, amount as int),
            admitted ==> final(self)@ == old(self)@.debit(account_id, amount as int),
            !admitted ==> *final(self) == *old(self),
    {
        let held = self.get_balance(account_id);
        if held < amount {
            return false;
        }
        if self.accounts.contains_key(&account_id) {
            proof {
                lemma_balance_bounded(self@.accounts, account_id, 256);
            }
            self.accounts.insert(account_id, held - amount);
            self.balance = self.balance - amount;
            proof {
                assert(self@.accounts =~= old(self)@.accounts.insert(account_id, held - amount));
                lemma_sum_below_insert(old(self)@.accounts, account_id, held - amount, 256);
            }
        }
        true
    }

    /// Takes `amount` from `from_account` as [`Bank::withdraw`] does and,
    /// if that was admitted, returns the deposit that the destination bank
    /// is to receive for `to_account`. Delivering it is the caller's part:
    /// the bank does not wait for the destination.
    pub fn transfer(&mut self, from_account: u8, to_account: u8, amount: i64) -> (deposit: Option<
        Transaction,
    >)
        requires
            old(self).wf(),
            amount >= 0,
        ensures
            final(self).wf(),
            deposit == (if old(self)@.can_debit(from_account, amount as int) {
                Some(Transaction::Deposit { account_id: to_account, amount })
            } else {
                None
            }),
            deposit is Some ==> final(self)@ == old(self)@.debit(from_account, amount as int),
            deposit is None ==> *final(self) == *old(self),
    {
        if self.withdraw(from_account, amount) {
            Some(Transaction::Deposit { account_id: to_account, amount })
        } else {
            None
        }
    }
}

} // verus!

use bank::{bank_thread, Bank, Fault, Forward, Outcome, Registry, Reply, Transaction};

fn directory(ids: &[u8]) -> Registry<&'static str> {
    let mut banks = Registry::new();
    for id in ids {
        banks.register(*id, "queue");
    }
    banks
}

fn answered(reply: Reply) -> Result<Outcome, Fault> {
    Ok(Outcome { reply, forward: None })
}

fn query(bank: &mut Bank, banks: &Registry<&'static str>, account_id: u8) -> Result<Outcome, Fault> {
    bank.handle(Transaction::GetBalance { account_id }, banks)
}

#[test]
fn deposit_is_acknowledged() {
    let banks = directory(&[1]);
    let mut bank = Bank::new(1);
    let result = bank.handle(Transaction::Deposit { account_id: 1, amount: 100 }, &banks);
    assert_eq!(result, answered(Reply::Ack));
    assert_eq!(bank.get_balance(1), 100);
    assert_eq!(bank.balance, 100);
}

#[test]
fn withdraw_reports_whether_it_was_admitted() {
    let banks = directory(&[1]);
    let mut bank = Bank::new(1);
    bank.deposit(1, 100);
    let result = bank.handle(Transaction::Withdraw { account_id: 1, amount: 100 }, &banks);
    assert_eq!(result, answered(Reply::Withdrawn(true)));
    assert_eq!(bank.get_balance(1), 0);
    let result = bank.handle(Transaction::Withdraw { account_id: 1, amount: 1 }, &banks);
    assert_eq!(result, answered(Reply::Withdrawn(false)));
    assert_eq!(bank.get_balance(1), 0);
    assert_eq!(bank.balance, 0);
}

#[test]
fn balance_query_is_answered_and_changes_nothing() {
    let banks = directory(&[1]);
    let mut bank = Bank::new(1);
    bank.deposit(6, 42);
    let first = bank.handle(Transaction::GetBalance { account_id: 6 }, &banks);
    let second = bank.handle(Transaction::GetBalance { account_id: 6 }, &banks);
    assert_eq!(first, answered(Reply::Balance(42)));
    assert_eq!(second, first);
    assert_eq!(bank.balance, 42);
    assert_eq!(bank.accounts.len(), 1);
    let untouched = bank.handle(Transaction::GetBalance { account_id: 7 }, &banks);
    assert_eq!(untouched, answered(Reply::Balance(0)));
    assert_eq!(bank.accounts.len(), 1);
}

#[test]
fn transfer_success_path() {
    let banks = directory(&[1, 2]);
    let mut bank_a = Bank::new(1);
    let mut bank_b = Bank::new(2);
    bank_a.deposit(1, 100);

    let transfer =
        Transaction::Transfer { to_bank_id: 2, from_account: 1, to_account: 2, amount: 50 };
    let result = bank_a.handle(transfer, &banks);
    let deposit = Transaction::Deposit { account_id: 2, amount: 50 };
    assert_eq!(
        result,
        Ok(Outcome {
            reply: Reply::Transferred(true),
            forward: Some(Forward { to_bank_id: 2, message: deposit }),
        })
    );

    // Before the deposit is delivered the amount is in neither bank.
    assert_eq!(query(&mut bank_a, &banks, 1), answered(Reply::Balance(50)));
    assert_eq!(query(&mut bank_b, &banks, 2), answered(Reply::Balance(0)));

    assert_eq!(bank_b.handle(deposit, &banks), answered(Reply::Ack));
    assert_eq!(query(&mut bank_a, &banks, 1), answered(Reply::Balance(50)));
    assert_eq!(query(&mut bank_b, &banks, 2), answered(Reply::Balance(50)));
    assert_eq!(bank_a.balance + bank_b.balance, 100);
}

#[test]
fn transfer_failure_path() {
    let banks = directory(&[1, 2]);
    let mut bank_a = Bank::new(1);
    let bank_b = Bank::new(2);
    bank_a.deposit(1, 10);
    let transfer =
        Transaction::Transfer { to_bank_id: 2, from_account: 1, to_account: 2, amount: 50 };
    let result = bank_a.handle(transfer, &banks);
    assert_eq!(result, answered(Reply::Transferred(false)));
    assert_eq!(bank_a.get_balance(1), 10);
    assert_eq!(bank_a.balance, 10);
    assert_eq!(bank_b.get_balance(2), 0);
}

#[test]
fn transfer_to_the_own_bank_goes_through_the_queue() {
    let banks = directory(&[1]);
    let mut bank = Bank::new(1);
    bank.deposit(1, 80);
    let transfer =
        Transaction::Transfer { to_bank_id: 1, from_account: 1, to_account: 2, amount: 30 };
    let result = bank.handle(transfer, &banks);
    let deposit = Transaction::Deposit { account_id: 2, amount: 30 };
    assert_eq!(
        result,
        Ok(Outcome {
            reply: Reply::Transferred(true),
            forward: Some(Forward { to_bank_id: 1, message: deposit }),
        })
    );
    assert_eq!(bank.balance, 50);
    assert_eq!(bank.handle(deposit, &banks), answered(Reply::Ack));
    assert_eq!(bank.get_balance(1), 50);
    assert_eq!(bank.get_balance(2), 30);
    assert_eq!(bank.balance, 80);
}

#[test]
fn transfer_to_an_unknown_bank_is_a_fault() {
    let banks = directory(&[1, 2]);
    let mut bank = Bank::new(1);
    bank.deposit(1, 100);
    let transfer =
        Transaction::Transfer { to_bank_id: 3, from_account: 1, to_account: 2, amount: 50 };
    assert_eq!(bank.handle(transfer, &banks), Err(Fault::UnknownBank));
    assert_eq!(bank.get_balance(1), 100);
    assert_eq!(bank.balance, 100);
    // The fault does not depend on whether the account covers the amount.
    let uncovered =
        Transaction::Transfer { to_bank_id: 3, from_account: 1, to_account: 2, amount: 500 };
    assert_eq!(bank.handle(uncovered, &banks), Err(Fault::UnknownBank));
}

#[test]
fn negative_amounts_are_faults() {
    let banks = directory(&[1, 2]);
    let mut bank = Bank::new(1);
    bank.deposit(1, 100);
    assert_eq!(
        bank.handle(Transaction::Deposit { account_id: 1, amount: -1 }, &banks),
        Err(Fault::NegativeAmount)
    );
    assert_eq!(
        bank.handle(Transaction::Withdraw { account_id: 1, amount: -1 }, &banks),
        Err(Fault::NegativeAmount)
    );
    assert_eq!(
        bank.handle(
            Transaction::Transfer { to_bank_id: 2, from_account: 1, to_account: 1, amount: -1 },
            &banks
        ),
        Err(Fault::NegativeAmount)
    );
    // A negative amount is reported before the unknown destination.
    let to_nowhere =
        Transaction::Transfer { to_bank_id: 9, from_account: 1, to_account: 1, amount: i64::MIN };
    assert_eq!(bank.handle(to_nowhere, &banks), Err(Fault::NegativeAmount));
    assert_eq!(bank.get_balance(1), 100);
    assert_eq!(bank.balance, 100);
}

#[test]
fn deposit_beyond_the_largest_aggregate_is_a_fault() {
    let banks = directory(&[1]);
    let mut bank = Bank::new(1);
    assert_eq!(
        bank.handle(Transaction::Deposit { account_id: 1, amount: i64::MAX }, &banks),
        answered(Reply::Ack)
    );
    assert_eq!(
        bank.handle(Transaction::Deposit { account_id: 2, amount: 1 }, &banks),
        Err(Fault::Overflow)
    );
    assert_eq!(bank.balance, i64::MAX);
    assert_eq!(bank.get_balance(2), 0);
    assert!(!bank.accounts.contains_key(&2));
    assert_eq!(
        bank.handle(Transaction::Deposit { account_id: 2, amount: 0 }, &banks),
        answered(Reply::Ack)
    );
}

#[test]
fn bank_thread_processes_the_inbox_in_order() {
    let banks = directory(&[1, 2]);
    let mut bank = Bank::new(1);
    let inbox = vec![
        Transaction::Withdraw { account_id: 1, amount: 10 },
        Transaction::Deposit { account_id: 1, amount: 100 },
        Transaction::Withdraw { account_id: 1, amount: 10 },
        Transaction::GetBalance { account_id: 1 },
        Transaction::Transfer { to_bank_id: 2, from_account: 1, to_account: 7, amount: 90 },
        Transaction::Transfer { to_bank_id: 2, from_account: 1, to_account: 7, amount: 1 },
        Transaction::Transfer { to_bank_id: 5, from_account: 1, to_account: 7, amount: 0 },
        Transaction::Deposit { account_id: 1, amount: -5 },
        Transaction::GetBalance { account_id: 1 },
    ];
    let log = bank_thread(&mut bank, &inbox, &banks);
    assert_eq!(
        log,
        vec![
            answered(Reply::Withdrawn(false)),
            answered(Reply::Ack),
            answered(Reply::Withdrawn(true)),
            answered(Reply::Balance(90)),
            Ok(Outcome {
                reply: Reply::Transferred(true),
                forward: Some(Forward {
                    to_bank_id: 2,
                    message: Transaction::Deposit { account_id: 7, amount: 90 },
                }),
            }),
            answered(Reply::Transferred(false)),
            Err(Fault::UnknownBank),
            Err(Fault::NegativeAmount),
            answered(Reply::Balance(0)),
        ]
    );
    assert_eq!(bank.balance, 0);
    assert_eq!(bank.get_balance(1), 0);
    assert_eq!(bank.id, 1);
}

#[test]
fn bank_thread_on_an_empty_inbox() {
    let banks = directory(&[]);
    let mut bank = Bank::new(1);
    bank.deposit(1, 5);
    let log = bank_thread(&mut bank, &Vec::new(), &banks);
    assert!(log.is_empty());
    assert_eq!(bank.balance, 5);
}

#[test]
fn bank_thread_agrees_with_handling_one_by_one() {
    let banks = directory(&[1, 2, 3]);
    let inbox = vec![
        Transaction::Deposit { account_id: 4, amount: 1000 },
        Transaction::Transfer { to_bank_id: 3, from_account: 4, to_account: 1, amount: 400 },
        Transaction::Withdraw { account_id: 4, amount: 601 },
        Transaction::Withdraw { account_id: 4, amount: 600 },
    ];
    let mut together = Bank::new(2);
    let log = bank_thread(&mut together, &inbox, &banks);
    let mut one_by_one = Bank::new(2);
    let mut expected = Vec::new();
    for message in inbox.iter() {
        expected.push(one_by_one.handle(*message, &banks));
    }
    assert_eq!(log, expected);
    assert_eq!(together.balance, one_by_one.balance);
    assert_eq!(together.accounts, one_by_one.accounts);
    assert_eq!(together.balance, 0);
}

#[test]
fn deposits_in_one_inbox_are_all_applied() {
    let banks = directory(&[1]);
    let mut bank = Bank::new(1);
    let mut inbox = Vec::new();
    let mut expected_total: i64 = 0;
    for account in 1..=10u8 {
        let amount = (account as i64) * 11;
        inbox.push(Transaction::Deposit { account_id: account, amount });
        expected_total += amount;
    }
    let log = bank_thread(&mut bank, &inbox, &banks);
    assert_eq!(log.len(), 10);
    for answer in log.iter() {
        assert_eq!(*answer, answered(Reply::Ack));
    }
    assert_eq!(expected_total, 605);
    assert_eq!(bank.balance, 605);
    for account in 1..=10u8 {
        assert_eq!(bank.get_balance(account), (account as i64) * 11);
    }
}

#[test]
fn lost_deposit_leaves_the_aggregates_short() {
    // The destination never processes the deposit that was handed over:
    // the source has committed the debit all the same.
    let banks = directory(&[1, 2]);
    let mut bank_a = Bank::new(1);
    let bank_b = Bank::new(2);
    bank_a.deposit(1, 100);
    let transfer =
        Transaction::Transfer { to_bank_id: 2, from_account: 1, to_account: 2, amount: 50 };
    let result = bank_a.handle(transfer, &banks);
    assert!(matches!(result, Ok(Outcome { reply: Reply::Transferred(true), forward: Some(_) })));
    assert_eq!(bank_a.balance, 50);
    assert_eq!(bank_b.balance, 0);
}

#[test]
fn deposits_arriving_in_another_order_leave_the_same_bank() {
    let banks = directory(&[1]);
    let inbox = vec![
        Transaction::Deposit { account_id: 1, amount: 10 },
        Transaction::Deposit { account_id: 2, amount: 20 },
        Transaction::Deposit { account_id: 1, amount: 30 },
        Transaction::Deposit { account_id: 3, amount: 0 },
        Transaction::Deposit { account_id: 2, amount: 5 },
    ];
    let rearranged = vec![inbox[4], inbox[2], inbox[0], inbox[3], inbox[1]];
    let mut one = Bank::new(1);
    let mut other = Bank::new(1);
    one.deposit(2, 1000);
    other.deposit(2, 1000);
    bank_thread(&mut one, &inbox, &banks);
    bank_thread(&mut other, &rearranged, &banks);
    assert_eq!(one.accounts, other.accounts);
    assert_eq!(one.balance, other.balance);
    assert_eq!(one.balance, 1065);
    assert_eq!(one.get_balance(1), 40);
    assert_eq!(one.get_balance(2), 1025);
    assert_eq!(one.get_balance(3), 0);
    assert!(one.accounts.contains_key(&3));
}

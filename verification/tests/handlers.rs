use fixed::traits::ToFixed;
use fixed::types::I50F14;
use payments::{
    chargeback, deposit, dispute, resolve, withdraw, Account, Amount, LedgerError, Transaction,
    TransactionType,
};

fn amount<T: ToFixed>(value: T) -> Amount {
    Amount::from_bits(value.to_fixed::<I50F14>().to_bits())
}

fn account(client: u16, available: f64, held: f64, total: f64) -> Account {
    Account {
        client,
        available: amount(available),
        held: amount(held),
        total: amount(total),
        locked: false,
    }
}

fn event(tx_type: TransactionType, client: u16, id: u32, value: Option<f64>) -> Transaction {
    Transaction { tx_type, client, id, amount: value.map(amount), under_dispute: false }
}

fn refer(tx_type: TransactionType, client: u16, id: u32) -> Transaction {
    event(tx_type, client, id, None)
}

#[test]
fn deposit_adds_to_account() {
    let mut accounts = vec![Account {
        client: 1,
        available: amount(0),
        held: amount(0),
        total: amount(0),
        locked: false,
    }];

    deposit(
        &mut accounts,
        Transaction {
            tx_type: TransactionType::Deposit,
            client: 1,
            id: 1,
            amount: Some(amount(1.9999)),
            under_dispute: false,
        },
    )
    .unwrap();

    assert_eq!(accounts.get(0).unwrap().available, amount(1.9999));
    assert_eq!(accounts.get(0).unwrap().total, amount(1.9999));
}

#[test]
fn withdraw_takes_from_account() {
    let mut accounts = vec![Account {
        client: 0,
        available: amount(2),
        held: amount(0),
        total: amount(2),
        locked: false,
    }];

    withdraw(
        &mut accounts,
        Transaction {
            tx_type: TransactionType::Withdraw,
            client: 0,
            id: 1,
            amount: Some(amount(1.9999)),
            under_dispute: false,
        },
    )
    .unwrap();

    assert_eq!(accounts.get(0).unwrap().available, amount(0.0001));
    assert_eq!(accounts.get(0).unwrap().total, amount(0.0001));
}

#[test]
fn withdraw_fails_on_insufficient_funds() {
    let mut accounts = vec![Account {
        client: 0,
        available: amount(1),
        held: amount(0),
        total: amount(1),
        locked: false,
    }];

    let res = withdraw(
        &mut accounts,
        Transaction {
            tx_type: TransactionType::Withdraw,
            client: 0,
            id: 1,
            amount: Some(amount(1.9999)),
            under_dispute: false,
        },
    );

    assert!(res.is_err());
}

#[test]
fn disputed_amount_should_move_to_held() {
    let mut accounts = vec![Account {
        client: 0,
        available: amount(1),
        held: amount(0),
        total: amount(1),
        locked: false,
    }];

    let mut history = vec![Transaction {
        tx_type: TransactionType::Deposit,
        client: 0,
        id: 1,
        amount: Some(amount(1)),
        under_dispute: false,
    }];

    dispute(
        &mut accounts,
        Transaction {
            tx_type: TransactionType::Dispute,
            client: 0,
            id: 1,
            amount: None,
            under_dispute: false,
        },
        &mut history,
    )
    .unwrap();

    assert_eq!(accounts.get(0).unwrap().available, amount(0));
    assert_eq!(accounts.get(0).unwrap().total, amount(1));
    assert_eq!(accounts.get(0).unwrap().held, amount(1));
}

#[test]
fn deposit_opens_an_account_with_zero_held_funds() {
    let mut accounts = vec![account(3, 1.0, 0.0, 1.0)];
    let outcome = deposit(&mut accounts, event(TransactionType::Deposit, 7, 1, Some(2.5)));
    assert_eq!(outcome, Ok(()));
    assert_eq!(accounts.len(), 2);
    assert_eq!(accounts[0], account(3, 1.0, 0.0, 1.0));
    assert_eq!(
        accounts[1],
        Account {
            client: 7,
            available: Amount { bits: 40960 },
            held: Amount { bits: 0 },
            total: Amount { bits: 40960 },
            locked: false,
        }
    );
}

#[test]
fn deposit_credits_the_first_account_of_the_client() {
    let mut accounts =
        vec![account(1, 1.0, 0.0, 1.0), account(2, 1.0, 0.0, 1.0), account(2, 9.0, 0.0, 9.0)];
    deposit(&mut accounts, event(TransactionType::Deposit, 2, 1, Some(0.5))).unwrap();
    assert_eq!(accounts[0], account(1, 1.0, 0.0, 1.0));
    assert_eq!(accounts[1], account(2, 1.5, 0.0, 1.5));
    assert_eq!(accounts[2], account(2, 9.0, 0.0, 9.0));
}

#[test]
fn deposit_without_amount_is_turned_down() {
    let mut accounts = vec![account(1, 1.0, 0.0, 1.0)];
    let outcome = deposit(&mut accounts, refer(TransactionType::Deposit, 1, 1));
    assert_eq!(outcome, Err(LedgerError::MissingAmount));
    assert_eq!(accounts, vec![account(1, 1.0, 0.0, 1.0)]);
    let outcome = deposit(&mut accounts, refer(TransactionType::Deposit, 2, 1));
    assert_eq!(outcome, Err(LedgerError::MissingAmount));
    assert_eq!(accounts.len(), 1);
}

#[test]
fn deposit_into_a_locked_account_is_applied() {
    let mut locked = account(1, 1.0, 0.0, 1.0);
    locked.locked = true;
    let mut accounts = vec![locked];
    assert_eq!(deposit(&mut accounts, event(TransactionType::Deposit, 1, 1, Some(1.0))), Ok(()));
    assert_eq!(accounts[0].available, amount(2));
    assert_eq!(accounts[0].total, amount(2));
    assert!(accounts[0].locked);
}

#[test]
fn deposit_of_a_negative_amount_is_applied() {
    let mut accounts = vec![account(1, 1.0, 0.0, 1.0)];
    assert_eq!(deposit(&mut accounts, event(TransactionType::Deposit, 1, 1, Some(-3.0))), Ok(()));
    assert_eq!(accounts[0], account(1, -2.0, 0.0, -2.0));
}

#[test]
fn withdraw_of_all_available_funds_is_applied() {
    let mut accounts = vec![account(1, 3.0, 2.0, 5.0)];
    assert_eq!(withdraw(&mut accounts, event(TransactionType::Withdraw, 1, 1, Some(3.0))), Ok(()));
    assert_eq!(accounts[0], account(1, 0.0, 2.0, 2.0));
}

#[test]
fn withdraw_without_amount_is_turned_down() {
    let mut accounts = vec![account(1, 3.0, 0.0, 3.0)];
    let outcome = withdraw(&mut accounts, refer(TransactionType::Withdraw, 1, 1));
    assert_eq!(outcome, Err(LedgerError::MissingAmount));
    let outcome = withdraw(&mut accounts, refer(TransactionType::Withdraw, 9, 1));
    assert_eq!(outcome, Err(LedgerError::MissingAmount));
    assert_eq!(accounts, vec![account(1, 3.0, 0.0, 3.0)]);
}

#[test]
fn withdraw_without_account_is_turned_down() {
    let mut accounts = vec![account(1, 3.0, 0.0, 3.0)];
    let outcome = withdraw(&mut accounts, event(TransactionType::Withdraw, 9, 1, Some(1.0)));
    assert_eq!(outcome, Err(LedgerError::AccountNotFound));
    assert_eq!(accounts, vec![account(1, 3.0, 0.0, 3.0)]);
}

#[test]
fn insufficient_funds_leave_the_account_untouched() {
    let mut accounts = vec![account(1, 3.0, 4.0, 7.0)];
    let outcome = withdraw(&mut accounts, event(TransactionType::Withdraw, 1, 1, Some(3.0001)));
    assert_eq!(outcome, Err(LedgerError::InsufficientFunds));
    assert_eq!(accounts, vec![account(1, 3.0, 4.0, 7.0)]);
}

#[test]
fn dispute_of_a_withdrawal_recredits_held_funds() {
    let mut accounts = vec![account(1, 2.0, 0.0, 2.0)];
    let mut history = vec![
        event(TransactionType::Deposit, 1, 1, Some(5.0)),
        event(TransactionType::Withdraw, 1, 2, Some(3.0)),
    ];
    let outcome = dispute(&mut accounts, refer(TransactionType::Dispute, 1, 2), &mut history);
    assert_eq!(outcome, Ok(()));
    assert_eq!(accounts[0], account(1, 2.0, 3.0, 5.0));
    assert!(!history[0].under_dispute);
    assert!(history[1].under_dispute);
}

#[test]
fn dispute_of_a_spent_deposit_makes_available_negative() {
    let mut accounts = vec![account(1, 0.0, 0.0, 0.0)];
    let mut history = vec![
        event(TransactionType::Deposit, 1, 1, Some(5.0)),
        event(TransactionType::Withdraw, 1, 2, Some(5.0)),
    ];
    dispute(&mut accounts, refer(TransactionType::Dispute, 1, 1), &mut history).unwrap();
    assert_eq!(accounts[0], account(1, -5.0, 5.0, 0.0));
}

#[test]
fn dispute_of_an_unknown_event_is_turned_down() {
    let mut accounts = vec![account(1, 5.0, 0.0, 5.0)];
    let mut history = vec![event(TransactionType::Deposit, 1, 1, Some(5.0))];
    let outcome = dispute(&mut accounts, refer(TransactionType::Dispute, 1, 2), &mut history);
    assert_eq!(outcome, Err(LedgerError::TransactionNotFound));
    assert_eq!(accounts, vec![account(1, 5.0, 0.0, 5.0)]);
    assert_eq!(history, vec![event(TransactionType::Deposit, 1, 1, Some(5.0))]);
}

#[test]
fn dispute_of_an_event_without_amount_is_turned_down() {
    let mut accounts = vec![account(1, 5.0, 0.0, 5.0)];
    let mut history = vec![refer(TransactionType::Deposit, 1, 1)];
    let outcome = dispute(&mut accounts, refer(TransactionType::Dispute, 1, 1), &mut history);
    assert_eq!(outcome, Err(LedgerError::MissingAmount));
    assert_eq!(accounts, vec![account(1, 5.0, 0.0, 5.0)]);
    assert!(!history[0].under_dispute);
}

#[test]
fn second_dispute_is_already_disputed() {
    let mut accounts = vec![account(1, 5.0, 0.0, 5.0)];
    let mut history = vec![event(TransactionType::Deposit, 1, 1, Some(5.0))];
    assert_eq!(dispute(&mut accounts, refer(TransactionType::Dispute, 1, 1), &mut history), Ok(()));
    let accounts_after_first = accounts.clone();
    let history_after_first = history.clone();
    let outcome = dispute(&mut accounts, refer(TransactionType::Dispute, 1, 1), &mut history);
    assert_eq!(outcome, Err(LedgerError::AlreadyDisputed));
    assert_eq!(accounts, accounts_after_first);
    assert_eq!(history, history_after_first);
    assert_eq!(accounts[0], account(1, 0.0, 5.0, 5.0));
    let outcome = dispute(&mut accounts, refer(TransactionType::Dispute, 2, 1), &mut history);
    assert_eq!(outcome, Err(LedgerError::AlreadyDisputed));
    assert_eq!(accounts, accounts_after_first);
}

#[test]
fn dispute_by_another_client_finds_no_account() {
    let mut accounts = vec![account(1, 5.0, 0.0, 5.0), account(2, 1.0, 0.0, 1.0)];
    let mut history = vec![event(TransactionType::Deposit, 1, 1, Some(5.0))];
    let outcome = dispute(&mut accounts, refer(TransactionType::Dispute, 2, 1), &mut history);
    assert_eq!(outcome, Err(LedgerError::AccountNotFound));
    assert_eq!(accounts, vec![account(1, 5.0, 0.0, 5.0), account(2, 1.0, 0.0, 1.0)]);
    assert!(!history[0].under_dispute);
}

#[test]
fn dispute_without_account_is_turned_down() {
    let mut accounts = vec![account(2, 1.0, 0.0, 1.0)];
    let mut history = vec![event(TransactionType::Deposit, 1, 1, Some(5.0))];
    let outcome = dispute(&mut accounts, refer(TransactionType::Dispute, 1, 1), &mut history);
    assert_eq!(outcome, Err(LedgerError::AccountNotFound));
    assert!(!history[0].under_dispute);
}

#[test]
fn dispute_of_a_dispute_is_not_disputable() {
    let mut accounts = vec![account(1, 5.0, 0.0, 5.0)];
    let mut history = vec![event(TransactionType::Dispute, 1, 4, Some(5.0))];
    let outcome = dispute(&mut accounts, refer(TransactionType::Dispute, 1, 4), &mut history);
    assert_eq!(outcome, Err(LedgerError::NotDisputable));
    assert_eq!(accounts, vec![account(1, 5.0, 0.0, 5.0)]);
    assert!(!history[0].under_dispute);
}

#[test]
fn dispute_refers_to_the_first_event_with_the_identifier() {
    let mut accounts = vec![account(1, 9.0, 0.0, 9.0)];
    let mut history = vec![
        event(TransactionType::Deposit, 1, 1, Some(2.0)),
        event(TransactionType::Deposit, 1, 1, Some(7.0)),
    ];
    dispute(&mut accounts, refer(TransactionType::Dispute, 1, 1), &mut history).unwrap();
    assert_eq!(accounts[0], account(1, 7.0, 2.0, 9.0));
    assert!(history[0].under_dispute);
    assert!(!history[1].under_dispute);
}

#[test]
fn resolve_restores_what_the_dispute_of_a_deposit_moved() {
    let before = vec![account(2, 1.0, 0.0, 1.0), account(1, 7.5, 1.0, 8.5)];
    let log = vec![event(TransactionType::Deposit, 1, 1, Some(5.0))];
    let mut accounts = before.clone();
    let mut history = log.clone();
    assert_eq!(dispute(&mut accounts, refer(TransactionType::Dispute, 1, 1), &mut history), Ok(()));
    assert_eq!(accounts[1], account(1, 2.5, 6.0, 8.5));
    assert_eq!(resolve(&mut accounts, refer(TransactionType::Resolve, 1, 1), &mut history), Ok(()));
    assert_eq!(accounts, before);
    assert_eq!(history, log);
}

#[test]
fn resolve_of_a_disputed_withdrawal_releases_to_available() {
    let mut accounts = vec![account(1, 2.0, 0.0, 2.0)];
    let mut history = vec![event(TransactionType::Withdraw, 1, 2, Some(3.0))];
    assert_eq!(dispute(&mut accounts, refer(TransactionType::Dispute, 1, 2), &mut history), Ok(()));
    assert_eq!(accounts[0], account(1, 2.0, 3.0, 5.0));
    assert_eq!(resolve(&mut accounts, refer(TransactionType::Resolve, 1, 2), &mut history), Ok(()));
    assert_eq!(accounts[0], account(1, 5.0, 0.0, 5.0));
    assert!(!history[0].under_dispute);
}

#[test]
fn resolve_of_an_undisputed_event_is_turned_down() {
    let mut accounts = vec![account(1, 5.0, 0.0, 5.0)];
    let mut history = vec![event(TransactionType::Deposit, 1, 1, Some(5.0))];
    let outcome = resolve(&mut accounts, refer(TransactionType::Resolve, 1, 1), &mut history);
    assert_eq!(outcome, Err(LedgerError::NotUnderDispute));
    assert_eq!(accounts, vec![account(1, 5.0, 0.0, 5.0)]);
    assert_eq!(history, vec![event(TransactionType::Deposit, 1, 1, Some(5.0))]);
}

#[test]
fn resolve_fails_in_the_order_of_its_checks() {
    let mut accounts = vec![account(1, 5.0, 0.0, 5.0)];
    let mut history = vec![refer(TransactionType::Deposit, 1, 1)];
    let outcome = resolve(&mut accounts, refer(TransactionType::Resolve, 1, 8), &mut history);
    assert_eq!(outcome, Err(LedgerError::TransactionNotFound));
    let outcome = resolve(&mut accounts, refer(TransactionType::Resolve, 1, 1), &mut history);
    assert_eq!(outcome, Err(LedgerError::MissingAmount));
    let mut disputed = event(TransactionType::Deposit, 1, 2, Some(1.0));
    disputed.under_dispute = true;
    history.push(disputed);
    let outcome = resolve(&mut accounts, refer(TransactionType::Resolve, 3, 2), &mut history);
    assert_eq!(outcome, Err(LedgerError::AccountNotFound));
    assert!(history[1].under_dispute);
    assert_eq!(accounts, vec![account(1, 5.0, 0.0, 5.0)]);
}

#[test]
fn resolve_of_a_disputed_resolve_is_not_resolvable() {
    let mut accounts = vec![account(1, 5.0, 0.0, 5.0)];
    let mut odd = event(TransactionType::Resolve, 1, 3, Some(1.0));
    odd.under_dispute = true;
    let mut history = vec![odd];
    let outcome = resolve(&mut accounts, refer(TransactionType::Resolve, 1, 3), &mut history);
    assert_eq!(outcome, Err(LedgerError::NotResolvable));
    assert_eq!(accounts, vec![account(1, 5.0, 0.0, 5.0)]);
    assert!(history[0].under_dispute);
}

#[test]
fn chargeback_takes_held_funds_and_locks() {
    let mut accounts = vec![account(1, 1.0, 5.0, 6.0)];
    let mut disputed = event(TransactionType::Deposit, 1, 1, Some(5.0));
    disputed.under_dispute = true;
    let mut history = vec![disputed];
    let outcome = chargeback(&mut accounts, refer(TransactionType::Chargeback, 1, 1), &mut history);
    assert_eq!(outcome, Ok(()));
    assert_eq!(accounts[0].available, amount(1));
    assert_eq!(accounts[0].held, amount(0));
    assert_eq!(accounts[0].total, amount(1));
    assert!(accounts[0].locked);
    assert!(!history[0].under_dispute);
}

#[test]
fn chargeback_of_a_disputed_withdrawal_takes_held_funds_and_locks() {
    let mut accounts = vec![account(1, 2.0, 3.0, 5.0)];
    let mut disputed = event(TransactionType::Withdraw, 1, 2, Some(3.0));
    disputed.under_dispute = true;
    let mut history = vec![disputed];
    let outcome = chargeback(&mut accounts, refer(TransactionType::Chargeback, 1, 2), &mut history);
    assert_eq!(outcome, Ok(()));
    let mut expected = account(1, 2.0, 0.0, 2.0);
    expected.locked = true;
    assert_eq!(accounts[0], expected);
    assert!(!history[0].under_dispute);
}

#[test]
fn chargeback_on_a_locked_account_is_applied() {
    let mut accounts = vec![account(1, 0.0, 7.0, 7.0)];
    let mut first = event(TransactionType::Deposit, 1, 1, Some(5.0));
    first.under_dispute = true;
    let mut second = event(TransactionType::Deposit, 1, 2, Some(2.0));
    second.under_dispute = true;
    let mut history = vec![first, second];
    assert_eq!(
        chargeback(&mut accounts, refer(TransactionType::Chargeback, 1, 1), &mut history),
        Ok(())
    );
    assert!(accounts[0].locked);
    assert_eq!(accounts[0].held, amount(2));
    assert_eq!(accounts[0].total, amount(2));
    assert_eq!(
        chargeback(&mut accounts, refer(TransactionType::Chargeback, 1, 2), &mut history),
        Ok(())
    );
    assert!(accounts[0].locked);
    assert_eq!(accounts[0].available, amount(0));
    assert_eq!(accounts[0].held, amount(0));
    assert_eq!(accounts[0].total, amount(0));
    assert!(!history[0].under_dispute);
    assert!(!history[1].under_dispute);
}

#[test]
fn chargeback_of_an_undisputed_event_is_turned_down() {
    let mut accounts = vec![account(1, 5.0, 0.0, 5.0)];
    let mut history = vec![event(TransactionType::Deposit, 1, 1, Some(5.0))];
    let outcome = chargeback(&mut accounts, refer(TransactionType::Chargeback, 1, 1), &mut history);
    assert_eq!(outcome, Err(LedgerError::NotUnderDispute));
    assert_eq!(accounts, vec![account(1, 5.0, 0.0, 5.0)]);
    let outcome = chargeback(&mut accounts, refer(TransactionType::Chargeback, 1, 6), &mut history);
    assert_eq!(outcome, Err(LedgerError::TransactionNotFound));
}

#[test]
fn chargeback_of_a_disputed_chargeback_is_not_chargebackable() {
    let mut accounts = vec![account(1, 5.0, 0.0, 5.0)];
    let mut odd = event(TransactionType::Chargeback, 1, 3, Some(1.0));
    odd.under_dispute = true;
    let mut history = vec![odd];
    let outcome = chargeback(&mut accounts, refer(TransactionType::Chargeback, 1, 3), &mut history);
    assert_eq!(outcome, Err(LedgerError::NotChargebackable));
    assert_eq!(accounts, vec![account(1, 5.0, 0.0, 5.0)]);
    assert!(!accounts[0].locked);
    assert!(history[0].under_dispute);
}

#[test]
fn every_applied_event_keeps_the_total_equal_to_available_plus_held() {
    let mut accounts: Vec<Account> = Vec::new();
    let mut history = vec![
        event(TransactionType::Deposit, 1, 1, Some(5.0)),
        event(TransactionType::Withdraw, 1, 2, Some(1.25)),
        event(TransactionType::Deposit, 1, 3, Some(0.5)),
    ];
    let balanced = |accounts: &Vec<Account>| {
        accounts.iter().all(|a| a.total.bits == a.available.bits + a.held.bits)
    };
    deposit(&mut accounts, history[0]).unwrap();
    assert!(balanced(&accounts));
    withdraw(&mut accounts, history[1]).unwrap();
    assert!(balanced(&accounts));
    deposit(&mut accounts, history[2]).unwrap();
    assert!(balanced(&accounts));
    dispute(&mut accounts, refer(TransactionType::Dispute, 1, 2), &mut history).unwrap();
    assert!(balanced(&accounts));
    dispute(&mut accounts, refer(TransactionType::Dispute, 1, 1), &mut history).unwrap();
    assert!(balanced(&accounts));
    resolve(&mut accounts, refer(TransactionType::Resolve, 1, 2), &mut history).unwrap();
    assert!(balanced(&accounts));
    chargeback(&mut accounts, refer(TransactionType::Chargeback, 1, 1), &mut history).unwrap();
    assert!(balanced(&accounts));
    assert_eq!(accounts[0].available, amount(0.5));
    assert_eq!(accounts[0].held, amount(0));
    assert_eq!(accounts[0].total, amount(0.5));
    assert!(accounts[0].locked);
}

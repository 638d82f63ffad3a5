//! The five handlers: one for each kind of event.
//!
//! A handler either applies its event or turns it down without touching the
//! books. It never checks whether an account is locked.

use crate::account::{account_table, all_balanced, all_representable, find_account, Account};
use crate::amount::Amount;
use crate::error::LedgerError;
use crate::rules::{
    after_chargeback, after_deposit, after_dispute, after_resolve, after_withdraw, applied,
    chargeback_verdict, deposit_verdict, dispute_verdict, reference, resolve_verdict,
    withdraw_verdict, Books, Reference,
};
use crate::transaction::{find_transaction, Transaction, TransactionType};
use vstd::prelude::*;

verus! {

/// Credits the amount of `tx` to the account of its client, and opens that
/// account if the client has none. A frozen account is credited like any
/// other.
///
/// The balances after the deposit must be storable.
pub fn deposit(accounts: &mut Vec<Account>, tx: Transaction) -> (outcome: Result<(), LedgerError>)
    requires
        all_representable(after_deposit(account_table(old(accounts)@), tx@)),
    ensures
        outcome == deposit_verdict(tx@),
        account_table(final(accounts)@) == after_deposit(account_table(old(accounts)@), tx@),
        outcome is Err ==> final(accounts)@ == old(accounts)@,
        all_balanced(account_table(old(accounts)@)) ==> all_balanced(
            account_table(final(accounts)@),
        ),
{
    let amount = match tx.amount {
        Some(amount) => amount,
        None => {
            return Err(LedgerError::MissingAmount);
        },
    };
    let ghost before = account_table(accounts@);
    match find_account(accounts, tx.client) {
        Some(i) => {
            let mut account = accounts[i];
            assert(after_deposit(before, tx@)[i as int] == before[i as int].credit(amount@));
            account.available = account.available.plus(amount);
            account.total = account.total.plus(amount);
            accounts.set(i, account);
        },
        None => {
            accounts.push(
                Account {
                    client: tx.client,
                    available: amount,
                    held: Amount::from_int(0),
                    total: amount,
                    locked: false,
                },
            );
        },
    }
    assert(account_table(accounts@) =~= after_deposit(before, tx@));
    Ok(())
}

/// Debits the amount of `tx` from the account of its client, if the available
/// funds cover it.
///
/// The balances after the withdrawal must be storable.
pub fn withdraw(accounts: &mut Vec<Account>, tx: Transaction) -> (outcome: Result<
    (),
    LedgerError,
>)
    requires
        all_representable(after_withdraw(account_table(old(accounts)@), tx@)),
    ensures
        outcome == withdraw_verdict(account_table(old(accounts)@), tx@),
        account_table(final(accounts)@) == after_withdraw(account_table(old(accounts)@), tx@),
        outcome is Err ==> final(accounts)@ == old(accounts)@,
        all_balanced(account_table(old(accounts)@)) ==> all_balanced(
            account_table(final(accounts)@),
        ),
{
    let amount = match tx.amount {
        Some(amount) => amount,
        None => {
            return Err(LedgerError::MissingAmount);
        },
    };
    let ghost before = account_table(accounts@);
    let i = match find_account(accounts, tx.client) {
        Some(i) => i,
        None => {
            return Err(LedgerError::AccountNotFound);
        },
    };
    let mut account = accounts[i];
    if amount.at_most(account.available) {
        assert(after_withdraw(before, tx@)[i as int] == before[i as int].debit(amount@));
        account.available = account.available.minus(amount);
        account.total = account.total.minus(amount);
        accounts.set(i, account);
        Ok(())
    } else {
        Err(LedgerError::InsufficientFunds)
    }
}

/// What a dispute, a resolution or a chargeback refers to: positions in the
/// event log and in the account table, and the amount and kind of the event.
#[derive(Clone, Copy, Debug, PartialEq, Eq)]
pub struct Target {
    /// The position in the log of the event referred to.
    pub entry: usize,
    /// The position in the table of the account that holds its funds.
    pub account: usize,
    /// The amount of the event referred to.
    pub amount: Amount,
    /// The kind of the event referred to.
    pub kind: TransactionType,
}

impl View for Target {
    type V = Reference;

    open spec fn view(&self) -> Reference {
        Reference {
            entry: self.entry as int,
            account: self.account as int,
            amount: self.amount@,
            kind: self.kind,
        }
    }
}

/// Finds what `tx` refers to: the first logged event with its identifier,
/// which must have an amount and be under dispute exactly if `disputed` says
/// so, and the first account of the client that both name.
pub fn locate(
    accounts: &Vec<Account>,
    history: &Vec<Transaction>,
    tx: &Transaction,
    disputed: bool,
) -> (found: Result<Target, LedgerError>)
    ensures
        match found {
            Ok(target) => {
                &&& reference(Books::of(accounts@, history@), tx@, disputed) == Ok::<
                    Reference,
                    LedgerError,
                >(target@)
                &&& target.entry < history.len()
                &&& target.account < accounts.len()
            },
            Err(error) => reference(Books::of(accounts@, history@), tx@, disputed) == Err::<
                Reference,
                LedgerError,
            >(error),
        },
{
    let entry = match find_transaction(history, tx.id) {
        Some(entry) => entry,
        None => {
            return Err(LedgerError::TransactionNotFound);
        },
    };
    let event = history[entry];
    let amount = match event.amount {
        Some(amount) => amount,
        None => {
            return Err(LedgerError::MissingAmount);
        },
    };
    if event.under_dispute && !disputed {
        return Err(LedgerError::AlreadyDisputed);
    }
    if !event.under_dispute && disputed {
        return Err(LedgerError::NotUnderDispute);
    }
    if tx.client != event.client {
        return Err(LedgerError::AccountNotFound);
    }
    match find_account(accounts, tx.client) {
        Some(account) => Ok(Target { entry, account, amount, kind: event.tx_type }),
        None => Err(LedgerError::AccountNotFound),
    }
}

/// Opens a dispute of the event that `tx` refers to. The amount of a disputed
/// deposit moves from available to held; the amount of a disputed withdrawal
/// comes back as held funds.
///
/// The balances after the dispute must be storable.
pub fn dispute(
    accounts: &mut Vec<Account>,
    tx: Transaction,
    history: &mut Vec<Transaction>,
) -> (outcome: Result<(), LedgerError>)
    requires
        all_representable(after_dispute(Books::of(old(accounts)@, old(history)@), tx@).accounts),
    ensures
        outcome == dispute_verdict(Books::of(old(accounts)@, old(history)@), tx@),
        Books::of(final(accounts)@, final(history)@) == after_dispute(
            Books::of(old(accounts)@, old(history)@),
            tx@,
        ),
        outcome is Err ==> {
            &&& final(accounts)@ == old(accounts)@
            &&& final(history)@ == old(history)@
        },
        all_balanced(account_table(old(accounts)@)) ==> all_balanced(
            account_table(final(accounts)@),
        ),
{
    let ghost before = Books::of(accounts@, history@);
    let target = match locate(accounts, history, &tx, false) {
        Ok(target) => target,
        Err(error) => {
            return Err(error);
        },
    };
    let mut account = accounts[target.account];
    match target.kind {
        TransactionType::Deposit => {
            assert(after_dispute(before, tx@).accounts[target.account as int]
                == before.accounts[target.account as int].hold(target.amount@));
            account.available = account.available.minus(target.amount);
            account.held = account.held.plus(target.amount);
        },
        TransactionType::Withdraw => {
            assert(after_dispute(before, tx@).accounts[target.account as int]
                == before.accounts[target.account as int].recredit(target.amount@));
            account.held = account.held.plus(target.amount);
            account.total = account.total.plus(target.amount);
        },
        _ => {
            return Err(LedgerError::NotDisputable);
        },
    }
    accounts.set(target.account, account);
    let mut event = history[target.entry];
    event.under_dispute = true;
    history.set(target.entry, event);
    assert(Books::of(accounts@, history@) =~~= after_dispute(before, tx@));
    Ok(())
}

/// Closes the dispute of the event that `tx` refers to in favour of that
/// event: its amount moves from held to available.
///
/// The balances after the resolution must be storable.
pub fn resolve(
    accounts: &mut Vec<Account>,
    tx: Transaction,
    history: &mut Vec<Transaction>,
) -> (outcome: Result<(), LedgerError>)
    requires
        all_representable(after_resolve(Books::of(old(accounts)@, old(history)@), tx@).accounts),
    ensures
        outcome == resolve_verdict(Books::of(old(accounts)@, old(history)@), tx@),
        Books::of(final(accounts)@, final(history)@) == after_resolve(
            Books::of(old(accounts)@, old(history)@),
            tx@,
        ),
        outcome is Err ==> {
            &&& final(accounts)@ == old(accounts)@
            &&& final(history)@ == old(history)@
        },
        all_balanced(account_table(old(accounts)@)) ==> all_balanced(
            account_table(final(accounts)@),
        ),
{
    let ghost before = Books::of(accounts@, history@);
    let target = match locate(accounts, history, &tx, true) {
        Ok(target) => target,
        Err(error) => {
            return Err(error);
        },
    };
    let mut account = accounts[target.account];
    match target.kind {
        TransactionType::Deposit => {
            assert(after_resolve(before, tx@).accounts[target.account as int]
                == before.accounts[target.account as int].release(target.amount@));
            account.available = account.available.plus(target.amount);
            account.held = account.held.minus(target.amount);
        },
        TransactionType::Withdraw => {
            assert(after_resolve(before, tx@).accounts[target.account as int]
                == before.accounts[target.account as int].release(target.amount@));
            account.held = account.held.minus(target.amount);
            account.available = account.available.plus(target.amount);
        },
        _ => {
            return Err(LedgerError::NotResolvable);
        },
    }
    accounts.set(target.account, account);
    let mut event = history[target.entry];
    event.under_dispute = false;
    history.set(target.entry, event);
    assert(Books::of(accounts@, history@) =~~= after_resolve(before, tx@));
    Ok(())
}

/// Closes the dispute of the event that `tx` refers to by reversing that
/// event: its amount leaves the held funds and the total, and the account is
/// frozen. As things stand, an account that is frozen already is charged back
/// like any other.
///
/// The balances after the chargeback must be storable.
pub fn chargeback(
    accounts: &mut Vec<Account>,
    tx: Transaction,
    history: &mut Vec<Transaction>,
) -> (outcome: Result<(), LedgerError>)
    requires
        all_representable(
            after_chargeback(Books::of(old(accounts)@, old(history)@), tx@).accounts,
        ),
    ensures
        outcome == chargeback_verdict(Books::of(old(accounts)@, old(history)@), tx@),
        Books::of(final(accounts)@, final(history)@) == after_chargeback(
            Books::of(old(accounts)@, old(history)@),
            tx@,
        ),
        outcome is Err ==> {
            &&& final(accounts)@ == old(accounts)@
            &&& final(history)@ == old(history)@
        },
        all_balanced(account_table(old(accounts)@)) ==> all_balanced(
            account_table(final(accounts)@),
        ),
{
    let ghost before = Books::of(accounts@, history@);
    let target = match locate(accounts, history, &tx, true) {
        Ok(target) => target,
        Err(error) => {
            return Err(error);
        },
    };
    let mut account = accounts[target.account];
    match target.kind {
        TransactionType::Deposit => {
            assert(after_chargeback(before, tx@).accounts[target.account as int]
                == before.accounts[target.account as int].charge_back(target.amount@));
            account.held = account.held.minus(target.amount);
            account.total = account.total.minus(target.amount);
            account.locked = true;
        },
        TransactionType::Withdraw => {
            assert(after_chargeback(before, tx@).accounts[target.account as int]
                == before.accounts[target.account as int].charge_back(target.amount@));
            account.held = account.held.minus(target.amount);
            account.total = account.total.minus(target.amount);
            account.locked = true;
        },
        _ => {
            return Err(LedgerError::NotChargebackable);
        },
    }
    accounts.set(target.account, account);
    let mut event = history[target.entry];
    event.under_dispute = false;
    history.set(target.entry, event);
    assert(Books::of(accounts@, history@) =~~= after_chargeback(before, tx@));
    Ok(())
}

/// Whether every balance can be stored after `tx` was handled on the given
/// books.
pub fn fits(accounts: &Vec<Account>, history: &Vec<Transaction>, tx: &Transaction) -> (fits: bool)
    ensures
        fits == all_representable(applied(Books::of(accounts@, history@), tx@).accounts),
{
    let ghost before = Books::of(accounts@, history@);
    let ghost after = applied(before, tx@).accounts;
    match tx.tx_type {
        TransactionType::Deposit => {
            let amount = match tx.amount {
                Some(amount) => amount,
                None => {
                    return true;
                },
            };
            match find_account(accounts, tx.client) {
                Some(i) => {
                    let account = accounts[i];
                    let fits = account.available.can_plus(amount) && account.total.can_plus(
                        amount,
                    );
                    assert(after[i as int] == before.accounts[i as int].credit(amount@));
                    fits
                },
                None => true,
            }
        },
        TransactionType::Withdraw => {
            let amount = match tx.amount {
                Some(amount) => amount,
                None => {
                    return true;
                },
            };
            match find_account(accounts, tx.client) {
                Some(i) => {
                    let account = accounts[i];
                    if amount.at_most(account.available) {
                        let fits = account.available.can_minus(amount)
                            && account.total.can_minus(amount);
                        assert(after[i as int] == before.accounts[i as int].debit(amount@));
                        fits
                    } else {
                        true
                    }
                },
                None => true,
            }
        },
        TransactionType::Dispute => {
            match locate(accounts, history, tx, false) {
                Ok(target) => {
                    let account = accounts[target.account];
                    let ghost i = target.account as int;
                    match target.kind {
                        TransactionType::Deposit => {
                            let fits = account.available.can_minus(target.amount)
                                && account.held.can_plus(target.amount);
                            assert(after[i] == before.accounts[i].hold(target.amount@));
                            fits
                        },
                        TransactionType::Withdraw => {
                            let fits = account.held.can_plus(target.amount)
                                && account.total.can_plus(target.amount);
                            assert(after[i] == before.accounts[i].recredit(target.amount@));
                            fits
                        },
                        _ => true,
                    }
                },
                Err(_) => true,
            }
        },
        TransactionType::Resolve => {
            match locate(accounts, history, tx, true) {
                Ok(target) => {
                    let account = accounts[target.account];
                    let ghost i = target.account as int;
                    match target.kind {
                        TransactionType::Deposit | TransactionType::Withdraw => {
                            let fits = account.available.can_plus(target.amount)
                                && account.held.can_minus(target.amount);
                            assert(after[i] == before.accounts[i].release(target.amount@));
                            fits
                        },
                        _ => true,
                    }
                },
                Err(_) => true,
            }
        },
        TransactionType::Chargeback => {
            match locate(accounts, history, tx, true) {
                Ok(target) => {
                    let account = accounts[target.account];
                    let ghost i = target.account as int;
                    match target.kind {
                        TransactionType::Deposit | TransactionType::Withdraw => {
                            let fits = account.held.can_minus(target.amount)
                                && account.total.can_minus(target.amount);
                            assert(after[i] == before.accounts[i].charge_back(target.amount@));
                            fits
                        },
                        _ => true,
                    }
                },
                Err(_) => true,
            }
        },
    }
}

} // verus!

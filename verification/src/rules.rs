//! The rules of the ledger, stated over the model of the books.
//!
//! Each kind of event has a verdict, which says whether the event is applied
//! or why it is turned down, and an effect, which is the state of the books
//! after it. An event that is turned down has no effect.

use crate::account::{account_index, account_table, all_representable, Account, AccountView};
use crate::error::LedgerError;
use crate::transaction::{
    event_index, event_log, Transaction, TransactionType, TransactionView,
};
use vstd::prelude::*;

verus! {

/// The books: the account table and the event log.
#[verifier::ext_equal]
pub struct Books {
    /// One account per client, in the order in which they were opened.
    pub accounts: Seq<AccountView>,
    /// Every event that arrived, in order of arrival.
    pub history: Seq<TransactionView>,
}

impl Books {
    /// The books before any event has arrived.
    pub open spec fn empty() -> Books {
        Books { accounts: Seq::empty(), history: Seq::empty() }
    }

    /// The books that a vector of accounts and a vector of events stand for.
    pub open spec fn of(accounts: Seq<Account>, history: Seq<Transaction>) -> Books {
        Books { accounts: account_table(accounts), history: event_log(history) }
    }

    /// The books with other accounts and the same log.
    pub open spec fn with_accounts(self, accounts: Seq<AccountView>) -> Books {
        Books { accounts, ..self }
    }
}

/// Whether a deposit is applied: it needs an amount.
pub open spec fn deposit_verdict(tx: TransactionView) -> Result<(), LedgerError> {
    if tx.amount is Some {
        Ok(())
    } else {
        Err(LedgerError::MissingAmount)
    }
}

/// The account table after a deposit: the amount is credited to the client's
/// account, which is opened at the end of the table if the client has none.
pub open spec fn after_deposit(accounts: Seq<AccountView>, tx: TransactionView) -> Seq<
    AccountView,
> {
    match tx.amount {
        None => accounts,
        Some(amount) => match account_index(accounts, tx.client) {
            Some(i) => accounts.update(i, accounts[i].credit(amount)),
            None => accounts.push(AccountView::opened(tx.client, amount)),
        },
    }
}

/// Whether a withdrawal is applied: it needs an amount, an account of the
/// client, and available funds that cover the amount.
pub open spec fn withdraw_verdict(accounts: Seq<AccountView>, tx: TransactionView) -> Result<
    (),
    LedgerError,
> {
    match tx.amount {
        None => Err(LedgerError::MissingAmount),
        Some(amount) => match account_index(accounts, tx.client) {
            None => Err(LedgerError::AccountNotFound),
            Some(i) => if amount <= accounts[i].available {
                Ok(())
            } else {
                Err(LedgerError::InsufficientFunds)
            },
        },
    }
}

/// The account table after a withdrawal: the amount is debited from the
/// client's account.
pub open spec fn after_withdraw(accounts: Seq<AccountView>, tx: TransactionView) -> Seq<
    AccountView,
> {
    if withdraw_verdict(accounts, tx) is Ok {
        let i = account_index(accounts, tx.client).unwrap();
        accounts.update(i, accounts[i].debit(tx.amount.unwrap()))
    } else {
        accounts
    }
}

/// What a dispute, a resolution or a chargeback refers to.
pub struct Reference {
    /// The position in the log of the event referred to.
    pub entry: int,
    /// The position in the table of the account that holds its funds.
    pub account: int,
    /// The amount of the event referred to.
    pub amount: int,
    /// The kind of the event referred to.
    pub kind: TransactionType,
}

/// Finds what `tx` refers to: the first logged event with the identifier of
/// `tx`, which must have an amount and must be under dispute exactly if
/// `disputed` says so, and the first account of the client that both `tx` and
/// that event name.
pub open spec fn reference(books: Books, tx: TransactionView, disputed: bool) -> Result<
    Reference,
    LedgerError,
> {
    match event_index(books.history, tx.id) {
        None => Err(LedgerError::TransactionNotFound),
        Some(entry) => {
            let event = books.history[entry];
            match event.amount {
                None => Err(LedgerError::MissingAmount),
                Some(amount) => if event.under_dispute && !disputed {
                    Err(LedgerError::AlreadyDisputed)
                } else if !event.under_dispute && disputed {
                    Err(LedgerError::NotUnderDispute)
                } else if tx.client != event.client {
                    Err(LedgerError::AccountNotFound)
                } else {
                    match account_index(books.accounts, tx.client) {
                        None => Err(LedgerError::AccountNotFound),
                        Some(account) => Ok(
                            Reference { entry, account, amount, kind: event.tx_type },
                        ),
                    }
                },
            }
        },
    }
}

/// The books after the event at `target.entry` got the dispute flag
/// `under_dispute` and the account at `target.account` became `account`.
pub open spec fn settled(
    books: Books,
    target: Reference,
    account: AccountView,
    under_dispute: bool,
) -> Books {
    Books {
        accounts: books.accounts.update(target.account, account),
        history: books.history.update(
            target.entry,
            books.history[target.entry].flagged(under_dispute),
        ),
    }
}

/// Whether a dispute is applied: it must refer to a deposit or a withdrawal
/// that is not under dispute.
pub open spec fn dispute_verdict(books: Books, tx: TransactionView) -> Result<(), LedgerError> {
    match reference(books, tx, false) {
        Err(error) => Err(error),
        Ok(target) => if target.kind.moves_funds() {
            Ok(())
        } else {
            Err(LedgerError::NotDisputable)
        },
    }
}

/// The books after a dispute. The amount of a disputed deposit moves from
/// available to held; the amount of a disputed withdrawal comes back as held
/// funds. The event is then under dispute.
pub open spec fn after_dispute(books: Books, tx: TransactionView) -> Books {
    if dispute_verdict(books, tx) is Ok {
        let target = reference(books, tx, false).unwrap();
        let account = books.accounts[target.account];
        settled(
            books,
            target,
            if target.kind is Deposit {
                account.hold(target.amount)
            } else {
                account.recredit(target.amount)
            },
            true,
        )
    } else {
        books
    }
}

/// Whether a resolution is applied: it must refer to a deposit or a withdrawal
/// that is under dispute.
pub open spec fn resolve_verdict(books: Books, tx: TransactionView) -> Result<(), LedgerError> {
    match reference(books, tx, true) {
        Err(error) => Err(error),
        Ok(target) => if target.kind.moves_funds() {
            Ok(())
        } else {
            Err(LedgerError::NotResolvable)
        },
    }
}

/// The books after a resolution: the amount moves from held to available, and
/// the event is no longer under dispute.
pub open spec fn after_resolve(books: Books, tx: TransactionView) -> Books {
    if resolve_verdict(books, tx) is Ok {
        let target = reference(books, tx, true).unwrap();
        settled(books, target, books.accounts[target.account].release(target.amount), false)
    } else {
        books
    }
}

/// Whether a chargeback is applied: it must refer to a deposit or a withdrawal
/// that is under dispute.
pub open spec fn chargeback_verdict(books: Books, tx: TransactionView) -> Result<
    (),
    LedgerError,
> {
    match reference(books, tx, true) {
        Err(error) => Err(error),
        Ok(target) => if target.kind.moves_funds() {
            Ok(())
        } else {
            Err(LedgerError::NotChargebackable)
        },
    }
}

/// The books after a chargeback: the amount leaves the held funds and the
/// total, the account is frozen, and the event is no longer under dispute.
pub open spec fn after_chargeback(books: Books, tx: TransactionView) -> Books {
    if chargeback_verdict(books, tx) is Ok {
        let target = reference(books, tx, true).unwrap();
        settled(books, target, books.accounts[target.account].charge_back(target.amount), false)
    } else {
        books
    }
}

/// Whether an event is applied to the books, by its kind.
pub open spec fn verdict(books: Books, tx: TransactionView) -> Result<(), LedgerError> {
    match tx.tx_type {
        TransactionType::Deposit => deposit_verdict(tx),
        TransactionType::Withdraw => withdraw_verdict(books.accounts, tx),
        TransactionType::Dispute => dispute_verdict(books, tx),
        TransactionType::Resolve => resolve_verdict(books, tx),
        TransactionType::Chargeback => chargeback_verdict(books, tx),
    }
}

/// The books after an event, by its kind.
pub open spec fn applied(books: Books, tx: TransactionView) -> Books {
    match tx.tx_type {
        TransactionType::Deposit => books.with_accounts(after_deposit(books.accounts, tx)),
        TransactionType::Withdraw => books.with_accounts(after_withdraw(books.accounts, tx)),
        TransactionType::Dispute => after_dispute(books, tx),
        TransactionType::Resolve => after_resolve(books, tx),
        TransactionType::Chargeback => after_chargeback(books, tx),
    }
}

/// The books with `record` added at the end of the log.
pub open spec fn logged(books: Books, record: TransactionView) -> Books {
    Books { history: books.history.push(record), ..books }
}

/// Whether an arriving record is applied. The record is logged first, so a
/// record without an earlier event of its identifier refers to itself.
pub open spec fn step_verdict(books: Books, record: TransactionView) -> Result<(), LedgerError> {
    verdict(logged(books, record), record)
}

/// The books after an arriving record was logged and handled.
pub open spec fn step(books: Books, record: TransactionView) -> Books {
    applied(logged(books, record), record)
}

/// The books after a whole sequence of records, starting from empty books.
pub open spec fn replay(records: Seq<TransactionView>) -> Books
    decreases records.len(),
{
    if records.len() == 0 {
        Books::empty()
    } else {
        step(replay(records.drop_last()), records.last())
    }
}

/// The verdict on each record of a sequence, in order.
pub open spec fn verdicts(records: Seq<TransactionView>) -> Seq<Result<(), LedgerError>> {
    Seq::new(records.len(), |i: int| step_verdict(replay(records.take(i)), records[i]))
}

/// Every balance that arises while the records are replayed can be stored.
pub open spec fn storable(records: Seq<TransactionView>) -> bool {
    forall|n: int|
        0 <= n <= records.len() ==> all_representable(
            #[trigger] replay(records.take(n)).accounts,
        )
}

} // verus!

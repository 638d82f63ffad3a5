//! Laws of the ledger: what holds of every state of the books and of every
//! event, proved from the rules.

use crate::account::{
    account_index, all_balanced, is_account_of, lemma_account_index, AccountView,
};
use crate::error::LedgerError;
use crate::rules::{
    after_chargeback, after_dispute, after_resolve, after_withdraw, applied,
    chargeback_verdict, dispute_verdict, logged, reference, replay, resolve_verdict, step,
    step_verdict, verdict, withdraw_verdict, Books,
};
use crate::transaction::{
    event_index, is_event_of, lemma_event_index, lowered, TransactionType, TransactionView,
};
use vstd::prelude::*;

verus! {

/// Every kind is read back from its own name.
pub proof fn lemma_name_is_read_back(kind: TransactionType)
    ensures
        TransactionType::named(kind.name()) == Some(kind),
{
    reveal_strlit("deposit");
    reveal_strlit("withdraw");
    reveal_strlit("dispute");
    reveal_strlit("resolve");
    reveal_strlit("chargeback");
    // The names of seven letters differ in one of their first two.
    assert(lowered("dispute"@[1]) != "deposit"@[1]);
    assert(lowered("resolve"@[0]) != "deposit"@[0]);
    assert(lowered("resolve"@[0]) != "dispute"@[0]);
}

/// A record whose identifier is in the log already refers to the same event
/// and the same account after it was logged itself.
pub proof fn lemma_logged_reference(books: Books, record: TransactionView, disputed: bool)
    requires
        event_index(books.history, record.id) is Some,
    ensures
        reference(logged(books, record), record, disputed) == reference(books, record, disputed),
{
    let log = logged(books, record);
    let entry = event_index(books.history, record.id).unwrap();
    lemma_event_index(books.history, record.id);
    lemma_event_index(log.history, record.id);
    assert(log.history[entry] == books.history[entry]);
}

/// A record that is logged before it is handled has the effect on the accounts
/// that it would have had without being logged: where it refers to itself, it
/// is of a kind that moves no funds.
pub proof fn lemma_logging_keeps_accounts(books: Books, record: TransactionView)
    ensures
        step(books, record).accounts == applied(books, record).accounts,
{
    let log = logged(books, record);
    if event_index(books.history, record.id) is Some {
        lemma_logged_reference(books, record, true);
        lemma_logged_reference(books, record, false);
    } else {
        assert(is_event_of(log.history, record.id, books.history.len() as int)) by {
            lemma_event_index(books.history, record.id);
        }
        lemma_event_index(log.history, record.id);
    }
}

/// An event that is turned down changes neither the accounts nor the log.
pub proof fn lemma_turned_down_changes_nothing(books: Books, tx: TransactionView)
    requires
        verdict(books, tx) is Err,
    ensures
        applied(books, tx) == books,
{
}

/// On books in which the total of every account is the sum of what is available
/// and what is held, the same holds after any event, applied or turned down.
pub proof fn lemma_balance_is_kept(books: Books, tx: TransactionView)
    requires
        all_balanced(books.accounts),
    ensures
        all_balanced(applied(books, tx).accounts),
        all_balanced(step(books, tx).accounts),
{
    lemma_account_index(books.accounts, tx.client);
}

/// After any sequence of records replayed on empty books, the total of every
/// account is the sum of what is available and what is held.
pub proof fn lemma_replay_is_balanced(records: Seq<TransactionView>)
    ensures
        all_balanced(replay(records).accounts),
    decreases records.len(),
{
    if records.len() > 0 {
        lemma_replay_is_balanced(records.drop_last());
        lemma_balance_is_kept(replay(records.drop_last()), records.last());
    }
}

/// A withdrawal that is applied never leaves less than nothing available.
pub proof fn lemma_withdrawal_leaves_available_funds(
    accounts: Seq<AccountView>,
    tx: TransactionView,
)
    requires
        withdraw_verdict(accounts, tx) is Ok,
    ensures
        after_withdraw(accounts, tx)[account_index(accounts, tx.client).unwrap()].available >= 0,
{
    lemma_account_index(accounts, tx.client);
}

/// After a dispute was applied, a second dispute of the same event is turned
/// down as already disputed, whoever raises it, and changes nothing.
pub proof fn lemma_second_dispute_is_turned_down(
    books: Books,
    first: TransactionView,
    second: TransactionView,
)
    requires
        dispute_verdict(books, first) is Ok,
        second.id == first.id,
    ensures
        dispute_verdict(after_dispute(books, first), second) == Err::<(), LedgerError>(
            LedgerError::AlreadyDisputed,
        ),
        after_dispute(after_dispute(books, first), second) == after_dispute(books, first),
{
    let target = reference(books, first, false).unwrap();
    let disputed = after_dispute(books, first);
    lemma_event_index(books.history, first.id);
    assert(is_event_of(disputed.history, second.id, target.entry));
    lemma_event_index(disputed.history, second.id);
}

/// After a dispute record was applied, a second dispute record for the same
/// event is turned down as already disputed. It is logged, and changes nothing
/// else.
pub proof fn lemma_second_dispute_record_is_turned_down(
    books: Books,
    first: TransactionView,
    second: TransactionView,
)
    requires
        first.tx_type is Dispute,
        second.tx_type is Dispute,
        second.id == first.id,
        step_verdict(books, first) is Ok,
    ensures
        step_verdict(step(books, first), second) == Err::<(), LedgerError>(
            LedgerError::AlreadyDisputed,
        ),
        step(step(books, first), second) == logged(step(books, first), second),
{
    let disputed = step(books, first);
    lemma_second_dispute_is_turned_down(logged(books, first), first, second);
    lemma_event_index(disputed.history, second.id);
    lemma_logged_reference(disputed, second, false);
}

/// After a dispute of a deposit was applied, a resolution of the same event is
/// applied exactly if it names the same client, and it then restores the books
/// to what they were before the dispute: what is available and what is held are
/// as before, and the total has not changed at any point.
pub proof fn lemma_resolve_undoes_dispute_of_deposit(
    books: Books,
    dispute: TransactionView,
    resolve: TransactionView,
)
    requires
        dispute_verdict(books, dispute) is Ok,
        reference(books, dispute, false).unwrap().kind is Deposit,
        resolve.id == dispute.id,
    ensures
        resolve_verdict(after_dispute(books, dispute), resolve) is Ok <==> resolve.client
            == dispute.client,
        resolve.client == dispute.client ==> after_resolve(
            after_dispute(books, dispute),
            resolve,
        ) == books,
        ({
            let account = reference(books, dispute, false).unwrap().account;
            after_dispute(books, dispute).accounts[account].total == books.accounts[account].total
        }),
{
    let target = reference(books, dispute, false).unwrap();
    let disputed = after_dispute(books, dispute);
    lemma_event_index(books.history, dispute.id);
    lemma_account_index(books.accounts, dispute.client);
    assert(is_event_of(disputed.history, resolve.id, target.entry));
    lemma_event_index(disputed.history, resolve.id);
    if resolve.client == dispute.client {
        assert(is_account_of(disputed.accounts, resolve.client, target.account));
        lemma_account_index(disputed.accounts, resolve.client);
        assert(after_resolve(disputed, resolve) =~~= books);
    }
}

/// After a dispute record for a deposit was applied, a resolve record for the
/// same event and client is applied, and every account is as it was before
/// the two records. The log has grown by the two records and is otherwise as
/// it was.
pub proof fn lemma_resolve_record_undoes_dispute_record(
    books: Books,
    dispute: TransactionView,
    resolve: TransactionView,
)
    requires
        dispute.tx_type is Dispute,
        resolve.tx_type is Resolve,
        resolve.id == dispute.id,
        resolve.client == dispute.client,
        step_verdict(books, dispute) is Ok,
        reference(logged(books, dispute), dispute, false).unwrap().kind is Deposit,
    ensures
        step_verdict(step(books, dispute), resolve) is Ok,
        step(step(books, dispute), resolve).accounts == books.accounts,
        step(step(books, dispute), resolve).history == books.history.push(dispute).push(resolve),
{
    let disputed = step(books, dispute);
    lemma_resolve_undoes_dispute_of_deposit(logged(books, dispute), dispute, resolve);
    lemma_event_index(logged(books, dispute).history, dispute.id);
    lemma_event_index(disputed.history, resolve.id);
    lemma_logged_reference(disputed, resolve, true);
    let resolved = step(disputed, resolve);
    assert(resolved.accounts =~= books.accounts);
    assert(resolved.history =~= books.history.push(dispute).push(resolve));
}

/// After a dispute of a withdrawal was applied, a resolution of the same event
/// by the same client is applied. It brings what is held back to what it was
/// before the dispute, and leaves both what is available and the total higher
/// than before the dispute by the amount of the withdrawal.
pub proof fn lemma_resolve_after_dispute_of_withdrawal(
    books: Books,
    dispute: TransactionView,
    resolve: TransactionView,
)
    requires
        dispute_verdict(books, dispute) is Ok,
        reference(books, dispute, false).unwrap().kind is Withdraw,
        resolve.id == dispute.id,
        resolve.client == dispute.client,
    ensures
        resolve_verdict(after_dispute(books, dispute), resolve) is Ok,
        ({
            let target = reference(books, dispute, false).unwrap();
            let before = books.accounts[target.account];
            let resolved = after_resolve(after_dispute(books, dispute), resolve);
            &&& resolved.history == books.history
            &&& resolved.accounts == books.accounts.update(
                target.account,
                AccountView {
                    available: before.available + target.amount,
                    total: before.total + target.amount,
                    ..before
                },
            )
        }),
{
    let target = reference(books, dispute, false).unwrap();
    let disputed = after_dispute(books, dispute);
    lemma_event_index(books.history, dispute.id);
    lemma_account_index(books.accounts, dispute.client);
    assert(is_event_of(disputed.history, resolve.id, target.entry));
    lemma_event_index(disputed.history, resolve.id);
    assert(is_account_of(disputed.accounts, resolve.client, target.account));
    lemma_account_index(disputed.accounts, resolve.client);
}

/// A lock does not stop a chargeback: on a locked account, a chargeback that
/// refers to a disputed deposit or withdrawal of that account is applied, takes
/// the amount out of what is held and out of the total, leaves what is
/// available alone, and the account stays locked.
pub proof fn lemma_chargeback_ignores_lock(books: Books, tx: TransactionView)
    requires
        reference(books, tx, true) is Ok,
        reference(books, tx, true).unwrap().kind.moves_funds(),
        books.accounts[reference(books, tx, true).unwrap().account].locked,
    ensures
        chargeback_verdict(books, tx) is Ok,
        ({
            let target = reference(books, tx, true).unwrap();
            let before = books.accounts[target.account];
            let after = after_chargeback(books, tx).accounts[target.account];
            &&& after.held == before.held - target.amount
            &&& after.total == before.total - target.amount
            &&& after.available == before.available
            &&& after.locked
        }),
{
    lemma_account_index(books.accounts, tx.client);
}

/// Two account tables that differ in nothing but the locks of their accounts.
pub open spec fn same_but_for_locks(one: Seq<AccountView>, other: Seq<AccountView>) -> bool {
    &&& one.len() == other.len()
    &&& forall|i: int|
        0 <= i < one.len() ==> (#[trigger] other[i]) == (AccountView {
            locked: other[i].locked,
            ..one[i]
        })
}

/// No lock gates any event. On books that differ from `books` in nothing but
/// the locks of their accounts, every event gets the same verdict, and leaves
/// the same log and the same balances.
pub proof fn lemma_locks_gate_nothing(books: Books, other: Books, tx: TransactionView)
    requires
        other.history == books.history,
        same_but_for_locks(books.accounts, other.accounts),
    ensures
        verdict(other, tx) == verdict(books, tx),
        applied(other, tx).history == applied(books, tx).history,
        same_but_for_locks(applied(books, tx).accounts, applied(other, tx).accounts),
{
    assert(account_index(other.accounts, tx.client) == account_index(books.accounts, tx.client))
        by {
        lemma_account_index(books.accounts, tx.client);
        lemma_account_index(other.accounts, tx.client);
        assert forall|j: int| 0 <= j < books.accounts.len() implies (
        #[trigger] other.accounts[j]).client == books.accounts[j].client by {}
        if account_index(books.accounts, tx.client) is Some {
            let i = account_index(books.accounts, tx.client).unwrap();
            assert(is_account_of(other.accounts, tx.client, i));
        }
    }
    let mine = applied(books, tx).accounts;
    let theirs = applied(other, tx).accounts;
    assert forall|i: int| 0 <= i < mine.len() implies (#[trigger] theirs[i]) == (AccountView {
        locked: theirs[i].locked,
        ..mine[i]
    }) by {
        if i < books.accounts.len() {
            assert(other.accounts[i].client == books.accounts[i].client);
        }
    }
}

/// What an arriving record can and cannot do to the books. The log grows by the
/// record, and its earlier entries change in nothing but their dispute flag,
/// and in that only when a dispute, a resolution or a chargeback is applied.
/// No account is removed or changes its client, no lock is lifted, at most
/// one account is opened, and every account of another client than the
/// record's stays as it is. A record that is turned down changes no account.
pub proof fn lemma_step_is_local(books: Books, record: TransactionView)
    ensures
        step(books, record).history.len() == books.history.len() + 1,
        step(books, record).history.last() == record,
        forall|i: int|
            0 <= i < books.history.len() ==> (#[trigger] step(books, record).history[i]).flagged(
                books.history[i].under_dispute,
            ) == books.history[i],
        step_verdict(books, record) is Err || record.tx_type.moves_funds() ==> step(
            books,
            record,
        ).history == books.history.push(record),
        books.accounts.len() <= step(books, record).accounts.len() <= books.accounts.len() + 1,
        forall|i: int|
            0 <= i < books.accounts.len() ==> {
                let after = #[trigger] step(books, record).accounts[i];
                &&& after.client == books.accounts[i].client
                &&& books.accounts[i].locked ==> after.locked
                &&& after.client != record.client ==> after == books.accounts[i]
            },
        step_verdict(books, record) is Err ==> step(books, record).accounts == books.accounts,
{
    let log = logged(books, record);
    lemma_account_index(log.accounts, record.client);
    lemma_event_index(log.history, record.id);
    assert forall|i: int| 0 <= i < books.history.len() implies (#[trigger] step(
        books,
        record,
    ).history[i]).flagged(books.history[i].under_dispute) == books.history[i] by {
        assert(log.history[i] == books.history[i]);
    }
}

} // verus!

//! The driver: it logs each arriving record, hands it to the handler of its
//! kind, and goes on with the next record whatever the handler said.

use crate::account::{account_table, all_balanced, all_representable, Account};
use crate::error::LedgerError;
use crate::handlers::{chargeback, deposit, dispute, fits, resolve, withdraw};
use crate::laws::lemma_logging_keeps_accounts;
use crate::rules::{logged, replay, step, step_verdict, storable, verdicts, Books};
use crate::transaction::{event_log, Transaction, TransactionType};
use vstd::prelude::*;

verus! {

/// The books of one run: the account table and the event log.
#[derive(Debug)]
pub struct Ledger {
    /// One account per client, in the order in which they were opened.
    pub accounts: Vec<Account>,
    /// Every record that arrived, in order of arrival.
    pub history: Vec<Transaction>,
}

impl View for Ledger {
    type V = Books;

    open spec fn view(&self) -> Books {
        Books::of(self.accounts@, self.history@)
    }
}

impl Ledger {
    /// A ledger without accounts and without events.
    pub fn new() -> (ledger: Ledger)
        ensures
            ledger@ == Books::empty(),
    {
        Ledger { accounts: Vec::new(), history: Vec::new() }
    }

    /// Every balance can be stored after `record` was logged and handled.
    pub open spec fn admits(&self, record: Transaction) -> bool {
        all_representable(step(self@, record@).accounts)
    }

    /// Whether [`Ledger::process`] may be called with `record`.
    pub fn can_process(&self, record: &Transaction) -> (admitted: bool)
        ensures
            admitted == self.admits(*record),
    {
        proof {
            lemma_logging_keeps_accounts(self@, record@);
        }
        fits(&self.accounts, &self.history, record)
    }

    /// Logs `record` and hands it to the handler of its kind.
    pub fn process(&mut self, record: Transaction) -> (outcome: Result<(), LedgerError>)
        requires
            old(self).admits(record),
        ensures
            outcome == step_verdict(old(self)@, record@),
            final(self)@ == step(old(self)@, record@),
            outcome is Err ==> {
                &&& final(self).accounts@ == old(self).accounts@
                &&& final(self).history@ == old(self).history@.push(record)
            },
            all_balanced(old(self)@.accounts) ==> all_balanced(final(self)@.accounts),
    {
        self.history.push(record);
        assert(self@ =~~= logged(old(self)@, record@));
        match record.tx_type {
            TransactionType::Deposit => deposit(&mut self.accounts, record),
            TransactionType::Withdraw => withdraw(&mut self.accounts, record),
            TransactionType::Dispute => dispute(&mut self.accounts, record, &mut self.history),
            TransactionType::Resolve => resolve(&mut self.accounts, record, &mut self.history),
            TransactionType::Chargeback => chargeback(
                &mut self.accounts,
                record,
                &mut self.history,
            ),
        }
    }

    /// Logs and handles `record` if every balance can be stored afterwards,
    /// and leaves the ledger as it is otherwise.
    pub fn try_process(&mut self, record: Transaction) -> (outcome: Option<
        Result<(), LedgerError>,
    >)
        ensures
            outcome is Some <==> old(self).admits(record),
            match outcome {
                Some(verdict) => {
                    &&& verdict == step_verdict(old(self)@, record@)
                    &&& final(self)@ == step(old(self)@, record@)
                    &&& verdict is Err ==> {
                        &&& final(self).accounts@ == old(self).accounts@
                        &&& final(self).history@ == old(self).history@.push(record)
                    }
                },
                None => *final(self) == *old(self),
            },
            all_balanced(old(self)@.accounts) ==> all_balanced(final(self)@.accounts),
    {
        if self.can_process(&record) {
            Some(self.process(record))
        } else {
            None
        }
    }
}

/// What a run over a sequence of records leaves behind.
#[derive(Debug)]
pub struct Report {
    /// The account of every client that made a deposit, in the order in which
    /// the accounts were opened.
    pub accounts: Vec<Account>,
    /// For each record, in order of arrival, whether it was applied or why it
    /// was turned down.
    pub outcomes: Vec<Result<(), LedgerError>>,
}

/// Replays `records` in order on empty books. A record that is turned down
/// changes nothing, and the run goes on with the next one.
///
/// There is no report if a balance that arises on the way cannot be stored.
pub fn run(records: &Vec<Transaction>) -> (report: Option<Report>)
    ensures
        report is Some <==> storable(event_log(records@)),
        report matches Some(report) ==> {
            &&& account_table(report.accounts@) == replay(event_log(records@)).accounts
            &&& report.outcomes@ == verdicts(event_log(records@))
            &&& all_balanced(account_table(report.accounts@))
        },
{
    let ghost log = event_log(records@);
    let mut ledger = Ledger::new();
    let mut outcomes: Vec<Result<(), LedgerError>> = Vec::new();
    let mut i: usize = 0;
    while i < records.len()
        invariant
            i <= records.len(),
            log == event_log(records@),
            ledger@ == replay(log.take(i as int)),
            all_balanced(ledger@.accounts),
            outcomes@.len() == i,
            forall|k: int|
                0 <= k < i ==> outcomes@[k] == step_verdict(
                    #[trigger] replay(log.take(k)),
                    log[k],
                ),
            forall|n: int|
                0 <= n <= i ==> all_representable(#[trigger] replay(log.take(n)).accounts),
        decreases records.len() - i,
    {
        let record = records[i];
        proof {
            let next = log.take(i as int + 1);
            assert(next.drop_last() =~= log.take(i as int));
            assert(replay(next) == step(replay(log.take(i as int)), record@));
        }
        match ledger.try_process(record) {
            Some(outcome) => {
                outcomes.push(outcome);
            },
            None => {
                return None;
            },
        }
        i += 1;
    }
    assert(log.take(i as int) =~= log);
    Some(Report { accounts: ledger.accounts, outcomes })
}

} // verus!

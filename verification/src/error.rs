//! The reasons for which a single event is turned down.

use crate::transaction::TransactionType;
use vstd::prelude::*;

verus! {

/// Why an event was not applied. An event that is turned down changes nothing,
/// and the events after it are handled as if it had not arrived.
#[derive(Clone, Copy, Debug, PartialEq, Eq, Structural)]
pub enum LedgerError {
    /// A deposit or withdrawal carries no amount, or the event referred to has
    /// none.
    MissingAmount,
    /// The client has no account.
    AccountNotFound,
    /// A withdrawal asks for more than is available.
    InsufficientFunds,
    /// No logged event has the identifier referred to.
    TransactionNotFound,
    /// The event referred to is under dispute already.
    AlreadyDisputed,
    /// The event referred to is not under dispute.
    NotUnderDispute,
    /// The event referred to is of a kind that cannot be disputed.
    NotDisputable,
    /// The event referred to is of a kind that cannot be resolved.
    NotResolvable,
    /// The event referred to is of a kind that cannot be charged back.
    NotChargebackable,
}

impl LedgerError {
    /// The words in which the error is reported for an event of the given
    /// kind.
    pub open spec fn text(self, kind: TransactionType) -> Seq<char> {
        match self {
            LedgerError::MissingAmount => if kind.moves_funds() {
                "Deposit amount required"@
            } else {
                "Disputed transaction does not have a valid amount"@
            },
            LedgerError::AccountNotFound => "Account not found"@,
            LedgerError::InsufficientFunds => "Insufficient funds for withdraw"@,
            LedgerError::TransactionNotFound => "Disputed transaction not found"@,
            LedgerError::AlreadyDisputed => "Transactoin already under dispute"@,
            LedgerError::NotUnderDispute => if kind is Chargeback {
                "Cannot chargeback transaction not under dispute"@
            } else {
                "Cannot resolve transaction not under dispute"@
            },
            LedgerError::NotDisputable => "Cannot dispute this type of transaction"@,
            LedgerError::NotResolvable => "Cannot resolve this type of transaction"@,
            LedgerError::NotChargebackable => "Cannot chargeback this type of transaction"@,
        }
    }

    /// The words in which the error is reported for an event of the given
    /// kind.
    pub fn message(self, kind: TransactionType) -> (text: &'static str)
        ensures
            text@ == self.text(kind),
    {
        match self {
            LedgerError::MissingAmount => match kind {
                TransactionType::Deposit | TransactionType::Withdraw => "Deposit amount required",
                _ => "Disputed transaction does not have a valid amount",
            },
            LedgerError::AccountNotFound => "Account not found",
            LedgerError::InsufficientFunds => "Insufficient funds for withdraw",
            LedgerError::TransactionNotFound => "Disputed transaction not found",
            LedgerError::AlreadyDisputed => "Transactoin already under dispute",
            LedgerError::NotUnderDispute => match kind {
                TransactionType::Chargeback => "Cannot chargeback transaction not under dispute",
                _ => "Cannot resolve transaction not under dispute",
            },
            LedgerError::NotDisputable => "Cannot dispute this type of transaction",
            LedgerError::NotResolvable => "Cannot resolve this type of transaction",
            LedgerError::NotChargebackable => "Cannot chargeback this type of transaction",
        }
    }
}

} // verus!

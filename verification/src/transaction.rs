//! Events and the event log.

use crate::amount::Amount;
use vstd::prelude::*;

verus! {

/// What an event asks for.
#[derive(Clone, Copy, Debug, PartialEq, Eq, Structural)]
pub enum TransactionType {
    /// Credit the client's account.
    Deposit,
    /// Debit the client's account.
    Withdraw,
    /// Claim that an earlier event was made in error.
    Dispute,
    /// Close a dispute in favour of the disputed event.
    Resolve,
    /// Close a dispute by reversing the disputed event.
    Chargeback,
}

/// The lower-case form of an upper-case ASCII letter; any other character is
/// itself.
pub open spec fn lowered(c: char) -> char {
    if 'A' <= c && c <= 'Z' {
        ((c as u32) + 32) as char
    } else {
        c
    }
}

/// `text` spells `word`, whatever the case of its letters.
pub open spec fn spells(text: Seq<char>, word: Seq<char>) -> bool {
    &&& text.len() == word.len()
    &&& forall|i: int| 0 <= i < text.len() ==> lowered(#[trigger] text[i]) == word[i]
}

/// Whether `text` spells `word`, whatever the case of its letters.
fn spells_word(text: &str, word: &str) -> (spelt: bool)
    ensures
        spelt == spells(text@, word@),
{
    let len = text.unicode_len();
    if len != word.unicode_len() {
        return false;
    }
    let mut i: usize = 0;
    while i < len
        invariant
            i <= len,
            len == text@.len(),
            len == word@.len(),
            forall|j: int| 0 <= j < i ==> lowered(#[trigger] text@[j]) == word@[j],
        decreases len - i,
    {
        let c = text.get_char(i);
        let same = if 'A' <= c && c <= 'Z' {
            c as u32 + 32 == word.get_char(i) as u32
        } else {
            c == word.get_char(i)
        };
        if !same {
            return false;
        }
        i += 1;
    }
    true
}

impl TransactionType {
    /// Deposits and withdrawals move funds; only they can be referred to by a
    /// dispute, a resolution or a chargeback.
    pub open spec fn moves_funds(self) -> bool {
        self is Deposit || self is Withdraw
    }

    /// The name of the kind in input records, in lower case.
    pub open spec fn name(self) -> Seq<char> {
        match self {
            TransactionType::Deposit => "deposit"@,
            TransactionType::Withdraw => "withdraw"@,
            TransactionType::Dispute => "dispute"@,
            TransactionType::Resolve => "resolve"@,
            TransactionType::Chargeback => "chargeback"@,
        }
    }

    /// The kind that `text` names, if it names one.
    pub open spec fn named(text: Seq<char>) -> Option<TransactionType> {
        if spells(text, TransactionType::Deposit.name()) {
            Some(TransactionType::Deposit)
        } else if spells(text, TransactionType::Withdraw.name()) {
            Some(TransactionType::Withdraw)
        } else if spells(text, TransactionType::Dispute.name()) {
            Some(TransactionType::Dispute)
        } else if spells(text, TransactionType::Resolve.name()) {
            Some(TransactionType::Resolve)
        } else if spells(text, TransactionType::Chargeback.name()) {
            Some(TransactionType::Chargeback)
        } else {
            None
        }
    }

    /// Reads the kind of an input record from its name. Upper and lower case
    /// are not told apart.
    pub fn parse(text: &str) -> (kind: Option<TransactionType>)
        ensures
            kind == TransactionType::named(text@),
    {
        if spells_word(text, "deposit") {
            Some(TransactionType::Deposit)
        } else if spells_word(text, "withdraw") {
            Some(TransactionType::Withdraw)
        } else if spells_word(text, "dispute") {
            Some(TransactionType::Dispute)
        } else if spells_word(text, "resolve") {
            Some(TransactionType::Resolve)
        } else if spells_word(text, "chargeback") {
            Some(TransactionType::Chargeback)
        } else {
            None
        }
    }
}

/// One event of the input, and one entry of the event log.
#[derive(Clone, Copy, Debug, PartialEq, Eq)]
pub struct Transaction {
    /// What the event asks for.
    pub tx_type: TransactionType,
    /// The client the event is about.
    pub client: u16,
    /// The identifier of a deposit or withdrawal, or the identifier of the
    /// event that a dispute, resolution or chargeback refers to.
    pub id: u32,
    /// The amount of a deposit or withdrawal.
    pub amount: Option<Amount>,
    /// Whether the logged event is under dispute.
    pub under_dispute: bool,
}

/// An event whose amount is an unbounded integer, in units of 2<sup>-14</sup>.
pub struct TransactionView {
    /// What the event asks for.
    pub tx_type: TransactionType,
    /// The client the event is about.
    pub client: u16,
    /// The identifier of the event, or of the event it refers to.
    pub id: u32,
    /// The amount of a deposit or withdrawal.
    pub amount: Option<int>,
    /// Whether the logged event is under dispute.
    pub under_dispute: bool,
}

impl View for Transaction {
    type V = TransactionView;

    open spec fn view(&self) -> TransactionView {
        TransactionView {
            tx_type: self.tx_type,
            client: self.client,
            id: self.id,
            amount: match self.amount {
                Some(amount) => Some(amount@),
                None => None,
            },
            under_dispute: self.under_dispute,
        }
    }
}

impl TransactionView {
    /// The same event with its dispute flag set to `under_dispute`.
    pub open spec fn flagged(self, under_dispute: bool) -> TransactionView {
        TransactionView { under_dispute, ..self }
    }
}

/// The event log that a vector of events stands for.
pub open spec fn event_log(history: Seq<Transaction>) -> Seq<TransactionView> {
    history.map_values(|event: Transaction| event@)
}

/// `i` is the position of the first logged event with identifier `id`.
pub open spec fn is_event_of(history: Seq<TransactionView>, id: u32, i: int) -> bool {
    &&& 0 <= i < history.len()
    &&& history[i].id == id
    &&& forall|j: int| 0 <= j < i ==> (#[trigger] history[j]).id != id
}

/// The position of the first logged event with identifier `id`, if there is
/// one.
pub open spec fn event_index(history: Seq<TransactionView>, id: u32) -> Option<int> {
    if exists|i: int| is_event_of(history, id, i) {
        Some(choose|i: int| is_event_of(history, id, i))
    } else {
        None
    }
}

/// An identifier has at most one first event, and an identifier without a
/// first event is not in the log at all.
pub proof fn lemma_event_index(history: Seq<TransactionView>, id: u32)
    ensures
        match event_index(history, id) {
            Some(i) => is_event_of(history, id, i),
            None => forall|j: int| 0 <= j < history.len() ==> (#[trigger] history[j]).id != id,
        },
        forall|i: int| #[trigger]
            is_event_of(history, id, i) ==> event_index(history, id) == Some(i),
{
    assert forall|j: int| 0 <= j < history.len() && event_index(history, id) is None implies (
    #[trigger] history[j]).id != id by {
        if history[j].id == id {
            lemma_earliest_event(history, id, j);
        }
    }
}

/// Among the first `n + 1` events, one with identifier `id` implies a first
/// one.
proof fn lemma_earliest_event(history: Seq<TransactionView>, id: u32, n: int)
    requires
        0 <= n < history.len(),
        history[n].id == id,
    ensures
        exists|i: int| is_event_of(history, id, i),
    decreases n,
{
    if forall|j: int| 0 <= j < n ==> (#[trigger] history[j]).id != id {
        assert(is_event_of(history, id, n));
    } else {
        let j = choose|j: int| 0 <= j < n && (#[trigger] history[j]).id == id;
        lemma_earliest_event(history, id, j);
    }
}

/// Looks up the first logged event with identifier `id`.
pub fn find_transaction(history: &Vec<Transaction>, id: u32) -> (found: Option<usize>)
    ensures
        match found {
            Some(i) => event_index(event_log(history@), id) == Some(i as int),
            None => event_index(event_log(history@), id) is None,
        },
{
    let ghost log = event_log(history@);
    let mut i: usize = 0;
    while i < history.len()
        invariant
            i <= history.len(),
            log == event_log(history@),
            forall|j: int| 0 <= j < i ==> (#[trigger] log[j]).id != id,
        decreases history.len() - i,
    {
        if history[i].id == id {
            proof {
                assert(is_event_of(log, id, i as int));
                lemma_event_index(log, id);
            }
            return Some(i);
        }
        i += 1;
    }
    proof {
        lemma_event_index(log, id);
    }
    None
}

} // verus!

//! Client accounts and the account table.

use crate::amount::{representable, Amount};
use vstd::prelude::*;

verus! {

/// The balances of one client.
#[derive(Clone, Copy, Debug, PartialEq, Eq, Structural)]
pub struct Account {
    /// The client that owns the account.
    pub client: u16,
    /// Funds that the client may withdraw.
    pub available: Amount,
    /// Funds set aside by open disputes.
    pub held: Amount,
    /// All funds of the client.
    pub total: Amount,
    /// Whether a chargeback has frozen the account.
    pub locked: bool,
}

/// An account whose balances are unbounded integers, in units of
/// 2<sup>-14</sup>.
pub struct AccountView {
    /// The client that owns the account.
    pub client: u16,
    /// Funds that the client may withdraw.
    pub available: int,
    /// Funds set aside by open disputes.
    pub held: int,
    /// All funds of the client.
    pub total: int,
    /// Whether a chargeback has frozen the account.
    pub locked: bool,
}

impl View for Account {
    type V = AccountView;

    open spec fn view(&self) -> AccountView {
        AccountView {
            client: self.client,
            available: self.available@,
            held: self.held@,
            total: self.total@,
            locked: self.locked,
        }
    }
}

impl AccountView {
    /// The account that a first deposit of `amount` opens for `client`.
    pub open spec fn opened(client: u16, amount: int) -> AccountView {
        AccountView { client, available: amount, held: 0, total: amount, locked: false }
    }

    /// The total is the sum of what is available and what is held.
    pub open spec fn balanced(self) -> bool {
        self.total == self.available + self.held
    }

    /// Every balance can be held by an [`Amount`].
    pub open spec fn representable(self) -> bool {
        &&& representable(self.available)
        &&& representable(self.held)
        &&& representable(self.total)
    }

    /// A deposit: `amount` becomes available.
    pub open spec fn credit(self, amount: int) -> AccountView {
        AccountView {
            available: self.available + amount,
            total: self.total + amount,
            ..self
        }
    }

    /// A withdrawal: `amount` leaves the available funds.
    pub open spec fn debit(self, amount: int) -> AccountView {
        AccountView {
            available: self.available - amount,
            total: self.total - amount,
            ..self
        }
    }

    /// A dispute of a deposit: `amount` moves from available to held.
    pub open spec fn hold(self, amount: int) -> AccountView {
        AccountView { available: self.available - amount, held: self.held + amount, ..self }
    }

    /// A dispute of a withdrawal: `amount` comes back as held funds.
    pub open spec fn recredit(self, amount: int) -> AccountView {
        AccountView { held: self.held + amount, total: self.total + amount, ..self }
    }

    /// A resolution: `amount` moves from held to available.
    pub open spec fn release(self, amount: int) -> AccountView {
        AccountView { available: self.available + amount, held: self.held - amount, ..self }
    }

    /// A chargeback: `amount` leaves the held funds and the account is frozen.
    pub open spec fn charge_back(self, amount: int) -> AccountView {
        AccountView {
            held: self.held - amount,
            total: self.total - amount,
            locked: true,
            ..self
        }
    }
}

/// The account table that a vector of accounts stands for.
pub open spec fn account_table(accounts: Seq<Account>) -> Seq<AccountView> {
    accounts.map_values(|account: Account| account@)
}

/// Every account of the table is balanced.
pub open spec fn all_balanced(accounts: Seq<AccountView>) -> bool {
    forall|i: int| 0 <= i < accounts.len() ==> (#[trigger] accounts[i]).balanced()
}

/// Every account of the table can be stored.
pub open spec fn all_representable(accounts: Seq<AccountView>) -> bool {
    forall|i: int| 0 <= i < accounts.len() ==> (#[trigger] accounts[i]).representable()
}

/// `i` is the position of the first account of `client`.
pub open spec fn is_account_of(accounts: Seq<AccountView>, client: u16, i: int) -> bool {
    &&& 0 <= i < accounts.len()
    &&& accounts[i].client == client
    &&& forall|j: int| 0 <= j < i ==> (#[trigger] accounts[j]).client != client
}

/// The position of the first account of `client`, if the client has one.
pub open spec fn account_index(accounts: Seq<AccountView>, client: u16) -> Option<int> {
    if exists|i: int| is_account_of(accounts, client, i) {
        Some(choose|i: int| is_account_of(accounts, client, i))
    } else {
        None
    }
}

/// A client has at most one first account, and a client without a first
/// account has none at all.
pub proof fn lemma_account_index(accounts: Seq<AccountView>, client: u16)
    ensures
        match account_index(accounts, client) {
            Some(i) => is_account_of(accounts, client, i),
            None => forall|j: int|
                0 <= j < accounts.len() ==> (#[trigger] accounts[j]).client != client,
        },
        forall|i: int| #[trigger]
            is_account_of(accounts, client, i) ==> account_index(accounts, client) == Some(i),
{
    assert forall|j: int| 0 <= j < accounts.len() && account_index(accounts, client) is None
        implies (#[trigger] accounts[j]).client != client by {
        if accounts[j].client == client {
            lemma_earliest_account(accounts, client, j);
        }
    }
}

/// Among the first `n + 1` accounts, one of `client` implies a first one.
proof fn lemma_earliest_account(accounts: Seq<AccountView>, client: u16, n: int)
    requires
        0 <= n < accounts.len(),
        accounts[n].client == client,
    ensures
        exists|i: int| is_account_of(accounts, client, i),
    decreases n,
{
    if forall|j: int| 0 <= j < n ==> (#[trigger] accounts[j]).client != client {
        assert(is_account_of(accounts, client, n));
    } else {
        let j = choose|j: int| 0 <= j < n && (#[trigger] accounts[j]).client == client;
        lemma_earliest_account(accounts, client, j);
    }
}

/// Looks up the first account of `client`.
pub fn find_account(accounts: &Vec<Account>, client: u16) -> (found: Option<usize>)
    ensures
        match found {
            Some(i) => account_index(account_table(accounts@), client) == Some(i as int),
            None => account_index(account_table(accounts@), client) is None,
        },
{
    let ghost table = account_table(accounts@);
    let mut i: usize = 0;
    while i < accounts.len()
        invariant
            i <= accounts.len(),
            table == account_table(accounts@),
            forall|j: int| 0 <= j < i ==> (#[trigger] table[j]).client != client,
        decreases accounts.len() - i,
    {
        if accounts[i].client == client {
            proof {
                assert(is_account_of(table, client, i as int));
                lemma_account_index(table, client);
            }
            return Some(i);
        }
        i += 1;
    }
    proof {
        lemma_account_index(table, client);
    }
    None
}

} // verus!

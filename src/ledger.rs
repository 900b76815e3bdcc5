use vstd::prelude::*;
use std::collections::HashMap;
use std::ops::{AddAssign, SubAssign};

use crate::account::{Account, AccountID, AccountView};
use crate::raw_csv;
use crate::raw_csv::TransactType;
use crate::transaction::{DisputeStatus, Transaction, TransactionType, TxID};

verus! {

broadcast use vstd::std_specs::hash::group_hash_axioms;

/// Why a record could not be applied. Either one means a corrupt input stream.
#[derive(PartialEq, Eq, Structural, Clone, Copy, Debug)]
pub enum LedgerError {
    /// A deposit or withdrawal without an amount.
    MissingAmount,
    /// A balance, or the total of an account, would leave the range of an `Amount`.
    AmountOverflow,
}

/// What a ledger holds: the accounts by client and the remembered
/// deposits and withdrawals by transaction.
pub ghost struct LedgerView {
    pub accounts: Map<u16, AccountView>,
    pub transactions: Map<u32, Transaction>,
}

/// The ledger once `client` has an account, created fresh if it had none.
pub open spec fn with_account(v: LedgerView, client: u16) -> LedgerView {
    if v.accounts.contains_key(client) {
        v
    } else {
        LedgerView { accounts: v.accounts.insert(client, AccountView::fresh()), ..v }
    }
}

/// The record that a deposit or withdrawal leaves behind.
pub open spec fn record_of(t: raw_csv::Transaction, typ: TransactionType) -> Transaction {
    Transaction { typ, dispute_status: None, client_id: t.client, amount: t.amount->0 }
}

/// A deposit, on a ledger where the client's account exists.
pub open spec fn deposit_step(v: LedgerView, t: raw_csv::Transaction) -> LedgerView {
    LedgerView {
        accounts: v.accounts.insert(t.client@, v.accounts[t.client@].deposited((t.amount->0)@)),
        transactions: v.transactions.insert(t.tx@, record_of(t, TransactionType::Deposit)),
    }
}

/// A withdrawal, on a ledger where the client's account exists.
pub open spec fn withdraw_step(v: LedgerView, t: raw_csv::Transaction) -> LedgerView {
    LedgerView {
        accounts: v.accounts.insert(t.client@, v.accounts[t.client@].withdrawn((t.amount->0)@)),
        transactions: v.transactions.insert(t.tx@, record_of(t, TransactionType::Withdrawal)),
    }
}

/// The dispute state machine: a dispute, resolve or chargeback of transaction
/// `tx` against the account of `client`.
pub open spec fn dispute_step(v: LedgerView, tx: u32, client: u16, kind: TransactType) -> LedgerView {
    if !v.accounts.contains_key(client) || !v.transactions.contains_key(tx) {
        v
    } else {
        let a = v.accounts[client];
        let rec = v.transactions[tx];
        let amount = rec.amount@;
        let active = rec.dispute_status == Some(DisputeStatus::Active);
        match kind {
            TransactType::Dispute => LedgerView {
                accounts: v.accounts.insert(
                    client,
                    AccountView { available: a.available - amount, held: a.held + amount, ..a },
                ),
                transactions: v.transactions.insert(
                    tx,
                    Transaction { dispute_status: Some(DisputeStatus::Active), ..rec },
                ),
            },
            TransactType::Resolve if active => LedgerView {
                accounts: v.accounts.insert(
                    client,
                    AccountView { available: a.available + amount, held: a.held - amount, ..a },
                ),
                transactions: v.transactions.insert(
                    tx,
                    Transaction { dispute_status: Some(DisputeStatus::Resolved), ..rec },
                ),
            },
            TransactType::Chargeback if active => LedgerView {
                accounts: v.accounts.insert(
                    client,
                    AccountView { frozen: true, held: a.held - amount, ..a },
                ),
                transactions: v.transactions.insert(
                    tx,
                    Transaction { dispute_status: Some(DisputeStatus::Chargebacked), ..rec },
                ),
            },
            _ => v,
        }
    }
}

/// Whether a record of this kind carries an amount.
pub open spec fn needs_amount(kind: TransactType) -> bool {
    kind == TransactType::Deposit || kind == TransactType::Withdrawal
}

/// A record applied to a ledger where the client's account exists, with
/// balances as unbounded integers.
pub open spec fn step(v: LedgerView, t: raw_csv::Transaction) -> LedgerView {
    match t.kind {
        TransactType::Deposit => deposit_step(v, t),
        TransactType::Withdrawal => withdraw_step(v, t),
        _ => dispute_step(v, t.tx@, t.client@, t.kind),
    }
}

/// What processing `t` does: the next ledger, or the error that stops the stream.
pub open spec fn outcome(v: LedgerView, t: raw_csv::Transaction) -> Result<LedgerView, LedgerError> {
    let v1 = with_account(v, t.client@);
    if needs_amount(t.kind) && t.amount is None {
        Err(LedgerError::MissingAmount)
    } else if !step(v1, t).accounts[t.client@].fits() {
        Err(LedgerError::AmountOverflow)
    } else {
        Ok(step(v1, t))
    }
}

/// The accounts and transaction records of one input stream.
#[derive(Debug)]
pub struct Ledger {
    accounts: HashMap<u16, Account>,
    transactions: HashMap<u32, Transaction>,
    /// Each client with an account, once, in the order first seen.
    clients: Vec<u16>,
}

impl View for Ledger {
    type V = LedgerView;

    closed spec fn view(&self) -> LedgerView {
        LedgerView {
            accounts: self.accounts@.map_values(|a: Account| a@),
            transactions: self.transactions@,
        }
    }
}

impl Ledger {
    /// Every account fits, and `clients` lists each account once.
    pub closed spec fn wf(&self) -> bool {
        &&& forall|c: u16| #[trigger] self.accounts@.contains_key(c) ==> self.accounts@[c]@.fits()
        &&& forall|c: u16| #[trigger] self.accounts@.contains_key(c) ==> self.clients@.contains(c)
        &&& forall|i: int|
            0 <= i < self.clients@.len() ==> #[trigger] self.accounts@.contains_key(self.clients@[i])
        &&& self.clients@.no_duplicates()
    }

    pub fn new() -> (r: Ledger)
        ensures
            r.wf(),
            r@.accounts == Map::<u16, AccountView>::empty(),
            r@.transactions == Map::<u32, Transaction>::empty(),
    {
        let r = Ledger { accounts: HashMap::new(), transactions: HashMap::new(), clients: Vec::new() };
        assert(r@.accounts =~= Map::<u16, AccountView>::empty());
        r
    }

    /// Creates a fresh account for `client` where it has none.
    fn ensure_account(&mut self, client: u16)
        requires
            old(self).wf(),
        ensures
            final(self).wf(),
            final(self)@ == with_account(old(self)@, client),
    {
        if !self.accounts.contains_key(&client) {
            self.accounts.insert(client, Account::default());
            self.clients.push(client);
            assert(self@.accounts =~= old(self)@.accounts.insert(client, AccountView::fresh()));
            assert forall|i: int| 0 <= i < self.clients@.len() implies #[trigger] self.accounts@.contains_key(
                self.clients@[i],
            ) by {
                if i < old(self).clients@.len() {
                    assert(old(self).accounts@.contains_key(old(self).clients@[i]));
                }
            }
            assert forall|c: u16| #[trigger] self.accounts@.contains_key(c) implies self.clients@.contains(c) by {
                if c != client {
                    assert(old(self).clients@.contains(c));
                    let j = choose|j: int| 0 <= j < old(self).clients@.len() && old(self).clients@[j] == c;
                    assert(self.clients@[j] == c);
                } else {
                    assert(self.clients@[self.clients@.len() - 1] == c);
                }
            }
        }
    }

    /// Applies one record: creates the client's account if needed, then applies
    /// a deposit or withdrawal, or runs the dispute state machine.
    /// An error leaves the ledger as it was but for the new account.
    pub fn process(&mut self, transaction: raw_csv::Transaction) -> (r: Result<(), LedgerError>)
        requires
            old(self).wf(),
        ensures
            final(self).wf(),
            match outcome(old(self)@, transaction) {
                Ok(v) => r is Ok && final(self)@ == v,
                Err(e) => r == Err::<(), LedgerError>(e) && final(self)@ == with_account(
                    old(self)@,
                    transaction.client@,
                ),
            },
    {
        let client = transaction.client.id();
        self.ensure_account(client);
        assert(self@.accounts.contains_key(client));
        assert(self.accounts@.contains_key(client));
        let acc = *self.accounts.get(&client).unwrap();
        assert(self@.accounts[client] == acc@);
        match transaction.kind {
            TransactType::Deposit => {
                let amount = match transaction.amount {
                    Some(a) => a,
                    None => return Err(LedgerError::MissingAmount),
                };
                if !acc.is_frozen() {
                    let avail = acc.available_balance().checked_add(&amount);
                    let total = acc.total_balance().checked_add(&amount);
                    if avail.is_none() || total.is_none() {
                        return Err(LedgerError::AmountOverflow);
                    }
                }
                self.deposit(&transaction);
            },
            TransactType::Withdrawal => {
                let amount = match transaction.amount {
                    Some(a) => a,
                    None => return Err(LedgerError::MissingAmount),
                };
                if !acc.is_frozen() && acc.available_balance().cents() >= amount.cents() {
                    let avail = acc.available_balance().checked_sub(&amount);
                    let total = acc.total_balance().checked_sub(&amount);
                    if avail.is_none() || total.is_none() {
                        return Err(LedgerError::AmountOverflow);
                    }
                }
                self.withdraw(&transaction);
            },
            _ => {
                if !self.dispute_fits(&transaction.tx, &transaction.client, transaction.kind) {
                    return Err(LedgerError::AmountOverflow);
                }
                self.dispute(&transaction.tx, &transaction.client, transaction.kind);
            },
        }
        Ok(())
    }

    /// Whether the dispute step keeps the client's account in range.
    fn dispute_fits(&self, tx_id: &TxID, client_id: &AccountID, status: TransactType) -> (r: bool)
        requires
            self.wf(),
            self@.accounts.contains_key(client_id@),
        ensures
            r == dispute_step(self@, tx_id@, client_id@, status).accounts[client_id@].fits(),
    {
        let client = client_id.id();
        let tx = match self.transactions.get(&tx_id.id()) {
            Some(t) => *t,
            None => return true,
        };
        let acc = *self.accounts.get(&client).unwrap();
        assert(self@.accounts[client] == acc@);
        let active = tx.dispute_status == Some(DisputeStatus::Active);
        match status {
            TransactType::Dispute => {
                acc.available_balance().checked_sub(&tx.amount).is_some()
                    && acc.held_balance().checked_add(&tx.amount).is_some()
            },
            TransactType::Resolve if active => {
                acc.available_balance().checked_add(&tx.amount).is_some()
                    && acc.held_balance().checked_sub(&tx.amount).is_some()
            },
            TransactType::Chargeback if active => {
                acc.held_balance().checked_sub(&tx.amount).is_some()
                    && acc.total_balance().checked_sub(&tx.amount).is_some()
            },
            _ => true,
        }
    }

    /// Applies a deposit to an existing account and remembers it.
    pub fn deposit(&mut self, tx: &raw_csv::Transaction)
        requires
            old(self).wf(),
            old(self)@.accounts.contains_key(tx.client@),
            tx.amount is Some,
            deposit_step(old(self)@, *tx).accounts[tx.client@].fits(),
        ensures
            final(self).wf(),
            final(self)@ == deposit_step(old(self)@, *tx),
    {
        let amount = tx.amount.unwrap();
        let client = tx.client.id();
        let mut acc = *self.accounts.get(&client).unwrap();
        assert(old(self)@.accounts[client] == acc@);
        acc.deposit(&amount);
        self.accounts.insert(client, acc);
        self.transactions.insert(
            tx.tx.id(),
            Transaction {
                typ: TransactionType::Deposit,
                dispute_status: None,
                client_id: tx.client,
                amount,
            },
        );
        proof {
            self.lemma_replace_account(*old(self), client, acc);
        }
    }

    /// Applies a withdrawal to an existing account and remembers it.
    pub fn withdraw(&mut self, tx: &raw_csv::Transaction)
        requires
            old(self).wf(),
            old(self)@.accounts.contains_key(tx.client@),
            tx.amount is Some,
            withdraw_step(old(self)@, *tx).accounts[tx.client@].fits(),
        ensures
            final(self).wf(),
            final(self)@ == withdraw_step(old(self)@, *tx),
    {
        let amount = tx.amount.unwrap();
        let client = tx.client.id();
        let mut acc = *self.accounts.get(&client).unwrap();
        assert(old(self)@.accounts[client] == acc@);
        acc.withdraw(&amount);
        self.accounts.insert(client, acc);
        self.transactions.insert(
            tx.tx.id(),
            Transaction {
                typ: TransactionType::Withdrawal,
                dispute_status: None,
                client_id: tx.client,
                amount,
            },
        );
        proof {
            self.lemma_replace_account(*old(self), client, acc);
        }
    }

    /// The dispute state machine: a dispute, resolve or chargeback of `tx_id`
    /// against the account of `client_id`. Ignored where either is unknown, and
    /// a resolve or chargeback is ignored unless the dispute is active.
    pub fn dispute(&mut self, tx_id: &TxID, client_id: &AccountID, status: TransactType)
        requires
            old(self).wf(),
            old(self)@.accounts.contains_key(client_id@) ==> dispute_step(
                old(self)@,
                tx_id@,
                client_id@,
                status,
            ).accounts[client_id@].fits(),
        ensures
            final(self).wf(),
            final(self)@ == dispute_step(old(self)@, tx_id@, client_id@, status),
    {
        let client = client_id.id();
        let id = tx_id.id();
        let mut acc = match self.accounts.get(&client) {
            Some(a) => *a,
            None => return,
        };
        let mut tx = match self.transactions.get(&id) {
            Some(t) => *t,
            None => return,
        };
        assert(old(self)@.accounts[client] == acc@);
        let amount = tx.amount;
        let active = tx.dispute_status == Some(DisputeStatus::Active);
        if status == TransactType::Dispute {
            // Possible that available balance can go into negative
            acc.available_balance_mut().sub_assign(&amount);
            acc.held_balance_mut().add_assign(&amount);
            tx.dispute_status = Some(DisputeStatus::Active);
        } else if status == TransactType::Resolve && active {
            acc.available_balance_mut().add_assign(&amount);
            acc.held_balance_mut().sub_assign(&amount);
            tx.dispute_status = Some(DisputeStatus::Resolved);
        } else if status == TransactType::Chargeback && active {
            acc.held_balance_mut().sub_assign(&amount);
            acc.freeze();
            tx.dispute_status = Some(DisputeStatus::Chargebacked);
        } else {
            // a resolve or chargeback of a transaction that is not under dispute
            // is an error on the partner's side, and is ignored
            return;
        }
        self.accounts.insert(client, acc);
        self.transactions.insert(id, tx);
        proof {
            self.lemma_replace_account(*old(self), client, acc);
        }
    }

    /// After `accounts[client] = acc` on a well-formed ledger where `client`
    /// had an account, the ledger stays well-formed where `acc` fits.
    proof fn lemma_replace_account(&self, prev: Ledger, client: u16, acc: Account)
        requires
            prev.wf(),
            prev.accounts@.contains_key(client),
            self.accounts@ == prev.accounts@.insert(client, acc),
            self.clients@ == prev.clients@,
            acc@.fits(),
        ensures
            self.wf(),
            self@.accounts == prev@.accounts.insert(client, acc@),
    {
        assert(self@.accounts =~= prev@.accounts.insert(client, acc@));
        assert forall|c: u16| #[trigger] self.accounts@.contains_key(c) implies self.clients@.contains(c) by {
            assert(prev.accounts@.contains_key(c));
        }
        assert forall|i: int| 0 <= i < self.clients@.len() implies #[trigger] self.accounts@.contains_key(
            self.clients@[i],
        ) by {
            assert(prev.accounts@.contains_key(prev.clients@[i]));
        }
    }

    /// One row per account: client, balances, total and lock state.
    pub fn snapshot(&self) -> (r: Vec<raw_csv::Account>)
        requires
            self.wf(),
        ensures
            forall|i: int| 0 <= i < r@.len() ==> #[trigger] row_matches(self@, r@[i]),
            forall|c: u16|
                #[trigger] self@.accounts.contains_key(c) ==> exists|i: int|
                    0 <= i < r@.len() && #[trigger] r@[i].client == c,
            forall|i: int, j: int| 0 <= i < j < r@.len() ==> r@[i].client != r@[j].client,
    {
        let mut r: Vec<raw_csv::Account> = Vec::new();
        let n = self.clients.len();
        let mut k: usize = 0;
        while k < n
            invariant
                self.wf(),
                n == self.clients@.len(),
                0 <= k <= n,
                r@.len() == k,
                forall|i: int| 0 <= i < k ==> #[trigger] row_matches(self@, r@[i]),
                forall|i: int| 0 <= i < k ==> #[trigger] r@[i].client == self.clients@[i],
            decreases n - k,
        {
            let id = self.clients[k];
            assert(self.accounts@.contains_key(id));
            let acc = self.accounts.get(&id).unwrap();
            assert(self.accounts@[id]@.fits());
            let row = raw_csv::Account {
                client: id,
                available: *acc.available_balance(),
                held: *acc.held_balance(),
                total: acc.total_balance(),
                locked: acc.is_frozen(),
            };
            r.push(row);
            k = k + 1;
        }
        assert forall|c: u16| #[trigger] self@.accounts.contains_key(c) implies exists|i: int|
            0 <= i < r@.len() && #[trigger] r@[i].client == c by {
            assert(self.clients@.contains(c));
            let j = choose|j: int| 0 <= j < self.clients@.len() && self.clients@[j] == c;
            assert(r@[j].client == c);
        }
        r
    }
}

/// `row` is the snapshot row of an account of `v`.
pub open spec fn row_matches(v: LedgerView, row: raw_csv::Account) -> bool {
    &&& v.accounts.contains_key(row.client)
    &&& row.available@ == v.accounts[row.client].available
    &&& row.held@ == v.accounts[row.client].held
    &&& row.total@ == v.accounts[row.client].total()
    &&& row.locked == v.accounts[row.client].frozen
}

/// Every account of `v` fits in the range of an `Amount`.
pub open spec fn accounts_fit(v: LedgerView) -> bool {
    forall|c: u16| #[trigger] v.accounts.contains_key(c) ==> v.accounts[c].fits()
}

/// A dispute of a known transaction of amount `A` takes `A` from the available
/// balance of the client's account and adds it to the held balance: the total
/// and the lock state stay as they were.
pub proof fn lemma_dispute_holds_amount(v: LedgerView, t: raw_csv::Transaction)
    requires
        t.kind == TransactType::Dispute,
        v.transactions.contains_key(t.tx@),
        outcome(v, t) is Ok,
    ensures
        ({
            let before = with_account(v, t.client@).accounts[t.client@];
            let after = outcome(v, t)->Ok_0.accounts[t.client@];
            let amount = v.transactions[t.tx@].amount@;
            &&& after.available == before.available - amount
            &&& after.held == before.held + amount
            &&& after.total() == before.total()
            &&& after.frozen == before.frozen
        }),
{
}

/// A resolve right after a dispute of the same transaction, against the same
/// account, gives back exactly the balances from before the dispute.
pub proof fn lemma_resolve_restores(v: LedgerView, d: raw_csv::Transaction, r: raw_csv::Transaction)
    requires
        d.kind == TransactType::Dispute,
        r.kind == TransactType::Resolve,
        d.client == r.client,
        d.tx == r.tx,
        v.transactions.contains_key(d.tx@),
        outcome(v, d) is Ok,
        outcome(outcome(v, d)->Ok_0, r) is Ok,
    ensures
        outcome(outcome(v, d)->Ok_0, r)->Ok_0.accounts[d.client@] == with_account(
            v,
            d.client@,
        ).accounts[d.client@],
{
}

/// A chargeback of a transaction of amount `A` under active dispute takes `A`
/// from the held balance, leaves the available balance, and freezes the account.
pub proof fn lemma_chargeback_freezes(v: LedgerView, t: raw_csv::Transaction)
    requires
        t.kind == TransactType::Chargeback,
        v.transactions.contains_key(t.tx@),
        v.transactions[t.tx@].dispute_status == Some(DisputeStatus::Active),
        outcome(v, t) is Ok,
    ensures
        ({
            let before = with_account(v, t.client@).accounts[t.client@];
            let after = outcome(v, t)->Ok_0.accounts[t.client@];
            &&& after.held == before.held - v.transactions[t.tx@].amount@
            &&& after.available == before.available
            &&& after.frozen
        }),
{
}

/// On a frozen account a deposit or a withdrawal changes no balance.
pub proof fn lemma_frozen_ignores_funds(v: LedgerView, t: raw_csv::Transaction)
    requires
        needs_amount(t.kind),
        v.accounts.contains_key(t.client@),
        v.accounts[t.client@].frozen,
        outcome(v, t) is Ok,
    ensures
        outcome(v, t)->Ok_0.accounts[t.client@] == v.accounts[t.client@],
{
}

/// A resolve or chargeback of an unknown transaction, or of one not under
/// active dispute, changes nothing but the lazy creation of the client's
/// account; where that account exists, it changes nothing at all.
pub proof fn lemma_inactive_ignored(v: LedgerView, t: raw_csv::Transaction)
    requires
        accounts_fit(v),
        t.kind == TransactType::Resolve || t.kind == TransactType::Chargeback,
        !v.transactions.contains_key(t.tx@) || v.transactions[t.tx@].dispute_status != Some(
            DisputeStatus::Active,
        ),
    ensures
        outcome(v, t) == Ok::<LedgerView, LedgerError>(with_account(v, t.client@)),
        v.accounts.contains_key(t.client@) ==> outcome(v, t) == Ok::<LedgerView, LedgerError>(v),
{
    let v1 = with_account(v, t.client@);
    assert(v1.accounts[t.client@].fits());
}

} // verus!

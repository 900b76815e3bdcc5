use vstd::prelude::*;

use crate::transaction::{fits_amount, Amount};

verus! {

/// Guaranteed to fit within u16.
#[derive(PartialEq, Eq, Structural, Hash, Clone, Copy, Debug)]
pub struct AccountID(u16);

impl View for AccountID {
    type V = u16;

    closed spec fn view(&self) -> u16 {
        self.0
    }
}

impl From<u16> for AccountID {
    fn from(id: u16) -> (r: AccountID)
        ensures
            r@ == id,
    {
        AccountID(id)
    }
}

impl vstd::std_specs::convert::FromSpecImpl<u16> for AccountID {
    open spec fn obeys_from_spec() -> bool {
        false
    }

    closed spec fn from_spec(v: u16) -> AccountID {
        AccountID(v)
    }
}

impl From<&AccountID> for u16 {
    fn from(id: &AccountID) -> (r: u16)
        ensures
            r == id@,
    {
        id.0
    }
}

impl vstd::std_specs::convert::FromSpecImpl<&AccountID> for u16 {
    open spec fn obeys_from_spec() -> bool {
        false
    }

    open spec fn from_spec(v: &AccountID) -> u16 {
        v@
    }
}

impl AccountID {
    /// The identifier as an integer.
    pub fn id(&self) -> (r: u16)
        ensures
            r == self@,
    {
        self.0
    }
}

#[derive(PartialEq, Eq, Structural, Clone, Copy, Debug)]
pub enum State {
    Active,
    Frozen,
}

impl Default for State {
    fn default() -> (r: State)
        ensures
            r == State::Active,
    {
        State::Active
    }
}

/// What an account holds: its lock state and its two balances in cents.
pub ghost struct AccountView {
    pub frozen: bool,
    pub available: int,
    pub held: int,
}

impl AccountView {
    /// A fresh account: active, with nothing in it.
    pub open spec fn fresh() -> AccountView {
        AccountView { frozen: false, available: 0, held: 0 }
    }

    /// `available + held`.
    pub open spec fn total(self) -> int {
        self.available + self.held
    }

    /// Both balances and their total can be held by an `Amount`.
    pub open spec fn fits(self) -> bool {
        fits_amount(self.available) && fits_amount(self.held) && fits_amount(self.total())
    }

    /// The account after a deposit of `amount`: no change when frozen.
    pub open spec fn deposited(self, amount: int) -> AccountView {
        if self.frozen {
            self
        } else {
            AccountView { available: self.available + amount, ..self }
        }
    }

    /// Whether a withdrawal of `amount` takes effect.
    pub open spec fn can_withdraw(self, amount: int) -> bool {
        !self.frozen && self.available >= amount
    }

    /// The account after a withdrawal of `amount`: no change when frozen or
    /// when the available balance is short.
    pub open spec fn withdrawn(self, amount: int) -> AccountView {
        if self.can_withdraw(amount) {
            AccountView { available: self.available - amount, ..self }
        } else {
            self
        }
    }
}

/// An account after a run of deposits (`(true, amount)`) and withdrawals
/// (`(false, amount)`), applied in order to `a`.
pub open spec fn apply_all(a: AccountView, ops: Seq<(bool, int)>) -> AccountView
    decreases ops.len(),
{
    if ops.len() == 0 {
        a
    } else {
        let before = apply_all(a, ops.drop_last());
        let (is_deposit, amount) = ops.last();
        if is_deposit {
            before.deposited(amount)
        } else {
            before.withdrawn(amount)
        }
    }
}

/// The sum of the deposits of a run.
pub open spec fn sum_deposits(ops: Seq<(bool, int)>) -> int
    decreases ops.len(),
{
    if ops.len() == 0 {
        0
    } else {
        sum_deposits(ops.drop_last()) + if ops.last().0 { ops.last().1 } else { 0 }
    }
}

/// The sum of the withdrawals of a run, applied in order to `a`, that took effect.
pub open spec fn sum_withdrawals(a: AccountView, ops: Seq<(bool, int)>) -> int
    decreases ops.len(),
{
    if ops.len() == 0 {
        0
    } else {
        let (is_deposit, amount) = ops.last();
        sum_withdrawals(a, ops.drop_last()) + if !is_deposit && apply_all(
            a,
            ops.drop_last(),
        ).can_withdraw(amount) {
            amount
        } else {
            0
        }
    }
}

/// On a fresh account, after any run of deposits and withdrawals, nothing is
/// held, the account is not frozen, and the total and the available balance
/// both equal the deposits less the withdrawals that took effect.
pub proof fn lemma_fresh_account_run(ops: Seq<(bool, int)>)
    ensures
        apply_all(AccountView::fresh(), ops).held == 0,
        !apply_all(AccountView::fresh(), ops).frozen,
        apply_all(AccountView::fresh(), ops).total() == sum_deposits(ops) - sum_withdrawals(
            AccountView::fresh(),
            ops,
        ),
        apply_all(AccountView::fresh(), ops).available == apply_all(AccountView::fresh(), ops).total(),
    decreases ops.len(),
{
    if ops.len() > 0 {
        lemma_fresh_account_run(ops.drop_last());
    }
}

/// A withdrawal larger than the available balance changes nothing: not the
/// available or held balance, nor the lock state.
pub proof fn lemma_withdraw_short(a: AccountView, amount: int)
    requires
        a.available < amount,
    ensures
        a.withdrawn(amount) == a,
{
}

/// Per-client balances. The total is never stored: it is `available + held`.
#[derive(Clone, Copy, Debug)]
pub struct Account {
    state: State,
    available_balance: Amount,
    held_balance: Amount,
}

impl View for Account {
    type V = AccountView;

    closed spec fn view(&self) -> AccountView {
        AccountView {
            frozen: self.state == State::Frozen,
            available: self.available_balance@,
            held: self.held_balance@,
        }
    }
}

impl Default for Account {
    fn default() -> (r: Account)
        ensures
            r@ == AccountView::fresh(),
    {
        Account { state: State::Active, available_balance: Amount::default(), held_balance: Amount::default() }
    }
}

impl Account {
    pub fn is_frozen(&self) -> (r: bool)
        ensures
            r == self@.frozen,
    {
        self.state == State::Frozen
    }

    /// Locks the account; idempotent.
    pub fn freeze(&mut self)
        ensures
            final(self)@ == (AccountView { frozen: true, ..old(self)@ }),
    {
        self.state = State::Frozen;
    }

    /// Adds `amount` to the available balance, unless the account is frozen.
    pub fn deposit(&mut self, amount: &Amount)
        requires
            !old(self)@.frozen ==> fits_amount(old(self)@.available + amount@),
        ensures
            final(self)@ == old(self)@.deposited(amount@),
    {
        if !self.is_frozen() {
            self.available_balance = Amount::from(self.available_balance.cents() + amount.cents());
        }
    }

    /// Takes `amount` from the available balance, unless the account is frozen
    /// or the available balance is smaller than `amount`.
    pub fn withdraw(&mut self, amount: &Amount)
        requires
            old(self)@.can_withdraw(amount@) ==> fits_amount(old(self)@.available - amount@),
        ensures
            final(self)@ == old(self)@.withdrawn(amount@),
    {
        if self.is_frozen() || self.available_balance.cents() < amount.cents() {
            return;
        }
        self.available_balance = Amount::from(self.available_balance.cents() - amount.cents());
    }

    /// `available + held`.
    pub fn total_balance(&self) -> (r: Amount)
        requires
            fits_amount(self@.total()),
        ensures
            r@ == self@.total(),
    {
        Amount::from(self.available_balance.cents() + self.held_balance.cents())
    }

    pub fn available_balance(&self) -> (r: &Amount)
        ensures
            r@ == self@.available,
    {
        &self.available_balance
    }

    pub fn available_balance_mut(&mut self) -> (r: &mut Amount)
        ensures
            (*r)@ == old(self)@.available,
            final(self)@ == (AccountView { available: final(r)@, ..old(self)@ }),
    {
        &mut self.available_balance
    }

    pub fn held_balance(&self) -> (r: &Amount)
        ensures
            r@ == self@.held,
    {
        &self.held_balance
    }

    pub fn held_balance_mut(&mut self) -> (r: &mut Amount)
        ensures
            (*r)@ == old(self)@.held,
            final(self)@ == (AccountView { held: final(r)@, ..old(self)@ }),
    {
        &mut self.held_balance
    }
}

} // verus!

use vstd::prelude::*;
use vstd::string::StringSliceAdditionalSpecFns;
use std::ops::{AddAssign, Deref, SubAssign};

use crate::account::AccountID;
use crate::decimal::{parse, parse_cents, render, render_cents};

verus! {

/// Whether `v` can be held by an `Amount`.
pub open spec fn fits_amount(v: int) -> bool {
    i64::MIN <= v <= i64::MAX
}

/// `v` clamped to the range of an `Amount`.
pub open spec fn saturate(v: int) -> int {
    if v > i64::MAX {
        i64::MAX as int
    } else if v < i64::MIN {
        i64::MIN as int
    } else {
        v
    }
}

/// Guaranteed to be globally unique, and chronologically ordered.
/// Guaranteed to fit in u32.
#[derive(PartialEq, Eq, Structural, Hash, Clone, Copy, Debug)]
pub struct TxID(u32);

impl View for TxID {
    type V = u32;

    closed spec fn view(&self) -> u32 {
        self.0
    }
}

impl From<u32> for TxID {
    fn from(id: u32) -> (r: TxID)
        ensures
            r@ == id,
    {
        TxID(id)
    }
}

impl vstd::std_specs::convert::FromSpecImpl<u32> for TxID {
    open spec fn obeys_from_spec() -> bool {
        false
    }

    closed spec fn from_spec(v: u32) -> TxID {
        TxID(v)
    }
}

impl TxID {
    /// The identifier as an integer.
    pub fn id(&self) -> (r: u32)
        ensures
            r == self@,
    {
        self.0
    }
}

/// Amount in cents.
/// Negative indicates a debit.
#[derive(PartialEq, Eq, Structural, PartialOrd, Clone, Copy, Debug)]
pub struct Amount(i64);

impl View for Amount {
    type V = int;

    closed spec fn view(&self) -> int {
        self.0 as int
    }
}

impl Amount {
    /// The number of cents.
    pub fn cents(&self) -> (r: i64)
        ensures
            r == self@,
    {
        self.0
    }

    /// Sum of two amounts, or `None` where it does not fit.
    pub fn checked_add(&self, other: &Amount) -> (r: Option<Amount>)
        ensures
            fits_amount(self@ + other@) <==> r is Some,
            r matches Some(s) ==> s@ == self@ + other@,
    {
        match self.0.checked_add(other.0) {
            Some(v) => Some(Amount(v)),
            None => None,
        }
    }

    /// Difference of two amounts, or `None` where it does not fit.
    pub fn checked_sub(&self, other: &Amount) -> (r: Option<Amount>)
        ensures
            fits_amount(self@ - other@) <==> r is Some,
            r matches Some(s) ==> s@ == self@ - other@,
    {
        match self.0.checked_sub(other.0) {
            Some(v) => Some(Amount(v)),
            None => None,
        }
    }

    /// Sum of two amounts, clamped to the range of an `Amount`.
    fn saturating_add(&self, other: &Amount) -> (r: Amount)
        ensures
            r@ == saturate(self@ + other@),
    {
        match self.0.checked_add(other.0) {
            Some(v) => Amount(v),
            None => if other.0 > 0 { Amount(i64::MAX) } else { Amount(i64::MIN) },
        }
    }

    /// Difference of two amounts, clamped to the range of an `Amount`.
    fn saturating_sub(&self, other: &Amount) -> (r: Amount)
        ensures
            r@ == saturate(self@ - other@),
    {
        match self.0.checked_sub(other.0) {
            Some(v) => Amount(v),
            None => if other.0 < 0 { Amount(i64::MAX) } else { Amount(i64::MIN) },
        }
    }
}

impl Amount {
    /// Reads decimal text such as `-12.5` as an amount, rounded to the
    /// nearest cent, half away from zero.
    pub fn parse(s: &str) -> (r: Option<Amount>)
        ensures
            r is Some <==> parse_cents(s.spec_bytes()) is Some,
            r matches Some(a) ==> parse_cents(s.spec_bytes()) == Some(a@),
    {
        match parse(s.as_bytes()) {
            Some(c) => Some(Amount(c)),
            None => None,
        }
    }

    /// The amount as text with four decimals, such as `-12.5000`.
    pub fn to_fixed(&self) -> (r: Vec<u8>)
        ensures
            r@ == render_cents(self@),
    {
        render(self.0)
    }
}

/// The text of ASCII bytes, one character per byte.
pub open spec fn ascii_text(b: Seq<u8>) -> Seq<char> {
    b.map_values(|x: u8| x as char)
}

/// Relies on `String::from_utf8`: ASCII bytes are valid UTF-8, each byte one
/// character.
#[verifier::external_body]
fn string_of_ascii(b: Vec<u8>) -> (r: String)
    requires
        forall|i: int| 0 <= i < b@.len() ==> #[trigger] b@[i] < 128,
    ensures
        r@ == ascii_text(b@),
{
    match String::from_utf8(b) {
        Ok(s) => s,
        Err(_) => String::new(),
    }
}

/// The amount as text with four decimals.
impl From<Amount> for String {
    fn from(amount: Amount) -> (r: String)
        ensures
            r@ == ascii_text(render_cents(amount@)),
    {
        let b = amount.to_fixed();
        proof {
            crate::decimal::lemma_render_ascii(amount@);
        }
        string_of_ascii(b)
    }
}

impl vstd::std_specs::convert::FromSpecImpl<Amount> for String {
    open spec fn obeys_from_spec() -> bool {
        false
    }

    open spec fn from_spec(v: Amount) -> String {
        arbitrary()
    }
}

impl Default for Amount {
    fn default() -> (r: Amount)
        ensures
            r@ == 0,
    {
        Amount(0)
    }
}

/// Addition saturates at the bounds of an `Amount`.
impl AddAssign for Amount {
    fn add_assign(&mut self, other: Amount)
        ensures
            final(self)@ == saturate(old(self)@ + other@),
    {
        *self = self.saturating_add(&other);
    }
}

/// Addition saturates at the bounds of an `Amount`.
impl AddAssign<&Amount> for Amount {
    fn add_assign(&mut self, other: &Amount)
        ensures
            final(self)@ == saturate(old(self)@ + other@),
    {
        *self = self.saturating_add(other);
    }
}

/// Subtraction saturates at the bounds of an `Amount`.
impl SubAssign for Amount {
    fn sub_assign(&mut self, other: Amount)
        ensures
            final(self)@ == saturate(old(self)@ - other@),
    {
        *self = self.saturating_sub(&other);
    }
}

/// Subtraction saturates at the bounds of an `Amount`.
impl SubAssign<&Amount> for Amount {
    fn sub_assign(&mut self, other: &Amount)
        ensures
            final(self)@ == saturate(old(self)@ - other@),
    {
        *self = self.saturating_sub(other);
    }
}

impl From<i64> for Amount {
    fn from(cents: i64) -> (r: Amount)
        ensures
            r@ == cents,
    {
        Amount(cents)
    }
}

impl vstd::std_specs::convert::FromSpecImpl<i64> for Amount {
    open spec fn obeys_from_spec() -> bool {
        false
    }

    closed spec fn from_spec(v: i64) -> Amount {
        Amount(v)
    }
}

impl Deref for Amount {
    type Target = i64;

    fn deref(&self) -> (r: &i64)
        ensures
            *r == self@,
    {
        &self.0
    }
}

#[derive(PartialEq, Eq, Structural, Clone, Copy, Debug)]
pub enum TransactionType {
    Deposit,
    Withdrawal,
}

#[derive(PartialEq, Eq, Structural, Clone, Copy, Debug)]
pub enum DisputeStatus {
    Active,
    Resolved,
    Chargebacked,
}

/// A processed deposit or withdrawal, as the ledger remembers it.
#[derive(Clone, Copy, Debug)]
pub struct Transaction {
    pub typ: TransactionType,
    pub dispute_status: Option<DisputeStatus>,
    pub client_id: AccountID,
    pub amount: Amount,
}

} // verus!

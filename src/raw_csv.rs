use vstd::prelude::*;
use vstd::string::StringSliceAdditionalSpecFns;

use crate::account::AccountID;
use crate::transaction::{Amount, TxID};

verus! {

/// The kind of an incoming record.
#[derive(PartialEq, Eq, Structural, Clone, Copy, Debug)]
pub enum TransactType {
    Deposit,
    Withdrawal,
    Dispute,
    Resolve,
    Chargeback,
}

/// `s` with ASCII capitals made small.
pub open spec fn lower(s: Seq<u8>) -> Seq<u8> {
    s.map_values(|b: u8| if 65 <= b <= 90 { (b + 32) as u8 } else { b })
}

/// The name of a kind of record, in small letters.
pub open spec fn kind_name(k: TransactType) -> Seq<u8> {
    match k {
        // deposit
        TransactType::Deposit => seq![100u8, 101, 112, 111, 115, 105, 116],
        // withdrawal
        TransactType::Withdrawal => seq![119u8, 105, 116, 104, 100, 114, 97, 119, 97, 108],
        // dispute
        TransactType::Dispute => seq![100u8, 105, 115, 112, 117, 116, 101],
        // resolve
        TransactType::Resolve => seq![114u8, 101, 115, 111, 108, 118, 101],
        // chargeback
        TransactType::Chargeback => seq![99u8, 104, 97, 114, 103, 101, 98, 97, 99, 107],
    }
}

/// Whether `s` spells `word` (in small letters), ignoring case.
fn spells(s: &[u8], word: &[u8]) -> (r: bool)
    ensures
        r == (lower(s@) == word@),
{
    if s.len() != word.len() {
        assert(lower(s@).len() != word@.len());
        return false;
    }
    let mut i: usize = 0;
    while i < s.len()
        invariant
            s@.len() == word@.len(),
            0 <= i <= s@.len(),
            forall|j: int| 0 <= j < i ==> #[trigger] lower(s@)[j] == word@[j],
        decreases s@.len() - i,
    {
        let b = s[i];
        let l = if 65 <= b && b <= 90 {
            b + 32
        } else {
            b
        };
        if l != word[i] {
            assert(lower(s@)[i as int] != word@[i as int]);
            return false;
        }
        i = i + 1;
    }
    assert(lower(s@) =~= word@);
    true
}

impl TransactType {
    /// The kind whose name `s` is, ignoring case.
    pub fn parse(s: &str) -> (r: Option<TransactType>)
        ensures
            r matches Some(k) ==> lower(s.spec_bytes()) == kind_name(k),
            r is None ==> forall|k: TransactType| lower(s.spec_bytes()) != #[trigger] kind_name(k),
    {
        let b = s.as_bytes();
        let deposit: [u8; 7] = [100, 101, 112, 111, 115, 105, 116];
        let withdrawal: [u8; 10] = [119, 105, 116, 104, 100, 114, 97, 119, 97, 108];
        let dispute: [u8; 7] = [100, 105, 115, 112, 117, 116, 101];
        let resolve: [u8; 7] = [114, 101, 115, 111, 108, 118, 101];
        let chargeback: [u8; 10] = [99, 104, 97, 114, 103, 101, 98, 97, 99, 107];
        assert(deposit@ =~= kind_name(TransactType::Deposit));
        assert(withdrawal@ =~= kind_name(TransactType::Withdrawal));
        assert(dispute@ =~= kind_name(TransactType::Dispute));
        assert(resolve@ =~= kind_name(TransactType::Resolve));
        assert(chargeback@ =~= kind_name(TransactType::Chargeback));
        if spells(b, &deposit) {
            Some(TransactType::Deposit)
        } else if spells(b, &withdrawal) {
            Some(TransactType::Withdrawal)
        } else if spells(b, &dispute) {
            Some(TransactType::Dispute)
        } else if spells(b, &resolve) {
            Some(TransactType::Resolve)
        } else if spells(b, &chargeback) {
            Some(TransactType::Chargeback)
        } else {
            None
        }
    }
}

/// One incoming record. `amount` is present for deposits and withdrawals.
#[derive(Clone, Copy, Debug)]
pub struct Transaction {
    pub kind: TransactType,
    pub client: AccountID,
    pub tx: TxID,
    pub amount: Option<Amount>,
}

/// One row of the final snapshot.
#[derive(Clone, Copy, Debug)]
pub struct Account {
    pub client: u16,
    pub available: Amount,
    pub held: Amount,
    pub total: Amount,
    pub locked: bool,
}

} // verus!

use payments_ledger::account::{Account, AccountID};
use payments_ledger::ledger::{Ledger, LedgerError};
use payments_ledger::raw_csv::{self, TransactType, Transaction};
use payments_ledger::transaction::{Amount, TxID};

fn units(a: Amount) -> f64 {
    a.cents() as f64 / 100.0
}

fn record(kind: TransactType, client: u16, tx: u32, amount: Option<&str>) -> Transaction {
    Transaction {
        kind,
        client: AccountID::from(client),
        tx: TxID::from(tx),
        amount: amount.map(|a| Amount::parse(a).unwrap()),
    }
}

fn run(records: Vec<Transaction>) -> Vec<raw_csv::Account> {
    let mut ledger = Ledger::new();
    for r in records {
        assert!(ledger.process(r).is_ok());
    }
    ledger.snapshot()
}

fn row(snapshot: &[raw_csv::Account], client: u16) -> raw_csv::Account {
    *snapshot.iter().find(|c| c.client == client).unwrap()
}

#[test]
fn test_ledger() {
    let txs = [
        record(TransactType::Deposit, 1, 1, Some("1.0")),
        record(TransactType::Deposit, 2, 2, Some("2.0")),
        record(TransactType::Deposit, 1, 3, Some("2.0")),
        record(TransactType::Withdrawal, 1, 4, Some("1.5")),
        record(TransactType::Withdrawal, 2, 5, Some("3.0")),
    ];

    let mut ledger = Ledger::new();

    for tx in txs {
        assert!(ledger.process(tx).is_ok());
    }

    let snapshot = ledger.snapshot();

    assert_eq!(snapshot.len(), 2);

    let client_1 = snapshot.iter().find(|c| c.client == 1);
    let client_2 = snapshot.iter().find(|c| c.client == 2);

    assert!(client_1.is_some());
    assert!(client_2.is_some());

    assert_eq!(units(client_1.unwrap().available), 1.5);
    assert_eq!(units(client_1.unwrap().held), 0.0);
    assert_eq!(units(client_1.unwrap().total), 1.5);
    assert_eq!(client_1.unwrap().locked, false);

    assert_eq!(units(client_2.unwrap().available), 2.0);
    assert_eq!(units(client_2.unwrap().held), 0.0);
    assert_eq!(units(client_2.unwrap().total), 2.0);
    assert_eq!(client_2.unwrap().locked, false);
}

#[test]
fn chargeback_locks_account() {
    let snapshot = run(vec![
        record(TransactType::Deposit, 1, 1, Some("5.0")),
        record(TransactType::Dispute, 1, 1, None),
        record(TransactType::Chargeback, 1, 1, None),
    ]);
    assert_eq!(snapshot.len(), 1);
    let c = row(&snapshot, 1);
    assert_eq!(c.available.cents(), 0);
    assert_eq!(c.held.cents(), 0);
    assert_eq!(c.total.cents(), 0);
    assert!(c.locked);
}

#[test]
fn dispute_moves_funds_to_held() {
    let snapshot = run(vec![
        record(TransactType::Deposit, 1, 1, Some("5.0")),
        record(TransactType::Deposit, 1, 2, Some("1.25")),
        record(TransactType::Dispute, 1, 1, None),
    ]);
    let c = row(&snapshot, 1);
    assert_eq!(c.available.cents(), 125);
    assert_eq!(c.held.cents(), 500);
    assert_eq!(c.total.cents(), 625);
    assert!(!c.locked);
}

#[test]
fn dispute_may_make_available_negative() {
    let snapshot = run(vec![
        record(TransactType::Deposit, 1, 1, Some("5.0")),
        record(TransactType::Withdrawal, 1, 2, Some("4.0")),
        record(TransactType::Dispute, 1, 1, None),
    ]);
    let c = row(&snapshot, 1);
    assert_eq!(c.available.cents(), -400);
    assert_eq!(c.held.cents(), 500);
    assert_eq!(c.total.cents(), 100);
}

#[test]
fn resolve_restores_balances() {
    let snapshot = run(vec![
        record(TransactType::Deposit, 1, 1, Some("3.33")),
        record(TransactType::Deposit, 1, 2, Some("0.01")),
        record(TransactType::Dispute, 1, 1, None),
        record(TransactType::Resolve, 1, 1, None),
    ]);
    let c = row(&snapshot, 1);
    assert_eq!(c.available.cents(), 334);
    assert_eq!(c.held.cents(), 0);
    assert_eq!(c.total.cents(), 334);
    assert!(!c.locked);
}

#[test]
fn frozen_account_ignores_deposit_and_withdrawal() {
    let snapshot = run(vec![
        record(TransactType::Deposit, 1, 1, Some("5.0")),
        record(TransactType::Deposit, 1, 2, Some("2.0")),
        record(TransactType::Dispute, 1, 1, None),
        record(TransactType::Chargeback, 1, 1, None),
        record(TransactType::Deposit, 1, 3, Some("10.0")),
        record(TransactType::Withdrawal, 1, 4, Some("1.0")),
    ]);
    let c = row(&snapshot, 1);
    assert_eq!(c.available.cents(), 200);
    assert_eq!(c.held.cents(), 0);
    assert!(c.locked);
}

#[test]
fn resolve_and_chargeback_without_active_dispute_are_ignored() {
    let snapshot = run(vec![
        record(TransactType::Deposit, 1, 1, Some("5.0")),
        record(TransactType::Resolve, 1, 1, None),
        record(TransactType::Chargeback, 1, 1, None),
        record(TransactType::Resolve, 1, 99, None),
        record(TransactType::Chargeback, 1, 99, None),
        record(TransactType::Dispute, 1, 1, None),
        record(TransactType::Resolve, 1, 1, None),
        record(TransactType::Resolve, 1, 1, None),
        record(TransactType::Chargeback, 1, 1, None),
    ]);
    let c = row(&snapshot, 1);
    assert_eq!(c.available.cents(), 500);
    assert_eq!(c.held.cents(), 0);
    assert!(!c.locked);
}

#[test]
fn unknown_client_gets_empty_account() {
    let snapshot = run(vec![record(TransactType::Dispute, 7, 1, None)]);
    assert_eq!(snapshot.len(), 1);
    let c = row(&snapshot, 7);
    assert_eq!(c.available.cents(), 0);
    assert_eq!(c.held.cents(), 0);
    assert!(!c.locked);
}

#[test]
fn missing_amount_is_an_error() {
    let mut ledger = Ledger::new();
    assert_eq!(
        ledger.process(record(TransactType::Deposit, 1, 1, None)),
        Err(LedgerError::MissingAmount)
    );
    assert_eq!(
        ledger.process(record(TransactType::Withdrawal, 1, 2, None)),
        Err(LedgerError::MissingAmount)
    );
}

#[test]
fn overflow_is_an_error() {
    let mut ledger = Ledger::new();
    let big = Transaction {
        kind: TransactType::Deposit,
        client: AccountID::from(1),
        tx: TxID::from(1),
        amount: Some(Amount::from(i64::MAX)),
    };
    assert!(ledger.process(big).is_ok());
    let more = Transaction { tx: TxID::from(2), amount: Some(Amount::from(1)), ..big };
    assert_eq!(ledger.process(more), Err(LedgerError::AmountOverflow));
    let c = row(&ledger.snapshot(), 1);
    assert_eq!(c.available.cents(), i64::MAX);
}

#[test]
fn snapshot_lists_each_client_once() {
    let snapshot = run(vec![
        record(TransactType::Deposit, 3, 1, Some("1")),
        record(TransactType::Deposit, 1, 2, Some("1")),
        record(TransactType::Deposit, 3, 3, Some("1")),
        record(TransactType::Withdrawal, 2, 4, Some("1")),
    ]);
    let mut clients: Vec<u16> = snapshot.iter().map(|c| c.client).collect();
    clients.sort();
    assert_eq!(clients, vec![1, 2, 3]);
    assert_eq!(row(&snapshot, 3).total.cents(), 200);
}

#[test]
fn account_deposit_and_withdraw() {
    let mut a = Account::default();
    a.deposit(&Amount::from(1000));
    a.withdraw(&Amount::from(300));
    assert_eq!(a.available_balance().cents(), 700);
    assert_eq!(a.total_balance().cents(), 700);
    assert_eq!(a.held_balance().cents(), 0);
    a.withdraw(&Amount::from(701));
    assert_eq!(a.available_balance().cents(), 700);
    assert!(!a.is_frozen());
    a.freeze();
    a.freeze();
    assert!(a.is_frozen());
    a.deposit(&Amount::from(5));
    a.withdraw(&Amount::from(5));
    assert_eq!(a.available_balance().cents(), 700);
}

#[test]
fn account_balance_references() {
    let mut a = Account::default();
    *a.held_balance_mut() = Amount::from(40);
    *a.available_balance_mut() = Amount::from(-15);
    assert_eq!(a.held_balance().cents(), 40);
    assert_eq!(a.available_balance().cents(), -15);
    assert_eq!(a.total_balance().cents(), 25);
}

#[test]
fn amount_arithmetic_saturates() {
    let mut a = Amount::from(10);
    a += Amount::from(5);
    a -= &Amount::from(20);
    assert_eq!(*a, -5);
    a += &Amount::from(i64::MIN);
    assert_eq!(a.cents(), i64::MIN);
    let mut b = Amount::from(i64::MAX);
    b -= Amount::from(-1);
    assert_eq!(b.cents(), i64::MAX);
    assert_eq!(Amount::from(7).checked_add(&Amount::from(i64::MAX)), None);
    assert_eq!(Amount::from(7).checked_sub(&Amount::from(2)), Some(Amount::from(5)));
    assert_eq!(Amount::default().cents(), 0);
}

#[test]
fn amount_parse_rounds_to_cents() {
    assert_eq!(Amount::parse("1.0").map(|a| a.cents()), Some(100));
    assert_eq!(Amount::parse("1.5").map(|a| a.cents()), Some(150));
    assert_eq!(Amount::parse("2").map(|a| a.cents()), Some(200));
    assert_eq!(Amount::parse(".25").map(|a| a.cents()), Some(25));
    assert_eq!(Amount::parse("3.").map(|a| a.cents()), Some(300));
    assert_eq!(Amount::parse("+0.07").map(|a| a.cents()), Some(7));
    assert_eq!(Amount::parse("-12.345").map(|a| a.cents()), Some(-1235));
    assert_eq!(Amount::parse("12.344").map(|a| a.cents()), Some(1234));
    assert_eq!(Amount::parse("0.9999").map(|a| a.cents()), Some(100));
    assert_eq!(Amount::parse("92233720368547758.07").map(|a| a.cents()), Some(i64::MAX));
    assert_eq!(Amount::parse("-92233720368547758.08").map(|a| a.cents()), Some(i64::MIN));
}

#[test]
fn amount_parse_rejects_bad_text() {
    for s in ["", "-", ".", "1.2.3", "abc", "1e3", " 1", "92233720368547758.08", "1000000000000000000000"] {
        assert!(Amount::parse(s).is_none(), "{s}");
    }
}

#[test]
fn amount_renders_four_decimals() {
    assert_eq!(String::from(Amount::from(150)), "1.5000");
    assert_eq!(String::from(Amount::from(0)), "0.0000");
    assert_eq!(String::from(Amount::from(-5)), "-0.0500");
    assert_eq!(String::from(Amount::from(123456)), "1234.5600");
    assert_eq!(Amount::from(-250).to_fixed(), b"-2.5000".to_vec());
}

#[test]
fn amount_render_then_parse_round_trips() {
    for c in [0i64, 1, -1, 99, 100, -101, 123456789, i64::MAX, i64::MIN] {
        let text = String::from(Amount::from(c));
        assert_eq!(Amount::parse(&text).map(|a| a.cents()), Some(c), "{text}");
    }
}

#[test]
fn kind_parse_ignores_case() {
    assert_eq!(TransactType::parse("deposit"), Some(TransactType::Deposit));
    assert_eq!(TransactType::parse("Withdrawal"), Some(TransactType::Withdrawal));
    assert_eq!(TransactType::parse("DISPUTE"), Some(TransactType::Dispute));
    assert_eq!(TransactType::parse("resolve"), Some(TransactType::Resolve));
    assert_eq!(TransactType::parse("ChargeBack"), Some(TransactType::Chargeback));
    assert_eq!(TransactType::parse("refund"), None);
    assert_eq!(TransactType::parse("deposits"), None);
}

#[test]
fn ids_convert_both_ways() {
    let id = AccountID::from(42);
    assert_eq!(u16::from(&id), 42);
    assert_eq!(id.id(), 42);
    assert_eq!(TxID::from(7).id(), 7);
}

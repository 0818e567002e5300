use btc_ledger::amount::Amount;
use btc_ledger::ledger::{BitcoinAccountingApp, LedgerError};
use btc_ledger::records::{AccountingEntry, Timestamp, Transaction, Utxo};
use rust_decimal::Decimal;

fn amt(mantissa: i128, scale: u32) -> Amount {
    Amount::new(mantissa, scale).unwrap()
}

fn dec(a: Amount) -> Decimal {
    Decimal::from_i128_with_scale(a.mantissa, a.scale)
}

fn at(secs: i64) -> Timestamp {
    Timestamp::new(secs, 0)
}

fn utxo(txid: &str, vout: u32, amount: Amount, observed: Timestamp) -> Utxo {
    Utxo {
        txid: txid.to_string(),
        vout,
        amount,
        address: format!("addr-{}", txid),
        confirmations: 6,
        spendable: true,
        timestamp: observed,
    }
}

fn tx(txid: &str, when: Timestamp, inputs: Vec<Utxo>, outputs: Vec<Utxo>, fee: Amount) -> Transaction {
    Transaction { txid: txid.to_string(), timestamp: when, inputs, outputs, fee }
}

fn descriptions(es: &[AccountingEntry]) -> Vec<String> {
    es.iter().map(|e| e.description.clone()).collect()
}

#[test]
fn three_entries_in_order() {
    let mut app = BitcoinAccountingApp::new();
    let t = tx(
        "tx3",
        at(1_000),
        vec![utxo("tx1", 0, amt(10, 1), at(500))],
        vec![utxo("tx2", 1, amt(5, 1), at(900))],
        amt(1, 4),
    );
    assert_eq!(app.add_transaction(t), Ok(()));
    let es = &app.accounting_entries;
    assert_eq!(es.len(), 3);
    assert_eq!(es[0].description, "Received BTC - tx3");
    assert_eq!(dec(es[0].debit), Decimal::new(5, 1));
    assert_eq!(dec(es[0].credit), Decimal::ZERO);
    assert_eq!(es[1].description, "Sent BTC - tx3");
    assert_eq!(dec(es[1].debit), Decimal::ZERO);
    assert_eq!(dec(es[1].credit), Decimal::new(10, 1));
    assert_eq!(es[2].description, "Transaction fee - tx3");
    assert_eq!(dec(es[2].credit), Decimal::new(1, 4));
    assert!(es.iter().all(|e| e.date == at(1_000)));
    assert_eq!(app.transactions.len(), 1);
}

#[test]
fn totals_are_summed_exactly() {
    let mut app = BitcoinAccountingApp::new();
    let t = tx(
        "tx9",
        at(10),
        vec![utxo("a", 0, amt(3, 1), at(1)), utxo("b", 1, amt(25, 2), at(2))],
        vec![utxo("x", 0, amt(10, 1), at(3)), utxo("y", 1, amt(5, 1), at(4))],
        Amount::zero(),
    );
    assert_eq!(app.add_transaction(t), Ok(()));
    let es = &app.accounting_entries;
    assert_eq!(es.len(), 2);
    assert_eq!(dec(es[0].debit), Decimal::new(15, 1));
    assert_eq!(dec(es[1].credit), Decimal::new(55, 2));
}

#[test]
fn no_inputs_gives_no_sent_entry() {
    let mut app = BitcoinAccountingApp::new();
    let t = tx("mint", at(5), vec![], vec![utxo("mint", 0, amt(2, 0), at(5))], Amount::zero());
    assert_eq!(app.add_transaction(t), Ok(()));
    assert_eq!(descriptions(&app.accounting_entries), vec!["Received BTC - mint".to_string()]);
}

#[test]
fn no_outputs_gives_no_received_entry() {
    let mut app = BitcoinAccountingApp::new();
    let t = tx("burn", at(5), vec![utxo("old", 0, amt(2, 0), at(1))], vec![], amt(1, 3));
    assert_eq!(app.add_transaction(t), Ok(()));
    assert_eq!(
        descriptions(&app.accounting_entries),
        vec!["Sent BTC - burn".to_string(), "Transaction fee - burn".to_string()]
    );
}

#[test]
fn zero_fee_gives_no_fee_entry() {
    let mut app = BitcoinAccountingApp::new();
    let t = tx(
        "move",
        at(5),
        vec![utxo("old", 0, amt(2, 0), at(1))],
        vec![utxo("new", 0, amt(2, 0), at(5))],
        amt(0, 4),
    );
    assert_eq!(app.add_transaction(t), Ok(()));
    assert_eq!(
        descriptions(&app.accounting_entries),
        vec!["Received BTC - move".to_string(), "Sent BTC - move".to_string()]
    );
}

#[test]
fn empty_transaction_gives_no_entries() {
    let mut app = BitcoinAccountingApp::new();
    assert_eq!(app.add_transaction(tx("void", at(5), vec![], vec![], Amount::zero())), Ok(()));
    assert!(app.accounting_entries.is_empty());
    assert_eq!(app.transactions.len(), 1);
}

#[test]
fn unspent_set_follows_the_log() {
    let mut app = BitcoinAccountingApp::new();
    let first = tx(
        "t1",
        at(1),
        vec![],
        vec![utxo("t1", 0, amt(1, 0), at(1)), utxo("t1", 1, amt(2, 0), at(1))],
        Amount::zero(),
    );
    assert_eq!(app.add_transaction(first), Ok(()));
    let second = tx(
        "t2",
        at(2),
        vec![utxo("t1", 0, amt(1, 0), at(1)), utxo("ghost", 7, amt(1, 0), at(1))],
        vec![utxo("elsewhere", 4, amt(1, 0), at(2))],
        Amount::zero(),
    );
    assert_eq!(app.add_transaction(second), Ok(()));
    assert!(app.utxo_set.get(&"t1".to_string(), 0).is_none());
    assert_eq!(dec(app.utxo_set.get(&"t1".to_string(), 1).unwrap().amount), Decimal::new(2, 0));
    let kept = app.utxo_set.get(&"t2".to_string(), 4).unwrap();
    assert_eq!(kept.txid, "elsewhere");
    assert!(app.utxo_set.get(&"elsewhere".to_string(), 4).is_none());
    assert!(app.utxo_set.get(&"ghost".to_string(), 7).is_none());
}

#[test]
fn output_with_same_key_is_replaced() {
    let mut app = BitcoinAccountingApp::new();
    let a = tx("dup", at(1), vec![], vec![utxo("dup", 0, amt(1, 0), at(1))], Amount::zero());
    let b = tx("dup", at(2), vec![], vec![utxo("dup", 0, amt(3, 0), at(2))], Amount::zero());
    assert_eq!(app.add_transaction(a), Ok(()));
    assert_eq!(app.add_transaction(b), Ok(()));
    assert_eq!(dec(app.utxo_set.get(&"dup".to_string(), 0).unwrap().amount), Decimal::new(3, 0));
}

#[test]
fn report_bounds_are_inclusive() {
    let mut app = BitcoinAccountingApp::new();
    for (name, secs) in [("before", 99), ("start", 100), ("middle", 150), ("end", 200), ("after", 201)] {
        let t = tx(name, at(secs), vec![], vec![utxo(name, 0, amt(1, 0), at(secs))], Amount::zero());
        assert_eq!(app.add_transaction(t), Ok(()));
    }
    let report = app.generate_fasb_report(at(100), at(200));
    assert_eq!(
        descriptions(&report),
        vec![
            "Received BTC - start".to_string(),
            "Received BTC - middle".to_string(),
            "Received BTC - end".to_string()
        ]
    );
}

#[test]
fn report_bounds_use_nanoseconds() {
    let mut app = BitcoinAccountingApp::new();
    let t = tx("n", Timestamp::new(100, 5), vec![], vec![utxo("n", 0, amt(1, 0), at(100))], Amount::zero());
    assert_eq!(app.add_transaction(t), Ok(()));
    assert_eq!(app.generate_fasb_report(Timestamp::new(100, 6), at(200)).len(), 0);
    assert_eq!(app.generate_fasb_report(at(0), Timestamp::new(100, 4)).len(), 0);
    assert_eq!(app.generate_fasb_report(Timestamp::new(100, 5), Timestamp::new(100, 5)).len(), 1);
}

#[test]
fn reversed_window_is_empty() {
    let mut app = BitcoinAccountingApp::new();
    let t = tx("r", at(150), vec![], vec![utxo("r", 0, amt(1, 0), at(150))], Amount::zero());
    assert_eq!(app.add_transaction(t), Ok(()));
    assert!(app.generate_fasb_report(at(200), at(100)).is_empty());
    assert_eq!(app.calculate_realized_gains_losses(at(200), at(100)).map(dec), Ok(Decimal::ZERO));
}

#[test]
fn gain_without_rates_uses_one() {
    let mut app = BitcoinAccountingApp::new();
    let t = tx(
        "g",
        at(1_000),
        vec![utxo("a", 0, amt(10, 1), at(10)), utxo("b", 0, amt(25, 2), at(20))],
        vec![utxo("c", 0, amt(5, 1), at(30))],
        amt(1, 4),
    );
    assert_eq!(app.add_transaction(t), Ok(()));
    let r = app.calculate_realized_gains_losses(at(0), at(2_000)).unwrap();
    assert_eq!(dec(r), Decimal::new(5, 1) - Decimal::new(125, 2));
    assert_eq!(dec(r), Decimal::new(-75, 2));
}

#[test]
fn gain_with_rates() {
    let mut app = BitcoinAccountingApp::new();
    let bought = at(1_000);
    let sold = at(2_000);
    app.add_exchange_rate(bought, amt(50_000, 0));
    app.add_exchange_rate(sold, amt(55_000, 0));
    let t = tx("s", sold, vec![utxo("p", 0, amt(10, 1), bought)], vec![utxo("q", 0, amt(10, 1), sold)], Amount::zero());
    assert_eq!(app.add_transaction(t), Ok(()));
    let r = app.calculate_realized_gains_losses(at(1_500), at(2_500)).unwrap();
    assert_eq!(dec(r), Decimal::new(5_000, 0));
}

#[test]
fn gain_outside_window_is_zero() {
    let mut app = BitcoinAccountingApp::new();
    let t = tx("w", at(50), vec![], vec![utxo("w", 0, amt(7, 0), at(50))], Amount::zero());
    assert_eq!(app.add_transaction(t), Ok(()));
    assert_eq!(app.calculate_realized_gains_losses(at(51), at(90)).map(dec), Ok(Decimal::ZERO));
    assert_eq!(app.calculate_realized_gains_losses(at(50), at(50)).map(dec), Ok(Decimal::new(7, 0)));
}

#[test]
fn second_rate_replaces_first() {
    let mut app = BitcoinAccountingApp::new();
    let when = at(3_000);
    app.add_exchange_rate(when, amt(40_000, 0));
    app.add_exchange_rate(when, amt(45_000, 0));
    assert_eq!(app.exchange_rates.len(), 1);
    let t = tx("o", when, vec![], vec![utxo("o", 0, amt(2, 0), when)], Amount::zero());
    assert_eq!(app.add_transaction(t), Ok(()));
    let r = app.calculate_realized_gains_losses(when, when).unwrap();
    assert_eq!(dec(r), Decimal::new(90_000, 0));
}

#[test]
fn empty_ledger_queries() {
    let app = BitcoinAccountingApp::new();
    assert!(app.generate_fasb_report(at(i64::MIN), at(i64::MAX)).is_empty());
    assert!(app.generate_fasb_report(at(5), at(5)).is_empty());
    assert_eq!(app.calculate_realized_gains_losses(at(i64::MIN), at(i64::MAX)).map(dec), Ok(Decimal::ZERO));
}

#[test]
fn overflowing_total_is_refused() {
    let mut app = BitcoinAccountingApp::new();
    let max = amt(btc_ledger::amount::MAX_MANTISSA, 0);
    let t = tx("big", at(1), vec![], vec![utxo("x", 0, max, at(1)), utxo("y", 0, max, at(1))], Amount::zero());
    assert_eq!(app.add_transaction(t), Err(LedgerError::Overflow));
    assert!(app.transactions.is_empty());
    assert!(app.accounting_entries.is_empty());
    assert!(app.utxo_set.get(&"big".to_string(), 0).is_none());
}

#[test]
fn overflowing_gain_is_refused() {
    let mut app = BitcoinAccountingApp::new();
    let when = at(7);
    app.add_exchange_rate(when, amt(btc_ledger::amount::MAX_MANTISSA, 0));
    let t = tx("m", when, vec![], vec![utxo("m", 0, amt(2, 0), when)], Amount::zero());
    assert_eq!(app.add_transaction(t), Ok(()));
    assert_eq!(app.calculate_realized_gains_losses(when, when), Err(LedgerError::Overflow));
}

#[test]
fn amount_bounds() {
    assert!(Amount::new(btc_ledger::amount::MAX_MANTISSA, 28).is_some());
    assert!(Amount::new(btc_ledger::amount::MAX_MANTISSA + 1, 0).is_none());
    assert!(Amount::new(-btc_ledger::amount::MAX_MANTISSA - 1, 0).is_none());
    assert!(Amount::new(1, 29).is_none());
    assert!(amt(1, 8).is_positive());
    assert!(!amt(-1, 8).is_positive());
    assert!(!Amount::zero().is_positive());
}

#[test]
fn timestamps_order_by_seconds_then_nanoseconds() {
    assert!(Timestamp::new(1, 999).le(&Timestamp::new(2, 0)));
    assert!(!Timestamp::new(2, 0).le(&Timestamp::new(1, 1_999_999_999)));
    assert!(Timestamp::new(-1, 5).le(&Timestamp::new(-1, 5)));
    assert_ne!(Timestamp::new(1, 1_000_000_000).key(), Timestamp::new(2, 0).key());
}

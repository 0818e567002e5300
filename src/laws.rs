use vstd::prelude::*;
use crate::amount::Amount;
use crate::ledger::{
    BitcoinAccountingApp, EntryView, entries_for, fee_part, in_window, output_key, produce_all,
    rate_at, realized_total, received_part, sent_part, spend_all, total_amount, unspent_after,
    window,
};
use crate::records::{Timestamp, Transaction, Utxo, instant_key};

verus! {

/// Whether `tx` takes the output with identity `k` as an input.
pub open spec fn consumes(tx: Transaction, k: (Seq<char>, u32)) -> bool {
    exists|i: int| 0 <= i < tx.inputs@.len() && output_key(tx.inputs@[i].txid@, #[trigger] tx.inputs@[i]) == k
}

/// Whether `tx` produces an output with identity `k`.
pub open spec fn produces(tx: Transaction, k: (Seq<char>, u32)) -> bool {
    exists|i: int| 0 <= i < tx.outputs@.len() && output_key(tx.txid@, #[trigger] tx.outputs@[i]) == k
}

/// Whether some transaction of the log produces `k` and no later one consumes it.
pub open spec fn produced_and_kept(txs: Seq<Transaction>, k: (Seq<char>, u32)) -> bool {
    exists|i: int|
        0 <= i < txs.len() && #[trigger] produces(txs[i], k) && forall|j: int|
            i < j < txs.len() ==> !#[trigger] consumes(txs[j], k)
}

proof fn lemma_spend_all_dom(m: Map<(Seq<char>, u32), Utxo>, inputs: Seq<Utxo>, k: (Seq<char>, u32))
    ensures
        spend_all(m, inputs).contains_key(k) <==> m.contains_key(k) && !exists|i: int|
            0 <= i < inputs.len() && output_key(inputs[i].txid@, #[trigger] inputs[i]) == k,
    decreases inputs.len(),
{
    if inputs.len() > 0 {
        let d = inputs.drop_last();
        lemma_spend_all_dom(m, d, k);
        if exists|i: int| 0 <= i < d.len() && output_key(d[i].txid@, #[trigger] d[i]) == k {
            let i = choose|i: int| 0 <= i < d.len() && output_key(d[i].txid@, #[trigger] d[i]) == k;
            assert(inputs[i] == d[i]);
        }
        if exists|i: int| 0 <= i < inputs.len() && output_key(inputs[i].txid@, #[trigger] inputs[i]) == k {
            let i = choose|i: int| 0 <= i < inputs.len() && output_key(inputs[i].txid@, #[trigger] inputs[i]) == k;
            if i < d.len() {
                assert(inputs[i] == d[i]);
            }
        }
    }
}

proof fn lemma_produce_all_dom(
    m: Map<(Seq<char>, u32), Utxo>,
    txid: Seq<char>,
    outputs: Seq<Utxo>,
    k: (Seq<char>, u32),
)
    ensures
        produce_all(m, txid, outputs).contains_key(k) <==> m.contains_key(k) || exists|i: int|
            0 <= i < outputs.len() && output_key(txid, #[trigger] outputs[i]) == k,
    decreases outputs.len(),
{
    if outputs.len() > 0 {
        let d = outputs.drop_last();
        lemma_produce_all_dom(m, txid, d, k);
        if exists|i: int| 0 <= i < d.len() && output_key(txid, #[trigger] d[i]) == k {
            let i = choose|i: int| 0 <= i < d.len() && output_key(txid, #[trigger] d[i]) == k;
            assert(outputs[i] == d[i]);
        }
        if exists|i: int| 0 <= i < outputs.len() && output_key(txid, #[trigger] outputs[i]) == k {
            let i = choose|i: int| 0 <= i < outputs.len() && output_key(txid, #[trigger] outputs[i]) == k;
            if i < d.len() {
                assert(outputs[i] == d[i]);
            }
        }
    }
}

/// After any log of transactions, applied in order, an output identity is
/// unspent exactly when some transaction produced it and no later one
/// consumed it.
pub proof fn lemma_unspent_after_log(txs: Seq<Transaction>, k: (Seq<char>, u32))
    ensures
        unspent_after(txs).contains_key(k) <==> produced_and_kept(txs, k),
    decreases txs.len(),
{
    if txs.len() > 0 {
        let d = txs.drop_last();
        let t = txs.last();
        let last = txs.len() - 1;
        lemma_unspent_after_log(d, k);
        lemma_spend_all_dom(unspent_after(d), t.inputs@, k);
        lemma_produce_all_dom(spend_all(unspent_after(d), t.inputs@), t.txid@, t.outputs@, k);
        assert(txs[last] == t);
        if unspent_after(txs).contains_key(k) {
            if !produces(t, k) {
                let i = choose|i: int|
                    0 <= i < d.len() && #[trigger] produces(d[i], k) && forall|j: int|
                        i < j < d.len() ==> !#[trigger] consumes(d[j], k);
                assert(txs[i] == d[i]);
                assert forall|j: int| i < j < txs.len() implies !#[trigger] consumes(txs[j], k) by {
                    if j < d.len() {
                        assert(txs[j] == d[j]);
                    }
                }
            }
            assert(produced_and_kept(txs, k));
        } else {
            if produced_and_kept(txs, k) {
                let i = choose|i: int|
                    0 <= i < txs.len() && #[trigger] produces(txs[i], k) && forall|j: int|
                        i < j < txs.len() ==> !#[trigger] consumes(txs[j], k);
                assert(i != last);
                assert(!consumes(txs[last], k));
                assert(d[i] == txs[i]);
                assert forall|j: int| i < j < d.len() implies !#[trigger] consumes(d[j], k) by {
                    assert(txs[j] == d[j]);
                }
                assert(produced_and_kept(d, k));
            }
        }
    }
}

/// The unspent set of a ledger holds an output identity exactly when some
/// applied transaction produced it and no later one consumed it.
pub proof fn lemma_unspent_set_bookkeeping(app: &BitcoinAccountingApp, k: (Seq<char>, u32))
    requires
        app.wf(),
    ensures
        app.utxo_set@.contains_key(k) <==> produced_and_kept(app.transactions@, k),
{
    lemma_unspent_after_log(app.transactions@, k);
}

/// A transaction without inputs gets no line for sent funds, one without
/// outputs no line for received funds, and one with a zero fee no fee line.
pub proof fn lemma_zero_totals_suppressed(tx: Transaction, total_in: Amount, total_out: Amount)
    ensures
        tx.inputs@.len() == 0 ==> total_amount(tx.inputs@) == Some(Amount::spec_zero())
            && entries_for(tx, Amount::spec_zero(), total_out) == received_part(tx, total_out) + fee_part(tx),
        tx.outputs@.len() == 0 ==> total_amount(tx.outputs@) == Some(Amount::spec_zero())
            && entries_for(tx, total_in, Amount::spec_zero()) == sent_part(tx, total_in) + fee_part(tx),
        tx.fee.mantissa == 0 ==> entries_for(tx, total_in, total_out) == received_part(tx, total_out) + sent_part(tx, total_in),
{
    assert(received_part(tx, total_out) + Seq::<EntryView>::empty() + fee_part(tx) =~= received_part(tx, total_out) + fee_part(tx));
    assert(Seq::<EntryView>::empty() + sent_part(tx, total_in) + fee_part(tx) =~= sent_part(tx, total_in) + fee_part(tx));
    assert(received_part(tx, total_out) + sent_part(tx, total_in) + Seq::<EntryView>::empty() =~= received_part(tx, total_out) + sent_part(tx, total_in));
}

/// A report holds a line exactly when the accounting log holds it and its
/// date lies between the two bounds, both bounds included.
pub proof fn lemma_report_window_inclusive(es: Seq<EntryView>, start: Timestamp, end: Timestamp, e: EntryView)
    ensures
        window(es, start, end).contains(e) <==> es.contains(e) && instant_key(start) <= instant_key(e.date) <= instant_key(end),
    decreases es.len(),
{
    if es.len() > 0 {
        let d = es.drop_last();
        lemma_report_window_inclusive(d, start, end, e);
        let w = window(d, start, end);
        if es.contains(e) && in_window(e.date, start, end) {
            let i = choose|i: int| 0 <= i < es.len() && es[i] == e;
            if i < d.len() {
                assert(d[i] == e);
                let h = choose|h: int| 0 <= h < w.len() && w[h] == e;
                assert(window(es, start, end)[h] == e);
            } else {
                assert(window(es, start, end).last() == e);
            }
        }
        if window(es, start, end).contains(e) {
            let h = choose|h: int| 0 <= h < window(es, start, end).len() && window(es, start, end)[h] == e;
            if h < w.len() {
                assert(w[h] == e);
                let i = choose|i: int| 0 <= i < d.len() && d[i] == e;
                assert(es[i] == e);
            } else {
                assert(es[es.len() - 1] == e);
            }
        }
    }
}

/// Filing a second rate for the same instant leaves only the second in
/// effect: the table, the rate looked up and every realized gain or loss
/// are those of filing the second alone.
pub proof fn lemma_rate_overwrite(
    rates: Map<i128, Amount>,
    at: Timestamp,
    first: Amount,
    second: Amount,
    txs: Seq<Transaction>,
    start: Timestamp,
    end: Timestamp,
)
    ensures
        rates.insert(instant_key(at) as i128, first).insert(instant_key(at) as i128, second)
            == rates.insert(instant_key(at) as i128, second),
        rate_at(rates.insert(instant_key(at) as i128, first).insert(instant_key(at) as i128, second), at) == second,
        realized_total(txs, rates.insert(instant_key(at) as i128, first).insert(instant_key(at) as i128, second), start, end)
            == realized_total(txs, rates.insert(instant_key(at) as i128, second), start, end),
{
    let k = instant_key(at) as i128;
    assert(rates.insert(k, first).insert(k, second) =~= rates.insert(k, second));
}

/// On a ledger with no transactions, every report is empty and every
/// realized gain or loss is zero, whatever the window and rates.
pub proof fn lemma_empty_ledger_queries(rates: Map<i128, Amount>, start: Timestamp, end: Timestamp)
    ensures
        window(Seq::<EntryView>::empty(), start, end) == Seq::<EntryView>::empty(),
        realized_total(Seq::<Transaction>::empty(), rates, start, end) == Some(Amount::spec_zero()),
{
}

} // verus!

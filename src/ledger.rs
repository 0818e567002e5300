use vstd::prelude::*;
use vstd::string::*;
use std::collections::HashMap;
use crate::amount::{Amount, checked_add, checked_mul, checked_sub, decimal_add, decimal_mul, decimal_sub};
use crate::records::{AccountingEntry, Timestamp, Transaction, Utxo, instant_key};
use crate::unspent::UtxoSet;

verus! {

broadcast use vstd::std_specs::hash::group_hash_axioms;

/// What an accounting line holds, with its description as characters.
pub struct EntryView {
    pub date: Timestamp,
    pub description: Seq<char>,
    pub debit: Amount,
    pub credit: Amount,
}

impl View for AccountingEntry {
    type V = EntryView;

    open spec fn view(&self) -> EntryView {
        EntryView {
            date: self.date,
            description: self.description@,
            debit: self.debit,
            credit: self.credit,
        }
    }
}

/// Why an operation could not be carried out.
#[derive(Clone, Copy, Debug, PartialEq, Eq, Structural)]
pub enum LedgerError {
    /// A sum or product left the range of a decimal.
    Overflow,
}

/// The sum of the amounts of `s`, added from the first on, starting at zero;
/// `None` once a partial sum overflows.
pub open spec fn total_amount(s: Seq<Utxo>) -> Option<Amount>
    decreases s.len(),
{
    if s.len() == 0 {
        Some(Amount::spec_zero())
    } else {
        match total_amount(s.drop_last()) {
            Some(t) => decimal_add(t, s.last().amount),
            None => None,
        }
    }
}

/// The rate filed for instant `t`, or one where there is none.
pub open spec fn rate_at(rates: Map<i128, Amount>, t: Timestamp) -> Amount {
    if rates.contains_key(instant_key(t) as i128) {
        rates[instant_key(t) as i128]
    } else {
        Amount::spec_one()
    }
}

/// The cost of the consumed outputs, each priced at the rate of the instant
/// it was observed.
pub open spec fn acquisition_cost(inputs: Seq<Utxo>, rates: Map<i128, Amount>) -> Option<Amount>
    decreases inputs.len(),
{
    if inputs.len() == 0 {
        Some(Amount::spec_zero())
    } else {
        let u = inputs.last();
        match (acquisition_cost(inputs.drop_last(), rates), decimal_mul(u.amount, rate_at(rates, u.timestamp))) {
            (Some(t), Some(v)) => decimal_add(t, v),
            _ => None,
        }
    }
}

/// The value of the produced outputs, all priced at one rate.
pub open spec fn sale_value(outputs: Seq<Utxo>, rate: Amount) -> Option<Amount>
    decreases outputs.len(),
{
    if outputs.len() == 0 {
        Some(Amount::spec_zero())
    } else {
        match (sale_value(outputs.drop_last(), rate), decimal_mul(outputs.last().amount, rate)) {
            (Some(t), Some(v)) => decimal_add(t, v),
            _ => None,
        }
    }
}

/// Sale value less acquisition cost of one transaction.
pub open spec fn gain_of(tx: Transaction, rates: Map<i128, Amount>) -> Option<Amount> {
    match (sale_value(tx.outputs@, rate_at(rates, tx.timestamp)), acquisition_cost(tx.inputs@, rates)) {
        (Some(s), Some(c)) => decimal_sub(s, c),
        _ => None,
    }
}

/// Whether `t` lies in the closed window from `start` to `end`.
pub open spec fn in_window(t: Timestamp, start: Timestamp, end: Timestamp) -> bool {
    instant_key(start) <= instant_key(t) <= instant_key(end)
}

/// The realized gain or loss of the transactions dated inside the window,
/// accumulated in log order from zero.
pub open spec fn realized_total(
    txs: Seq<Transaction>,
    rates: Map<i128, Amount>,
    start: Timestamp,
    end: Timestamp,
) -> Option<Amount>
    decreases txs.len(),
{
    if txs.len() == 0 {
        Some(Amount::spec_zero())
    } else {
        match realized_total(txs.drop_last(), rates, start, end) {
            Some(t) => if in_window(txs.last().timestamp, start, end) {
                match gain_of(txs.last(), rates) {
                    Some(g) => decimal_add(t, g),
                    None => None,
                }
            } else {
                Some(t)
            },
            None => None,
        }
    }
}

/// The lines of `es` dated inside the window, in their order.
pub open spec fn window(es: Seq<EntryView>, start: Timestamp, end: Timestamp) -> Seq<EntryView>
    decreases es.len(),
{
    if es.len() == 0 {
        Seq::empty()
    } else {
        let w = window(es.drop_last(), start, end);
        if in_window(es.last().date, start, end) {
            w.push(es.last())
        } else {
            w
        }
    }
}

/// The identity of an output that `tx` consumes or produces.
pub open spec fn output_key(txid: Seq<char>, u: Utxo) -> (Seq<char>, u32) {
    (txid, u.vout)
}

/// The unspent map once the inputs of `inputs` are taken out, in order.
pub open spec fn spend_all(m: Map<(Seq<char>, u32), Utxo>, inputs: Seq<Utxo>) -> Map<(Seq<char>, u32), Utxo>
    decreases inputs.len(),
{
    if inputs.len() == 0 {
        m
    } else {
        spend_all(m, inputs.drop_last()).remove(output_key(inputs.last().txid@, inputs.last()))
    }
}

/// The unspent map once `outputs` are filed under `txid`, in order.
pub open spec fn produce_all(
    m: Map<(Seq<char>, u32), Utxo>,
    txid: Seq<char>,
    outputs: Seq<Utxo>,
) -> Map<(Seq<char>, u32), Utxo>
    decreases outputs.len(),
{
    if outputs.len() == 0 {
        m
    } else {
        produce_all(m, txid, outputs.drop_last()).insert(output_key(txid, outputs.last()), outputs.last())
    }
}

/// One transaction applied to an unspent map: inputs out, then outputs in.
pub open spec fn apply_to_unspent(m: Map<(Seq<char>, u32), Utxo>, tx: Transaction) -> Map<(Seq<char>, u32), Utxo> {
    produce_all(spend_all(m, tx.inputs@), tx.txid@, tx.outputs@)
}

/// The unspent map after a log of transactions, applied in order to an empty one.
pub open spec fn unspent_after(txs: Seq<Transaction>) -> Map<(Seq<char>, u32), Utxo>
    decreases txs.len(),
{
    if txs.len() == 0 {
        Map::empty()
    } else {
        apply_to_unspent(unspent_after(txs.drop_last()), txs.last())
    }
}

pub open spec fn received_description(txid: Seq<char>) -> Seq<char> {
    "Received BTC - "@ + txid
}

pub open spec fn sent_description(txid: Seq<char>) -> Seq<char> {
    "Sent BTC - "@ + txid
}

pub open spec fn fee_description(txid: Seq<char>) -> Seq<char> {
    "Transaction fee - "@ + txid
}

/// The debit line for received funds, present when the outputs total above zero.
pub open spec fn received_part(tx: Transaction, total_out: Amount) -> Seq<EntryView> {
    if total_out.spec_positive() {
        seq![EntryView { date: tx.timestamp, description: received_description(tx.txid@), debit: total_out, credit: Amount::spec_zero() }]
    } else {
        Seq::empty()
    }
}

/// The credit line for sent funds, present when the inputs total above zero.
pub open spec fn sent_part(tx: Transaction, total_in: Amount) -> Seq<EntryView> {
    if total_in.spec_positive() {
        seq![EntryView { date: tx.timestamp, description: sent_description(tx.txid@), debit: Amount::spec_zero(), credit: total_in }]
    } else {
        Seq::empty()
    }
}

/// The credit line for the fee, present when the fee is above zero.
pub open spec fn fee_part(tx: Transaction) -> Seq<EntryView> {
    if tx.fee.spec_positive() {
        seq![EntryView { date: tx.timestamp, description: fee_description(tx.txid@), debit: Amount::spec_zero(), credit: tx.fee }]
    } else {
        Seq::empty()
    }
}

/// The lines that applying `tx` appends, given its two totals.
pub open spec fn entries_for(tx: Transaction, total_in: Amount, total_out: Amount) -> Seq<EntryView> {
    received_part(tx, total_out) + sent_part(tx, total_in) + fee_part(tx)
}

/// The views of a run of accounting lines.
pub open spec fn entry_views(es: Seq<AccountingEntry>) -> Seq<EntryView> {
    es.map_values(|e: AccountingEntry| e@)
}


/// The sum of the amounts of `items`, or `None` on overflow.
pub fn total_amount_of(items: &Vec<Utxo>) -> (r: Option<Amount>)
    requires
        forall|i: int| 0 <= i < items@.len() ==> (#[trigger] items@[i]).amount.wf(),
    ensures
        r == total_amount(items@),
        r matches Some(t) ==> t.wf(),
{
    let mut acc = Amount::zero();
    let mut i: usize = 0;
    while i < items.len()
        invariant
            0 <= i <= items@.len(),
            forall|j: int| 0 <= j < items@.len() ==> (#[trigger] items@[j]).amount.wf(),
            Some(acc) == total_amount(items@.take(i as int)),
            acc.wf(),
        decreases items@.len() - i,
    {
        proof {
            assert(items@.take(i + 1).drop_last() =~= items@.take(i as int));
        }
        match checked_add(acc, items[i].amount) {
            Some(t) => {
                acc = t;
            },
            None => {
                proof {
                    lemma_total_none_extends(items@, i as int + 1);
                }
                return None;
            },
        }
        i = i + 1;
    }
    assert(items@.take(items@.len() as int) =~= items@);
    Some(acc)
}

proof fn lemma_total_none_extends(s: Seq<Utxo>, n: int)
    requires
        0 < n <= s.len(),
        total_amount(s.take(n)) is None,
    ensures
        total_amount(s) is None,
    decreases s.len() - n,
{
    if n == s.len() {
        assert(s.take(n) =~= s);
    } else {
        assert(s.take(n + 1).drop_last() =~= s.take(n));
        lemma_total_none_extends(s, n + 1);
    }
}

/// `prefix` followed by the transaction id.
fn describe(prefix: &str, txid: &String) -> (r: String)
    ensures
        r@ == prefix@ + txid@,
{
    let p = <String as StringExecFns>::from_str(prefix);
    p.concat(txid.as_str())
}


/// The value of `outputs`, all at `rate`.
fn sale_value_of(outputs: &Vec<Utxo>, rate: Amount) -> (r: Option<Amount>)
    requires
        rate.wf(),
        forall|i: int| 0 <= i < outputs@.len() ==> (#[trigger] outputs@[i]).amount.wf(),
    ensures
        r == sale_value(outputs@, rate),
        r matches Some(t) ==> t.wf(),
{
    let mut acc = Amount::zero();
    let mut i: usize = 0;
    while i < outputs.len()
        invariant
            rate.wf(),
            0 <= i <= outputs@.len(),
            forall|j: int| 0 <= j < outputs@.len() ==> (#[trigger] outputs@[j]).amount.wf(),
            Some(acc) == sale_value(outputs@.take(i as int), rate),
            acc.wf(),
        decreases outputs@.len() - i,
    {
        proof {
            assert(outputs@.take(i + 1).drop_last() =~= outputs@.take(i as int));
        }
        let step = match checked_mul(outputs[i].amount, rate) {
            Some(v) => checked_add(acc, v),
            None => None,
        };
        match step {
            Some(t) => {
                acc = t;
            },
            None => {
                proof {
                    lemma_sale_none_extends(outputs@, rate, i as int + 1);
                }
                return None;
            },
        }
        i = i + 1;
    }
    assert(outputs@.take(outputs@.len() as int) =~= outputs@);
    Some(acc)
}

proof fn lemma_sale_none_extends(s: Seq<Utxo>, rate: Amount, n: int)
    requires
        0 < n <= s.len(),
        sale_value(s.take(n), rate) is None,
    ensures
        sale_value(s, rate) is None,
    decreases s.len() - n,
{
    if n == s.len() {
        assert(s.take(n) =~= s);
    } else {
        assert(s.take(n + 1).drop_last() =~= s.take(n));
        lemma_sale_none_extends(s, rate, n + 1);
    }
}

proof fn lemma_acquisition_none_extends(s: Seq<Utxo>, rates: Map<i128, Amount>, n: int)
    requires
        0 < n <= s.len(),
        acquisition_cost(s.take(n), rates) is None,
    ensures
        acquisition_cost(s, rates) is None,
    decreases s.len() - n,
{
    if n == s.len() {
        assert(s.take(n) =~= s);
    } else {
        assert(s.take(n + 1).drop_last() =~= s.take(n));
        lemma_acquisition_none_extends(s, rates, n + 1);
    }
}

proof fn lemma_realized_none_extends(
    s: Seq<Transaction>,
    rates: Map<i128, Amount>,
    start: Timestamp,
    end: Timestamp,
    n: int,
)
    requires
        0 < n <= s.len(),
        realized_total(s.take(n), rates, start, end) is None,
    ensures
        realized_total(s, rates, start, end) is None,
    decreases s.len() - n,
{
    if n == s.len() {
        assert(s.take(n) =~= s);
    } else {
        assert(s.take(n + 1).drop_last() =~= s.take(n));
        lemma_realized_none_extends(s, rates, start, end, n + 1);
    }
}

/// The ledger: unspent outputs, the transaction log, the accounting log and
/// the rate table, keyed by `Timestamp::key`.
pub struct BitcoinAccountingApp {
    pub utxo_set: UtxoSet,
    pub transactions: Vec<Transaction>,
    pub accounting_entries: Vec<AccountingEntry>,
    pub exchange_rates: HashMap<i128, Amount>,
}

impl BitcoinAccountingApp {
    /// The unspent set is what the log leaves, and every amount fits a decimal.
    pub open spec fn wf(&self) -> bool {
        &&& self.utxo_set@ == unspent_after(self.transactions@)
        &&& forall|i: int| 0 <= i < self.transactions@.len() ==> (#[trigger] self.transactions@[i]).wf()
        &&& forall|k: i128| self.exchange_rates@.contains_key(k) ==> (#[trigger] self.exchange_rates@[k]).wf()
    }

    pub open spec fn entries(&self) -> Seq<EntryView> {
        entry_views(self.accounting_entries@)
    }

    /// An engine with nothing recorded.
    pub fn new() -> (r: BitcoinAccountingApp)
        ensures
            r.wf(),
            r.utxo_set@ == Map::<(Seq<char>, u32), Utxo>::empty(),
            r.transactions@ == Seq::<Transaction>::empty(),
            r.entries() == Seq::<EntryView>::empty(),
            r.exchange_rates@ == Map::<i128, Amount>::empty(),
    {
        let r = BitcoinAccountingApp {
            utxo_set: UtxoSet::new(),
            transactions: Vec::new(),
            accounting_entries: Vec::new(),
            exchange_rates: HashMap::new(),
        };
        assert(r.entries() =~= Seq::<EntryView>::empty());
        r
    }

    /// Applies a transaction: its inputs leave the unspent set, its outputs
    /// enter it under the transaction's id, up to three accounting lines are
    /// appended, and the transaction joins the log. An input that is not in
    /// the set is passed over without complaint, and an output replaces one
    /// filed under the same identity. Where a total of its inputs or outputs
    /// overflows, nothing changes and `Overflow` comes back.
    pub fn add_transaction(&mut self, transaction: Transaction) -> (r: Result<(), LedgerError>)
        requires
            old(self).wf(),
            transaction.wf(),
        ensures
            final(self).wf(),
            final(self).exchange_rates@ == old(self).exchange_rates@,
            match (total_amount(transaction.inputs@), total_amount(transaction.outputs@)) {
                (Some(total_in), Some(total_out)) => {
                    &&& r is Ok
                    &&& final(self).transactions@ == old(self).transactions@.push(transaction)
                    &&& final(self).entries() == old(self).entries() + entries_for(transaction, total_in, total_out)
                    &&& final(self).utxo_set@ == apply_to_unspent(old(self).utxo_set@, transaction)
                },
                _ => {
                    &&& r == Err::<(), LedgerError>(LedgerError::Overflow)
                    &&& final(self).transactions@ == old(self).transactions@
                    &&& final(self).entries() == old(self).entries()
                    &&& final(self).utxo_set@ == old(self).utxo_set@
                },
            },
    {
        let total_input = match total_amount_of(&transaction.inputs) {
            Some(t) => t,
            None => {
                return Err(LedgerError::Overflow);
            },
        };
        let total_output = match total_amount_of(&transaction.outputs) {
            Some(t) => t,
            None => {
                return Err(LedgerError::Overflow);
            },
        };

        let mut i: usize = 0;
        while i < transaction.inputs.len()
            invariant
                0 <= i <= transaction.inputs@.len(),
                self.utxo_set@ == spend_all(old(self).utxo_set@, transaction.inputs@.take(i as int)),
                self.transactions@ == old(self).transactions@,
                self.accounting_entries@ == old(self).accounting_entries@,
                self.exchange_rates@ == old(self).exchange_rates@,
            decreases transaction.inputs@.len() - i,
        {
            proof {
                assert(transaction.inputs@.take(i + 1).drop_last() =~= transaction.inputs@.take(i as int));
            }
            self.utxo_set.remove(&transaction.inputs[i].txid, transaction.inputs[i].vout);
            i = i + 1;
        }
        assert(transaction.inputs@.take(transaction.inputs@.len() as int) =~= transaction.inputs@);
        let ghost spent = self.utxo_set@;

        let mut j: usize = 0;
        while j < transaction.outputs.len()
            invariant
                0 <= j <= transaction.outputs@.len(),
                self.utxo_set@ == produce_all(spent, transaction.txid@, transaction.outputs@.take(j as int)),
                self.transactions@ == old(self).transactions@,
                self.accounting_entries@ == old(self).accounting_entries@,
                self.exchange_rates@ == old(self).exchange_rates@,
            decreases transaction.outputs@.len() - j,
        {
            proof {
                assert(transaction.outputs@.take(j + 1).drop_last() =~= transaction.outputs@.take(j as int));
            }
            self.utxo_set.insert(transaction.txid.clone(), transaction.outputs[j].duplicate());
            j = j + 1;
        }
        assert(transaction.outputs@.take(transaction.outputs@.len() as int) =~= transaction.outputs@);

        let ghost before = self.accounting_entries@;
        if total_output.is_positive() {
            self.accounting_entries.push(AccountingEntry {
                date: transaction.timestamp,
                description: describe("Received BTC - ", &transaction.txid),
                debit: total_output,
                credit: Amount::zero(),
            });
        }
        assert(entry_views(self.accounting_entries@) =~= entry_views(before) + received_part(transaction, total_output));
        let ghost before = self.accounting_entries@;
        if total_input.is_positive() {
            self.accounting_entries.push(AccountingEntry {
                date: transaction.timestamp,
                description: describe("Sent BTC - ", &transaction.txid),
                debit: Amount::zero(),
                credit: total_input,
            });
        }
        assert(entry_views(self.accounting_entries@) =~= entry_views(before) + sent_part(transaction, total_input));
        let ghost before = self.accounting_entries@;
        if transaction.fee.is_positive() {
            self.accounting_entries.push(AccountingEntry {
                date: transaction.timestamp,
                description: describe("Transaction fee - ", &transaction.txid),
                debit: Amount::zero(),
                credit: transaction.fee,
            });
        }
        assert(entry_views(self.accounting_entries@) =~= entry_views(before) + fee_part(transaction));
        assert(self.entries() =~= old(self).entries() + entries_for(transaction, total_input, total_output));

        self.transactions.push(transaction);
        assert(self.transactions@.drop_last() =~= old(self).transactions@);
        Ok(())
    }

    /// The accounting lines dated from `start` to `end`, both included, in
    /// the order they were recorded.
    pub fn generate_fasb_report(&self, start_date: Timestamp, end_date: Timestamp) -> (r: Vec<AccountingEntry>)
        ensures
            entry_views(r@) == window(self.entries(), start_date, end_date),
    {
        let mut r: Vec<AccountingEntry> = Vec::new();
        let mut i: usize = 0;
        while i < self.accounting_entries.len()
            invariant
                0 <= i <= self.accounting_entries@.len(),
                entry_views(r@) == window(entry_views(self.accounting_entries@.take(i as int)), start_date, end_date),
            decreases self.accounting_entries@.len() - i,
        {
            let ghost prev = r@;
            let entry = &self.accounting_entries[i];
            proof {
                assert(entry_views(self.accounting_entries@.take(i + 1)).drop_last() =~= entry_views(
                    self.accounting_entries@.take(i as int),
                ));
            }
            if start_date.le(&entry.date) && entry.date.le(&end_date) {
                r.push(entry.duplicate());
                assert(entry_views(r@) =~= entry_views(prev).push(entry@));
            }
            i = i + 1;
        }
        assert(self.accounting_entries@.take(self.accounting_entries@.len() as int) =~= self.accounting_entries@);
        r
    }

    /// The rate filed for `t`, or one where there is none.
    fn rate_for(&self, t: Timestamp) -> (r: Amount)
        requires
            self.wf(),
        ensures
            r == rate_at(self.exchange_rates@, t),
            r.wf(),
    {
        match self.exchange_rates.get(&t.key()) {
            Some(rate) => *rate,
            None => Amount::one(),
        }
    }

    /// The cost of `inputs`, each at the rate of the instant it was observed.
    fn acquisition_of(&self, inputs: &Vec<Utxo>) -> (r: Option<Amount>)
        requires
            self.wf(),
            forall|i: int| 0 <= i < inputs@.len() ==> (#[trigger] inputs@[i]).amount.wf(),
        ensures
            r == acquisition_cost(inputs@, self.exchange_rates@),
            r matches Some(t) ==> t.wf(),
    {
        let mut acc = Amount::zero();
        let mut i: usize = 0;
        while i < inputs.len()
            invariant
                self.wf(),
                0 <= i <= inputs@.len(),
                forall|j: int| 0 <= j < inputs@.len() ==> (#[trigger] inputs@[j]).amount.wf(),
                Some(acc) == acquisition_cost(inputs@.take(i as int), self.exchange_rates@),
                acc.wf(),
            decreases inputs@.len() - i,
        {
            proof {
                assert(inputs@.take(i + 1).drop_last() =~= inputs@.take(i as int));
            }
            let rate = self.rate_for(inputs[i].timestamp);
            let step = match checked_mul(inputs[i].amount, rate) {
                Some(v) => checked_add(acc, v),
                None => None,
            };
            match step {
                Some(t) => {
                    acc = t;
                },
                None => {
                    proof {
                        lemma_acquisition_none_extends(inputs@, self.exchange_rates@, i as int + 1);
                    }
                    return None;
                },
            }
            i = i + 1;
        }
        assert(inputs@.take(inputs@.len() as int) =~= inputs@);
        Some(acc)
    }

    /// The gain or loss realized by the transactions dated from `start` to
    /// `end`, both included: for each, its outputs at the rate of its own
    /// instant less its inputs at the rates of theirs, a missing rate
    /// counting as one. `Overflow` where a sum or product leaves the range.
    pub fn calculate_realized_gains_losses(&self, start_date: Timestamp, end_date: Timestamp) -> (r: Result<Amount, LedgerError>)
        requires
            self.wf(),
        ensures
            match realized_total(self.transactions@, self.exchange_rates@, start_date, end_date) {
                Some(t) => r == Ok::<Amount, LedgerError>(t),
                None => r == Err::<Amount, LedgerError>(LedgerError::Overflow),
            },
    {
        let mut acc = Amount::zero();
        let mut i: usize = 0;
        while i < self.transactions.len()
            invariant
                self.wf(),
                0 <= i <= self.transactions@.len(),
                Some(acc) == realized_total(self.transactions@.take(i as int), self.exchange_rates@, start_date, end_date),
                acc.wf(),
            decreases self.transactions@.len() - i,
        {
            proof {
                assert(self.transactions@.take(i + 1).drop_last() =~= self.transactions@.take(i as int));
            }
            let transaction = &self.transactions[i];
            assert(transaction.wf());
            if start_date.le(&transaction.timestamp) && transaction.timestamp.le(&end_date) {
                let step = match self.acquisition_of(&transaction.inputs) {
                    Some(cost) => match sale_value_of(&transaction.outputs, self.rate_for(transaction.timestamp)) {
                        Some(sale) => match checked_sub(sale, cost) {
                            Some(g) => checked_add(acc, g),
                            None => None,
                        },
                        None => None,
                    },
                    None => None,
                };
                match step {
                    Some(t) => {
                        acc = t;
                    },
                    None => {
                        proof {
                            lemma_realized_none_extends(self.transactions@, self.exchange_rates@, start_date, end_date, i as int + 1);
                        }
                        return Err(LedgerError::Overflow);
                    },
                }
            }
            i = i + 1;
        }
        assert(self.transactions@.take(self.transactions@.len() as int) =~= self.transactions@);
        Ok(acc)
    }

    /// Files `rate` for instant `date`, replacing any rate filed for it.
    pub fn add_exchange_rate(&mut self, date: Timestamp, rate: Amount)
        requires
            old(self).wf(),
            rate.wf(),
        ensures
            final(self).wf(),
            final(self).exchange_rates@ == old(self).exchange_rates@.insert(instant_key(date) as i128, rate),
            final(self).transactions@ == old(self).transactions@,
            final(self).entries() == old(self).entries(),
            final(self).utxo_set@ == old(self).utxo_set@,
    {
        self.exchange_rates.insert(date.key(), rate);
    }
}

} // verus!

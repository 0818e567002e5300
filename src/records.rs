use vstd::prelude::*;
use crate::amount::Amount;

verus! {

/// An instant: whole seconds since the Unix epoch and the nanoseconds past
/// that second (a leap second counts up to two billion of them).
#[derive(Clone, Copy, Debug, PartialEq, Eq, Structural)]
pub struct Timestamp {
    pub secs: i64,
    pub nanos: u32,
}

/// Lossless, order-keeping key of an instant: two instants get the same key
/// only when both fields agree, and earlier instants get smaller keys.
pub open spec fn instant_key(t: Timestamp) -> int {
    t.secs * 0x1_0000_0000 + t.nanos
}

impl Timestamp {
    pub fn new(secs: i64, nanos: u32) -> (r: Timestamp)
        ensures
            r == (Timestamp { secs, nanos }),
    {
        Timestamp { secs, nanos }
    }

    /// The key under which the rate table files this instant.
    pub fn key(&self) -> (r: i128)
        ensures
            r == instant_key(*self),
    {
        (self.secs as i128) * 0x1_0000_0000 + (self.nanos as i128)
    }

    /// Whether `self` is no later than `other`.
    pub fn le(&self, other: &Timestamp) -> (r: bool)
        ensures
            r == (instant_key(*self) <= instant_key(*other)),
    {
        self.key() <= other.key()
    }
}

/// A spendable output: origin transaction, output index, amount, owner,
/// confirmation count, spendability and the time it was observed.
#[derive(Debug)]
pub struct Utxo {
    pub txid: String,
    pub vout: u32,
    pub amount: Amount,
    pub address: String,
    pub confirmations: u64,
    pub spendable: bool,
    pub timestamp: Timestamp,
}

impl Utxo {
    /// A field-by-field copy.
    pub fn duplicate(&self) -> (r: Utxo)
        ensures
            r == *self,
    {
        Utxo {
            txid: self.txid.clone(),
            vout: self.vout,
            amount: self.amount,
            address: self.address.clone(),
            confirmations: self.confirmations,
            spendable: self.spendable,
            timestamp: self.timestamp,
        }
    }
}

/// A transaction: the outputs it consumes, the outputs it produces, its fee.
#[derive(Debug)]
pub struct Transaction {
    pub txid: String,
    pub timestamp: Timestamp,
    pub inputs: Vec<Utxo>,
    pub outputs: Vec<Utxo>,
    pub fee: Amount,
}

impl Transaction {
    /// Every amount of the transaction fits a decimal.
    pub open spec fn wf(&self) -> bool {
        &&& self.fee.wf()
        &&& forall|i: int| 0 <= i < self.inputs@.len() ==> (#[trigger] self.inputs@[i]).amount.wf()
        &&& forall|i: int| 0 <= i < self.outputs@.len() ==> (#[trigger] self.outputs@[i]).amount.wf()
    }
}

/// A dated double-entry line.
#[derive(Debug)]
pub struct AccountingEntry {
    pub date: Timestamp,
    pub description: String,
    pub debit: Amount,
    pub credit: Amount,
}

impl AccountingEntry {
    /// A field-by-field copy.
    pub fn duplicate(&self) -> (r: AccountingEntry)
        ensures
            r == *self,
    {
        AccountingEntry {
            date: self.date,
            description: self.description.clone(),
            debit: self.debit,
            credit: self.credit,
        }
    }
}

} // verus!

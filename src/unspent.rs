use vstd::prelude::*;
use crate::records::Utxo;

verus! {

/// One stored output, filed under the transaction that produced it.
#[derive(Debug)]
pub struct Slot {
    pub txid: String,
    pub output: Utxo,
}

/// The identity of an output: producing transaction and output index.
pub open spec fn slot_key(s: Slot) -> (Seq<char>, u32) {
    (s.txid@, s.output.vout)
}

/// The map that a run of slots stands for; a later slot replaces an earlier
/// one with the same key.
pub open spec fn slots_map(s: Seq<Slot>) -> Map<(Seq<char>, u32), Utxo>
    decreases s.len(),
{
    if s.len() == 0 {
        Map::empty()
    } else {
        slots_map(s.drop_last()).insert(slot_key(s.last()), s.last().output)
    }
}

proof fn lemma_slots_push(s: Seq<Slot>, e: Slot)
    ensures
        slots_map(s.push(e)) == slots_map(s).insert(slot_key(e), e.output),
{
    assert(s.push(e).drop_last() =~= s);
}

proof fn lemma_slots_remove(s: Seq<Slot>, i: int, k: (Seq<char>, u32))
    requires
        0 <= i < s.len(),
        slot_key(s[i]) == k,
    ensures
        slots_map(s.remove(i)).remove(k) == slots_map(s).remove(k),
    decreases s.len(),
{
    let d = s.drop_last();
    if i == s.len() - 1 {
        assert(s.remove(i) =~= d);
        assert(slots_map(s).remove(k) =~= slots_map(d).remove(k));
    } else {
        lemma_slots_remove(d, i, k);
        let r = s.remove(i);
        assert(r.drop_last() =~= d.remove(i));
        assert(r.last() == s.last());
        let kl = slot_key(s.last());
        let vl = s.last().output;
        assert(slots_map(r) == slots_map(d.remove(i)).insert(kl, vl));
        assert(slots_map(s) == slots_map(d).insert(kl, vl));
        if kl == k {
            assert(slots_map(r).remove(k) =~= slots_map(d.remove(i)).remove(k));
            assert(slots_map(s).remove(k) =~= slots_map(d).remove(k));
        } else {
            assert(slots_map(r).remove(k) =~= slots_map(d.remove(i)).remove(k).insert(kl, vl));
            assert(slots_map(s).remove(k) =~= slots_map(d).remove(k).insert(kl, vl));
        }
    }
}

proof fn lemma_slots_absent(s: Seq<Slot>, k: (Seq<char>, u32))
    requires
        forall|j: int| 0 <= j < s.len() ==> slot_key(#[trigger] s[j]) != k,
    ensures
        !slots_map(s).contains_key(k),
    decreases s.len(),
{
    if s.len() > 0 {
        lemma_slots_absent(s.drop_last(), k);
    }
}

proof fn lemma_slots_lookup(s: Seq<Slot>, i: int, k: (Seq<char>, u32))
    requires
        0 <= i < s.len(),
        slot_key(s[i]) == k,
        forall|j: int| i < j < s.len() ==> slot_key(#[trigger] s[j]) != k,
    ensures
        slots_map(s).contains_key(k),
        slots_map(s)[k] == s[i].output,
    decreases s.len(),
{
    if i < s.len() - 1 {
        lemma_slots_lookup(s.drop_last(), i, k);
    }
}

/// The live set of unspent outputs, keyed by producing transaction and
/// output index.
pub struct UtxoSet {
    slots: Vec<Slot>,
}

impl View for UtxoSet {
    type V = Map<(Seq<char>, u32), Utxo>;

    closed spec fn view(&self) -> Map<(Seq<char>, u32), Utxo> {
        slots_map(self.slots@)
    }
}

impl UtxoSet {
    pub fn new() -> (r: UtxoSet)
        ensures
            r@ == Map::<(Seq<char>, u32), Utxo>::empty(),
    {
        UtxoSet { slots: Vec::new() }
    }

    /// Drops the output filed under `(txid, vout)`, if there is one.
    pub fn remove(&mut self, txid: &String, vout: u32)
        ensures
            final(self)@ == old(self)@.remove((txid@, vout)),
    {
        let ghost k = (txid@, vout);
        let mut i: usize = 0;
        while i < self.slots.len()
            invariant
                k == (txid@, vout),
                0 <= i <= self.slots@.len(),
                slots_map(self.slots@).remove(k) == slots_map(old(self).slots@).remove(k),
                forall|j: int| 0 <= j < i ==> slot_key(#[trigger] self.slots@[j]) != k,
            decreases self.slots@.len() - i,
        {
            if self.slots[i].output.vout == vout && self.slots[i].txid.eq(txid) {
                proof {
                    lemma_slots_remove(self.slots@, i as int, k);
                }
                self.slots.remove(i);
            } else {
                i = i + 1;
            }
        }
        proof {
            lemma_slots_absent(self.slots@, k);
            assert(slots_map(self.slots@) =~= slots_map(self.slots@).remove(k));
        }
    }

    /// Files `output` under `(txid, output.vout)`, replacing what was there.
    pub fn insert(&mut self, txid: String, output: Utxo)
        ensures
            final(self)@ == old(self)@.insert((txid@, output.vout), output),
    {
        self.remove(&txid, output.vout);
        let slot = Slot { txid, output };
        proof {
            lemma_slots_push(self.slots@, slot);
            assert(slots_map(self.slots@).insert(slot_key(slot), slot.output) =~= old(
                self,
            )@.insert(slot_key(slot), slot.output));
        }
        self.slots.push(slot);
    }

    /// The output filed under `(txid, vout)`.
    pub fn get(&self, txid: &String, vout: u32) -> (r: Option<&Utxo>)
        ensures
            r matches Some(u) ==> self@.contains_key((txid@, vout)) && self@[(txid@, vout)] == *u,
            r is None ==> !self@.contains_key((txid@, vout)),
    {
        let ghost k = (txid@, vout);
        let mut i: usize = self.slots.len();
        while i > 0
            invariant
                k == (txid@, vout),
                0 <= i <= self.slots@.len(),
                forall|j: int| i <= j < self.slots@.len() ==> slot_key(#[trigger] self.slots@[j]) != k,
            decreases i,
        {
            i = i - 1;
            if self.slots[i].output.vout == vout && self.slots[i].txid.eq(txid) {
                proof {
                    lemma_slots_lookup(self.slots@, i as int, k);
                }
                return Some(&self.slots[i].output);
            }
        }
        proof {
            lemma_slots_absent(self.slots@, k);
        }
        None
    }
}

} // verus!

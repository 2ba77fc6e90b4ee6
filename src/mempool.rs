//! The staging pool of transactions awaiting inclusion, one per sender and nonce.
use vstd::prelude::*;
use crate::address::Address;
use crate::transaction::BlockTx;
use crate::selector::TxInfo;

verus! {

/// The slot of a pooled transaction: its sender and nonce.
#[derive(Debug, Clone, Copy, PartialEq, Eq, Hash)]
pub struct Key {
    pub sender: Address,
    pub nonce: u64,
}

impl View for Key {
    type V = (Seq<u8>, u64);

    open spec fn view(&self) -> (Seq<u8>, u64) {
        (self.sender@, self.nonce)
    }
}

impl Key {
    pub fn new(sender: Address, nonce: u64) -> (r: Key)
        ensures
            r.sender == sender,
            r.nonce == nonce,
    {
        Key { sender, nonce }
    }
}

#[verifier::external_type_specification]
#[verifier::external_body]
#[verifier::reject_recursive_types(K)]
#[verifier::reject_recursive_types(V)]
#[verifier::reject_recursive_types(S)]
pub struct ExDashMap<K, V, S>(dashmap::DashMap<K, V, S>);

/// What a pool map holds, by the view of each key.
pub uninterp spec fn pool_entries(m: dashmap::DashMap<Key, BlockTx>) -> Map<(Seq<u8>, u64), BlockTx>;

/// Relies on `DashMap::new`: an empty map.
#[verifier::external_body]
fn map_new() -> (r: dashmap::DashMap<Key, BlockTx>)
    ensures
        pool_entries(r).dom().is_empty(),
{
    dashmap::DashMap::new()
}

/// Relies on `DashMap::len`: the number of entries.
#[verifier::external_body]
fn map_len(m: &dashmap::DashMap<Key, BlockTx>) -> (r: usize)
    ensures
        r as nat == pool_entries(*m).dom().len(),
{
    m.len()
}

/// Relies on `DashMap::get`: the tip of the entry at `k`, if there is one.
#[verifier::external_body]
fn map_tip(m: &dashmap::DashMap<Key, BlockTx>, k: &Key) -> (r: Option<u64>)
    ensures
        r == (if pool_entries(*m).contains_key(k@) {
            Some(pool_entries(*m)[k@].tx.transaction.tip)
        } else {
            None
        }),
{
    m.get(k).map(|e| e.tip())
}

/// The selection record of a pooled transaction.
pub open spec fn info_of(e: BlockTx) -> TxInfo {
    TxInfo { timestamp: e.timestamp, key: Key { sender: e.tx.transaction.from, nonce: e.tx.transaction.nonce } }
}

/// Relies on `DashMap::iter`: one record per entry, in an order the map chooses.
#[verifier::external_body]
fn map_infos(m: &dashmap::DashMap<Key, BlockTx>) -> (r: Vec<TxInfo>)
    requires
        forall|k: (Seq<u8>, u64)| #[trigger] pool_entries(*m).contains_key(k) ==> key_of(pool_entries(*m)[k]) == k,
    ensures
        r@.len() == pool_entries(*m).dom().len(),
        forall|i: int| 0 <= i < r@.len() ==> pool_entries(*m).contains_key(#[trigger] r@[i].key@)
            && r@[i] == info_of(pool_entries(*m)[r@[i].key@]),
        forall|k: (Seq<u8>, u64)| #[trigger] pool_entries(*m).contains_key(k)
            ==> exists|i: int| 0 <= i < r@.len() && r@[i].key@ == k,
{
    m.iter().map(|e| e.value().info()).collect()
}

/// Relies on `DashMap::insert`: `k` maps to `v` afterwards, all else is kept.
#[verifier::external_body]
fn map_insert(m: &mut dashmap::DashMap<Key, BlockTx>, k: Key, v: BlockTx)
    ensures
        pool_entries(*final(m)) == pool_entries(*old(m)).insert(k@, v),
{
    m.insert(k, v);
}

/// Relies on `DashMap::remove`: the entry at `k` is gone afterwards, all else is kept.
#[verifier::external_body]
fn map_remove(m: &mut dashmap::DashMap<Key, BlockTx>, k: &Key)
    ensures
        pool_entries(*final(m)) == pool_entries(*old(m)).remove(k@),
{
    m.remove(k);
}

/// Relies on `DashMap::clear`: no entry is left.
#[verifier::external_body]
fn map_clear(m: &mut dashmap::DashMap<Key, BlockTx>)
    ensures
        pool_entries(*final(m)).dom().is_empty(),
{
    m.clear();
}

/// Why a transaction is refused by the pool.
#[derive(Debug, Clone, Copy, PartialEq, Eq, Structural)]
pub enum AdmissionError {
    /// The tip does not exceed the pooled one's by at least a tenth of it.
    TipTooLow,
}

/// The slot a pooled transaction takes.
pub open spec fn key_of(e: BlockTx) -> (Seq<u8>, u64) {
    (e.tx.transaction.from@, e.tx.transaction.nonce)
}

/// A transaction with tip `new_tip` may replace one with tip `old_tip`: the new tip is at
/// least the old one plus a tenth of it, rounded down.
pub open spec fn admits(old_tip: u64, new_tip: u64) -> bool {
    new_tip as int >= old_tip as int + old_tip as int / 10
}

/// What submitting `e` to a pool holding `m` returns, and what the pool holds afterwards.
pub open spec fn upsert_outcome(m: Map<(Seq<u8>, u64), BlockTx>, e: BlockTx) -> (
    Result<(), AdmissionError>,
    Map<(Seq<u8>, u64), BlockTx>,
) {
    let k = key_of(e);
    if m.contains_key(k) && !admits(m[k].tx.transaction.tip, e.tx.transaction.tip) {
        (Err(AdmissionError::TipTooLow), m)
    } else {
        (Ok(()), m.insert(k, e))
    }
}

/// The tip rule, computed without overflow.
pub fn admits_tip(old_tip: u64, new_tip: u64) -> (r: bool)
    ensures
        r == admits(old_tip, new_tip),
{
    let bump = old_tip / 10;
    if old_tip > u64::MAX - bump {
        false
    } else {
        new_tip >= old_tip + bump
    }
}

/// A staging area for unconfirmed transactions, keyed by sender and nonce.
pub struct MemPool {
    pool: dashmap::DashMap<Key, BlockTx>,
}

impl MemPool {
    /// The transactions held, by slot.
    pub closed spec fn entries(&self) -> Map<(Seq<u8>, u64), BlockTx> {
        pool_entries(self.pool)
    }

    /// Each transaction sits in its own slot, and the pool holds finitely many.
    pub closed spec fn wf(&self) -> bool {
        &&& self.entries().dom().finite()
        &&& forall|k: (Seq<u8>, u64)| #[trigger] self.entries().contains_key(k) ==> key_of(self.entries()[k]) == k
    }

    /// An empty pool.
    pub fn new() -> (r: MemPool)
        ensures
            r.wf(),
            r.entries().dom().is_empty(),
    {
        proof { assert(Set::<(Seq<u8>, u64)>::empty().finite()); }
        let r = MemPool { pool: map_new() };
        assert(r.entries().dom() =~= Set::<(Seq<u8>, u64)>::empty());
        r
    }

    /// The number of transactions held.
    pub fn len(&self) -> (r: usize)
        requires
            self.wf(),
        ensures
            r as nat == self.entries().dom().len(),
    {
        map_len(&self.pool)
    }

    /// The tip of the transaction held at `key`, if any.
    pub fn tip_at(&self, key: &Key) -> (r: Option<u64>)
        ensures
            r == (if self.entries().contains_key(key@) {
                Some(self.entries()[key@].tx.transaction.tip)
            } else {
                None
            }),
    {
        map_tip(&self.pool, key)
    }

    /// The selection record of every transaction held, once each, in no set order.
    pub fn snapshot(&self) -> (r: Vec<TxInfo>)
        requires
            self.wf(),
        ensures
            r@.len() == self.entries().dom().len(),
            forall|i: int| 0 <= i < r@.len() ==> self.entries().contains_key(#[trigger] r@[i].key@)
                && r@[i] == info_of(self.entries()[r@[i].key@]),
            forall|k: (Seq<u8>, u64)| #[trigger] self.entries().contains_key(k)
                ==> exists|i: int| 0 <= i < r@.len() && r@[i].key@ == k,
    {
        map_infos(&self.pool)
    }

    /// Admits `tx` into its slot: a free slot takes it; an occupied one takes it only when
    /// its tip clears the replacement rule against the one held, else nothing changes.
    pub fn upsert(&mut self, tx: BlockTx) -> (r: Result<(), AdmissionError>)
        requires
            old(self).wf(),
        ensures
            final(self).wf(),
            (r, final(self).entries()) == upsert_outcome(old(self).entries(), tx),
            old(self).entries().contains_key(key_of(tx)) ==> final(self).entries().dom().len() == old(self).entries().dom().len(),
            !old(self).entries().contains_key(key_of(tx)) ==> final(self).entries().dom().len() == old(self).entries().dom().len() + 1,
    {
        let key = Key::new(tx.tx().from, tx.tx().nonce);
        if let Some(held_tip) = map_tip(&self.pool, &key) {
            if !admits_tip(held_tip, tx.tip()) {
                return Err(AdmissionError::TipTooLow);
            }
        }
        map_insert(&mut self.pool, key, tx);
        proof {
            let k = key_of(tx);
            let m = old(self).entries();
            if m.contains_key(k) {
                assert(m.insert(k, tx).dom() =~= m.dom());
            }
        }
        Ok(())
    }

    /// Removes the transaction at `key`, if any.
    pub fn delete(&mut self, key: &Key)
        requires
            old(self).wf(),
        ensures
            final(self).wf(),
            final(self).entries() == old(self).entries().remove(key@),
    {
        map_remove(&mut self.pool, key);
    }

    /// Removes every transaction.
    pub fn truncate(&mut self)
        requires
            old(self).wf(),
        ensures
            final(self).wf(),
            final(self).entries().dom().is_empty(),
    {
        map_clear(&mut self.pool);
        assert(self.entries().dom() =~= Set::<(Seq<u8>, u64)>::empty());
    }
}

/// Admission: a transaction for a free slot is always taken; one whose tip falls short of
/// the held tip plus a tenth of it is refused and the held one stays; one that clears that
/// bump replaces the held one.
pub proof fn lemma_admission(m: Map<(Seq<u8>, u64), BlockTx>, e: BlockTx)
    ensures
        !m.contains_key(key_of(e)) ==> upsert_outcome(m, e) == (Ok::<(), AdmissionError>(()), m.insert(key_of(e), e)),
        m.dom().finite() && !m.contains_key(key_of(e)) ==> upsert_outcome(m, e).1.dom().len() == m.dom().len() + 1,
        m.contains_key(key_of(e)) && (e.tx.transaction.tip as int) < m[key_of(e)].tx.transaction.tip as int
            + m[key_of(e)].tx.transaction.tip as int / 10 ==> upsert_outcome(m, e).0 == Err::<(), AdmissionError>(AdmissionError::TipTooLow)
            && upsert_outcome(m, e).1 == m && upsert_outcome(m, e).1[key_of(e)] == m[key_of(e)],
        m.contains_key(key_of(e)) && admits(m[key_of(e)].tx.transaction.tip, e.tx.transaction.tip)
            ==> upsert_outcome(m, e).0 == Ok::<(), AdmissionError>(()) && upsert_outcome(m, e).1[key_of(e)] == e
            && upsert_outcome(m, e).1.dom() == m.dom(),
{
    let k = key_of(e);
    if m.contains_key(k) && admits(m[k].tx.transaction.tip, e.tx.transaction.tip) {
        assert(m.insert(k, e).dom() =~= m.dom());
    }
}

/// The pool after applying the submissions `es` one after another, first to last.
pub open spec fn upsert_all(m: Map<(Seq<u8>, u64), BlockTx>, es: Seq<BlockTx>) -> Map<(Seq<u8>, u64), BlockTx>
    decreases es.len(),
{
    if es.len() == 0 {
        m
    } else {
        upsert_outcome(upsert_all(m, es.drop_last()), es.last()).1
    }
}

/// Submissions for one slot, applied in any order, leave exactly one transaction in that
/// slot and touch no other; when each one's tip clears the bump over the one before it
/// (the first over the held one, if any), the last one is what the slot holds.
pub proof fn lemma_one_slot_one_entry(m: Map<(Seq<u8>, u64), BlockTx>, es: Seq<BlockTx>, k: (Seq<u8>, u64))
    requires
        es.len() > 0,
        forall|i: int| 0 <= i < es.len() ==> key_of(#[trigger] es[i]) == k,
    ensures
        upsert_all(m, es).dom() == m.dom().insert(k),
        forall|q: (Seq<u8>, u64)| q != k && #[trigger] m.contains_key(q) ==> upsert_all(m, es)[q] == m[q],
        (m.contains_key(k) ==> admits(m[k].tx.transaction.tip, es[0].tx.transaction.tip))
            && (forall|i: int| 0 <= i < es.len() - 1
                ==> admits(#[trigger] es[i].tx.transaction.tip, es[i + 1].tx.transaction.tip))
            ==> upsert_all(m, es)[k] == es.last(),
    decreases es.len(),
{
    let prev = es.drop_last();
    if es.len() == 1 {
        assert(upsert_all(m, prev) == m);
        assert(es.last() == es[0]);
        assert(m.insert(k, es[0]).dom() =~= m.dom().insert(k));
        if !m.contains_key(k) {
            assert(m.dom().insert(k) =~= m.insert(k, es[0]).dom());
        }
    } else {
        assert forall|i: int| 0 <= i < prev.len() implies key_of(#[trigger] prev[i]) == k by {
            assert(prev[i] == es[i]);
        }
        lemma_one_slot_one_entry(m, prev, k);
        let before = upsert_all(m, prev);
        assert(before.contains_key(k));
        let e = es.last();
        assert(key_of(e) == k) by {
            assert(e == es[es.len() - 1]);
        }
        if !(before.contains_key(k) && !admits(before[k].tx.transaction.tip, e.tx.transaction.tip)) {
            assert(before.insert(k, e).dom() =~= before.dom());
        }
        if (m.contains_key(k) ==> admits(m[k].tx.transaction.tip, es[0].tx.transaction.tip))
            && (forall|i: int| 0 <= i < es.len() - 1
                ==> admits(#[trigger] es[i].tx.transaction.tip, es[i + 1].tx.transaction.tip)) {
            assert(prev[0] == es[0]);
            assert forall|i: int| 0 <= i < prev.len() - 1
                implies admits(#[trigger] prev[i].tx.transaction.tip, prev[i + 1].tx.transaction.tip) by {
                assert(prev[i] == es[i] && prev[i + 1] == es[i + 1]);
                assert(admits(es[i].tx.transaction.tip, es[i + 1].tx.transaction.tip));
            }
            assert(before[k] == prev.last());
            assert(prev.last() == es[es.len() - 2]);
            assert(admits(es[es.len() - 2].tx.transaction.tip, es[es.len() - 1].tx.transaction.tip));
        }
    }
}

} // verus!

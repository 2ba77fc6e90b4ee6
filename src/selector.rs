//! Choosing which pooled transactions go into the next block.
use vstd::prelude::*;
use crate::mempool::Key;
use crate::transaction::BlockTx;

verus! {

/// What a selection policy reads of a pooled transaction: when it entered the pool and
/// the slot it takes.
#[derive(Debug, Clone, Copy)]
pub struct TxInfo {
    pub timestamp: u64,
    pub key: Key,
}

impl BlockTx {
    /// The selection record of this transaction.
    pub fn info(&self) -> (r: TxInfo)
        ensures
            r.timestamp == self.timestamp,
            r.key == (Key { sender: self.tx.transaction.from, nonce: self.tx.transaction.nonce }),
    {
        TxInfo { timestamp: self.timestamp, key: Key::new(self.tx.transaction.from, self.tx.transaction.nonce) }
    }
}

/// Position `p` of `pool` comes before position `q`: an earlier timestamp, or the same
/// timestamp at an earlier position.
pub open spec fn precedes(pool: Seq<TxInfo>, p: int, q: int) -> bool {
    pool[p].timestamp < pool[q].timestamp || (pool[p].timestamp == pool[q].timestamp && p < q)
}

/// `idx` picks `keys` out of `pool` earliest first: distinct positions of the pool, each
/// coming before the next and before every position left out.
pub open spec fn earliest_first(pool: Seq<TxInfo>, idx: Seq<int>, keys: Seq<Key>) -> bool {
    &&& idx.len() == keys.len()
    &&& idx.no_duplicates()
    &&& forall|i: int| 0 <= i < idx.len() ==> 0 <= #[trigger] idx[i] < pool.len()
    &&& forall|i: int| 0 <= i < idx.len() ==> #[trigger] keys[i] == pool[idx[i]].key
    &&& forall|i: int, j: int| 0 <= i < j < idx.len() ==> precedes(pool, #[trigger] idx[i], #[trigger] idx[j])
    &&& forall|i: int, j: int|
        0 <= i < idx.len() && 0 <= j < pool.len() && !idx.contains(j) ==> #[trigger] precedes(pool, idx[i], j)
}

/// Position `i` of two earliest-first choices from one pool is the same position.
proof fn lemma_same_position(pool: Seq<TxInfo>, idx1: Seq<int>, k1: Seq<Key>, idx2: Seq<int>, k2: Seq<Key>, i: int)
    requires
        earliest_first(pool, idx1, k1),
        earliest_first(pool, idx2, k2),
        idx1.len() == idx2.len(),
        0 <= i < idx1.len(),
    ensures
        idx1[i] == idx2[i],
    decreases i,
{
    assert forall|j: int| 0 <= j < i implies idx1[j] == idx2[j] by {
        lemma_same_position(pool, idx1, k1, idx2, k2, j);
    }
    let a = idx1[i];
    let b = idx2[i];
    if a != b {
        if idx2.contains(a) {
            let w = choose|w: int| 0 <= w < idx2.len() && idx2[w] == a;
            if w < i {
                assert(idx1[w] == a);
            }
            assert(precedes(pool, idx2[i], idx2[w]));
        } else {
            assert(precedes(pool, idx2[i], a));
        }
        if idx1.contains(b) {
            let w = choose|w: int| 0 <= w < idx1.len() && idx1[w] == b;
            if w < i {
                assert(idx2[w] == b);
            }
            assert(precedes(pool, idx1[i], idx1[w]));
        } else {
            assert(precedes(pool, idx1[i], b));
        }
    }
}

/// An earliest-first choice of a given length from a pool is unique: selection is
/// deterministic, ties included.
pub proof fn lemma_earliest_first_unique(pool: Seq<TxInfo>, idx1: Seq<int>, k1: Seq<Key>, idx2: Seq<int>, k2: Seq<Key>)
    requires
        earliest_first(pool, idx1, k1),
        earliest_first(pool, idx2, k2),
        k1.len() == k2.len(),
    ensures
        k1 == k2,
{
    assert forall|i: int| 0 <= i < k1.len() implies k1[i] == k2[i] by {
        lemma_same_position(pool, idx1, k1, idx2, k2, i);
    }
    assert(k1 =~= k2);
}

/// A policy that picks, from a snapshot of the pool, the keys of the transactions for the
/// next block: as many as there is room for, when there are that many.
pub trait Selector {
    /// `keys` is a choice this policy may make from `pool` with room for `max_block_size`.
    spec fn selects(&self, pool: Seq<TxInfo>, max_block_size: nat, keys: Seq<Key>) -> bool;

    fn select(&self, pool: &Vec<TxInfo>, max_block_size: usize) -> (r: Vec<Key>)
        ensures
            r@.len() == if max_block_size < pool@.len() { max_block_size as int } else { pool@.len() as int },
            self.selects(pool@, max_block_size as nat, r@),
    ;
}

/// First-come-first-served selection by timestamp.
pub struct TimebasedSelector {}

impl TimebasedSelector {
    pub fn new() -> (r: TimebasedSelector) {
        TimebasedSelector {}
    }
}

impl Selector for TimebasedSelector {
    /// The keys of the `max_block_size` earliest transactions of `pool` (all of them when
    /// there are fewer), earliest first; of equal timestamps the earlier position comes first.
    open spec fn selects(&self, pool: Seq<TxInfo>, max_block_size: nat, keys: Seq<Key>) -> bool {
        exists|idx: Seq<int>| earliest_first(pool, idx, keys)
    }

    /// The keys of the `max_block_size` earliest transactions of `pool` (all of them when
    /// there are fewer), earliest first; of equal timestamps the earlier position comes first.
    fn select(&self, pool: &Vec<TxInfo>, max_block_size: usize) -> (r: Vec<Key>) {
        let n = pool.len();
        let count = if max_block_size < n { max_block_size } else { n };
        let mut taken: Vec<bool> = Vec::new();
        let mut t: usize = 0;
        while t < n
            invariant
                t <= n,
                n == pool@.len(),
                taken@.len() == t,
                forall|j: int| 0 <= j < t ==> !taken@[j],
            decreases n - t,
        {
            taken.push(false);
            t += 1;
        }
        let mut selected: Vec<Key> = Vec::new();
        let ghost mut idx: Seq<int> = Seq::empty();
        while selected.len() < count
            invariant
                n == pool@.len(),
                count <= n,
                taken@.len() == n,
                selected@.len() <= count,
                earliest_first(pool@, idx, selected@),
                forall|j: int| 0 <= j < n ==> (taken@[j] <==> idx.contains(j)),
            decreases count - selected@.len(),
        {
            // Some position is still free, since fewer than `n` are taken.
            proof {
                if forall|j: int| 0 <= j < n ==> taken@[j] {
                    let s = Set::new(|j: int| 0 <= j < n);
                    assert(s.subset_of(idx.to_set()));
                    vstd::set_lib::lemma_int_range(0, n as int);
                    assert(s =~= vstd::set_lib::set_int_range(0, n as int));
                    vstd::set_lib::lemma_len_subset(s, idx.to_set());
                    idx.unique_seq_to_set();
                    assert(false);
                }
            }
            let mut best: usize = n;
            let mut j: usize = 0;
            while j < n
                invariant
                    n == pool@.len(),
                    taken@.len() == n,
                    j <= n,
                    best == n || (best < j && !taken@[best as int]),
                    best == n ==> forall|q: int| 0 <= q < j ==> taken@[q],
                    best < n ==> forall|q: int| 0 <= q < j && !taken@[q] && q != best
                        ==> precedes(pool@, best as int, q),
                decreases n - j,
            {
                if !taken[j] {
                    if best == n || pool[j].timestamp < pool[best].timestamp {
                        best = j;
                    }
                }
                j += 1;
            }
            let b = best;
            let key = pool[b].key;
            let ghost prev_idx = idx;
            let ghost prev_taken = taken@;
            proof {
                let old_idx = prev_idx;
                idx = idx.push(b as int);
                assert(idx.no_duplicates()) by {
                    assert(!old_idx.contains(b as int));
                    assert forall|p: int, q: int| 0 <= p < q < idx.len() implies idx[p] != idx[q] by {
                        if q == old_idx.len() {
                            assert(old_idx[p] == idx[p]);
                        } else {
                            assert(old_idx[p] == idx[p] && old_idx[q] == idx[q]);
                        }
                    }
                }
                assert forall|p: int, q: int| 0 <= p < q < idx.len() implies
                    precedes(pool@, #[trigger] idx[p], #[trigger] idx[q]) by {
                    if q == old_idx.len() {
                        assert(idx[p] == old_idx[p]);
                        assert(!old_idx.contains(b as int));
                    } else {
                        assert(idx[p] == old_idx[p] && idx[q] == old_idx[q]);
                    }
                }
                assert forall|p: int, q: int|
                    0 <= p < idx.len() && 0 <= q < pool@.len() && !idx.contains(q)
                    implies #[trigger] precedes(pool@, idx[p], q) by {
                    assert(!old_idx.contains(q)) by {
                        if old_idx.contains(q) {
                            let w = choose|w: int| 0 <= w < old_idx.len() && old_idx[w] == q;
                            assert(idx[w] == q);
                        }
                    }
                    assert(q != b as int) by {
                        assert(idx[old_idx.len() as int] == b as int);
                    }
                    if p < old_idx.len() {
                        assert(idx[p] == old_idx[p]);
                    }
                }
            }
            taken.set(b, true);
            selected.push(key);
            proof {
                assert forall|j: int| 0 <= j < n implies (taken@[j] <==> idx.contains(j)) by {
                    assert(prev_taken[j] <==> prev_idx.contains(j));
                    assert(idx == prev_idx.push(b as int));
                    if j == b as int {
                        assert(idx[prev_idx.len() as int] == j);
                    } else {
                        assert(taken@[j] == prev_taken[j]);
                        if prev_idx.contains(j) {
                            let w = choose|w: int| 0 <= w < prev_idx.len() && prev_idx[w] == j;
                            assert(idx[w] == j);
                        }
                        if idx.contains(j) {
                            let w = choose|w: int| 0 <= w < idx.len() && idx[w] == j;
                            assert(w < prev_idx.len());
                            assert(prev_idx[w] == j);
                        }
                    }
                }
                assert forall|i: int| 0 <= i < idx.len() implies #[trigger] selected@[i] == pool@[idx[i]].key by {
                    if i < idx.len() - 1 {
                        assert(idx[i] == prev_idx[i]);
                    }
                }
            }
        }
        selected
    }
}

} // verus!

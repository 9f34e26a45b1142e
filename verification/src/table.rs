//! Font tables kept in strictly increasing order of their keys, and the
//! search that the order allows.

use vstd::prelude::*;

verus! {

/// A table entry that is found by a key.
pub trait Keyed {
    spec fn key(&self) -> u64;

    fn key_value(&self) -> (k: u64)
        ensures
            k == self.key(),
    ;
}

/// The key of a pair of glyphs: the left glyph decides first, the right second.
pub open spec fn pair_key(left: u32, right: u32) -> u64 {
    (left as int * 0x1_0000_0000 + right as int) as u64
}

pub fn make_pair_key(left: u32, right: u32) -> (k: u64)
    ensures
        k == pair_key(left, right),
{
    (left as u64) * 0x1_0000_0000 + (right as u64)
}

/// Two pairs with the same key are the same pair.
pub proof fn lemma_pair_key_injective(l1: u32, r1: u32, l2: u32, r2: u32)
    requires
        pair_key(l1, r1) == pair_key(l2, r2),
    ensures
        l1 == l2,
        r1 == r2,
{
}

/// The keys strictly increase along the table, so no key occurs twice.
pub open spec fn sorted_by_key<T: Keyed>(table: Seq<T>) -> bool {
    forall|i: int, j: int| 0 <= i < j < table.len() ==> #[trigger] table[i].key() < #[trigger] table[j].key()
}

/// Whether some entry of the table has the key.
pub open spec fn has_key<T: Keyed>(table: Seq<T>, key: u64) -> bool {
    exists|i: int| 0 <= i < table.len() && #[trigger] table[i].key() == key
}

/// The place of the entry with the key, where there is one.
pub open spec fn index_of_key<T: Keyed>(table: Seq<T>, key: u64) -> int {
    choose|i: int| 0 <= i < table.len() && #[trigger] table[i].key() == key
}

/// In a sorted table an entry with the key stands at the one place that
/// `index_of_key` names.
pub proof fn lemma_index_of_key<T: Keyed>(table: Seq<T>, key: u64, i: int)
    requires
        sorted_by_key(table),
        0 <= i < table.len(),
        table[i].key() == key,
    ensures
        has_key(table, key),
        index_of_key(table, key) == i,
{
    let j = index_of_key(table, key);
    assert(0 <= j < table.len() && table[j].key() == key);
    if j < i {
        assert(table[j].key() < table[i].key());
    } else if i < j {
        assert(table[i].key() < table[j].key());
    }
}

/// Checks that the keys strictly increase.
pub fn is_sorted_by_key<T: Keyed>(table: &Vec<T>) -> (ok: bool)
    ensures
        ok == sorted_by_key(table@),
{
    let n = table.len();
    if n < 2 {
        return true;
    }
    let mut i: usize = 1;
    while i < n
        invariant
            n == table@.len(),
            1 <= i <= n,
            forall|a: int, b: int| 0 <= a < b < i ==> #[trigger] table@[a].key() < #[trigger] table@[b].key(),
        decreases n - i,
    {
        let prev = table[i - 1].key_value();
        let cur = table[i].key_value();
        if prev >= cur {
            assert(!(table@[i - 1].key() < table@[i as int].key()));
            return false;
        }
        assert forall|a: int, b: int| 0 <= a < b < i + 1 implies #[trigger] table@[a].key()
            < #[trigger] table@[b].key() by {
            if b == i {
                if a < i - 1 {
                    assert(table@[a].key() < table@[i - 1].key());
                }
            }
        }
        i = i + 1;
    }
    true
}

/// Finds the entry with the key by halving the range in which it can stand.
pub fn find<T: Keyed>(table: &Vec<T>, key: u64) -> (found: Option<usize>)
    requires
        sorted_by_key(table@),
    ensures
        found is Some == has_key(table@, key),
        found matches Some(i) ==> i == index_of_key(table@, key) && i < table@.len()
            && table@[i as int].key() == key,
{
    let mut lo: usize = 0;
    let mut hi: usize = table.len();
    while lo < hi
        invariant
            lo <= hi <= table@.len(),
            sorted_by_key(table@),
            forall|i: int| 0 <= i < lo ==> #[trigger] table@[i].key() < key,
            forall|i: int| hi <= i < table@.len() ==> #[trigger] table@[i].key() > key,
        decreases hi - lo,
    {
        let mid = lo + (hi - lo) / 2;
        let k = table[mid].key_value();
        if k == key {
            proof {
                lemma_index_of_key(table@, key, mid as int);
            }
            return Some(mid);
        } else if k < key {
            assert forall|i: int| 0 <= i < mid + 1 implies #[trigger] table@[i].key() < key by {
                if i < mid {
                    assert(table@[i].key() < table@[mid as int].key());
                }
            }
            lo = mid + 1;
        } else {
            assert forall|i: int| mid <= i < table@.len() implies #[trigger] table@[i].key()
                > key by {
                if i > mid {
                    assert(table@[mid as int].key() < table@[i].key());
                }
            }
            hi = mid;
        }
    }
    None
}

} // verus!

//! Finding the first entry with a given key in a list of keys.

use vstd::prelude::*;

verus! {

/// The lowest index among the first `n` keys that holds `key`, if there is
/// one.
pub open spec fn first_index<K>(keys: Seq<K>, key: K, n: int) -> Option<int>
    decreases n,
{
    if n <= 0 {
        None
    } else {
        match first_index(keys, key, n - 1) {
            Some(i) => Some(i),
            None => if keys[n - 1] == key {
                Some(n - 1)
            } else {
                None
            },
        }
    }
}

/// What `first_index` finds: an index that holds the key and before which
/// no index does; and nothing only where no index holds the key.
pub proof fn lemma_first_index<K>(keys: Seq<K>, key: K, n: int)
    requires
        0 <= n <= keys.len(),
    ensures
        match first_index(keys, key, n) {
            Some(i) => 0 <= i < n && keys[i] == key && forall|j: int|
                0 <= j < i ==> #[trigger] keys[j] != key,
            None => forall|j: int| 0 <= j < n ==> #[trigger] keys[j] != key,
        },
    decreases n,
{
    if n > 0 {
        lemma_first_index(keys, key, n - 1);
    }
}

/// Once the key has been found among the first `i + 1` keys, looking at
/// more keys finds the same index.
pub proof fn lemma_first_index_stays<K>(keys: Seq<K>, key: K, i: int, n: int)
    requires
        0 <= i < n <= keys.len(),
        first_index(keys, key, i + 1) == Some(i),
    ensures
        first_index(keys, key, n) == Some(i),
    decreases n,
{
    if n > i + 1 {
        lemma_first_index_stays(keys, key, i, n - 1);
    }
}

} // verus!

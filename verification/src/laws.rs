//! The store's laws.
//!
//! The four operations act on the flat mapping only through the composite
//! key of their (column, caller key) pair: a successful `put` inserts under
//! it, `delete` removes it, `get` and `exists_key` look it up. The spec
//! functions below state those actions on the mapping's `Map` view, and the
//! proof functions state what the store guarantees across sequences of
//! operations. Properties that separate two columns hold whenever the two
//! composite keys differ; `columns_isolated` decides that at run time.

use vstd::prelude::*;
use vstd::string::StringSliceAdditionalSpecFns;
use crate::flat::bytes_eq;
use crate::keying::composite_key;
use crate::memory_db::MemoryDB;

verus! {

/// The flat mapping after a successful `put(col, key, val)`.
pub open spec fn spec_put(
    m: Map<Seq<u8>, Seq<u8>>,
    col: Seq<u8>,
    key: Seq<u8>,
    val: Seq<u8>,
) -> Map<Seq<u8>, Seq<u8>> {
    m.insert(composite_key(col, key), val)
}

/// The flat mapping after a successful `delete(col, key)`.
pub open spec fn spec_delete(m: Map<Seq<u8>, Seq<u8>>, col: Seq<u8>, key: Seq<u8>) -> Map<
    Seq<u8>,
    Seq<u8>,
> {
    m.remove(composite_key(col, key))
}

/// What a successful `exists_key(col, key)` returns.
pub open spec fn spec_exists(m: Map<Seq<u8>, Seq<u8>>, col: Seq<u8>, key: Seq<u8>) -> bool {
    m.contains_key(composite_key(col, key))
}

/// What a successful `get(col, key)` returns.
pub open spec fn spec_get(m: Map<Seq<u8>, Seq<u8>>, col: Seq<u8>, key: Seq<u8>) -> Option<
    Seq<u8>,
> {
    if m.contains_key(composite_key(col, key)) {
        Some(m[composite_key(col, key)])
    } else {
        None
    }
}

/// A put is visible: `get(col, key)` after `put(col, key, val)` yields `val`.
pub proof fn lemma_get_after_put(m: Map<Seq<u8>, Seq<u8>>, col: Seq<u8>, key: Seq<u8>, val: Seq<u8>)
    ensures
        spec_get(spec_put(m, col, key, val), col, key) == Some(val),
        spec_exists(spec_put(m, col, key, val), col, key),
{
}

/// Idempotent put: applying `put(col, key, val)` twice in a row leaves the
/// mapping exactly as applying it once does, and `get(col, key)` yields
/// `val` either way.
pub proof fn lemma_put_idempotent(
    m: Map<Seq<u8>, Seq<u8>>,
    col: Seq<u8>,
    key: Seq<u8>,
    val: Seq<u8>,
)
    ensures
        spec_put(spec_put(m, col, key, val), col, key, val) == spec_put(m, col, key, val),
        spec_get(spec_put(spec_put(m, col, key, val), col, key, val), col, key) == Some(val),
{
    assert(spec_put(spec_put(m, col, key, val), col, key, val) =~= spec_put(m, col, key, val));
}

/// Delete round-trip: `put(col, key, val)` then `delete(col, key)` leaves
/// `get(col, key)` reporting absence.
pub proof fn lemma_delete_round_trip(
    m: Map<Seq<u8>, Seq<u8>>,
    col: Seq<u8>,
    key: Seq<u8>,
    val: Seq<u8>,
)
    ensures
        spec_get(spec_delete(spec_put(m, col, key, val), col, key), col, key) == None::<Seq<u8>>,
        !spec_exists(spec_delete(spec_put(m, col, key, val), col, key), col, key),
{
}

/// Exists reflects presence exactly: `exists_key(col, key)` is false on a
/// freshly opened store, true right after `put(col, key, val)`, and false
/// right after `delete(col, key)`.
pub proof fn lemma_exists_reflects_presence(
    m: Map<Seq<u8>, Seq<u8>>,
    col: Seq<u8>,
    key: Seq<u8>,
    val: Seq<u8>,
)
    ensures
        !spec_exists(Map::<Seq<u8>, Seq<u8>>::empty(), col, key),
        spec_exists(spec_put(m, col, key, val), col, key),
        !spec_exists(spec_delete(m, col, key), col, key),
{
}

/// Column isolation: when the composite keys of `(col1, key)` and
/// `(col2, key)` differ — as they do for distinct columns short of a digest
/// collision — writing under both pairs leaves each column's value intact.
pub proof fn lemma_column_isolation(
    m: Map<Seq<u8>, Seq<u8>>,
    col1: Seq<u8>,
    col2: Seq<u8>,
    key: Seq<u8>,
    val1: Seq<u8>,
    val2: Seq<u8>,
)
    requires
        composite_key(col1, key) != composite_key(col2, key),
    ensures
        spec_get(spec_put(spec_put(m, col1, key, val1), col2, key, val2), col1, key) == Some(val1),
        spec_get(spec_put(spec_put(m, col1, key, val1), col2, key, val2), col2, key) == Some(val2),
{
}

/// Independent writers never disturb each other: a put under one composite
/// key leaves what any other composite key holds — and whether it holds
/// anything — unchanged. With the lock serializing writers, this is why
/// concurrent puts to distinct keys all survive.
pub proof fn lemma_put_preserves_other_keys(
    m: Map<Seq<u8>, Seq<u8>>,
    col1: Seq<u8>,
    key1: Seq<u8>,
    val: Seq<u8>,
    col2: Seq<u8>,
    key2: Seq<u8>,
)
    requires
        composite_key(col1, key1) != composite_key(col2, key2),
    ensures
        spec_get(spec_put(m, col1, key1, val), col2, key2) == spec_get(m, col2, key2),
        spec_exists(spec_put(m, col1, key1, val), col2, key2) == spec_exists(m, col2, key2),
{
}

/// Decides whether two columns are isolated for a given key: true exactly
/// when their composite keys differ, and in that case writing under both
/// pairs leaves each column's value intact, whatever the mapping held.
pub fn columns_isolated(col1: &str, col2: &str, key: &[u8]) -> (r: bool)
    ensures
        r == (composite_key(col1.spec_bytes(), key@) != composite_key(col2.spec_bytes(), key@)),
        r ==> forall|m: Map<Seq<u8>, Seq<u8>>, val1: Seq<u8>, val2: Seq<u8>|
            #![trigger spec_put(spec_put(m, col1.spec_bytes(), key@, val1), col2.spec_bytes(), key@, val2)]
            spec_get(
                spec_put(spec_put(m, col1.spec_bytes(), key@, val1), col2.spec_bytes(), key@, val2),
                col1.spec_bytes(),
                key@,
            ) == Some(val1) && spec_get(
                spec_put(spec_put(m, col1.spec_bytes(), key@, val1), col2.spec_bytes(), key@, val2),
                col2.spec_bytes(),
                key@,
            ) == Some(val2),
{
    let k1 = MemoryDB::get_key_for_col(col1, key);
    let k2 = MemoryDB::get_key_for_col(col2, key);
    let same = bytes_eq(k1.as_slice(), k2.as_slice());
    proof {
        if !same {
            assert forall|m: Map<Seq<u8>, Seq<u8>>, val1: Seq<u8>, val2: Seq<u8>|
                #![trigger spec_put(spec_put(m, col1.spec_bytes(), key@, val1), col2.spec_bytes(), key@, val2)]
                spec_get(
                    spec_put(
                        spec_put(m, col1.spec_bytes(), key@, val1),
                        col2.spec_bytes(),
                        key@,
                        val2,
                    ),
                    col1.spec_bytes(),
                    key@,
                ) == Some(val1) && spec_get(
                    spec_put(
                        spec_put(m, col1.spec_bytes(), key@, val1),
                        col2.spec_bytes(),
                        key@,
                        val2,
                    ),
                    col2.spec_bytes(),
                    key@,
                ) == Some(val2) by {
                lemma_column_isolation(
                    m,
                    col1.spec_bytes(),
                    col2.spec_bytes(),
                    key@,
                    val1,
                    val2,
                );
                lemma_put_preserves_other_keys(
                    m,
                    col1.spec_bytes(),
                    key@,
                    val1,
                    col2.spec_bytes(),
                    key@,
                );
            }
        }
    }
    !same
}

} // verus!

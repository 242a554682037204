//! An in-memory database: a flat mapping behind a reader-writer lock,
//! partitioned into the columns that a registry recognizes.
//!
//! It is not particularly optimized; it exists for ease and speed of testing.
//! Every operation first validates its column against the registry and fails
//! with the sole error, an unknown column, before touching the mapping.
//! Readers share the lock; writers hold it exclusively, so concurrent
//! operations on one store are serialized by the lock alone.

use vstd::prelude::*;
use vstd::rwlock::{RwLock, RwLockPredicate};
use vstd::string::StringSliceAdditionalSpecFns;
use crate::flat::FlatStore;
use crate::keying::{composite_key, digest32, frame};
use crate::registry::{column_set, Registry};

verus! {

/// A stored value: an arbitrary byte sequence.
pub type DBValue = Vec<u8>;

/// The sole error a store operation can return: the named column was not
/// supplied when the store was opened.
#[derive(Debug)]
pub struct DBError {
    pub column: String,
}

/// The lock's invariant: whatever flat mapping the lock holds is well
/// formed, so any acquirer may operate on it.
pub struct FlatWf {}

impl RwLockPredicate<FlatStore> for FlatWf {
    open spec fn inv(self, v: FlatStore) -> bool {
        v.wf()
    }
}

/// An in-memory, column-aware key-value store.
pub struct MemoryDB {
    db: RwLock<FlatStore, FlatWf>,
    known_columns: Registry,
}

impl MemoryDB {
    /// The set of column names this store recognizes; fixed at `open`.
    pub closed spec fn columns(&self) -> Set<Seq<char>> {
        self.known_columns@
    }

    /// Opens the in-memory database. All columns must be supplied here; an
    /// operation on a column not in the list is an error. An empty list is
    /// legal, and every operation will then fail column validation.
    pub fn open(columns: Vec<String>) -> (db: Self)
        ensures
            db.columns() == column_set(columns@),
    {
        let flat = FlatStore::new();
        MemoryDB { db: RwLock::new(flat, Ghost(FlatWf {})), known_columns: Registry::new(columns) }
    }

    /// Derives the composite key under which (`col`, `key`) is stored:
    /// the 32-byte digest of the pair's unambiguous frame.
    pub fn get_key_for_col(col: &str, key: &[u8]) -> (r: Vec<u8>)
        ensures
            r@ == composite_key(col.spec_bytes(), key@),
            r@.len() == 32,
    {
        let framed = frame(col, key);
        digest32(framed.as_slice())
    }

    /// Gets the value stored under `key` in `col`, or `None` if the key is
    /// absent. Shared (reader) access.
    pub fn get(&self, col: &str, key: &[u8]) -> (r: Result<Option<DBValue>, DBError>)
        ensures
            r is Err <==> !self.columns().contains(col@),
            r matches Err(e) ==> e.column@ == col@,
    {
        if self.known_columns.is_known(col) {
            let column_key = Self::get_key_for_col(col, key);
            let read_handle = self.db.acquire_read();
            let value = read_handle.borrow().get_value(column_key.as_slice());
            read_handle.release_read();
            Ok(value)
        } else {
            Err(DBError { column: col.to_owned() })
        }
    }

    /// Stores `val` under `key` in `col`, overwriting any previous value.
    /// Exclusive (writer) access.
    pub fn put(&self, col: &str, key: &[u8], val: &[u8]) -> (r: Result<(), DBError>)
        ensures
            r is Ok <==> self.columns().contains(col@),
            r matches Err(e) ==> e.column@ == col@,
    {
        if self.known_columns.is_known(col) {
            let column_key = Self::get_key_for_col(col, key);
            let value = vstd::slice::slice_to_vec(val);
            let (mut flat, write_handle) = self.db.acquire_write();
            flat.set_value(column_key, value);
            write_handle.release_write(flat);
            Ok(())
        } else {
            Err(DBError { column: col.to_owned() })
        }
    }

    /// Whether some value is stored under `key` in `col`. Shared access.
    pub fn exists_key(&self, col: &str, key: &[u8]) -> (r: Result<bool, DBError>)
        ensures
            r is Err <==> !self.columns().contains(col@),
            r matches Err(e) ==> e.column@ == col@,
    {
        if self.known_columns.is_known(col) {
            let column_key = Self::get_key_for_col(col, key);
            let read_handle = self.db.acquire_read();
            let present = read_handle.borrow().contains(column_key.as_slice());
            read_handle.release_read();
            Ok(present)
        } else {
            Err(DBError { column: col.to_owned() })
        }
    }

    /// Deletes the entry under `key` in `col`; deleting an absent key is a
    /// successful no-op. Exclusive access.
    pub fn delete(&self, col: &str, key: &[u8]) -> (r: Result<(), DBError>)
        ensures
            r is Ok <==> self.columns().contains(col@),
            r matches Err(e) ==> e.column@ == col@,
    {
        if self.known_columns.is_known(col) {
            let column_key = Self::get_key_for_col(col, key);
            let (mut flat, write_handle) = self.db.acquire_write();
            flat.remove(column_key.as_slice());
            write_handle.release_write(flat);
            Ok(())
        } else {
            Err(DBError { column: col.to_owned() })
        }
    }
}

} // verus!

use db::flat::{bytes_eq, FlatStore};
use db::laws::columns_isolated;
use db::memory_db::MemoryDB;

#[test]
fn test_unknown_column_all_operations_rejected() {
    let db = MemoryDB::open(vec!["blocks".to_string()]);

    // Every operation on an undeclared column fails, and the error names
    // the offending column.
    let err = db.put("ColumnX", b"cats", b"lol").unwrap_err();
    assert_eq!(err.column, "ColumnX");
    let err = db.get("ColumnX", b"cats").unwrap_err();
    assert_eq!(err.column, "ColumnX");
    let err = db.exists_key("ColumnX", b"cats").unwrap_err();
    assert_eq!(err.column, "ColumnX");
    let err = db.delete("ColumnX", b"cats").unwrap_err();
    assert_eq!(err.column, "ColumnX");

    // The rejected operations left the mapping untouched: a known column
    // still works, and the key the rejected put named is still absent.
    assert!(db.put("blocks", b"cats", b"lol").is_ok());
    assert_eq!(db.get("blocks", b"cats").unwrap().unwrap(), b"lol");
}

#[test]
fn test_open_with_no_columns_rejects_everything() {
    let db = MemoryDB::open(vec![]);

    assert!(db.put("blocks", b"k", b"v").is_err());
    assert!(db.get("blocks", b"k").is_err());
    assert!(db.exists_key("blocks", b"k").is_err());
    assert!(db.delete("blocks", b"k").is_err());
}

#[test]
fn test_put_is_idempotent() {
    let db = MemoryDB::open(vec!["blocks".to_string()]);

    db.put("blocks", b"dogs", b"lol").unwrap();
    db.put("blocks", b"dogs", b"lol").unwrap();

    assert_eq!(db.get("blocks", b"dogs").unwrap().unwrap(), b"lol");
}

#[test]
fn test_put_overwrites() {
    let db = MemoryDB::open(vec!["blocks".to_string()]);

    db.put("blocks", b"dogs", b"old").unwrap();
    db.put("blocks", b"dogs", b"new").unwrap();

    assert_eq!(db.get("blocks", b"dogs").unwrap().unwrap(), b"new");
}

#[test]
fn test_exists_reflects_presence_exactly() {
    let db = MemoryDB::open(vec!["blocks".to_string()]);

    assert_eq!(false, db.exists_key("blocks", b"cats").unwrap());
    db.put("blocks", b"cats", b"lol").unwrap();
    assert_eq!(true, db.exists_key("blocks", b"cats").unwrap());
    db.delete("blocks", b"cats").unwrap();
    assert_eq!(false, db.exists_key("blocks", b"cats").unwrap());
}

#[test]
fn test_delete_absent_key_is_ok() {
    let db = MemoryDB::open(vec!["blocks".to_string()]);

    assert!(db.delete("blocks", b"never").is_ok());
    db.put("blocks", b"cats", b"lol").unwrap();
    assert!(db.delete("blocks", b"dogs").is_ok());
    assert_eq!(db.get("blocks", b"cats").unwrap().unwrap(), b"lol");
}

#[test]
fn test_empty_key_and_value() {
    let db = MemoryDB::open(vec!["blocks".to_string()]);

    // An empty key and an empty value are both legal; a stored empty value
    // is presence, not absence.
    db.put("blocks", b"", b"").unwrap();
    assert_eq!(true, db.exists_key("blocks", b"").unwrap());
    assert_eq!(db.get("blocks", b"").unwrap().unwrap(), b"");
    db.delete("blocks", b"").unwrap();
    assert_eq!(db.get("blocks", b"").unwrap(), None);
}

#[test]
fn test_composite_key_fixed_length_and_deterministic() {
    let k1 = MemoryDB::get_key_for_col("blocks", b"dogs");
    let k2 = MemoryDB::get_key_for_col("blocks", b"dogs");

    assert_eq!(k1.len(), 32);
    assert_eq!(k1, k2);
}

#[test]
fn test_composite_key_separates_fields() {
    // Different columns, and different keys, derive different composites.
    assert_ne!(
        MemoryDB::get_key_for_col("blocks", b"dogs"),
        MemoryDB::get_key_for_col("validator", b"dogs")
    );
    assert_ne!(
        MemoryDB::get_key_for_col("blocks", b"dogs"),
        MemoryDB::get_key_for_col("blocks", b"cats")
    );

    // Shifting bytes across the column/key boundary changes the composite:
    // the frame is length-prefixed, so "ab"/"c" never aliases "a"/"bc".
    assert_ne!(
        MemoryDB::get_key_for_col("ab", b"c"),
        MemoryDB::get_key_for_col("a", b"bc")
    );
}

#[test]
fn test_flat_store_operations() {
    let mut flat = FlatStore::new();

    assert_eq!(flat.get_value(b"k"), None);
    assert!(!flat.contains(b"k"));

    flat.set_value(b"k".to_vec(), b"v".to_vec());
    assert_eq!(flat.get_value(b"k").unwrap(), b"v");
    assert!(flat.contains(b"k"));

    flat.set_value(b"k".to_vec(), b"w".to_vec());
    assert_eq!(flat.get_value(b"k").unwrap(), b"w");

    flat.remove(b"k");
    assert_eq!(flat.get_value(b"k"), None);
    assert!(!flat.contains(b"k"));
}

#[test]
fn test_bytes_eq() {
    assert!(bytes_eq(b"", b""));
    assert!(bytes_eq(b"abc", b"abc"));
    assert!(!bytes_eq(b"abc", b"abd"));
    assert!(!bytes_eq(b"abc", b"ab"));
}

#[test]
fn test_columns_isolated_decides_collisions() {
    assert!(columns_isolated("blocks", "validator", b"same"));
    assert!(!columns_isolated("blocks", "blocks", b"same"));
}

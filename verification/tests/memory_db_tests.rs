use db::memory_db::MemoryDB;

const BLOCKS_DB_COLUMN: &str = "blocks";
const VALIDATOR_DB_COLUMN: &str = "validator";

#[test]
fn test_memorydb_can_delete() {
    let col_a: &str = BLOCKS_DB_COLUMN;

    let db = MemoryDB::open(vec![BLOCKS_DB_COLUMN.to_string(), VALIDATOR_DB_COLUMN.to_string()]);

    db.put(col_a, "dogs".as_bytes(), "lol".as_bytes()).unwrap();

    assert_eq!(
        db.get(col_a, "dogs".as_bytes()).unwrap().unwrap(),
        "lol".as_bytes()
    );

    db.delete(col_a, "dogs".as_bytes()).unwrap();

    assert_eq!(db.get(col_a, "dogs".as_bytes()).unwrap(), None);
}

#[test]
fn test_memorydb_column_access() {
    let col_a: &str = BLOCKS_DB_COLUMN;
    let col_b: &str = VALIDATOR_DB_COLUMN;

    let db = MemoryDB::open(vec![BLOCKS_DB_COLUMN.to_string(), VALIDATOR_DB_COLUMN.to_string()]);

    /*
     * Testing that if we write to the same key in different columns that
     * there is not an overlap.
     */
    db.put(col_a, "same".as_bytes(), "cat".as_bytes()).unwrap();
    db.put(col_b, "same".as_bytes(), "dog".as_bytes()).unwrap();

    assert_eq!(
        db.get(col_a, "same".as_bytes()).unwrap().unwrap(),
        "cat".as_bytes()
    );
    assert_eq!(
        db.get(col_b, "same".as_bytes()).unwrap().unwrap(),
        "dog".as_bytes()
    );
}

#[test]
fn test_memorydb_unknown_column_access() {
    let col_a: &str = BLOCKS_DB_COLUMN;
    let col_x: &str = "ColumnX";

    let db = MemoryDB::open(vec![BLOCKS_DB_COLUMN.to_string(), VALIDATOR_DB_COLUMN.to_string()]);

    /*
     * Test that we get errors when using undeclared columns
     */
    assert!(db.put(col_a, "cats".as_bytes(), "lol".as_bytes()).is_ok());
    assert!(db.put(col_x, "cats".as_bytes(), "lol".as_bytes()).is_err());

    assert!(db.get(col_a, "cats".as_bytes()).is_ok());
    assert!(db.get(col_x, "cats".as_bytes()).is_err());
}

#[test]
fn test_memorydb_exists() {
    let col_a: &str = BLOCKS_DB_COLUMN;
    let col_b: &str = VALIDATOR_DB_COLUMN;

    let db = MemoryDB::open(vec![BLOCKS_DB_COLUMN.to_string(), VALIDATOR_DB_COLUMN.to_string()]);

    /*
     * Testing that if we write to the same key in different columns that
     * there is not an overlap.
     */
    db.put(col_a, "cats".as_bytes(), "lol".as_bytes()).unwrap();

    assert_eq!(true, db.exists_key(col_a, "cats".as_bytes()).unwrap());
    assert_eq!(false, db.exists_key(col_b, "cats".as_bytes()).unwrap());

    assert_eq!(false, db.exists_key(col_a, "dogs".as_bytes()).unwrap());
    assert_eq!(false, db.exists_key(col_b, "dogs".as_bytes()).unwrap());
}

#[test]
fn test_memorydb_sequential_write_convergence() {
    let col_name: &str = BLOCKS_DB_COLUMN;

    let db = MemoryDB::open(vec![BLOCKS_DB_COLUMN.to_string(), VALIDATOR_DB_COLUMN.to_string()]);

    let thread_count = 10;
    let write_count = 10;

    // We're expecting the product of these numbers to fit in one byte.
    assert!(thread_count * write_count <= 255);

    for t in 0..thread_count {
        for w in 0..write_count {
            let key = (t * w) as u8;
            let val = 42;
            db.put(col_name, &vec![key], &vec![val]).unwrap();
        }
    }

    for t in 0..thread_count {
        for w in 0..write_count {
            let key = (t * w) as u8;
            let val = db.get(col_name, &vec![key]).unwrap().unwrap();
            assert_eq!(vec![42], val);
        }
    }
}

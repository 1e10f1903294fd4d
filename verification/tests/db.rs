//! The store end to end: tri-state lookups, atomic batches, partition
//! isolation, overwrites, and durability across a reopen.

use tempdir::TempDir;
use xmr_db::codec;
use xmr_db::kv::Key;
use xmr_db::kv::KeyState;
use xmr_db::kv::KeyValue;
use xmr_db::kv::Transaction;
use xmr_db::kv::Value;
use xmr_db::store::DiskDb;

#[test]
fn test_db() {
    let hash = [0x01, 0x3c, 0x01, 0xff, 0x00, 0x01, 0xff, 0xff, 0xff, 0xff, 0xff, 0xff, 0x03,
                0x02, 0x9b, 0x2e, 0x4c, 0x02, 0x81, 0xc0, 0xb0, 0x2e, 0x7c, 0x53, 0x29, 0x1a,
                0x94, 0xd1, 0xd0, 0xcb, 0xff, 0x88];

    let tempdir = TempDir::new("").unwrap();
    let mut db = DiskDb::open(tempdir.path().to_str().unwrap()).unwrap();

    let mut tx = Transaction::new();

    let kv = KeyValue::BlockHeight(hash.into(), 0);
    tx.insert(kv);

    db.write(tx).unwrap();

    let k = Key::BlockHeight(hash.into());
    match db.get(&k).unwrap() {
        KeyState::Insert(Value::BlockHeight(0)) => { /* happy path */ }
        KeyState::Insert(_) => panic!("invalid value"),
        KeyState::Delete => panic!("key-value pair is deleted"),
        KeyState::Unknown => panic!("key-value pair is unknown"),
    }
}

#[test]
fn tri_state_lookup() {
    let tempdir = TempDir::new("").unwrap();
    let mut db = DiskDb::open(tempdir.path().to_str().unwrap()).unwrap();

    let key = Key::BlockHash(5);
    assert_eq!(db.get(&key).unwrap(), KeyState::Unknown);

    let stored = vec![0xabu8; 32];
    let mut tx = Transaction::new();
    tx.insert(KeyValue::BlockHash(5, stored.clone()));
    db.write(tx).unwrap();
    assert_eq!(db.get(&key).unwrap(), KeyState::Insert(Value::BlockHash(stored)));

    let mut tx2 = Transaction::new();
    tx2.delete(Key::BlockHash(5));
    db.write(tx2).unwrap();
    assert_eq!(db.get(&key).unwrap(), KeyState::Delete);
}

#[test]
fn delete_creates_the_partition() {
    let tempdir = TempDir::new("").unwrap();
    let mut db = DiskDb::open(tempdir.path().to_str().unwrap()).unwrap();

    let key = Key::BlockHash(9);
    assert_eq!(db.get(&key).unwrap(), KeyState::Unknown);

    let mut tx = Transaction::new();
    tx.delete(Key::BlockHash(9));
    db.write(tx).unwrap();
    assert_eq!(db.get(&key).unwrap(), KeyState::Delete);
}

#[test]
fn atomic_batch_across_locations() {
    let tempdir = TempDir::new("").unwrap();
    let mut db = DiskDb::open(tempdir.path().to_str().unwrap()).unwrap();
    let h = vec![0x11u8; 32];

    let kv = KeyValue::BlockHeight(h.clone(), 42);
    assert_eq!(kv.key(), Key::BlockHeight(h.clone()));

    let mut tx = Transaction::new();
    tx.insert(kv);
    tx.insert(KeyValue::BlockHash(42, h.clone()));
    tx.insert(KeyValue::TransactionBlock(h.clone(), 7));
    db.write(tx).unwrap();

    assert_eq!(
        db.get(&Key::BlockHeight(h.clone())).unwrap(),
        KeyState::Insert(Value::BlockHeight(42))
    );
    assert_eq!(
        db.get(&Key::BlockHash(42)).unwrap(),
        KeyState::Insert(Value::BlockHash(h.clone()))
    );
    assert_eq!(
        db.get(&Key::TransactionBlock(h)).unwrap(),
        KeyState::Insert(Value::TransactionBlock(7))
    );
}

#[test]
fn partition_isolation() {
    let tempdir = TempDir::new("").unwrap();
    let mut db = DiskDb::open(tempdir.path().to_str().unwrap()).unwrap();
    let h = vec![0x22u8; 32];

    let mut tx = Transaction::new();
    tx.insert(KeyValue::BlockHeight(h.clone(), 7));
    db.write(tx).unwrap();

    // Same key bytes, other location: nothing observed there.
    assert_eq!(db.get(&Key::TransactionBlock(h.clone())).unwrap(), KeyState::Unknown);

    let mut tx2 = Transaction::new();
    tx2.insert(KeyValue::TransactionBlock(h.clone(), 9));
    db.write(tx2).unwrap();

    assert_eq!(
        db.get(&Key::BlockHeight(h.clone())).unwrap(),
        KeyState::Insert(Value::BlockHeight(7))
    );
    assert_eq!(
        db.get(&Key::TransactionBlock(h)).unwrap(),
        KeyState::Insert(Value::TransactionBlock(9))
    );
}

#[test]
fn overwrites_keep_one_binding() {
    let tempdir = TempDir::new("").unwrap();
    let mut db = DiskDb::open(tempdir.path().to_str().unwrap()).unwrap();
    let h = vec![0x33u8; 32];

    // Twice in one batch: the later operation wins.
    let mut tx = Transaction::new();
    tx.insert(KeyValue::BlockHeight(h.clone(), 1));
    tx.insert(KeyValue::BlockHeight(h.clone(), 2));
    db.write(tx).unwrap();
    assert_eq!(
        db.get(&Key::BlockHeight(h.clone())).unwrap(),
        KeyState::Insert(Value::BlockHeight(2))
    );

    // Again in a later batch: still one binding, the newest.
    let mut tx2 = Transaction::new();
    tx2.insert(KeyValue::BlockHeight(h.clone(), 3));
    db.write(tx2).unwrap();
    assert_eq!(
        db.get(&Key::BlockHeight(h)).unwrap(),
        KeyState::Insert(Value::BlockHeight(3))
    );
}

#[test]
fn end_to_end_reopen() {
    let tempdir = TempDir::new("").unwrap();
    let path = tempdir.path().to_str().unwrap().to_string();
    let hash = vec![0x44u8; 32];

    let mut db = DiskDb::open(&path).unwrap();
    let mut tx = Transaction::new();
    tx.insert(KeyValue::BlockHeight(hash.clone(), 0));
    db.write(tx).unwrap();
    assert_eq!(
        db.get(&Key::BlockHeight(hash.clone())).unwrap(),
        KeyState::Insert(Value::BlockHeight(0))
    );
    drop(db);

    let db2 = DiskDb::open(&path).unwrap();
    assert_eq!(
        db2.get(&Key::BlockHeight(hash)).unwrap(),
        KeyState::Insert(Value::BlockHeight(0))
    );
}

#[test]
fn open_reports_engine_errors() {
    assert!(DiskDb::open("/this/path/does/not/exist").is_err());
}

#[test]
fn for_key_rejects_malformed_bytes() {
    let key = Key::BlockHeight(vec![0x55u8; 32]);
    match Value::for_key(&key, &[1, 2, 3]) {
        Err(codec::Error::Truncated) => {}
        other => panic!("expected a decode failure, got {:?}", other),
    }
    let tx_key = Key::TransactionBlock(vec![0x55u8; 32]);
    assert!(Value::for_key(&tx_key, &[0u8; 9]).is_err());
}

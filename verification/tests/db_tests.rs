use authority_round::config::Config;
use authority_round::rocksdb::RocksDB;
use authority_round::test::contains;
use authority_round::test::get;
use authority_round::test::insert;
use authority_round::test::insert_batch;
use authority_round::test::remove;
use authority_round::test::remove_batch;

#[test]
fn open_default_uses_default_config() {
    let db = RocksDB::open_default("rocksdb/test_default").unwrap();
    assert_eq!(db.config, Config::default());
    assert_eq!(db.categorys.len(), 7);
}

#[test]
fn test_get() {
    let cfg = Config::with_category_num(Some(7));
    let mut db = RocksDB::open("rocksdb/test_get", &cfg).unwrap();

    assert!(get(&mut db));
    db.clean();
}

#[test]
fn test_insert() {
    let cfg = Config::with_category_num(Some(7));
    let mut db = RocksDB::open("rocksdb/test_insert", &cfg).unwrap();

    assert!(insert(&mut db));
    db.clean();
}

#[test]
fn test_insert_batch() {
    let cfg = Config::with_category_num(Some(7));
    let mut db = RocksDB::open("rocksdb/test_insert_batch", &cfg).unwrap();

    assert!(insert_batch(&mut db));
    db.clean();
}

#[test]
fn test_contain() {
    let cfg = Config::with_category_num(Some(7));
    let mut db = RocksDB::open("rocksdb/test_contain", &cfg).unwrap();

    assert!(contains(&mut db));
    db.clean()
}

#[test]
fn test_remove() {
    let cfg = Config::with_category_num(Some(7));
    let mut db = RocksDB::open("rocksdb/test_remove", &cfg).unwrap();

    assert!(remove(&mut db));
    db.clean();
}

#[test]
fn test_remove_batch() {
    let cfg = Config::with_category_num(Some(7));
    let mut db = RocksDB::open("rocksdb/test_remove_batch", &cfg).unwrap();

    assert!(remove_batch(&mut db));
    db.clean();
}

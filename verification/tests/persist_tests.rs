use authority_round::config::Config;
use authority_round::persist::decode_validators;
use authority_round::persist::encode_validators;
use authority_round::persist::load_transition;
use authority_round::persist::store_transition;
use authority_round::rocksdb::RocksDB;

#[test]
fn encoding_is_exact() {
    let encoded = encode_validators(&vec![1u64]);
    assert_eq!(
        encoded,
        vec![0, 0, 0, 0, 0, 0, 0, 1, 0, 0, 0, 0, 0, 0, 0, 1]
    );
    let empty = encode_validators(&vec![]);
    assert_eq!(empty, vec![0u8; 8]);
}

#[test]
fn decoding_inverts_encoding() {
    for list in [
        vec![],
        vec![7u64],
        vec![1, 2, 3],
        vec![u64::MAX, 0, 0x0123_4567_89ab_cdef],
    ] {
        let encoded = encode_validators(&list);
        assert_eq!(decode_validators(&encoded), Some(list));
    }
}

#[test]
fn malformed_bytes_decode_to_nothing() {
    // Too short to hold a count.
    assert_eq!(decode_validators(&vec![0u8; 7]), None);
    // Count does not match the remaining length.
    assert_eq!(decode_validators(&vec![0u8; 9]), None);
    let mut wrong_count = vec![0u8; 16];
    wrong_count[7] = 2;
    assert_eq!(decode_validators(&wrong_count), None);
}

#[test]
fn transitions_survive_the_store() {
    let cfg = Config::with_category_num(Some(7));
    let mut db = RocksDB::open("rocksdb/test_transitions", &cfg).unwrap();

    let list = vec![11u64, 22, 33, 44, 55];
    store_transition(&mut db, 1000, &list).unwrap();
    assert_eq!(load_transition(&db, 1000), Ok(Some(list)));
    // No transition was persisted for any other height.
    assert_eq!(load_transition(&db, 999), Ok(None));
    db.clean();
}

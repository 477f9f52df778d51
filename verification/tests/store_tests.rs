use nonce_store::chain_db::ChainDB;
use nonce_store::chain_db::EngineRead;
use nonce_store::chain_db::chain_ids_from_listing;
use nonce_store::chain_db::nonce_from_read;
use nonce_store::chain_db::normalize_discovery;
use nonce_store::codec::encode_nonce;
use nonce_store::error::StorageError;
use nonce_store::mem_store::MemStore;

#[test]
fn create() {
    let db = MemStore::new();
    assert_eq!(true, db.chain_ids().is_ok());

    let chain_ids = db.chain_ids().unwrap();
    assert_eq!(1, chain_ids.len());
    assert_eq!("default", chain_ids[0]);
}

#[test]
fn fresh_store_reads_zero_then_stored_value() {
    let mut db = MemStore::new();
    assert_eq!(db.chain_ids().unwrap(), vec![String::from("default")]);

    let addr: Vec<u8> = vec![0x01, 0x02];
    let chain = String::from("default");
    assert_eq!(db.get_tx_nonce(&addr, &chain), Ok(0));

    db.put(&addr, &chain, vec![0, 0, 0, 0, 0, 0, 0, 0x2A]).unwrap();
    assert_eq!(db.get_tx_nonce(&addr, &chain), Ok(42));
}

#[test]
fn existing_partitions_listed_and_readable() {
    let mut db = MemStore::new();
    db.add_partition(&String::from("mainnet"));

    let ids = db.chain_ids().unwrap();
    assert_eq!(ids.len(), 2);
    assert!(ids.contains(&String::from("default")));
    assert!(ids.contains(&String::from("mainnet")));

    let addr: Vec<u8> = vec![0xAB];
    assert_eq!(db.get_tx_nonce(&addr, &String::from("mainnet")), Ok(0));
}

#[test]
fn unknown_chain_rejected() {
    let mut db = MemStore::new();
    let addr: Vec<u8> = vec![0x01];
    db.put(&addr, &String::from("default"), encode_nonce(7)).unwrap();

    assert_eq!(
        db.get_tx_nonce(&addr, &String::from("nonexistent_chain")),
        Err(StorageError::PartitionNotFound)
    );
}

#[test]
fn absent_address_reads_zero_in_existing_partition() {
    let mut db = MemStore::new();
    db.add_partition(&String::from("mainnet"));
    db.put(&vec![0x01], &String::from("mainnet"), encode_nonce(9)).unwrap();

    assert_eq!(db.get_tx_nonce(&vec![0x02], &String::from("mainnet")), Ok(0));
    assert_eq!(db.get_tx_nonce(&vec![], &String::from("default")), Ok(0));
}

#[test]
fn stored_encoding_round_trips_through_store() {
    let mut db = MemStore::new();
    let chain = String::from("default");
    for (i, n) in [0u64, 1, 42, 65_536, u64::MAX].into_iter().enumerate() {
        let addr: Vec<u8> = vec![i as u8];
        db.put(&addr, &chain, encode_nonce(n)).unwrap();
        assert_eq!(db.get_tx_nonce(&addr, &chain), Ok(n));
    }
}

#[test]
fn overwrite_keeps_latest_value() {
    let mut db = MemStore::new();
    let chain = String::from("default");
    let addr: Vec<u8> = vec![0x01];
    db.put(&addr, &chain, encode_nonce(1)).unwrap();
    db.put(&addr, &chain, encode_nonce(2)).unwrap();
    assert_eq!(db.get_tx_nonce(&addr, &chain), Ok(2));
}

#[test]
fn corrupt_value_fails_loudly() {
    let mut db = MemStore::new();
    let chain = String::from("default");
    let addr: Vec<u8> = vec![0x01];
    db.put(&addr, &chain, vec![1, 2, 3]).unwrap();
    assert_eq!(
        db.get_tx_nonce(&addr, &chain),
        Err(StorageError::DataCorruption)
    );
}

#[test]
fn put_into_unknown_chain_rejected() {
    let mut db = MemStore::new();
    assert_eq!(
        db.put(&vec![0x01], &String::from("mainnet"), encode_nonce(1)),
        Err(StorageError::PartitionNotFound)
    );
}

#[test]
fn chain_ids_idempotent_without_partition_creation() {
    let mut db = MemStore::new();
    db.add_partition(&String::from("mainnet"));
    db.add_partition(&String::from("testnet"));

    let mut first = db.chain_ids().unwrap();
    let mut second = db.chain_ids().unwrap();
    first.sort();
    second.sort();
    assert_eq!(first, second);
    assert_eq!(first.len(), 3);
}

#[test]
fn add_partition_twice_lists_once() {
    let mut db = MemStore::new();
    db.add_partition(&String::from("mainnet"));
    db.add_partition(&String::from("mainnet"));
    assert_eq!(db.chain_ids().unwrap().len(), 2);
}

#[test]
fn nonce_policy_over_engine_reads() {
    assert_eq!(
        nonce_from_read(EngineRead::NoPartition),
        Err(StorageError::PartitionNotFound)
    );
    assert_eq!(nonce_from_read(EngineRead::Failed), Err(StorageError::ReadFailed));
    assert_eq!(nonce_from_read(EngineRead::Missing), Ok(0));
    assert_eq!(
        nonce_from_read(EngineRead::Value(vec![0, 0, 0, 0, 0, 0, 0, 5])),
        Ok(5)
    );
    assert_eq!(
        nonce_from_read(EngineRead::Value(vec![5])),
        Err(StorageError::DataCorruption)
    );
}

#[test]
fn discovery_normalizes_only_at_construction() {
    let names = vec![String::from("default"), String::from("mainnet")];
    assert_eq!(normalize_discovery(Some(names.clone())), names);
    assert_eq!(normalize_discovery(None), Vec::<String>::new());

    assert_eq!(chain_ids_from_listing(Some(names.clone())), Ok(names));
    assert_eq!(chain_ids_from_listing(None), Err(StorageError::ListFailed));
}

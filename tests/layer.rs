use reth_db::codec::{DecodeError, Encode};
use reth_db::env::{open_config, open_outcome, CreateTables, EnvKind, SetupAction, MAX_MAP_SIZE};
use reth_db::error::KVError;
use reth_db::models::{Account, Address, BlockNumHash, Header, StorageEntry, H256, U256};
use reth_db::tables::{tables, Headers, PlainState, PlainStorageState, TableId, TableType};
use reth_db::tx::{
    begin_outcome, commit_outcome, delete_outcome, delete_request, entry_outcome, get_outcome,
    put_outcome, put_request, scoped_outcome,
};

#[test]
fn registry_lists_each_table_once() {
    let t = tables();
    assert_eq!(t.len(), 5);
    let names: Vec<&str> = t.iter().map(|x| x.name()).collect();
    assert_eq!(
        names,
        vec!["CanonicalHeaders", "HeaderNumbers", "Headers", "PlainState", "PlainStorageState"]
    );
    for (i, a) in t.iter().enumerate() {
        for b in &t[i + 1..] {
            assert_ne!(a.name(), b.name());
        }
    }
    assert_eq!(TableId::PlainStorageState.table_type(), TableType::DupSort);
    assert_eq!(TableId::Headers.table_type(), TableType::Table);
}

#[test]
fn open_config_follows_kind() {
    let rw = open_config(EnvKind::RW);
    assert!(rw.read_write);
    assert_eq!(rw.max_tables, 5);
    assert_eq!(rw.max_map_size, MAX_MAP_SIZE);
    assert!(!open_config(EnvKind::RO).read_write);
    assert_eq!(open_outcome::<u8>(Err("busy".to_string())), Err(KVError::DatabaseLocation("busy".to_string())));
}

#[test]
fn get_outcome_decodes_found_value() {
    let h = Header::default();
    let r = get_outcome::<Headers>(Ok(Some(h.encode())));
    assert_eq!(r, Ok(Some(h)));
}

#[test]
fn get_outcome_not_found_is_not_an_error() {
    assert_eq!(get_outcome::<Headers>(Ok(None)), Ok(None));
}

#[test]
fn get_outcome_reports_corruption() {
    assert_eq!(get_outcome::<PlainState>(Ok(Some(vec![1, 2, 3]))), Err(KVError::Decode(DecodeError)));
    assert_eq!(get_outcome::<PlainState>(Err("bad".to_string())), Err(KVError::Get("bad".to_string())));
}

#[test]
fn entry_outcome_decodes_pairs() {
    let key = Address([1; 20]);
    let e = StorageEntry { key: H256([2; 32]), value: U256::from_u64(3) };
    let r = entry_outcome::<PlainStorageState>(Ok(Some((key.encode(), e.encode()))));
    assert_eq!(r, Ok(Some((key, e))));
    let bad = entry_outcome::<PlainStorageState>(Ok(Some((vec![0; 19], e.encode()))));
    assert_eq!(bad, Err(KVError::Decode(DecodeError)));
    assert_eq!(entry_outcome::<PlainStorageState>(Ok(None)), Ok(None));
    assert_eq!(entry_outcome::<PlainStorageState>(Err("x".to_string())), Err(KVError::Cursor("x".to_string())));
}

#[test]
fn put_request_encodes_key_and_value() {
    let key = BlockNumHash::new(1, H256::zero());
    let (k, v) = put_request::<Headers>(&key, &Header::default());
    assert_eq!(k.len(), 40);
    assert_eq!(k[7], 1);
    assert_eq!(v, vec![0u8; 148]);
}

#[test]
fn delete_request_narrows_only_dup_sort_tables() {
    let addr = Address([5; 20]);
    let e = StorageEntry { key: H256([1; 32]), value: U256::zero() };
    let (k, v) = delete_request::<PlainStorageState>(&addr, Some(&e));
    assert_eq!(k, addr.encode());
    assert_eq!(v, Some(e.encode()));
    let acc = Account::default();
    let (_, v) = delete_request::<PlainState>(&addr, Some(&acc));
    assert_eq!(v, None);
    let (_, v) = delete_request::<PlainStorageState>(&addr, None);
    assert_eq!(v, None);
}

#[test]
fn engine_failures_map_to_their_kind() {
    assert_eq!(begin_outcome::<u8>(Err("r".to_string())), Err(KVError::InitTransaction("r".to_string())));
    assert_eq!(begin_outcome::<u8>(Ok(3)), Ok(3));
    assert_eq!(put_outcome(Err("full".to_string())), Err(KVError::Put("full".to_string())));
    assert_eq!(put_outcome(Ok(())), Ok(()));
    assert_eq!(delete_outcome(Ok(false)), Ok(false));
    assert_eq!(delete_outcome(Err("d".to_string())), Err(KVError::Delete("d".to_string())));
    assert_eq!(commit_outcome(Ok(true)), Ok(()));
    assert_eq!(commit_outcome(Err("c".to_string())), Err(KVError::Commit("c".to_string())));
}

#[test]
fn scoped_outcome_returns_operation_result_after_commit() {
    assert_eq!(scoped_outcome(200, Ok(true)), Ok(200));
    let failed: Result<u8, ()> = Err(());
    assert_eq!(scoped_outcome(failed, Ok(true)), Ok(Err(())));
    assert_eq!(scoped_outcome(200, Err("c".to_string())), Err(KVError::Commit("c".to_string())));
}

#[test]
fn create_tables_creates_all_then_commits() {
    let (mut s, first) = CreateTables::new();
    assert_eq!(first, SetupAction::Begin);
    let mut created = Vec::new();
    loop {
        match s.step(Ok(())) {
            SetupAction::Create(t, kind) => {
                assert_eq!(kind, t.table_type());
                created.push(t);
            }
            SetupAction::Commit => break,
            other => panic!("unexpected {:?}", other),
        }
    }
    assert_eq!(created, tables());
    assert_eq!(s.step(Ok(())), SetupAction::Finished(Ok(())));
}

#[test]
fn create_tables_failure_stops_before_commit() {
    let (mut s, _) = CreateTables::new();
    assert_eq!(s.step(Ok(())), SetupAction::Create(TableId::CanonicalHeaders, TableType::Table));
    assert_eq!(
        s.step(Err("dbs full".to_string())),
        SetupAction::Finished(Err(KVError::TableCreation("dbs full".to_string())))
    );
    let (mut s, _) = CreateTables::new();
    assert_eq!(
        s.step(Err("readers".to_string())),
        SetupAction::Finished(Err(KVError::InitTransaction("readers".to_string())))
    );
}

#[test]
fn create_tables_commit_failure() {
    let (mut s, _) = CreateTables::new();
    while s.step(Ok(())) != SetupAction::Commit {}
    assert_eq!(s.step(Err("io".to_string())), SetupAction::Finished(Err(KVError::Commit("io".to_string()))));
}

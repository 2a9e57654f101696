use std::collections::{BTreeMap, BTreeSet};

use reth_db::codec::Encode;
use reth_db::models::{Account, Address, BlockNumHash, Header, StorageEntry, H256, U256};
use reth_db::tables::{Headers, PlainState, PlainStorageState};
use reth_db::tx::{delete_request, entry_outcome, get_outcome, put_request, scoped_outcome};

// A byte-keyed ordered map stands for the engine: it sorts keys and sorted
// duplicates by their bytes, as the engine does.

#[test]
fn manual_put_get_header_by_block_key() {
    let mut store: BTreeMap<Vec<u8>, Vec<u8>> = BTreeMap::new();
    let value = Header::default();
    let key = BlockNumHash::new(1, H256::zero());
    let (k, v) = put_request::<Headers>(&key, &value);
    store.insert(k, v);
    let raw = store.get(&key.encode()).cloned();
    let result = get_outcome::<Headers>(Ok(raw)).expect("read");
    assert!(result.expect("present") == value);
}

#[test]
fn scoped_put_returns_sentinel_then_get_account() {
    let mut store: BTreeMap<Vec<u8>, Vec<u8>> = BTreeMap::new();
    let value = Account {
        nonce: 18446744073709551615,
        bytecode_hash: H256([0x5a; 32]),
        balance: U256::max_value(),
    };
    let mut addr = [0u8; 20];
    let hex = "a2c122be93b0074270ebee7f6b7292c7deb45047";
    for i in 0..20 {
        addr[i] = u8::from_str_radix(&hex[2 * i..2 * i + 2], 16).unwrap();
    }
    let key = Address(addr);
    let (k, v) = put_request::<PlainState>(&key, &value);
    store.insert(k, v);
    let result = scoped_outcome(200, Ok(true));
    assert!(result.expect("commit") == 200);
    let read = get_outcome::<PlainState>(Ok(store.get(&key.encode()).cloned())).expect("read");
    assert!(read == Some(value));
}

#[test]
fn delete_then_get_is_not_found() {
    let mut store: BTreeMap<Vec<u8>, Vec<u8>> = BTreeMap::new();
    let key = Address([1; 20]);
    let (k, v) = put_request::<PlainState>(&key, &Account::default());
    store.insert(k, v);
    let (dk, _) = delete_request::<PlainState>(&key, None);
    store.remove(&dk);
    assert_eq!(get_outcome::<PlainState>(Ok(store.get(&key.encode()).cloned())), Ok(None));
}

#[test]
fn dup_sort_values_come_out_in_slot_order() {
    let key = Address([9; 20]);
    let v1 = StorageEntry { key: H256([1; 32]), value: U256::from_u64(300) };
    let v2 = StorageEntry { key: H256([2; 32]), value: U256::from_u64(20) };
    let v3 = StorageEntry { key: H256([3; 32]), value: U256::from_u64(1) };
    let mut dups: BTreeSet<Vec<u8>> = BTreeSet::new();
    for v in [v3, v1, v2] {
        let (_, b) = put_request::<PlainStorageState>(&key, &v);
        dups.insert(b);
    }
    let mut out = Vec::new();
    for b in dups {
        let e = entry_outcome::<PlainStorageState>(Ok(Some((key.encode(), b)))).expect("decode");
        out.push(e.expect("present").1);
    }
    assert_eq!(out, vec![v1, v2, v3]);
}

use reth_db::codec::{Decode, DecodeError, Encode};
use reth_db::models::{Account, Address, BlockNumHash, Header, StorageEntry, H256, U256};

fn hash(fill: u8) -> H256 {
    H256([fill; 32])
}

#[test]
fn u64_encodes_big_endian() {
    assert_eq!(0x0102030405060708u64.encode(), vec![1, 2, 3, 4, 5, 6, 7, 8]);
    assert_eq!(u64::MAX.encode(), vec![0xff; 8]);
    assert_eq!(u64::decode(&[0, 0, 0, 0, 0, 0, 1, 0]), Ok(256));
}

#[test]
fn u64_round_trip_edges() {
    for n in [0u64, 1, 255, 256, 1 << 32, u64::MAX - 1, u64::MAX] {
        assert_eq!(u64::decode(&n.encode()), Ok(n));
    }
}

#[test]
fn u64_decode_rejects_wrong_length() {
    assert_eq!(u64::decode(&[]), Err(DecodeError));
    assert_eq!(u64::decode(&[1, 2, 3, 4, 5, 6, 7]), Err(DecodeError));
    assert_eq!(u64::decode(&[0; 9]), Err(DecodeError));
}

#[test]
fn u64_encoding_keeps_order() {
    let keys = [0u64, 1, 255, 256, 65535, 65536, 1 << 40, u64::MAX];
    for w in keys.windows(2) {
        assert!(w[0].encode() < w[1].encode());
    }
}

#[test]
fn block_num_hash_layout_and_order() {
    let k = BlockNumHash::new(1, H256::zero());
    let b = k.encode();
    assert_eq!(b.len(), 40);
    assert_eq!(&b[..8], &[0, 0, 0, 0, 0, 0, 0, 1]);
    assert_eq!(BlockNumHash::decode(&b), Ok(k));
    let a = BlockNumHash::new(1, hash(0xff));
    let c = BlockNumHash::new(2, hash(0));
    assert!(k.encode() < a.encode());
    assert!(a.encode() < c.encode());
    assert_eq!(BlockNumHash::decode(&b[..39]), Err(DecodeError));
}

#[test]
fn account_round_trip_extremes() {
    let acc = Account { nonce: u64::MAX, balance: U256::max_value(), bytecode_hash: hash(7) };
    let b = acc.encode();
    assert_eq!(b.len(), 72);
    assert_eq!(&b[..8], &[0xff; 8]);
    assert_eq!(Account::decode(&b), Ok(acc));
    assert_eq!(Account::decode(&b[1..]), Err(DecodeError));
}

#[test]
fn header_default_round_trip() {
    let h = Header::default();
    let b = h.encode();
    assert_eq!(b, vec![0u8; 148]);
    assert_eq!(Header::decode(&b), Ok(h));
}

#[test]
fn header_fields_at_their_offsets() {
    let h = Header {
        parent_hash: hash(1),
        beneficiary: Address([2; 20]),
        state_root: hash(3),
        difficulty: U256::from_u64(4),
        number: 5,
        gas_limit: 6,
        gas_used: 7,
        timestamp: 8,
    };
    let b = h.encode();
    assert_eq!(b.len(), 148);
    assert_eq!(b[0], 1);
    assert_eq!(b[32], 2);
    assert_eq!(b[52], 3);
    assert_eq!(b[115], 4);
    assert_eq!(b[123], 5);
    assert_eq!(b[147], 8);
    assert_eq!(Header::decode(&b), Ok(h));
    assert_eq!(Header::decode(&[0u8; 147]), Err(DecodeError));
}

#[test]
fn storage_entries_sort_by_slot_key() {
    let low = StorageEntry { key: hash(1), value: U256::max_value() };
    let high = StorageEntry { key: hash(2), value: U256::zero() };
    assert!(low.encode() < high.encode());
    assert_eq!(StorageEntry::decode(&low.encode()), Ok(low));
}

#[test]
fn u256_from_u64_is_big_endian() {
    let v = U256::from_u64(0x0102);
    let mut expected = [0u8; 32];
    expected[30] = 1;
    expected[31] = 2;
    assert_eq!(v, U256(expected));
    assert_eq!(U256::max_value(), U256([0xff; 32]));
}

#[test]
fn address_and_hash_round_trip() {
    let a = Address([0xa2; 20]);
    assert_eq!(Address::decode(&a.encode()), Ok(a));
    assert_eq!(Address::decode(&[0; 32]), Err(DecodeError));
    assert_eq!(H256::decode(&hash(9).encode()), Ok(hash(9)));
    assert_eq!(U256::decode(&U256::max_value().encode()), Ok(U256::max_value()));
}

//! Domain records stored in the tables, with their byte codecs.

use vstd::prelude::*;
use crate::codec::{
    append_bytes, array_of, bytes_lt, encode_u64, lemma_array_of_view, lemma_bytes_lt_concat,
    lemma_u64_be_ordered, lemma_u64_from_be_of_be, read_array_at, read_u64_at, u64_be,
    u64_from_be, Decode, DecodeError, Encode, Key,
};

verus! {

/// A block number.
pub type BlockNumber = u64;

/// A 32-byte hash.
#[derive(Clone, Copy, Debug, PartialEq, Eq, Default, Hash, PartialOrd, Ord)]
pub struct H256(pub [u8; 32]);

/// A 20-byte account address.
#[derive(Clone, Copy, Debug, PartialEq, Eq, Default, Hash, PartialOrd, Ord)]
pub struct Address(pub [u8; 20]);

/// A 256-bit unsigned integer, held as its 32 big-endian bytes.
#[derive(Clone, Copy, Debug, PartialEq, Eq, Default, Hash, PartialOrd, Ord)]
pub struct U256(pub [u8; 32]);

/// Key of a block header: its number, then its hash.
#[derive(Clone, Copy, Debug, PartialEq, Eq, Default, Hash)]
pub struct BlockNumHash {
    pub number: BlockNumber,
    pub hash: H256,
}

/// The state of an account.
#[derive(Clone, Copy, Debug, PartialEq, Eq, Default)]
pub struct Account {
    pub nonce: u64,
    pub balance: U256,
    pub bytecode_hash: H256,
}

/// One storage slot of an account: the slot's key and its value. Stored as
/// a sorted duplicate under the account's address, ordered by `key`.
#[derive(Clone, Copy, Debug, PartialEq, Eq, Default)]
pub struct StorageEntry {
    pub key: H256,
    pub value: U256,
}

/// A block header.
#[derive(Clone, Copy, Debug, PartialEq, Eq, Default)]
pub struct Header {
    pub parent_hash: H256,
    pub beneficiary: Address,
    pub state_root: H256,
    pub difficulty: U256,
    pub number: BlockNumber,
    pub gas_limit: u64,
    pub gas_used: u64,
    pub timestamp: u64,
}

impl H256 {
    /// The hash of all zero bytes.
    pub fn zero() -> (r: H256)
        ensures
            forall|i: int| 0 <= i < 32 ==> r.0@[i] == 0,
    {
        H256([0u8; 32])
    }
}

impl U256 {
    pub fn zero() -> (r: U256)
        ensures
            forall|i: int| 0 <= i < 32 ==> r.0@[i] == 0,
    {
        U256([0u8; 32])
    }

    /// The largest value, 2^256 - 1.
    pub fn max_value() -> (r: U256)
        ensures
            forall|i: int| 0 <= i < 32 ==> r.0@[i] == 0xff,
    {
        U256([0xffu8; 32])
    }

    /// The value `n`.
    pub fn from_u64(n: u64) -> (r: U256)
        ensures
            r.0@.subrange(24, 32) == u64_be(n),
            forall|i: int| 0 <= i < 24 ==> r.0@[i] == 0,
    {
        let mut a: [u8; 32] = [0u8; 32];
        let b = encode_u64(n);
        let mut i: usize = 0;
        while i < 8
            invariant
                i <= 8,
                b@ == u64_be(n),
                forall|j: int| 0 <= j < 24 ==> a@[j] == 0,
                forall|j: int| 0 <= j < i ==> a@[24 + j] == b@[j],
            decreases 8 - i,
        {
            a[24 + i] = b[i];
            i = i + 1;
        }
        assert(a@.subrange(24, 32) =~= u64_be(n));
        U256(a)
    }
}

impl BlockNumHash {
    pub fn new(number: BlockNumber, hash: H256) -> (r: BlockNumHash)
        ensures
            r.number == number,
            r.hash == hash,
    {
        BlockNumHash { number, hash }
    }
}

impl Encode for u64 {
    open spec fn encoded(&self) -> Seq<u8> {
        u64_be(*self)
    }

    fn encode(&self) -> (r: Vec<u8>) {
        encode_u64(*self)
    }
}

impl Decode for u64 {
    open spec fn decoded(bytes: Seq<u8>) -> Option<u64> {
        if bytes.len() == 8 {
            Some(u64_from_be(bytes))
        } else {
            None
        }
    }

    fn decode(bytes: &[u8]) -> (r: Result<u64, DecodeError>) {
        if bytes.len() != 8 {
            return Err(DecodeError);
        }
        let n = read_u64_at(bytes, 0);
        assert(bytes@.subrange(0, 8) =~= bytes@);
        Ok(n)
    }

    proof fn lemma_decode_encoded(v: u64) {
        lemma_u64_from_be_of_be(v);
    }
}

impl Key for u64 {
    open spec fn key_lt(&self, other: &u64) -> bool {
        *self < *other
    }

    proof fn lemma_encoding_ordered(a: u64, b: u64) {
        lemma_u64_be_ordered(a, b);
    }
}

impl Encode for H256 {
    open spec fn encoded(&self) -> Seq<u8> {
        self.0@
    }

    fn encode(&self) -> (r: Vec<u8>) {
        let mut r: Vec<u8> = Vec::new();
        append_bytes(&mut r, &self.0);
        assert(r@ =~= self.0@);
        r
    }
}

impl Decode for H256 {
    open spec fn decoded(bytes: Seq<u8>) -> Option<H256> {
        if bytes.len() == 32 {
            Some(H256(array_of(bytes)))
        } else {
            None
        }
    }

    fn decode(bytes: &[u8]) -> (r: Result<H256, DecodeError>) {
        if bytes.len() != 32 {
            return Err(DecodeError);
        }
        let a: [u8; 32] = read_array_at(bytes, 0);
        assert(bytes@.subrange(0, 32) =~= bytes@);
        proof {
            lemma_array_of_view(a);
        }
        Ok(H256(a))
    }

    proof fn lemma_decode_encoded(v: H256) {
        lemma_array_of_view(v.0);
    }
}

impl Key for H256 {
    open spec fn key_lt(&self, other: &H256) -> bool {
        bytes_lt(self.0@, other.0@)
    }

    proof fn lemma_encoding_ordered(a: H256, b: H256) {
    }
}

impl Encode for Address {
    open spec fn encoded(&self) -> Seq<u8> {
        self.0@
    }

    fn encode(&self) -> (r: Vec<u8>) {
        let mut r: Vec<u8> = Vec::new();
        append_bytes(&mut r, &self.0);
        assert(r@ =~= self.0@);
        r
    }
}

impl Decode for Address {
    open spec fn decoded(bytes: Seq<u8>) -> Option<Address> {
        if bytes.len() == 20 {
            Some(Address(array_of(bytes)))
        } else {
            None
        }
    }

    fn decode(bytes: &[u8]) -> (r: Result<Address, DecodeError>) {
        if bytes.len() != 20 {
            return Err(DecodeError);
        }
        let a: [u8; 20] = read_array_at(bytes, 0);
        assert(bytes@.subrange(0, 20) =~= bytes@);
        proof {
            lemma_array_of_view(a);
        }
        Ok(Address(a))
    }

    proof fn lemma_decode_encoded(v: Address) {
        lemma_array_of_view(v.0);
    }
}

impl Key for Address {
    open spec fn key_lt(&self, other: &Address) -> bool {
        bytes_lt(self.0@, other.0@)
    }

    proof fn lemma_encoding_ordered(a: Address, b: Address) {
    }
}

impl Encode for U256 {
    open spec fn encoded(&self) -> Seq<u8> {
        self.0@
    }

    fn encode(&self) -> (r: Vec<u8>) {
        let mut r: Vec<u8> = Vec::new();
        append_bytes(&mut r, &self.0);
        assert(r@ =~= self.0@);
        r
    }
}

impl Decode for U256 {
    open spec fn decoded(bytes: Seq<u8>) -> Option<U256> {
        if bytes.len() == 32 {
            Some(U256(array_of(bytes)))
        } else {
            None
        }
    }

    fn decode(bytes: &[u8]) -> (r: Result<U256, DecodeError>) {
        if bytes.len() != 32 {
            return Err(DecodeError);
        }
        let a: [u8; 32] = read_array_at(bytes, 0);
        assert(bytes@.subrange(0, 32) =~= bytes@);
        proof {
            lemma_array_of_view(a);
        }
        Ok(U256(a))
    }

    proof fn lemma_decode_encoded(v: U256) {
        lemma_array_of_view(v.0);
    }
}

impl Encode for BlockNumHash {
    open spec fn encoded(&self) -> Seq<u8> {
        u64_be(self.number) + self.hash.0@
    }

    fn encode(&self) -> (r: Vec<u8>) {
        let mut r = encode_u64(self.number);
        append_bytes(&mut r, &self.hash.0);
        r
    }
}

impl Decode for BlockNumHash {
    open spec fn decoded(bytes: Seq<u8>) -> Option<BlockNumHash> {
        if bytes.len() == 40 {
            Some(
                BlockNumHash {
                    number: u64_from_be(bytes.subrange(0, 8)),
                    hash: H256(array_of(bytes.subrange(8, 40))),
                },
            )
        } else {
            None
        }
    }

    fn decode(bytes: &[u8]) -> (r: Result<BlockNumHash, DecodeError>) {
        if bytes.len() != 40 {
            return Err(DecodeError);
        }
        let number = read_u64_at(bytes, 0);
        let hash: [u8; 32] = read_array_at(bytes, 8);
        proof {
            lemma_array_of_view(hash);
        }
        Ok(BlockNumHash { number, hash: H256(hash) })
    }

    proof fn lemma_decode_encoded(v: BlockNumHash) {
        let s = v.encoded();
        assert(s.subrange(0, 8) =~= u64_be(v.number));
        assert(s.subrange(8, 40) =~= v.hash.0@);
        lemma_u64_from_be_of_be(v.number);
        lemma_array_of_view(v.hash.0);
    }
}

impl Key for BlockNumHash {
    /// Ordered by number, then by hash.
    open spec fn key_lt(&self, other: &BlockNumHash) -> bool {
        self.number < other.number || (self.number == other.number && bytes_lt(
            self.hash.0@,
            other.hash.0@,
        ))
    }

    proof fn lemma_encoding_ordered(a: BlockNumHash, b: BlockNumHash) {
        lemma_bytes_lt_concat(u64_be(a.number), a.hash.0@, u64_be(b.number), b.hash.0@);
        if a.number < b.number {
            lemma_u64_be_ordered(a.number, b.number);
        }
    }
}

impl Encode for Account {
    open spec fn encoded(&self) -> Seq<u8> {
        u64_be(self.nonce) + self.balance.0@ + self.bytecode_hash.0@
    }

    fn encode(&self) -> (r: Vec<u8>) {
        let mut r = encode_u64(self.nonce);
        append_bytes(&mut r, &self.balance.0);
        append_bytes(&mut r, &self.bytecode_hash.0);
        r
    }
}

impl Decode for Account {
    open spec fn decoded(bytes: Seq<u8>) -> Option<Account> {
        if bytes.len() == 72 {
            Some(
                Account {
                    nonce: u64_from_be(bytes.subrange(0, 8)),
                    balance: U256(array_of(bytes.subrange(8, 40))),
                    bytecode_hash: H256(array_of(bytes.subrange(40, 72))),
                },
            )
        } else {
            None
        }
    }

    fn decode(bytes: &[u8]) -> (r: Result<Account, DecodeError>) {
        if bytes.len() != 72 {
            return Err(DecodeError);
        }
        let nonce = read_u64_at(bytes, 0);
        let balance: [u8; 32] = read_array_at(bytes, 8);
        let bytecode_hash: [u8; 32] = read_array_at(bytes, 40);
        proof {
            lemma_array_of_view(balance);
            lemma_array_of_view(bytecode_hash);
        }
        Ok(Account { nonce, balance: U256(balance), bytecode_hash: H256(bytecode_hash) })
    }

    proof fn lemma_decode_encoded(v: Account) {
        let s = v.encoded();
        assert(s.subrange(0, 8) =~= u64_be(v.nonce));
        assert(s.subrange(8, 40) =~= v.balance.0@);
        assert(s.subrange(40, 72) =~= v.bytecode_hash.0@);
        lemma_u64_from_be_of_be(v.nonce);
        lemma_array_of_view(v.balance.0);
        lemma_array_of_view(v.bytecode_hash.0);
    }
}

impl Encode for StorageEntry {
    /// The slot key comes first, so that sorted duplicates follow the key.
    open spec fn encoded(&self) -> Seq<u8> {
        self.key.0@ + self.value.0@
    }

    fn encode(&self) -> (r: Vec<u8>) {
        let mut r: Vec<u8> = Vec::new();
        append_bytes(&mut r, &self.key.0);
        append_bytes(&mut r, &self.value.0);
        assert(r@ =~= self.key.0@ + self.value.0@);
        r
    }
}

impl Decode for StorageEntry {
    open spec fn decoded(bytes: Seq<u8>) -> Option<StorageEntry> {
        if bytes.len() == 64 {
            Some(
                StorageEntry {
                    key: H256(array_of(bytes.subrange(0, 32))),
                    value: U256(array_of(bytes.subrange(32, 64))),
                },
            )
        } else {
            None
        }
    }

    fn decode(bytes: &[u8]) -> (r: Result<StorageEntry, DecodeError>) {
        if bytes.len() != 64 {
            return Err(DecodeError);
        }
        let key: [u8; 32] = read_array_at(bytes, 0);
        let value: [u8; 32] = read_array_at(bytes, 32);
        proof {
            lemma_array_of_view(key);
            lemma_array_of_view(value);
        }
        Ok(StorageEntry { key: H256(key), value: U256(value) })
    }

    proof fn lemma_decode_encoded(v: StorageEntry) {
        let s = v.encoded();
        assert(s.subrange(0, 32) =~= v.key.0@);
        assert(s.subrange(32, 64) =~= v.value.0@);
        lemma_array_of_view(v.key.0);
        lemma_array_of_view(v.value.0);
    }
}

/// Law: storage entries under one address sort by their slot key, whatever
/// their values.
pub proof fn lemma_storage_entry_order(a: StorageEntry, b: StorageEntry)
    requires
        bytes_lt(a.key.0@, b.key.0@),
    ensures
        bytes_lt(a.encoded(), b.encoded()),
{
    lemma_bytes_lt_concat(a.key.0@, a.value.0@, b.key.0@, b.value.0@);
}

impl Encode for Header {
    open spec fn encoded(&self) -> Seq<u8> {
        self.parent_hash.0@ + self.beneficiary.0@ + self.state_root.0@ + self.difficulty.0@
            + u64_be(self.number) + u64_be(self.gas_limit) + u64_be(self.gas_used) + u64_be(
            self.timestamp,
        )
    }

    fn encode(&self) -> (r: Vec<u8>) {
        let mut r: Vec<u8> = Vec::new();
        append_bytes(&mut r, &self.parent_hash.0);
        append_bytes(&mut r, &self.beneficiary.0);
        append_bytes(&mut r, &self.state_root.0);
        append_bytes(&mut r, &self.difficulty.0);
        let b = encode_u64(self.number);
        append_bytes(&mut r, b.as_slice());
        let b = encode_u64(self.gas_limit);
        append_bytes(&mut r, b.as_slice());
        let b = encode_u64(self.gas_used);
        append_bytes(&mut r, b.as_slice());
        let b = encode_u64(self.timestamp);
        append_bytes(&mut r, b.as_slice());
        assert(r@ =~= self.encoded());
        r
    }
}

impl Decode for Header {
    open spec fn decoded(bytes: Seq<u8>) -> Option<Header> {
        if bytes.len() == 148 {
            Some(
                Header {
                    parent_hash: H256(array_of(bytes.subrange(0, 32))),
                    beneficiary: Address(array_of(bytes.subrange(32, 52))),
                    state_root: H256(array_of(bytes.subrange(52, 84))),
                    difficulty: U256(array_of(bytes.subrange(84, 116))),
                    number: u64_from_be(bytes.subrange(116, 124)),
                    gas_limit: u64_from_be(bytes.subrange(124, 132)),
                    gas_used: u64_from_be(bytes.subrange(132, 140)),
                    timestamp: u64_from_be(bytes.subrange(140, 148)),
                },
            )
        } else {
            None
        }
    }

    fn decode(bytes: &[u8]) -> (r: Result<Header, DecodeError>) {
        if bytes.len() != 148 {
            return Err(DecodeError);
        }
        let parent_hash: [u8; 32] = read_array_at(bytes, 0);
        let beneficiary: [u8; 20] = read_array_at(bytes, 32);
        let state_root: [u8; 32] = read_array_at(bytes, 52);
        let difficulty: [u8; 32] = read_array_at(bytes, 84);
        proof {
            lemma_array_of_view(parent_hash);
            lemma_array_of_view(beneficiary);
            lemma_array_of_view(state_root);
            lemma_array_of_view(difficulty);
        }
        Ok(
            Header {
                parent_hash: H256(parent_hash),
                beneficiary: Address(beneficiary),
                state_root: H256(state_root),
                difficulty: U256(difficulty),
                number: read_u64_at(bytes, 116),
                gas_limit: read_u64_at(bytes, 124),
                gas_used: read_u64_at(bytes, 132),
                timestamp: read_u64_at(bytes, 140),
            },
        )
    }

    proof fn lemma_decode_encoded(v: Header) {
        let s = v.encoded();
        assert(s.subrange(0, 32) =~= v.parent_hash.0@);
        assert(s.subrange(32, 52) =~= v.beneficiary.0@);
        assert(s.subrange(52, 84) =~= v.state_root.0@);
        assert(s.subrange(84, 116) =~= v.difficulty.0@);
        assert(s.subrange(116, 124) =~= u64_be(v.number));
        assert(s.subrange(124, 132) =~= u64_be(v.gas_limit));
        assert(s.subrange(132, 140) =~= u64_be(v.gas_used));
        assert(s.subrange(140, 148) =~= u64_be(v.timestamp));
        lemma_array_of_view(v.parent_hash.0);
        lemma_array_of_view(v.beneficiary.0);
        lemma_array_of_view(v.state_root.0);
        lemma_array_of_view(v.difficulty.0);
        lemma_u64_from_be_of_be(v.number);
        lemma_u64_from_be_of_be(v.gas_limit);
        lemma_u64_from_be_of_be(v.gas_used);
        lemma_u64_from_be_of_be(v.timestamp);
    }
}

} // verus!

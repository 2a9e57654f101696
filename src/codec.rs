//! Byte codecs: how values become ordered byte strings and back.

use vstd::prelude::*;

verus! {

/// Lexicographic ("memcmp") order on byte strings, the order in which the
/// storage engine sorts keys and sorted duplicates.
pub open spec fn bytes_lt(a: Seq<u8>, b: Seq<u8>) -> bool
    decreases a.len(),
{
    if a.len() == 0 {
        b.len() > 0
    } else if b.len() == 0 {
        false
    } else if a[0] != b[0] {
        a[0] < b[0]
    } else {
        bytes_lt(a.drop_first(), b.drop_first())
    }
}

/// Error returned when a byte string is not the encoding of any value of the
/// requested type (wrong length or malformed layout).
#[derive(Debug, Clone, Copy, PartialEq, Eq)]
pub struct DecodeError;

/// A type whose values can be written as byte strings.
pub trait Encode: Sized {
    /// The bytes that stand for this value.
    spec fn encoded(&self) -> Seq<u8>;

    fn encode(&self) -> (r: Vec<u8>)
        ensures
            r@ == self.encoded(),
    ;
}

/// A type that can be read back from the bytes of its encoding.
pub trait Decode: Encode {
    /// The value that `bytes` stands for, if any.
    spec fn decoded(bytes: Seq<u8>) -> Option<Self>;

    fn decode(bytes: &[u8]) -> (r: Result<Self, DecodeError>)
        ensures
            match Self::decoded(bytes@) {
                Some(v) => r == Ok::<Self, DecodeError>(v),
                None => r == Err::<Self, DecodeError>(DecodeError),
            },
    ;

    /// Decoding an encoding gives the value back.
    proof fn lemma_decode_encoded(v: Self)
        ensures
            Self::decoded(v.encoded()) == Some(v),
    ;
}

/// A type usable as a table key: its encoding orders as its values do.
pub trait Key: Decode {
    /// The order of keys in the domain.
    spec fn key_lt(&self, other: &Self) -> bool;

    /// Smaller keys have byte-wise smaller encodings.
    proof fn lemma_encoding_ordered(a: Self, b: Self)
        requires
            a.key_lt(&b),
        ensures
            bytes_lt(a.encoded(), b.encoded()),
    ;
}

/// Law: for every supported type, decoding an encoded value gives it back.
pub proof fn lemma_round_trip<T: Decode>(v: T)
    ensures
        T::decoded(v.encoded()) == Some(v),
{
    T::lemma_decode_encoded(v);
}

/// Law: for every key type, `a < b` in the domain implies that `a`'s
/// encoding sorts before `b`'s.
pub proof fn lemma_key_order<K: Key>(a: K, b: K)
    requires
        a.key_lt(&b),
    ensures
        bytes_lt(a.encoded(), b.encoded()),
{
    K::lemma_encoding_ordered(a, b);
}

/// Comparing two concatenations whose first parts have equal length: the
/// first parts decide, and on a tie the second parts do.
pub proof fn lemma_bytes_lt_concat(a1: Seq<u8>, a2: Seq<u8>, b1: Seq<u8>, b2: Seq<u8>)
    requires
        a1.len() == b1.len(),
    ensures
        bytes_lt(a1 + a2, b1 + b2) == (bytes_lt(a1, b1) || (a1 == b1 && bytes_lt(a2, b2))),
    decreases a1.len(),
{
    if a1.len() == 0 {
        assert(a1 + a2 =~= a2);
        assert(b1 + b2 =~= b2);
        assert(a1 =~= b1);
    } else {
        assert((a1 + a2)[0] == a1[0]);
        assert((b1 + b2)[0] == b1[0]);
        assert((a1 + a2).drop_first() =~= a1.drop_first() + a2);
        assert((b1 + b2).drop_first() =~= b1.drop_first() + b2);
        lemma_bytes_lt_concat(a1.drop_first(), a2, b1.drop_first(), b2);
        if a1[0] == b1[0] {
            if a1.drop_first() == b1.drop_first() {
                assert(a1 =~= seq![a1[0]] + a1.drop_first());
                assert(b1 =~= seq![b1[0]] + b1.drop_first());
            }
            if a1 == b1 {
                assert(a1.drop_first() == b1.drop_first());
            }
        }
    }
}

/// Byte order is transitive.
pub proof fn lemma_bytes_lt_transitive(a: Seq<u8>, b: Seq<u8>, c: Seq<u8>)
    requires
        bytes_lt(a, b),
        bytes_lt(b, c),
    ensures
        bytes_lt(a, c),
    decreases a.len(),
{
    if a.len() > 0 && b.len() > 0 && c.len() > 0 && a[0] == b[0] && b[0] == c[0] {
        lemma_bytes_lt_transitive(a.drop_first(), b.drop_first(), c.drop_first());
    }
}

/// Byte order is strict: no byte string sorts before itself.
pub proof fn lemma_bytes_lt_irreflexive(a: Seq<u8>)
    ensures
        !bytes_lt(a, a),
    decreases a.len(),
{
    if a.len() > 0 {
        lemma_bytes_lt_irreflexive(a.drop_first());
    }
}

/// The eight big-endian bytes of `n`.
pub open spec fn u64_be(n: u64) -> Seq<u8> {
    seq![
        (n >> 56u64) as u8,
        (n >> 48u64) as u8,
        (n >> 40u64) as u8,
        (n >> 32u64) as u8,
        (n >> 24u64) as u8,
        (n >> 16u64) as u8,
        (n >> 8u64) as u8,
        n as u8,
    ]
}

/// The number whose big-endian bytes are the eight bytes of `s`.
pub open spec fn u64_from_be(s: Seq<u8>) -> u64
    recommends
        s.len() == 8,
{
    ((s[0] as u64) << 56u64) | ((s[1] as u64) << 48u64) | ((s[2] as u64) << 40u64) | ((
    s[3] as u64) << 32u64) | ((s[4] as u64) << 24u64) | ((s[5] as u64) << 16u64) | ((
    s[6] as u64) << 8u64) | (s[7] as u64)
}

pub proof fn lemma_u64_from_be_of_be(n: u64)
    ensures
        u64_from_be(u64_be(n)) == n,
{
    let s = u64_be(n);
    let (b0, b1, b2, b3, b4, b5, b6, b7) = (s[0], s[1], s[2], s[3], s[4], s[5], s[6], s[7]);
    assert(b0 == (n >> 56u64) as u8 && b1 == (n >> 48u64) as u8 && b2 == (n >> 40u64) as u8
        && b3 == (n >> 32u64) as u8 && b4 == (n >> 24u64) as u8 && b5 == (n >> 16u64) as u8
        && b6 == (n >> 8u64) as u8 && b7 == n as u8);
    assert(((b0 as u64) << 56u64) | ((b1 as u64) << 48u64) | ((b2 as u64) << 40u64) | ((
    b3 as u64) << 32u64) | ((b4 as u64) << 24u64) | ((b5 as u64) << 16u64) | ((b6 as u64)
        << 8u64) | (b7 as u64) == n) by (bit_vector)
        requires
            b0 == (n >> 56u64) as u8 && b1 == (n >> 48u64) as u8 && b2 == (n >> 40u64) as u8
                && b3 == (n >> 32u64) as u8 && b4 == (n >> 24u64) as u8 && b5 == (n
                >> 16u64) as u8 && b6 == (n >> 8u64) as u8 && b7 == n as u8,
    ;
}

pub proof fn lemma_u64_be_of_from_be(s: Seq<u8>)
    requires
        s.len() == 8,
    ensures
        u64_be(u64_from_be(s)) == s,
{
    let (b0, b1, b2, b3, b4, b5, b6, b7) = (s[0], s[1], s[2], s[3], s[4], s[5], s[6], s[7]);
    let n = u64_from_be(s);
    assert(n == ((b0 as u64) << 56u64) | ((b1 as u64) << 48u64) | ((b2 as u64) << 40u64) | ((
    b3 as u64) << 32u64) | ((b4 as u64) << 24u64) | ((b5 as u64) << 16u64) | ((b6 as u64)
        << 8u64) | (b7 as u64));
    assert(b0 == (n >> 56u64) as u8 && b1 == (n >> 48u64) as u8 && b2 == (n >> 40u64) as u8
        && b3 == (n >> 32u64) as u8 && b4 == (n >> 24u64) as u8 && b5 == (n >> 16u64) as u8
        && b6 == (n >> 8u64) as u8 && b7 == n as u8) by (bit_vector)
        requires
            n == ((b0 as u64) << 56u64) | ((b1 as u64) << 48u64) | ((b2 as u64) << 40u64) | ((
            b3 as u64) << 32u64) | ((b4 as u64) << 24u64) | ((b5 as u64) << 16u64) | ((
            b6 as u64) << 8u64) | (b7 as u64),
    ;
    assert(u64_be(n) =~= s);
}

/// Big-endian encoding orders as the numbers do.
pub proof fn lemma_u64_be_ordered(a: u64, b: u64)
    requires
        a < b,
    ensures
        bytes_lt(u64_be(a), u64_be(b)),
{
    let sa = u64_be(a);
    let sb = u64_be(b);
    let (x0, x1, x2, x3, x4, x5, x6, x7) = (sa[0], sa[1], sa[2], sa[3], sa[4], sa[5], sa[6], sa[7]);
    let (y0, y1, y2, y3, y4, y5, y6, y7) = (sb[0], sb[1], sb[2], sb[3], sb[4], sb[5], sb[6], sb[7]);
    lemma_u64_from_be_of_be(a);
    lemma_u64_from_be_of_be(b);
    assert(a == ((x0 as u64) << 56u64) | ((x1 as u64) << 48u64) | ((x2 as u64) << 40u64) | ((
    x3 as u64) << 32u64) | ((x4 as u64) << 24u64) | ((x5 as u64) << 16u64) | ((x6 as u64)
        << 8u64) | (x7 as u64));
    assert(b == ((y0 as u64) << 56u64) | ((y1 as u64) << 48u64) | ((y2 as u64) << 40u64) | ((
    y3 as u64) << 32u64) | ((y4 as u64) << 24u64) | ((y5 as u64) << 16u64) | ((y6 as u64)
        << 8u64) | (y7 as u64));
    assert(x0 < y0 || (x0 == y0 && x1 < y1) || (x0 == y0 && x1 == y1 && x2 < y2) || (x0 == y0
        && x1 == y1 && x2 == y2 && x3 < y3) || (x0 == y0 && x1 == y1 && x2 == y2 && x3 == y3 && x4
        < y4) || (x0 == y0 && x1 == y1 && x2 == y2 && x3 == y3 && x4 == y4 && x5 < y5) || (x0 == y0
        && x1 == y1 && x2 == y2 && x3 == y3 && x4 == y4 && x5 == y5 && x6 < y6) || (x0 == y0 && x1
        == y1 && x2 == y2 && x3 == y3 && x4 == y4 && x5 == y5 && x6 == y6 && x7 < y7))
        by (bit_vector)
        requires
            a < b,
            a == ((x0 as u64) << 56u64) | ((x1 as u64) << 48u64) | ((x2 as u64) << 40u64) | ((
            x3 as u64) << 32u64) | ((x4 as u64) << 24u64) | ((x5 as u64) << 16u64) | ((
            x6 as u64) << 8u64) | (x7 as u64),
            b == ((y0 as u64) << 56u64) | ((y1 as u64) << 48u64) | ((y2 as u64) << 40u64) | ((
            y3 as u64) << 32u64) | ((y4 as u64) << 24u64) | ((y5 as u64) << 16u64) | ((
            y6 as u64) << 8u64) | (y7 as u64),
    ;
    if x0 < y0 {
        lemma_bytes_lt_first_difference(sa, sb, 0);
    } else if x1 < y1 {
        lemma_bytes_lt_first_difference(sa, sb, 1);
    } else if x2 < y2 {
        lemma_bytes_lt_first_difference(sa, sb, 2);
    } else if x3 < y3 {
        lemma_bytes_lt_first_difference(sa, sb, 3);
    } else if x4 < y4 {
        lemma_bytes_lt_first_difference(sa, sb, 4);
    } else if x5 < y5 {
        lemma_bytes_lt_first_difference(sa, sb, 5);
    } else if x6 < y6 {
        lemma_bytes_lt_first_difference(sa, sb, 6);
    } else {
        lemma_bytes_lt_first_difference(sa, sb, 7);
    }
}

/// Two byte strings that agree before position `j` and differ there are
/// ordered by their bytes at `j`.
pub proof fn lemma_bytes_lt_first_difference(a: Seq<u8>, b: Seq<u8>, j: int)
    requires
        0 <= j < a.len(),
        j < b.len(),
        forall|i: int| 0 <= i < j ==> a[i] == b[i],
        a[j] < b[j],
    ensures
        bytes_lt(a, b),
    decreases j,
{
    if j > 0 {
        assert(a[0] == b[0]);
        lemma_bytes_lt_first_difference(a.drop_first(), b.drop_first(), j - 1);
    }
}

/// The array whose bytes are `s` (meaningful when `s.len() == N`).
pub open spec fn array_of<const N: usize>(s: Seq<u8>) -> [u8; N] {
    choose|a: [u8; N]| a@ == s
}

pub proof fn lemma_array_of_view<const N: usize>(a: [u8; N])
    ensures
        array_of::<N>(a@) == a,
{
    let c = array_of::<N>(a@);
    assert(c@ == a@);
    assert(c =~= a);
}

/// Writes `n` as eight big-endian bytes.
pub fn encode_u64(n: u64) -> (r: Vec<u8>)
    ensures
        r@ == u64_be(n),
{
    let mut r: Vec<u8> = Vec::with_capacity(8);
    r.push((n >> 56u64) as u8);
    r.push((n >> 48u64) as u8);
    r.push((n >> 40u64) as u8);
    r.push((n >> 32u64) as u8);
    r.push((n >> 24u64) as u8);
    r.push((n >> 16u64) as u8);
    r.push((n >> 8u64) as u8);
    r.push(n as u8);
    assert(r@ =~= u64_be(n));
    r
}

/// Reads the eight big-endian bytes at `off`.
pub fn read_u64_at(bytes: &[u8], off: usize) -> (r: u64)
    requires
        off + 8 <= bytes@.len(),
    ensures
        r == u64_from_be(bytes@.subrange(off as int, off + 8)),
{
    let s = Ghost(bytes@.subrange(off as int, off + 8));
    assert(s@[0] == bytes@[off as int] && s@[7] == bytes@[off + 7]);
    ((bytes[off] as u64) << 56u64) | ((bytes[off + 1] as u64) << 48u64) | ((bytes[off + 2] as u64)
        << 40u64) | ((bytes[off + 3] as u64) << 32u64) | ((bytes[off + 4] as u64) << 24u64) | ((
    bytes[off + 5] as u64) << 16u64) | ((bytes[off + 6] as u64) << 8u64) | (bytes[off + 7] as u64)
}

/// Copies the `N` bytes at `off` into an array.
pub fn read_array_at<const N: usize>(bytes: &[u8], off: usize) -> (r: [u8; N])
    requires
        off + N <= bytes@.len(),
    ensures
        r@ == bytes@.subrange(off as int, off + N),
{
    let mut r: [u8; N] = [0u8; N];
    let mut i: usize = 0;
    while i < N
        invariant
            i <= N,
            off + N <= bytes.len(),
            forall|j: int| 0 <= j < i ==> r@[j] == bytes@[off + j],
        decreases N - i,
    {
        r[i] = bytes[off + i];
        i = i + 1;
    }
    assert(r@ =~= bytes@.subrange(off as int, off + N));
    r
}

/// Appends the bytes of `b` to `out`.
pub fn append_bytes(out: &mut Vec<u8>, b: &[u8])
    ensures
        final(out)@ == old(out)@ + b@,
{
    let mut i: usize = 0;
    while i < b.len()
        invariant
            i <= b@.len(),
            out@ == old(out)@ + b@.subrange(0, i as int),
        decreases b@.len() - i,
    {
        out.push(b[i]);
        i = i + 1;
        assert(out@ =~= old(out)@ + b@.subrange(0, i as int));
    }
    assert(b@.subrange(0, b@.len() as int) =~= b@);
}

} // verus!
